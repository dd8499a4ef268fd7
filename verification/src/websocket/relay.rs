use vstd::prelude::*;

use std::collections::HashMap;
use std::collections::hash_map::Values;
use vstd::std_specs::hash::*;
use vstd::std_specs::iter::IteratorSpec;
use vstd::utf8::{decode_utf8, valid_utf8};

verus! {

broadcast use {
    axiom_random_state_builds_valid_hashers,
    axiom_usize_obeys_hash_table_key_model,
    axiom_spec_values_iter,
    axiom_spec_keys_iter,
};

/// A change to the set of clients that receive the feed.
pub enum SocketAction<T> {
    /// The client with this id receives the feed through this sender.
    Add(usize, T),
    /// The client with this id no longer receives the feed.
    Remove(usize),
}

/// The set of clients that receive the feed after `action`, from `table`.
pub open spec fn after_action<T>(table: Map<usize, T>, action: SocketAction<T>) -> Map<usize, T> {
    match action {
        SocketAction::Add(id, tx) => table.insert(id, tx),
        SocketAction::Remove(id) => table.remove(id),
    }
}

/// Law: a client that is added receives the feed through its sender, and
/// the other clients keep theirs.
pub proof fn law_add<T>(table: Map<usize, T>, id: usize, tx: T, other: usize)
    requires
        other != id,
    ensures
        after_action(table, SocketAction::Add(id, tx)).contains_key(id),
        after_action(table, SocketAction::Add(id, tx))[id] == tx,
        after_action(table, SocketAction::Add(id, tx)).contains_key(other) == table.contains_key(other),
        table.contains_key(other) ==> after_action(table, SocketAction::Add(id, tx))[other] == table[other],
{
}

/// Law: removing a client that was just added leaves the table as if it had
/// never held that client; a client that was not there is removed as a no-op.
pub proof fn law_add_then_remove<T>(table: Map<usize, T>, id: usize, tx: T)
    ensures
        after_action(after_action(table, SocketAction::Add(id, tx)), SocketAction::Remove(id))
            == table.remove(id),
        !table.contains_key(id) ==> after_action(table, SocketAction::<T>::Remove(id)) == table,
{
    assert(table.insert(id, tx).remove(id) =~= table.remove(id));
    if !table.contains_key(id) {
        assert(table.remove(id) =~= table);
    }
}

/// The clients after the changes `actions`, carried out in order on `table`.
pub open spec fn apply_actions<T>(table: Map<usize, T>, actions: Seq<SocketAction<T>>) -> Map<
    usize,
    T,
>
    decreases actions.len(),
{
    if actions.len() == 0 {
        table
    } else {
        after_action(apply_actions(table, actions.drop_last()), actions.last())
    }
}

/// The client that a change is about.
pub open spec fn action_id<T>(action: SocketAction<T>) -> usize {
    match action {
        SocketAction::Add(id, _) => id,
        SocketAction::Remove(id) => id,
    }
}

/// The position of the last change in `actions` about the client `id`.
pub open spec fn last_action_for<T>(actions: Seq<SocketAction<T>>, id: usize) -> Option<int>
    decreases actions.len(),
{
    if actions.len() == 0 {
        None
    } else if action_id(actions.last()) == id {
        Some(actions.len() - 1)
    } else {
        last_action_for(actions.drop_last(), id)
    }
}

/// Law: after a series of changes, a client receives the feed exactly when
/// the last change about it added it, and then through the sender of that
/// change; a client that no change is about is as it was.
pub proof fn law_actions_fold<T>(table: Map<usize, T>, actions: Seq<SocketAction<T>>, id: usize)
    ensures
        ({
            let r = apply_actions(table, actions);
            match last_action_for(actions, id) {
                Some(k) => 0 <= k < actions.len() && match actions[k] {
                    SocketAction::Add(_, tx) => r.contains_key(id) && r[id] == tx,
                    SocketAction::Remove(_) => !r.contains_key(id),
                },
                None => r.contains_key(id) == table.contains_key(id) && (table.contains_key(id)
                    ==> r[id] == table[id]),
            }
        }),
    decreases actions.len(),
{
    if actions.len() > 0 {
        let d = actions.drop_last();
        law_actions_fold(table, d, id);
        if action_id(actions.last()) != id {
            match last_action_for(d, id) {
                Some(k) => {
                    assert(actions[k] == d[k]);
                },
                None => {},
            }
        }
    }
}

/// Law: a list of client ids as `SubscriberTable::client_ids` gives it (no id
/// twice, and the ids of the table) names every client of the table exactly
/// once and no other id; a message sent along it reaches each client once.
pub proof fn law_each_client_once<T>(table: Map<usize, T>, ids: Seq<usize>, id: usize)
    requires
        ids.no_duplicates(),
        ids.to_set() == table.dom(),
    ensures
        ids.to_multiset().count(id) == (if table.contains_key(id) {
            1nat
        } else {
            0nat
        }),
{
    broadcast use vstd::seq_lib::group_to_multiset_ensures;

    ids.lemma_multiset_has_no_duplicates();
    assert(ids.to_set().contains(id) == ids.contains(id));
    if table.contains_key(id) {
        assert(ids.contains(id));
        assert(ids.to_multiset().contains(id));
    } else {
        assert(!ids.contains(id));
    }
}

/// The clients that receive the feed, each by its id with its sender.
pub struct SubscriberTable<T> {
    senders: HashMap<usize, T>,
}

impl<T> SubscriberTable<T> {
    /// The senders by client id.
    pub closed spec fn view(&self) -> Map<usize, T> {
        self.senders@
    }

    /// A table with no client.
    pub fn new() -> (r: Self)
        ensures
            r.view() == Map::<usize, T>::empty(),
    {
        SubscriberTable { senders: HashMap::new() }
    }

    /// Carries out a change of the clients.
    pub fn apply(&mut self, action: SocketAction<T>)
        ensures
            final(self).view() == after_action(old(self).view(), action),
    {
        match action {
            SocketAction::Add(id, tx) => {
                self.senders.insert(id, tx);
            },
            SocketAction::Remove(id) => {
                self.senders.remove(&id);
            },
        }
    }

    /// The number of clients.
    pub fn len(&self) -> (r: usize)
        ensures
            r == self.view().len(),
    {
        self.senders.len()
    }

    /// Whether the client with this id receives the feed.
    pub fn contains(&self, id: usize) -> (r: bool)
        ensures
            r == self.view().contains_key(id),
    {
        self.senders.contains_key(&id)
    }

    /// The ids of all clients, each once.
    pub fn client_ids(&self) -> (r: Vec<usize>)
        ensures
            r@.no_duplicates(),
            r@.to_set() == self.view().dom(),
            r@.len() == self.view().len(),
    {
        let mut ids: Vec<usize> = Vec::new();
        let ghost all = spec_keys_iter(&self.senders).remaining();
        for id in it: self.senders.keys()
            invariant
                it.seq() == all,
                ids@ == it.seq().take(it.index()).unref(),
            ensures
                ids@ == all.unref(),
        {
            ids.push(*id);
            proof {
                assert(ids@ =~= it.seq().take(it.index() + 1).unref());
            }
        }
        ids
    }

    /// The sender of the client `id`, if it receives the feed.
    pub fn get(&self, id: usize) -> (r: Option<&T>)
        ensures
            match r {
                Some(tx) => self.view().contains_key(id) && *tx == self.view()[id],
                None => !self.view().contains_key(id),
            },
    {
        self.senders.get(&id)
    }

    /// The senders of all clients, as many as there are clients; the same
    /// sender may stand for two clients.
    pub fn senders(&self) -> (r: Values<'_, usize, T>)
        ensures
            r.remaining().len() == self.view().len(),
            r.remaining().unref().to_set() == self.view().values(),
    {
        self.senders.values()
    }
}

/// What the feed's subscriber socket hands over.
pub enum FeedEvent {
    /// A message with these bytes.
    Payload(Vec<u8>),
    /// The socket reported an error.
    Failed,
    /// The socket has closed.
    Ended,
}

/// What the relay does with an event of its feed.
#[derive(PartialEq, Eq)]
pub enum FeedStep {
    /// Send this text to every client.
    Broadcast(String),
    /// Stop relaying.
    Stop,
}

/// Calls `String::from_utf8` and keeps the text; the contract claims that it
/// succeeds exactly on valid UTF-8 and then holds the decoded characters.
#[verifier::external_body]
fn text_from_utf8(bytes: Vec<u8>) -> (r: Option<String>)
    ensures
        match r {
            Some(s) => valid_utf8(bytes@) && s@ == decode_utf8(bytes@),
            None => !valid_utf8(bytes@),
        },
{
    String::from_utf8(bytes).ok()
}

/// Decides what the relay does with an event of its feed: a message, which
/// is UTF-8 text, is sent to all clients, and an error or the end of the
/// socket stops the relay.
pub fn feed_step(event: FeedEvent) -> (r: FeedStep)
    requires
        event matches FeedEvent::Payload(bytes) ==> valid_utf8(bytes@),
    ensures
        match event {
            FeedEvent::Payload(bytes) => r matches FeedStep::Broadcast(text) && text@ == decode_utf8(
                bytes@,
            ),
            _ => r matches FeedStep::Stop,
        },
{
    match event {
        FeedEvent::Payload(bytes) => match text_from_utf8(bytes) {
            Some(text) => FeedStep::Broadcast(text),
            None => {
                // A valid message always decodes.
                assert(false);
                FeedStep::Stop
            },
        },
        FeedEvent::Failed => FeedStep::Stop,
        FeedEvent::Ended => FeedStep::Stop,
    }
}

} // verus!
