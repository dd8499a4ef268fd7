use vstd::prelude::*;

use crate::util::string_tool::{ipc_ident, ipc_uri_to_ident, str_eq};

verus! {

/// A trading signal of the cloud: buy, sell, or none.
#[derive(PartialEq, Eq, Structural, Clone, Copy, Debug)]
pub enum Signal {
    Buy,
    Sell,
    Idle,
}

/// The word under which a signal is recorded.
pub open spec fn signal_label(s: Signal) -> Seq<char> {
    match s {
        Signal::Buy => "buy"@,
        Signal::Sell => "sell"@,
        Signal::Idle => "no"@,
    }
}

/// Why a cloud result could not be recorded.
#[derive(PartialEq, Eq, Structural, Clone, Copy, Debug)]
pub enum CloudError {
    /// The result has no conversion line.
    TenkanSenMissing,
    /// The result has no base line.
    KijunSenMissing,
    /// The result has no leading span A.
    SenkouSpanAMissing,
    /// The result has no leading span B.
    SenkouSpanBMissing,
    /// The result has no first signal.
    NoAction1,
    /// The result has no second signal.
    NoAction2,
}

/// The text that reports an error.
pub open spec fn cloud_error_text(e: CloudError) -> Seq<char> {
    match e {
        CloudError::TenkanSenMissing => "tenkan_sen is None"@,
        CloudError::KijunSenMissing => "kijun_sen is None"@,
        CloudError::SenkouSpanAMissing => "senkou_span_a is None"@,
        CloudError::SenkouSpanBMissing => "senkou_span_b is None"@,
        CloudError::NoAction1 => "no action 1"@,
        CloudError::NoAction2 => "no action 2"@,
    }
}

impl CloudError {
    /// The text that reports this error.
    pub fn message(&self) -> (r: String)
        ensures
            r@ == cloud_error_text(*self),
    {
        match self {
            CloudError::TenkanSenMissing => String::from_str("tenkan_sen is None"),
            CloudError::KijunSenMissing => String::from_str("kijun_sen is None"),
            CloudError::SenkouSpanAMissing => String::from_str("senkou_span_a is None"),
            CloudError::SenkouSpanBMissing => String::from_str("senkou_span_b is None"),
            CloudError::NoAction1 => String::from_str("no action 1"),
            CloudError::NoAction2 => String::from_str("no action 2"),
        }
    }
}

/// The two signal words of a recorded cloud result.
pub struct CloudSignals {
    pub s1_action: String,
    pub s2_action: String,
}

/// What a cloud result with `value_count` values and the signals `s1`, `s2`
/// gives: the four lines are taken in order (conversion line, base line,
/// leading span A, leading span B), then the two signals; the first one
/// missing is the error.
pub open spec fn cloud_outcome(value_count: nat, s1: Option<Signal>, s2: Option<Signal>) -> Result<
    (Seq<char>, Seq<char>),
    CloudError,
> {
    if value_count < 1 {
        Err(CloudError::TenkanSenMissing)
    } else if value_count < 2 {
        Err(CloudError::KijunSenMissing)
    } else if value_count < 3 {
        Err(CloudError::SenkouSpanAMissing)
    } else if value_count < 4 {
        Err(CloudError::SenkouSpanBMissing)
    } else {
        match (s1, s2) {
            (None, _) => Err(CloudError::NoAction1),
            (Some(_), None) => Err(CloudError::NoAction2),
            (Some(a), Some(b)) => Ok((signal_label(a), signal_label(b))),
        }
    }
}

/// Law: a cloud result with at least four values and both signals is
/// recorded, with the word of each signal in its place: a buy signal is
/// recorded as `buy`, a sell signal as `sell`, and no signal as `no`.
pub proof fn law_cloud_words(value_count: nat, s1: Signal, s2: Signal)
    requires
        value_count >= 4,
    ensures
        cloud_outcome(value_count, Some(s1), Some(s2)) matches Ok((w1, w2)) && (s1 == Signal::Buy
            ==> w1 == "buy"@) && (s1 == Signal::Sell ==> w1 == "sell"@) && (s1 == Signal::Idle
            ==> w1 == "no"@) && (s2 == Signal::Buy ==> w2 == "buy"@) && (s2 == Signal::Sell ==> w2
            == "sell"@) && (s2 == Signal::Idle ==> w2 == "no"@),
{
}

/// Law: the first missing part of a cloud result is the error, whatever the
/// rest: too few values name the first missing line; with all four lines, a
/// missing first signal comes before a missing second one.
pub proof fn law_cloud_missing(value_count: nat, s1: Option<Signal>, s2: Option<Signal>)
    ensures
        value_count == 0 ==> cloud_outcome(value_count, s1, s2) == Err::<(Seq<char>, Seq<char>), CloudError>(CloudError::TenkanSenMissing),
        value_count == 1 ==> cloud_outcome(value_count, s1, s2) == Err::<(Seq<char>, Seq<char>), CloudError>(CloudError::KijunSenMissing),
        value_count == 2 ==> cloud_outcome(value_count, s1, s2) == Err::<(Seq<char>, Seq<char>), CloudError>(CloudError::SenkouSpanAMissing),
        value_count == 3 ==> cloud_outcome(value_count, s1, s2) == Err::<(Seq<char>, Seq<char>), CloudError>(CloudError::SenkouSpanBMissing),
        value_count >= 4 && s1 is None ==> cloud_outcome(value_count, s1, s2) == Err::<(Seq<char>, Seq<char>), CloudError>(CloudError::NoAction1),
        value_count >= 4 && s1 is Some && s2 is None ==> cloud_outcome(value_count, s1, s2) == Err::<(Seq<char>, Seq<char>), CloudError>(CloudError::NoAction2),
{
}

fn label(s: Signal) -> (r: String)
    ensures
        r@ == signal_label(s),
{
    match s {
        Signal::Buy => String::from_str("buy"),
        Signal::Sell => String::from_str("sell"),
        Signal::Idle => String::from_str("no"),
    }
}

/// Checks a cloud result (its number of values and its first two signals)
/// and gives the signal words to record.
pub fn cloud_signals(value_count: usize, s1: Option<Signal>, s2: Option<Signal>) -> (r: Result<
    CloudSignals,
    CloudError,
>)
    ensures
        match r {
            Ok(c) => cloud_outcome(value_count as nat, s1, s2) == Ok::<
                (Seq<char>, Seq<char>),
                CloudError,
            >((c.s1_action@, c.s2_action@)),
            Err(e) => cloud_outcome(value_count as nat, s1, s2) == Err::<
                (Seq<char>, Seq<char>),
                CloudError,
            >(e),
        },
{
    if value_count < 1 {
        return Err(CloudError::TenkanSenMissing);
    }
    if value_count < 2 {
        return Err(CloudError::KijunSenMissing);
    }
    if value_count < 3 {
        return Err(CloudError::SenkouSpanAMissing);
    }
    if value_count < 4 {
        return Err(CloudError::SenkouSpanBMissing);
    }
    match s1 {
        None => Err(CloudError::NoAction1),
        Some(a) => match s2 {
            None => Err(CloudError::NoAction2),
            Some(b) => Ok(CloudSignals { s1_action: label(a), s2_action: label(b) }),
        },
    }
}

/// The last position of `name` among the products of `e`.
pub open spec fn position_in<S>(e: Seq<(Seq<char>, S)>, name: Seq<char>) -> Option<int>
    decreases e.len(),
{
    if e.len() == 0 {
        None
    } else if e.last().0 == name {
        Some(e.len() - 1)
    } else {
        position_in(e.drop_last(), name)
    }
}

/// The state kept for `name` in `e`, if any.
pub open spec fn state_of<S>(e: Seq<(Seq<char>, S)>, name: Seq<char>) -> Option<S> {
    match position_in(e, name) {
        Some(i) => Some(e[i].1),
        None => None,
    }
}

/// `e` after `state` is stored for `name`: it replaces the state kept for
/// `name`, or is added after the others.
pub open spec fn after_put<S>(e: Seq<(Seq<char>, S)>, name: Seq<char>, state: S) -> Seq<
    (Seq<char>, S),
> {
    match position_in(e, name) {
        Some(i) => e.update(i, (name, state)),
        None => e.push((name, state)),
    }
}

/// `e` after the state of `name` is taken out of it.
pub open spec fn after_take<S>(e: Seq<(Seq<char>, S)>, name: Seq<char>) -> Seq<(Seq<char>, S)> {
    match position_in(e, name) {
        Some(i) => e.remove(i),
        None => e,
    }
}

/// No product occurs twice in `e`.
pub open spec fn distinct_products<S>(e: Seq<(Seq<char>, S)>) -> bool {
    forall|i: int, j: int| 0 <= i < j < e.len() ==> e[i].0 != e[j].0
}

proof fn lemma_position_in<S>(e: Seq<(Seq<char>, S)>, name: Seq<char>)
    ensures
        match position_in(e, name) {
            Some(i) => 0 <= i < e.len() && e[i].0 == name && forall|j: int|
                i < j < e.len() ==> e[j].0 != name,
            None => forall|j: int| 0 <= j < e.len() ==> e[j].0 != name,
        },
    decreases e.len(),
{
    if e.len() > 0 {
        let d = e.drop_last();
        lemma_position_in(d, name);
        assert(forall|j: int| 0 <= j < d.len() ==> d[j] == e[j]);
    }
}

proof fn lemma_position_unique<S>(e: Seq<(Seq<char>, S)>, name: Seq<char>, k: int)
    requires
        0 <= k < e.len(),
        e[k].0 == name,
        distinct_products(e),
    ensures
        position_in(e, name) == Some(k),
{
    lemma_position_in(e, name);
    match position_in(e, name) {
        Some(i) => {
            if i < k {
                assert(e[i].0 != e[k].0);
            }
        },
        None => {},
    }
}

proof fn lemma_position_same_names<S>(a: Seq<(Seq<char>, S)>, b: Seq<(Seq<char>, S)>, name: Seq<char>)
    requires
        a.len() == b.len(),
        forall|j: int| 0 <= j < a.len() ==> a[j].0 == b[j].0,
    ensures
        position_in(a, name) == position_in(b, name),
{
    lemma_position_in(a, name);
    lemma_position_in(b, name);
    match (position_in(a, name), position_in(b, name)) {
        (Some(i), Some(k)) => {
            if i < k {
                assert(a[k].0 == b[k].0);
            } else if k < i {
                assert(a[i].0 == b[i].0);
            }
        },
        (Some(i), None) => {
            assert(a[i].0 == b[i].0);
        },
        (None, Some(k)) => {
            assert(a[k].0 == b[k].0);
        },
        (None, None) => {},
    }
}

proof fn lemma_distinct_remove<S>(e: Seq<(Seq<char>, S)>, i: int)
    requires
        distinct_products(e),
        0 <= i < e.len(),
    ensures
        distinct_products(e.remove(i)),
        forall|j: int| 0 <= j < e.len() && j != i ==> e[j].0 != e[i].0,
{
    let r = e.remove(i);
    assert forall|a: int, b: int| 0 <= a < b < r.len() implies r[a].0 != r[b].0 by {
        let a0 = if a < i { a } else { a + 1 };
        let b0 = if b < i { b } else { b + 1 };
        assert(r[a] == e[a0]);
        assert(r[b] == e[b0]);
    }
    assert forall|j: int| 0 <= j < e.len() && j != i implies e[j].0 != e[i].0 by {
        if j < i {
            assert(e[j].0 != e[i].0);
        } else {
            assert(e[i].0 != e[j].0);
        }
    }
}

/// Law: once a state is stored for a product, it is the state kept for that
/// product.
pub proof fn law_put_then_state<S>(e: Seq<(Seq<char>, S)>, name: Seq<char>, state: S)
    ensures
        state_of(after_put(e, name, state), name) == Some(state),
{
    lemma_position_in(e, name);
    match position_in(e, name) {
        Some(i) => {
            let u = e.update(i, (name, state));
            lemma_position_same_names(u, e, name);
        },
        None => {
            assert(e.push((name, state)).drop_last() =~= e);
        },
    }
}

/// Law: storing a state for one product leaves the state of every other
/// product as it was.
pub proof fn law_put_keeps_others<S>(
    e: Seq<(Seq<char>, S)>,
    name: Seq<char>,
    state: S,
    other: Seq<char>,
)
    requires
        other != name,
    ensures
        state_of(after_put(e, name, state), other) == state_of(e, other),
{
    lemma_position_in(e, name);
    lemma_position_in(e, other);
    match position_in(e, name) {
        Some(i) => {
            let u = e.update(i, (name, state));
            lemma_position_same_names(u, e, other);
        },
        None => {
            assert(e.push((name, state)).drop_last() =~= e);
        },
    }
}

/// Law: in a table where no product occurs twice, taking the state of a
/// product leaves none for it, and leaves the state of every other product
/// as it was.
pub proof fn law_take<S>(e: Seq<(Seq<char>, S)>, name: Seq<char>, other: Seq<char>)
    requires
        distinct_products(e),
        other != name,
    ensures
        state_of(after_take(e, name), name) is None,
        state_of(after_take(e, name), other) == state_of(e, other),
        distinct_products(after_take(e, name)),
{
    lemma_position_in(e, name);
    lemma_position_in(e, other);
    match position_in(e, name) {
        Some(i) => {
            let r = e.remove(i);
            lemma_distinct_remove(e, i);
            lemma_position_in(r, name);
            lemma_position_in(r, other);
            match position_in(r, name) {
                Some(k) => {
                    let k0 = if k < i { k } else { k + 1 };
                    assert(r[k] == e[k0]);
                },
                None => {},
            }
            match position_in(e, other) {
                Some(k) => {
                    let k1 = if k < i { k } else { k - 1 };
                    assert(r[k1] == e[k]);
                    lemma_position_unique(r, other, k1);
                },
                None => {
                    match position_in(r, other) {
                        Some(k) => {
                            let k0 = if k < i { k } else { k + 1 };
                            assert(r[k] == e[k0]);
                        },
                        None => {},
                    }
                },
            }
        },
        None => {},
    }
}

/// The products of `v` by their text, with their states.
pub open spec fn entries_view<S>(v: Seq<(String, S)>) -> Seq<(Seq<char>, S)> {
    v.map_values(|e: (String, S)| (e.0@, e.1))
}

/// The state kept by a signal for each product that it has seen.
pub struct ProductStates<S> {
    entries: Vec<(String, S)>,
}

impl<S> ProductStates<S> {
    /// The products with their states, in the order in which they are kept.
    pub closed spec fn view(&self) -> Seq<(Seq<char>, S)> {
        entries_view(self.entries@)
    }

    #[verifier::type_invariant]
    closed spec fn wf(&self) -> bool {
        distinct_products(self.view())
    }

    /// An empty table.
    pub fn new() -> (r: Self)
        ensures
            r.view() == Seq::<(Seq<char>, S)>::empty(),
            distinct_products(r.view()),
    {
        let r = ProductStates { entries: Vec::new() };
        assert(r.view() =~= Seq::<(Seq<char>, S)>::empty());
        r
    }

    /// The number of products that have a state.
    pub fn len(&self) -> (r: usize)
        ensures
            r == self.view().len(),
    {
        self.entries.len()
    }

    fn find(&self, name: &str) -> (r: Option<usize>)
        ensures
            r matches Some(i) ==> position_in(self.view(), name@) == Some(i as int),
            r is None ==> position_in(self.view(), name@) is None,
    {
        let mut k: usize = self.entries.len();
        proof {
            lemma_position_in(self.view(), name@);
            assert(self.view().subrange(0, k as int) =~= self.view());
        }
        while k > 0
            invariant
                k <= self.entries.len(),
                position_in(self.view(), name@) == position_in(self.view().subrange(0, k as int), name@),
            decreases k,
        {
            let ghost pre = self.view().subrange(0, k as int);
            if str_eq(self.entries[k - 1].0.as_str(), name) {
                return Some(k - 1);
            }
            assert(pre.drop_last() =~= self.view().subrange(0, k - 1));
            k = k - 1;
        }
        None
    }

    /// Whether `name` has a state.
    pub fn contains(&self, name: &str) -> (r: bool)
        ensures
            r == (state_of(self.view(), name@) is Some),
    {
        self.find(name).is_some()
    }

    /// Stores `state` for `name`, in place of the state kept for it, if any.
    pub fn put(&mut self, name: String, state: S)
        ensures
            final(self).view() == after_put(old(self).view(), name@, state),
            distinct_products(final(self).view()),
    {
        proof {
            use_type_invariant(&*self);
            lemma_position_in(self.view(), name@);
        }
        let ghost e = self.view();
        match self.find(name.as_str()) {
            Some(i) => {
                let ghost n = name@;
                let mut entries: Vec<(String, S)> = Vec::new();
                std::mem::swap(&mut entries, &mut self.entries);
                entries.set(i, (name, state));
                proof {
                    assert(entries_view(entries@) =~= e.update(i as int, (n, state)));
                    lemma_position_in(e, n);
                }
                self.entries = entries;
                proof { use_type_invariant(&*self); }
            },
            None => {
                let ghost n = name@;
                let mut entries: Vec<(String, S)> = Vec::new();
                std::mem::swap(&mut entries, &mut self.entries);
                entries.push((name, state));
                proof {
                    assert(entries_view(entries@) =~= e.push((n, state)));
                }
                self.entries = entries;
                proof { use_type_invariant(&*self); }
            },
        }
    }

    /// Takes the state kept for `name` out of the table.
    pub fn take(&mut self, name: &str) -> (r: Option<S>)
        ensures
            r == state_of(old(self).view(), name@),
            final(self).view() == after_take(old(self).view(), name@),
            distinct_products(final(self).view()),
    {
        proof {
            use_type_invariant(&*self);
            lemma_position_in(self.view(), name@);
        }
        let ghost e = self.view();
        match self.find(name) {
            Some(i) => {
                let ghost ent = self.entries@[i as int];
                assert(e[i as int] == (ent.0@, ent.1));
                let mut entries: Vec<(String, S)> = Vec::new();
                std::mem::swap(&mut entries, &mut self.entries);
                let entry = entries.remove(i);
                proof {
                    assert(entries_view(entries@) =~= e.remove(i as int));
                }
                self.entries = entries;
                proof { use_type_invariant(&*self); }
                Some(entry.1)
            },
            None => None,
        }
    }
}

/// The product that a publisher socket path names, as the key of its state.
pub fn product_of(ipc: &str) -> (r: String)
    ensures
        r@ == ipc_ident(ipc@),
{
    ipc_uri_to_ident(ipc).to_owned()
}

/// What the cloud gives for one candle: its values (conversion line, base
/// line, leading span A, leading span B, ...) and its first two signals.
pub struct CloudReading<V> {
    pub values: Vec<V>,
    pub s1: Option<Signal>,
    pub s2: Option<Signal>,
}

/// What one candle of a product comes to.
pub enum MonitorOutcome<V> {
    /// The product was new: its state was started, and nothing is recorded.
    Started,
    /// The product was new and its state could not be started.
    InitFailed,
    /// A result to record: the cloud's values and the signal words.
    Recorded(Vec<V>, CloudSignals),
    /// The cloud's result could not be recorded.
    Rejected(CloudError),
}

/// What a cloud reading comes to.
pub open spec fn reading_outcome<V>(reading: CloudReading<V>, r: MonitorOutcome<V>) -> bool {
    match cloud_outcome(reading.values@.len(), reading.s1, reading.s2) {
        Ok((a, b)) => r matches MonitorOutcome::Recorded(values, sig) && values@ == reading.values@
            && sig.s1_action@ == a && sig.s2_action@ == b,
        Err(e) => r == MonitorOutcome::<V>::Rejected(e),
    }
}

/// Handles one candle of the publisher `ipc`: a product seen for the first
/// time gets its state from `init` and records nothing; a known product's
/// state is advanced by `next`, and its reading is checked and recorded.
pub fn monitor_step<S, C, V, I, N>(
    states: &mut ProductStates<S>,
    ipc: &str,
    candle: &C,
    init: I,
    next: N,
) -> (r: MonitorOutcome<V>) where I: Fn(&C) -> Option<S>, N: Fn(S, &C) -> (S, CloudReading<V>)
    requires
        init.requires((candle,)),
        forall|st: S| next.requires((st, candle)),
    ensures
        ({
            let product = ipc_ident(ipc@);
            match state_of(old(states).view(), product) {
                None => exists|o: Option<S>| #[trigger]
                    init.ensures((candle,), o) && match o {
                        Some(st) => r == MonitorOutcome::<V>::Started && final(states).view()
                            == after_put(old(states).view(), product, st),
                        None => r == MonitorOutcome::<V>::InitFailed && final(states).view()
                            == old(states).view(),
                    },
                Some(st) => exists|st2: S, reading: CloudReading<V>| #[trigger]
                    next.ensures((st, candle), (st2, reading)) && final(states).view()
                        == after_put(after_take(old(states).view(), product), product, st2)
                        && reading_outcome(reading, r),
            }
        }),
{
    let product = product_of(ipc);
    match states.take(product.as_str()) {
        Some(st) => {
            let (st2, reading) = next(st, candle);
            states.put(product, st2);
            match cloud_signals(reading.values.len(), reading.s1, reading.s2) {
                Ok(sig) => MonitorOutcome::Recorded(reading.values, sig),
                Err(e) => MonitorOutcome::Rejected(e),
            }
        },
        None => match init(candle) {
            Some(st) => {
                states.put(product, st);
                MonitorOutcome::Started
            },
            None => MonitorOutcome::InitFailed,
        },
    }
}

/// A cloud result as text: each number already written out, the two signal
/// words, and the timestamp.
pub struct CloudFields {
    pub open: String,
    pub high: String,
    pub low: String,
    pub close: String,
    pub volume: String,
    pub tenkan_sen: String,
    pub kijun_sen: String,
    pub senkou_span_a: String,
    pub senkou_span_b: String,
    pub s1_action: String,
    pub s2_action: String,
    pub timestamp: String,
}

/// The data part of a cloud record: an empty symbol, a space, the field set
/// `open=..,high=..,low=..,close=..,volume=..,tenkan_sen=..,kijun_sen=..,
/// senkou_span_a=..,senkou_span_b=..,s1="..",s2=".."`, a space, and the
/// timestamp followed by `00000`.
pub open spec fn cloud_line(f: CloudFields) -> Seq<char> {
    " open="@ + f.open@ + ",high="@ + f.high@ + ",low="@ + f.low@ + ",close="@ + f.close@
        + ",volume="@ + f.volume@ + ",tenkan_sen="@ + f.tenkan_sen@ + ",kijun_sen="@
        + f.kijun_sen@ + ",senkou_span_a="@ + f.senkou_span_a@ + ",senkou_span_b="@
        + f.senkou_span_b@ + ",s1=\""@ + f.s1_action@ + "\",s2=\""@ + f.s2_action@ + "\" "@
        + f.timestamp@ + "00000"@
}

/// Writes the data part of a cloud record.
pub fn cloud_fields_line(f: &CloudFields) -> (r: String)
    ensures
        r@ == cloud_line(*f),
{
    let mut r = String::new();
    r.append(" open=");
    r.append(f.open.as_str());
    r.append(",high=");
    r.append(f.high.as_str());
    r.append(",low=");
    r.append(f.low.as_str());
    r.append(",close=");
    r.append(f.close.as_str());
    r.append(",volume=");
    r.append(f.volume.as_str());
    r.append(",tenkan_sen=");
    r.append(f.tenkan_sen.as_str());
    r.append(",kijun_sen=");
    r.append(f.kijun_sen.as_str());
    r.append(",senkou_span_a=");
    r.append(f.senkou_span_a.as_str());
    r.append(",senkou_span_b=");
    r.append(f.senkou_span_b.as_str());
    r.append(",s1=\"");
    r.append(f.s1_action.as_str());
    r.append("\",s2=\"");
    r.append(f.s2_action.as_str());
    r.append("\" ");
    r.append(f.timestamp.as_str());
    r.append("00000");
    assert(r@ =~= cloud_line(*f));
    r
}

} // verus!
