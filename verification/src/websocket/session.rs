use vstd::prelude::*;

use crate::util::string_tool::str_eq;
use crate::websocket::relay::SocketAction;

verus! {

/// What a client asks for in a data-file query.
pub struct Params {
    pub exchange: String,
    pub market_type: String,
    pub msg_type: String,
    pub symbols: String,
    pub period: Option<String>,
    pub date: String,
    pub day: Option<i64>,
}

/// The name of the data file that a query asks for:
/// `<exchange>_<market type>_<message type>_<symbols>`, followed by
/// `_<period>` where the query gives a period that is not empty.
pub open spec fn file_name_of(p: Params) -> Seq<char> {
    let base = p.exchange@ + "_"@ + p.market_type@ + "_"@ + p.msg_type@ + "_"@ + p.symbols@;
    match p.period {
        Some(period) => if period@.len() == 0 {
            base
        } else {
            base + "_"@ + period@
        },
        None => base,
    }
}

/// Law: the file name depends on the exchange, market type, message type,
/// symbols and period alone: two queries that agree on these get the same
/// name, whatever their date and day.
pub proof fn law_file_name_ignores_date(p: Params, q: Params)
    requires
        p.exchange@ == q.exchange@,
        p.market_type@ == q.market_type@,
        p.msg_type@ == q.msg_type@,
        p.symbols@ == q.symbols@,
        match (p.period, q.period) {
            (Some(x), Some(y)) => x@ == y@,
            (None, None) => true,
            _ => false,
        },
    ensures
        file_name_of(p) == file_name_of(q),
{
}

/// Law: the file name begins with the exchange followed by `_`, and ends with
/// `_` and the period where the query gives a period that is not empty, and
/// with the symbols otherwise.
pub proof fn law_file_name_shape(p: Params)
    ensures
        ({
            let n = file_name_of(p);
            let e = p.exchange@;
            &&& n.len() > e.len()
            &&& n.subrange(0, e.len() as int) == e
            &&& n[e.len() as int] == '_'
            &&& match p.period {
                Some(x) if x@.len() > 0 => n.len() > x@.len() && n.subrange(
                    n.len() - x@.len(),
                    n.len() as int,
                ) == x@ && n[n.len() - x@.len() - 1] == '_',
                _ => n.len() >= p.symbols@.len() && n.subrange(
                    n.len() - p.symbols@.len(),
                    n.len() as int,
                ) == p.symbols@,
            }
        }),
{
    reveal_strlit("_");
    let n = file_name_of(p);
    let e = p.exchange@;
    let base = e + "_"@ + p.market_type@ + "_"@ + p.msg_type@ + "_"@ + p.symbols@;
    assert(base.subrange(0, e.len() as int) =~= e);
    assert(base[e.len() as int] == '_');
    assert(base.subrange(base.len() - p.symbols@.len(), base.len() as int) =~= p.symbols@);
    match p.period {
        Some(x) => {
            if x@.len() > 0 {
                let m = base + "_"@ + x@;
                assert(m.subrange(0, e.len() as int) =~= e);
                assert(m[e.len() as int] == '_');
                assert(m.subrange(m.len() - x@.len(), m.len() as int) =~= x@);
                assert(m[m.len() - x@.len() - 1] == '_');
            }
        },
        None => {},
    }
}

/// The name of the data file that a query asks for.
#[allow(non_snake_case)]
pub fn fileNamePartData(params: &Params) -> (r: String)
    ensures
        r@ == file_name_of(*params),
{
    let mut r = String::new();
    r.append(params.exchange.as_str());
    r.append("_");
    r.append(params.market_type.as_str());
    r.append("_");
    r.append(params.msg_type.as_str());
    r.append("_");
    r.append(params.symbols.as_str());
    match &params.period {
        Some(period) => {
            if !period.as_str().is_empty() {
                r.append("_");
                r.append(period.as_str());
            }
        },
        None => {},
    }
    assert(r@ =~= file_name_of(*params));
    r
}

/// A request of a client: what it asks for, the JSON text of its parameters,
/// and an echo number where the request is a data-file query.
pub struct Action {
    pub action: String,
    pub params: String,
    pub echo: Option<i64>,
}

/// The kinds of request that a client sends.
#[derive(PartialEq, Eq, Structural, Clone, Copy, Debug)]
pub enum ClientRequest {
    /// A data-file query (the request has an echo number).
    FileQuery,
    /// The client wants the feed.
    Subscribe,
    /// The client no longer wants the feed.
    Unsubscribe,
    /// Anything else.
    Other,
}

/// The kind of a request with this action and echo number.
pub open spec fn request_kind(action: Seq<char>, echo: Option<i64>) -> ClientRequest {
    if echo is Some {
        ClientRequest::FileQuery
    } else if action == "subscribe"@ {
        ClientRequest::Subscribe
    } else if action == "unsubscribe"@ {
        ClientRequest::Unsubscribe
    } else {
        ClientRequest::Other
    }
}

/// Law: every request that carries an echo number is a data-file query,
/// whatever the echo number and the action.
pub proof fn law_echo_is_query(action: Seq<char>, echo: i64)
    ensures
        request_kind(action, Some(echo)) == ClientRequest::FileQuery,
{
}

/// Law: a request without an echo number subscribes on `subscribe`,
/// unsubscribes on `unsubscribe`, and asks for nothing otherwise.
pub proof fn law_no_echo(action: Seq<char>)
    ensures
        action == "subscribe"@ ==> request_kind(action, None) == ClientRequest::Subscribe,
        action == "unsubscribe"@ ==> request_kind(action, None) == ClientRequest::Unsubscribe,
        action != "subscribe"@ && action != "unsubscribe"@ ==> request_kind(action, None)
            == ClientRequest::Other,
{
    reveal_strlit("subscribe");
    reveal_strlit("unsubscribe");
    assert("subscribe"@.len() != "unsubscribe"@.len());
}

/// The kind of a request.
pub fn classify_request(action: &Action) -> (r: ClientRequest)
    ensures
        r == request_kind(action.action@, action.echo),
{
    if action.echo.is_some() {
        ClientRequest::FileQuery
    } else if str_eq(action.action.as_str(), "subscribe") {
        ClientRequest::Subscribe
    } else if str_eq(action.action.as_str(), "unsubscribe") {
        ClientRequest::Unsubscribe
    } else {
        ClientRequest::Other
    }
}

/// What the relay does for one request of a client.
pub struct Reply<T> {
    /// The change of the feed's clients to ask the feed for.
    pub feed: Option<SocketAction<T>>,
    /// The JSON text of the query's parameters, where the request is a
    /// data-file query.
    pub query: Option<String>,
    /// The text sent back to the client.
    pub text: String,
}

/// Handles a request of the client with id `client_id`, whose feed goes
/// through `tx`: a subscription adds the client to the feed, an
/// unsubscription removes it, a query hands on its parameters; every request
/// is answered with `hello world`.
pub fn handle_request<T>(action: &Action, client_id: usize, tx: T) -> (r: Reply<T>)
    ensures
        r.text@ == "hello world"@,
        match request_kind(action.action@, action.echo) {
            ClientRequest::FileQuery => r.feed is None && (r.query matches Some(q) && q@
                == action.params@),
            ClientRequest::Subscribe => r.feed == Some(SocketAction::Add(client_id, tx))
                && r.query is None,
            ClientRequest::Unsubscribe => r.feed == Some(SocketAction::<T>::Remove(client_id))
                && r.query is None,
            ClientRequest::Other => r.feed is None && r.query is None,
        },
{
    let text = String::from_str("hello world");
    match classify_request(action) {
        ClientRequest::FileQuery => Reply { feed: None, query: Some(action.params.clone()), text },
        ClientRequest::Subscribe => Reply {
            feed: Some(SocketAction::Add(client_id, tx)),
            query: None,
            text,
        },
        ClientRequest::Unsubscribe => Reply {
            feed: Some(SocketAction::Remove(client_id)),
            query: None,
            text,
        },
        ClientRequest::Other => Reply { feed: None, query: None, text },
    }
}

/// What a client's websocket hands over.
pub enum SocketEvent {
    Text(String),
    Binary,
    Ping,
    Pong,
    Close,
    /// Receiving failed.
    Failed,
}

/// What the relay does with an event of a client's websocket.
pub enum SessionStep {
    /// Handle this text as a request.
    Request(String),
    /// Write this note and go on.
    Note(String),
    /// Write this note and end the session.
    End(String),
}

/// Decides what the relay does with an event of a client's websocket: text is
/// a request; binary data, ping and pong are noted; a close or a failure ends
/// the session.
pub fn session_step(event: SocketEvent) -> (r: SessionStep)
    ensures
        match event {
            SocketEvent::Text(t) => r matches SessionStep::Request(s) && s@ == t@,
            SocketEvent::Binary => r matches SessionStep::Note(s) && s@ == "client sent binary data"@,
            SocketEvent::Ping => r matches SessionStep::Note(s) && s@ == "socket ping"@,
            SocketEvent::Pong => r matches SessionStep::Note(s) && s@ == "socket pong"@,
            SocketEvent::Close => r matches SessionStep::End(s) && s@ == "client disconnected"@,
            SocketEvent::Failed => r matches SessionStep::End(s) && s@ == "client disconnected"@,
        },
{
    match event {
        SocketEvent::Text(t) => SessionStep::Request(t),
        SocketEvent::Binary => SessionStep::Note(String::from_str("client sent binary data")),
        SocketEvent::Ping => SessionStep::Note(String::from_str("socket ping")),
        SocketEvent::Pong => SessionStep::Note(String::from_str("socket pong")),
        SocketEvent::Close => SessionStep::End(String::from_str("client disconnected")),
        SocketEvent::Failed => SessionStep::End(String::from_str("client disconnected")),
    }
}

} // verus!
