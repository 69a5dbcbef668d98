//! The per-connection authorisation state machine:
//! Connecting, Authorizing, Serving, Terminated.
use vstd::prelude::*;
use crate::clients::{register_outcome, ClientRegistry};

verus! {

/// Name of the only operation accepted as a connection's first request.
pub const REGISTER_METHOD: &'static str = "register";

pub open spec fn register_method() -> Seq<char> {
    seq!['r', 'e', 'g', 'i', 's', 't', 'e', 'r']
}

/// The decoded body of a connection's first request.
pub enum HandshakeBody {
    /// A call carrying a registration message for `service_name`.
    Register { service_name: String },
    /// A call carrying another valid message, described for the reply.
    OtherMessage { description: String },
    /// A call whose payload did not decode; `error` says why.
    Malformed { error: String },
    /// Not a call at all.
    NotACall,
}

/// Why a handshake was refused. Each is answered to the producer before
/// its connection is closed.
#[derive(Debug)]
pub enum AuthError {
    /// The first request named another operation.
    UnexpectedEndpoint { endpoint: String },
    /// The first request was not a call.
    NotACall,
    /// The call held a valid message of the wrong kind.
    InvalidMessage { description: String },
    /// The call's payload could not be decoded.
    Malformed { error: String },
    /// Another producer holds the service name.
    AlreadyRegistered,
}

/// The outcome of the handshake on a registry `m`: the registry after it,
/// and the name registered or the error answered. The endpoint carried by
/// an unexpected-endpoint error is left open here; `same_result` ties it to
/// the request's endpoint.
pub open spec fn handshake_outcome<H>(
    m: Map<Seq<char>, H>,
    endpoint: Seq<char>,
    body: HandshakeBody,
    writer: H,
) -> (Map<Seq<char>, H>, Result<Seq<char>, AuthError>) {
    if endpoint != register_method() {
        (m, Err(AuthError::UnexpectedEndpoint { endpoint: arbitrary() }))
    } else {
        match body {
            HandshakeBody::Register { service_name } => {
                let (m2, ok) = register_outcome(m, service_name@, writer);
                if ok {
                    (m2, Ok(service_name@))
                } else {
                    (m2, Err(AuthError::AlreadyRegistered))
                }
            },
            HandshakeBody::OtherMessage { description } => (
                m,
                Err(AuthError::InvalidMessage { description }),
            ),
            HandshakeBody::Malformed { error } => (m, Err(AuthError::Malformed { error })),
            HandshakeBody::NotACall => (m, Err(AuthError::NotACall)),
        }
    }
}

/// Whether two handshake results agree: the same name, or the same kind of
/// error carrying the same text.
pub open spec fn same_result(a: Result<String, AuthError>, b: Result<Seq<char>, AuthError>, endpoint: Seq<char>) -> bool {
    match (a, b) {
        (Ok(n), Ok(m)) => n@ == m,
        (Err(AuthError::UnexpectedEndpoint { endpoint: e }), Err(AuthError::UnexpectedEndpoint { .. })) => e@ == endpoint,
        (Err(AuthError::NotACall), Err(AuthError::NotACall)) => true,
        (Err(AuthError::InvalidMessage { description: x }), Err(AuthError::InvalidMessage { description: y })) => x@ == y@,
        (Err(AuthError::Malformed { error: x }), Err(AuthError::Malformed { error: y })) => x@ == y@,
        (Err(AuthError::AlreadyRegistered), Err(AuthError::AlreadyRegistered)) => true,
        _ => false,
    }
}

/// Handles a connection's first request: only a `register` call with a
/// registration message for a free name is accepted, and the producer's
/// `writer` is then registered under that name. Every refusal leaves the
/// registry as it was.
pub fn authorize<H>(
    clients: &mut ClientRegistry<H>,
    endpoint: String,
    body: HandshakeBody,
    writer: H,
) -> (r: Result<String, AuthError>)
    requires
        old(clients).wf(),
    ensures
        final(clients).wf(),
        final(clients)@ == handshake_outcome(old(clients)@, endpoint@, body, writer).0,
        same_result(r, handshake_outcome(old(clients)@, endpoint@, body, writer).1, endpoint@),
{
    proof {
        reveal_strlit("register");
    }
    let expected = String::from_str(REGISTER_METHOD);
    assert(expected@ =~= register_method());
    if endpoint != expected {
        return Err(AuthError::UnexpectedEndpoint { endpoint });
    }
    match body {
        HandshakeBody::Register { service_name } => {
            let name = service_name.clone();
            match clients.try_register(service_name, writer) {
                Ok(()) => Ok(name),
                Err(_) => Err(AuthError::AlreadyRegistered),
            }
        },
        HandshakeBody::OtherMessage { description } => Err(AuthError::InvalidMessage { description }),
        HandshakeBody::Malformed { error } => Err(AuthError::Malformed { error }),
        HandshakeBody::NotACall => Err(AuthError::NotACall),
    }
}

/// Where a connection stands.
pub enum ConnectionState {
    /// Accepted; the peer's credentials are being read.
    Connecting,
    /// Waiting for the one registration request.
    Authorizing,
    /// Registered under `service_name`; requests are served elsewhere.
    Serving { service_name: String },
    /// Done; no further event changes anything.
    Terminated,
}

/// What happens to a connection.
pub enum ConnectionEvent<H> {
    /// The peer's credentials were read (`ok`) or could not be.
    Credentials { ok: bool },
    /// The first request arrived, with the producer's reply handle.
    Request { endpoint: String, body: HandshakeBody, writer: H },
    /// The peer closed the connection.
    Disconnected,
}

/// What the connection's task does next.
pub enum ConnectionAction {
    /// Wait for the registration request.
    AwaitRequest,
    /// Answer the request, flush, and go on in the new state.
    Respond { result: Result<(), AuthError> },
    /// Drop the connection without a task or an answer.
    Abandon,
    /// The task ends, yielding the name to evict, if it registered one.
    Finish { service_name: Option<String> },
    /// Nothing to do.
    Ignore,
}

/// Advances a connection by one event. The registry changes only when an
/// authorising connection registers a free name.
pub fn step<H>(
    clients: &mut ClientRegistry<H>,
    state: ConnectionState,
    event: ConnectionEvent<H>,
) -> (r: (ConnectionState, ConnectionAction))
    requires
        old(clients).wf(),
    ensures
        final(clients).wf(),
        match (state, event) {
            (ConnectionState::Connecting, ConnectionEvent::Credentials { ok }) => {
                &&& final(clients)@ == old(clients)@
                &&& ok ==> r.0 is Authorizing && r.1 is AwaitRequest
                &&& !ok ==> r.0 is Terminated && r.1 is Abandon
            },
            (ConnectionState::Authorizing, ConnectionEvent::Request { endpoint, body, writer }) => {
                let (m, res) = handshake_outcome(old(clients)@, endpoint@, body, writer);
                &&& final(clients)@ == m
                &&& res is Ok ==> (r.0 matches ConnectionState::Serving { service_name } && service_name@
                    == res->Ok_0)
                &&& res is Ok ==> (r.1 matches ConnectionAction::Respond { result } && result is Ok)
                &&& res is Err ==> r.0 is Terminated
                &&& res is Err ==> (r.1 matches ConnectionAction::Respond { result } && result is Err)
            },
            (ConnectionState::Authorizing, ConnectionEvent::Disconnected) => {
                &&& final(clients)@ == old(clients)@
                &&& r.0 is Terminated
                &&& (r.1 matches ConnectionAction::Finish { service_name } && service_name is None)
            },
            (ConnectionState::Serving { service_name }, ConnectionEvent::Disconnected) => {
                &&& final(clients)@ == old(clients)@
                &&& r.0 is Terminated
                &&& (r.1 matches ConnectionAction::Finish { service_name: Some(n) } && n@ == service_name@)
            },
            (s, _) => {
                &&& final(clients)@ == old(clients)@
                &&& r.0 == s
                &&& r.1 is Ignore
            },
        },
{
    match (state, event) {
        (ConnectionState::Connecting, ConnectionEvent::Credentials { ok }) => {
            if ok {
                (ConnectionState::Authorizing, ConnectionAction::AwaitRequest)
            } else {
                (ConnectionState::Terminated, ConnectionAction::Abandon)
            }
        },
        (ConnectionState::Authorizing, ConnectionEvent::Request { endpoint, body, writer }) => {
            match authorize(clients, endpoint, body, writer) {
                Ok(service_name) => (
                    ConnectionState::Serving { service_name },
                    ConnectionAction::Respond { result: Ok(()) },
                ),
                Err(e) => (ConnectionState::Terminated, ConnectionAction::Respond { result: Err(e) }),
            }
        },
        (ConnectionState::Authorizing, ConnectionEvent::Disconnected) => {
            (ConnectionState::Terminated, ConnectionAction::Finish { service_name: None })
        },
        (ConnectionState::Serving { service_name }, ConnectionEvent::Disconnected) => {
            (ConnectionState::Terminated, ConnectionAction::Finish { service_name: Some(service_name) })
        },
        (s, _) => (s, ConnectionAction::Ignore),
    }
}

/// The name a finished client task yields: its service name if it was
/// serving, nothing if it never registered.
pub fn client_name(status: Result<String, ()>) -> (r: Option<String>)
    ensures
        status matches Ok(n) ==> (r matches Some(m) && m == n),
        status is Err ==> r is None,
{
    match status {
        Ok(service_name) => Some(service_name),
        Err(_) => None,
    }
}

} // verus!
