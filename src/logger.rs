//! Decisions of the daemon's event loop: which connections get a task, which
//! names leave the registry, and what happens to each delivered event.
use vstd::prelude::*;
use crate::auth::{
    authorize, handshake_outcome, same_result, step, AuthError, ConnectionAction, ConnectionEvent, ConnectionState,
    HandshakeBody,
};
use crate::clients::ClientRegistry;
use crate::writer::{after_append_step, timestamp_in_range, LogEvent, LogStep, Writer};

verus! {

/// Capacity of the channel that carries events from producers to the writer.
pub const CHANNEL_SIZE: usize = 100;

/// One thing the event loop waited for.
pub enum LoopEvent {
    /// A connection was accepted; whether its peer's credentials were read.
    Connection { credentials_ok: bool },
    /// A client task ended, yielding the name it was registered under.
    ClientFinished { service_name: Option<String> },
    /// The delivery channel yielded an event, or nothing.
    Delivered { event: Option<LogEvent> },
    /// The process was asked to stop.
    Shutdown,
}

/// What the event loop does about it.
pub enum LoopAction {
    /// Start the connection's authorisation task.
    SpawnClient,
    /// Abandon the connection; other clients are not affected.
    DropConnection,
    /// A registered client left and its name was freed.
    ClientLeft { service_name: String },
    /// A client that never registered left.
    AnonymousLeft,
    /// Write the line of the event and perform the rotation, if any.
    Persist { step: LogStep },
    /// The event could not be formatted or numbered and is dropped.
    EventDropped,
    /// The channel yielded nothing; go on.
    ChannelEmpty,
    /// Leave the loop and remove the socket.
    Exit,
}

/// The daemon's state: its registry of producers and its writer.
pub struct Logger<H> {
    clients: ClientRegistry<H>,
    writer: Writer,
}

impl<H> Logger<H> {
    pub closed spec fn registry(&self) -> Map<Seq<char>, H> {
        self.clients@
    }

    pub closed spec fn log_writer(&self) -> Writer {
        self.writer
    }

    pub closed spec fn wf(&self) -> bool {
        self.clients.wf() && self.writer.wf()
    }

    /// A daemon with no producers, writing to `log_location`.
    pub fn new(log_location: String, num_bytes_rotate: u64, keep_num_files: u64) -> (r: Self)
        ensures
            r.wf(),
            r.registry() == Map::<Seq<char>, H>::empty(),
            r.log_writer().location() == log_location@,
            r.log_writer().rotation_state().count() == 0,
            r.log_writer().rotation_state().limit() == num_bytes_rotate,
            r.log_writer().retention().keep_count() == keep_num_files,
            r.log_writer().retention().rotations() == 0,
    {
        Logger { clients: ClientRegistry::new(), writer: Writer::new(log_location, num_bytes_rotate, keep_num_files) }
    }

    /// Whether a producer is registered under `name`.
    pub fn is_registered(&self, name: &String) -> (r: bool)
        requires
            self.wf(),
        ensures
            r == self.registry().contains_key(name@),
    {
        self.clients.contains(name)
    }

    /// Handles a connection's first request against the shared registry.
    pub fn authorize(&mut self, endpoint: String, body: HandshakeBody, writer: H) -> (r: Result<String, AuthError>)
        requires
            old(self).wf(),
        ensures
            final(self).wf(),
            final(self).log_writer() == old(self).log_writer(),
            final(self).registry() == handshake_outcome(old(self).registry(), endpoint@, body, writer).0,
            same_result(r, handshake_outcome(old(self).registry(), endpoint@, body, writer).1, endpoint@),
    {
        authorize(&mut self.clients, endpoint, body, writer)
    }

    /// Advances one connection's state machine against the shared registry.
    pub fn connection_step(&mut self, state: ConnectionState, event: ConnectionEvent<H>) -> (r: (
        ConnectionState,
        ConnectionAction,
    ))
        requires
            old(self).wf(),
        ensures
            final(self).wf(),
            final(self).log_writer() == old(self).log_writer(),
            match (state, event) {
                (ConnectionState::Authorizing, ConnectionEvent::Request { endpoint, body, writer }) => {
                    let (m, res) = handshake_outcome(old(self).registry(), endpoint@, body, writer);
                    &&& final(self).registry() == m
                    &&& res is Ok ==> (r.0 matches ConnectionState::Serving { service_name } && service_name@
                        == res->Ok_0)
                    &&& res is Ok ==> (r.1 matches ConnectionAction::Respond { result } && result is Ok)
                    &&& res is Err ==> r.0 is Terminated
                    &&& res is Err ==> (r.1 matches ConnectionAction::Respond { result } && result is Err)
                },
                (ConnectionState::Connecting, ConnectionEvent::Credentials { ok }) => {
                    &&& final(self).registry() == old(self).registry()
                    &&& ok ==> r.0 is Authorizing && r.1 is AwaitRequest
                    &&& !ok ==> r.0 is Terminated && r.1 is Abandon
                },
                (ConnectionState::Authorizing, ConnectionEvent::Disconnected) => {
                    &&& final(self).registry() == old(self).registry()
                    &&& r.0 is Terminated
                    &&& (r.1 matches ConnectionAction::Finish { service_name } && service_name is None)
                },
                (ConnectionState::Serving { service_name }, ConnectionEvent::Disconnected) => {
                    &&& final(self).registry() == old(self).registry()
                    &&& r.0 is Terminated
                    &&& (r.1 matches ConnectionAction::Finish { service_name: Some(n) } && n@ == service_name@)
                },
                (s, _) => {
                    &&& final(self).registry() == old(self).registry()
                    &&& r.0 == s
                    &&& r.1 is Ignore
                },
            },
    {
        step(&mut self.clients, state, event)
    }

    /// Decides what the loop does about `event`. Only a finished registered
    /// client changes the registry (its name is removed), and only a
    /// delivered event changes the writer.
    pub fn handle(&mut self, event: LoopEvent) -> (r: LoopAction)
        requires
            old(self).wf(),
        ensures
            final(self).wf(),
            match event {
                LoopEvent::Connection { credentials_ok } => {
                    &&& *final(self) == *old(self)
                    &&& credentials_ok ==> r is SpawnClient
                    &&& !credentials_ok ==> r is DropConnection
                },
                LoopEvent::ClientFinished { service_name: Some(n) } => {
                    &&& final(self).registry() == old(self).registry().remove(n@)
                    &&& final(self).log_writer() == old(self).log_writer()
                    &&& (r matches LoopAction::ClientLeft { service_name } && service_name@ == n@)
                },
                LoopEvent::ClientFinished { service_name: None } => {
                    &&& *final(self) == *old(self)
                    &&& r is AnonymousLeft
                },
                LoopEvent::Delivered { event: Some(e) } => {
                    &&& final(self).registry() == old(self).registry()
                    &&& old(self).log_writer().retention().rotations() == u64::MAX ==> r is EventDropped
                        && *final(self) == *old(self)
                    &&& old(self).log_writer().retention().rotations() < u64::MAX ==> after_append_step(
                        old(self).log_writer(),
                        final(self).log_writer(),
                        e,
                        match r {
                            LoopAction::Persist { step } => Some(step),
                            _ => None,
                        },
                    )
                    &&& (r is Persist || r is EventDropped)
                    &&& old(self).log_writer().retention().rotations() < u64::MAX && timestamp_in_range(
                        e.timestamp_ms,
                    ) ==> r is Persist
                },
                LoopEvent::Delivered { event: None } => {
                    &&& *final(self) == *old(self)
                    &&& r is ChannelEmpty
                },
                LoopEvent::Shutdown => {
                    &&& *final(self) == *old(self)
                    &&& r is Exit
                },
            },
    {
        match event {
            LoopEvent::Connection { credentials_ok } => {
                if credentials_ok {
                    LoopAction::SpawnClient
                } else {
                    LoopAction::DropConnection
                }
            },
            LoopEvent::ClientFinished { service_name: Some(n) } => {
                let _ = self.clients.remove(&n);
                LoopAction::ClientLeft { service_name: n }
            },
            LoopEvent::ClientFinished { service_name: None } => LoopAction::AnonymousLeft,
            LoopEvent::Delivered { event: Some(e) } => {
                if !self.writer.can_rotate() {
                    return LoopAction::EventDropped;
                }
                match self.writer.log_message(&e) {
                    Some(step) => LoopAction::Persist { step },
                    None => LoopAction::EventDropped,
                }
            },
            LoopEvent::Delivered { event: None } => LoopAction::ChannelEmpty,
            LoopEvent::Shutdown => LoopAction::Exit,
        }
    }
}

} // verus!
