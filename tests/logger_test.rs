use krossbar_log::auth::{client_name, step, AuthError, ConnectionAction, ConnectionEvent, ConnectionState, HandshakeBody};
use krossbar_log::clients::{ClientRegistry, RegistryError};
use krossbar_log::logger::{LoopAction, LoopEvent, Logger};

fn register(name: &str) -> HandshakeBody {
    HandshakeBody::Register { service_name: name.to_string() }
}

#[test]
fn registration_conflict_and_reuse_after_disconnect() {
    let mut logger: Logger<u32> = Logger::new("karo.log".to_string(), 1000, 3);
    let a = logger.authorize("register".to_string(), register("svc1"), 1);
    assert_eq!(a.unwrap(), "svc1");
    let b = logger.authorize("register".to_string(), register("svc1"), 2);
    assert!(matches!(b, Err(AuthError::AlreadyRegistered)));
    assert!(logger.is_registered(&"svc1".to_string()));
    match logger.handle(LoopEvent::ClientFinished { service_name: Some("svc1".to_string()) }) {
        LoopAction::ClientLeft { service_name } => assert_eq!(service_name, "svc1"),
        _ => panic!("expected the client to leave"),
    }
    assert!(!logger.is_registered(&"svc1".to_string()));
    let c = logger.authorize("register".to_string(), register("svc1"), 3);
    assert_eq!(c.unwrap(), "svc1");
}

#[test]
fn duplicate_registration_keeps_first_handle() {
    let mut registry: ClientRegistry<u32> = ClientRegistry::new();
    assert_eq!(registry.try_register("svc1".to_string(), 1), Ok(()));
    assert_eq!(registry.try_register("svc1".to_string(), 2), Err(RegistryError::AlreadyRegistered));
    assert_eq!(registry.try_register("svc2".to_string(), 3), Ok(()));
    assert_eq!(registry.len(), 2);
    assert_eq!(registry.remove(&"svc1".to_string()), Some(1));
    assert_eq!(registry.remove(&"svc1".to_string()), None);
    assert_eq!(registry.len(), 1);
}

#[test]
fn handshake_errors() {
    let mut logger: Logger<u32> = Logger::new("karo.log".to_string(), 1000, 3);
    match logger.authorize("connect".to_string(), register("svc1"), 1) {
        Err(AuthError::UnexpectedEndpoint { endpoint }) => assert_eq!(endpoint, "connect"),
        _ => panic!("expected an endpoint error"),
    }
    assert!(!logger.is_registered(&"svc1".to_string()));
    let other = HandshakeBody::OtherMessage { description: "Connect".to_string() };
    match logger.authorize("register".to_string(), other, 1) {
        Err(AuthError::InvalidMessage { description }) => assert_eq!(description, "Connect"),
        _ => panic!("expected an invalid message error"),
    }
    let bad = HandshakeBody::Malformed { error: "missing field".to_string() };
    match logger.authorize("register".to_string(), bad, 1) {
        Err(AuthError::Malformed { error }) => assert_eq!(error, "missing field"),
        _ => panic!("expected a decoding error"),
    }
    assert!(matches!(
        logger.authorize("register".to_string(), HandshakeBody::NotACall, 1),
        Err(AuthError::NotACall)
    ));
    assert!(!logger.is_registered(&"svc1".to_string()));
}

#[test]
fn connection_state_machine() {
    let mut registry: ClientRegistry<u32> = ClientRegistry::new();
    let (s, a) = step(&mut registry, ConnectionState::Connecting, ConnectionEvent::Credentials { ok: false });
    assert!(matches!(s, ConnectionState::Terminated));
    assert!(matches!(a, ConnectionAction::Abandon));

    let (s, a) = step(&mut registry, ConnectionState::Connecting, ConnectionEvent::Credentials { ok: true });
    assert!(matches!(s, ConnectionState::Authorizing));
    assert!(matches!(a, ConnectionAction::AwaitRequest));

    let request = ConnectionEvent::Request { endpoint: "register".to_string(), body: register("svc1"), writer: 7 };
    let (s, a) = step(&mut registry, s, request);
    assert!(matches!(a, ConnectionAction::Respond { result: Ok(()) }));
    match &s {
        ConnectionState::Serving { service_name } => assert_eq!(service_name, "svc1"),
        _ => panic!("expected to serve"),
    }
    assert!(registry.contains(&"svc1".to_string()));

    let (s2, a2) = step(&mut registry, s, ConnectionEvent::Disconnected);
    assert!(matches!(s2, ConnectionState::Terminated));
    match a2 {
        ConnectionAction::Finish { service_name } => assert_eq!(service_name, Some("svc1".to_string())),
        _ => panic!("expected the task to finish"),
    }

    let (s3, a3) = step(&mut registry, ConnectionState::Authorizing, ConnectionEvent::Disconnected);
    assert!(matches!(s3, ConnectionState::Terminated));
    assert!(matches!(a3, ConnectionAction::Finish { service_name: None }));

    let dup = ConnectionEvent::Request { endpoint: "register".to_string(), body: register("svc1"), writer: 8 };
    let (s4, a4) = step(&mut registry, ConnectionState::Authorizing, dup);
    assert!(matches!(s4, ConnectionState::Terminated));
    assert!(matches!(a4, ConnectionAction::Respond { result: Err(AuthError::AlreadyRegistered) }));
    assert_eq!(registry.remove(&"svc1".to_string()), Some(7));
}

#[test]
fn client_name_of_task_outcome() {
    assert_eq!(client_name(Ok("svc".to_string())), Some("svc".to_string()));
    assert_eq!(client_name(Err(())), None);
}

#[test]
fn loop_decisions() {
    let mut logger: Logger<u32> = Logger::new("karo.log".to_string(), 1000, 3);
    assert!(matches!(logger.handle(LoopEvent::Connection { credentials_ok: true }), LoopAction::SpawnClient));
    assert!(matches!(logger.handle(LoopEvent::Connection { credentials_ok: false }), LoopAction::DropConnection));
    assert!(matches!(logger.handle(LoopEvent::ClientFinished { service_name: None }), LoopAction::AnonymousLeft));
    assert!(matches!(logger.handle(LoopEvent::Delivered { event: None }), LoopAction::ChannelEmpty));
    assert!(matches!(logger.handle(LoopEvent::Shutdown), LoopAction::Exit));
}

#[test]
fn delivered_event_is_persisted() {
    let mut logger: Logger<u32> = Logger::new("karo.log".to_string(), 1000, 3);
    let event = krossbar_log::writer::LogEvent {
        service_name: "svc1".to_string(),
        pid: 7,
        timestamp_ms: 0,
        level: krossbar_log::writer::Level::Info,
        target: "t".to_string(),
        message: "m".to_string(),
    };
    match logger.handle(LoopEvent::Delivered { event: Some(event) }) {
        LoopAction::Persist { step } => {
            assert_eq!(step.line, "<01-01-1970 00:00:00.000> svc1#7 [INFO] t > m\n");
            assert!(step.rotation.is_none());
        }
        _ => panic!("expected the event to be persisted"),
    }
}

#[test]
fn many_attempts_one_winner() {
    let mut registry: ClientRegistry<u32> = ClientRegistry::new();
    let accepted = (0..5).filter(|h| registry.try_register("svc".to_string(), *h).is_ok()).count();
    assert_eq!(accepted, 1);
    assert_eq!(registry.remove(&"svc".to_string()), Some(0));
}
