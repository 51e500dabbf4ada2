use tokio::sync::broadcast;
use wasmbridge_server_proto::auth::AuthError;
use wasmbridge_server_proto::messages::{
    ClientMessage, CloudCommand, CommandResponse, Registration,
};
use wasmbridge_server_proto::registry::SendStep;
use wasmbridge_server_proto::session::{Refresh, Session, SessionStep};
use wasmbridge_server_proto::{Claims, ClientRegistry, ConnectionEvent};

fn claims(sub: &str) -> Claims {
    Claims { sub: sub.to_string(), exp: 1 }
}

fn register(id: &str) -> Option<ClientMessage> {
    Some(ClientMessage::Register(Registration {
        client_id: id.to_string(),
        version: "1.2".to_string(),
    }))
}

fn command(id: &str) -> CloudCommand {
    CloudCommand { command_id: id.to_string(), payload: Vec::new() }
}

fn registry() -> (ClientRegistry, broadcast::Receiver<ConnectionEvent>) {
    let (event_tx, events) = broadcast::channel(16);
    (ClientRegistry::new(event_tx), events)
}

#[test]
fn invalid_token_opens_no_session() {
    match Session::open(None) {
        Err(error) => assert_eq!(error, AuthError::InvalidToken),
        Ok(_) => panic!("no claims"),
    }
}

#[test]
fn session_starts_without_a_client() {
    let (session, mut rx) = Session::open(Some(claims("hw-1"))).ok().unwrap();
    assert_eq!(session.client_id(), None);
    assert_eq!(session.hardware_id(), "hw-1");
    assert_eq!(rx.max_capacity(), 100);
    assert!(rx.try_recv().is_err());
}

#[test]
fn own_id_is_registered_and_gets_what_waited() {
    let (mut registry, _events) = registry();
    let _ = registry.send_command("hw-1", command("c1"));
    let _ = registry.send_command("hw-1", command("c2"));
    let (mut session, mut rx) = Session::open(Some(claims("hw-1"))).ok().unwrap();
    match session.receive(&mut registry, register("hw-1")) {
        SessionStep::Registered { version, flushed } => {
            assert_eq!(version, "1.2");
            assert_eq!(flushed, 2);
        }
        _ => panic!("the id is the token's"),
    }
    assert_eq!(session.client_id(), Some("hw-1"));
    assert_eq!(registry.list_clients(), vec!["hw-1"]);
    assert_eq!(rx.try_recv().unwrap().unwrap(), command("c1"));
    assert_eq!(rx.try_recv().unwrap().unwrap(), command("c2"));
    match registry.send_command("hw-1", command("c3")) {
        SendStep::Deliver { sender, command } => sender.try_send(Ok(command)).unwrap(),
        SendStep::Queued => panic!("connected"),
    }
    assert_eq!(rx.try_recv().unwrap().unwrap(), command("c3"));
}

#[test]
fn foreign_id_is_refused() {
    let (mut registry, mut events) = registry();
    let (mut session, _rx) = Session::open(Some(claims("hw-1"))).ok().unwrap();
    match session.receive(&mut registry, register("hw-2")) {
        SessionStep::Refuse { claimed } => assert_eq!(claimed, "hw-2"),
        _ => panic!("the id is not the token's"),
    }
    assert_eq!(session.client_id(), None);
    assert!(registry.list_clients().is_empty());
    session.close(&mut registry);
    assert!(events.try_recv().is_err());
}

#[test]
fn ping_counts_as_activity() {
    let (mut registry, _events) = registry();
    let (mut session, _rx) = Session::open(Some(claims("hw-1"))).ok().unwrap();
    let _ = session.receive_at(&mut registry, register("hw-1"), 10);
    assert!(matches!(
        session.receive_at(&mut registry, Some(ClientMessage::Ping), 90),
        SessionStep::Idle
    ));
    assert!(registry.evict_stale_at(100, 50).is_empty());
    assert_eq!(registry.evict_stale_at(141, 50), vec!["hw-1"]);
}

#[test]
fn ping_before_registration_is_noted_under_no_id() {
    let (mut registry, mut events) = registry();
    let (mut session, _rx) = Session::open(Some(claims("hw-1"))).ok().unwrap();
    let _ = session.receive_at(&mut registry, Some(ClientMessage::Ping), 10);
    assert_eq!(registry.evict_stale_at(100, 50), vec![""]);
    assert!(events.try_recv().is_err());
}

#[test]
fn refresh_asks_for_validation() {
    let (mut registry, _events) = registry();
    let (mut session, _rx) = Session::open(Some(claims("hw-1"))).ok().unwrap();
    let message = ClientMessage::Refresh { new_jwt: "jwt".to_string() };
    match session.receive(&mut registry, Some(message)) {
        SessionStep::Validate { token } => assert_eq!(token, "jwt"),
        _ => panic!("a token is to be validated"),
    }
    assert_eq!(session.refresh(Some(claims("hw-1"))), Refresh::Accepted);
    assert_eq!(session.refresh(Some(claims("hw-2"))), Refresh::Mismatch);
    assert_eq!(session.refresh(None), Refresh::Invalid);
    assert_eq!(session.hardware_id(), "hw-1");
}

#[test]
fn response_goes_to_its_caller() {
    let (mut registry, _events) = registry();
    let (mut session, _rx) = Session::open(Some(claims("hw-1"))).ok().unwrap();
    let mut call = registry.send_command_await("hw-1", command("c1"));
    let response = CommandResponse { command_id: "c1".to_string(), payload: vec![5] };
    let step = session.receive(&mut registry, Some(ClientMessage::Response(response.clone())));
    assert!(matches!(step, SessionStep::Answered { taken: Some(true) }));
    assert_eq!(call.reply.try_recv().unwrap(), response);
    let step = session.receive(&mut registry, Some(ClientMessage::Response(response)));
    assert!(matches!(step, SessionStep::Answered { taken: None }));
}

#[test]
fn log_is_reported() {
    let (mut registry, _events) = registry();
    let (mut session, _rx) = Session::open(Some(claims("hw-1"))).ok().unwrap();
    let log = ClientMessage::Log { level: "warn".to_string(), message: "hot".to_string() };
    match session.receive(&mut registry, Some(log)) {
        SessionStep::Report { level, message } => {
            assert_eq!(level, "warn");
            assert_eq!(message, "hot");
        }
        _ => panic!("a log entry is to be shown"),
    }
}

#[test]
fn empty_message_changes_nothing() {
    let (mut registry, mut events) = registry();
    let (mut session, _rx) = Session::open(Some(claims("hw-1"))).ok().unwrap();
    assert!(matches!(session.receive(&mut registry, None), SessionStep::Idle));
    assert!(registry.list_clients().is_empty());
    assert!(events.try_recv().is_err());
}

#[test]
fn closing_drops_only_its_own_client() {
    let (mut registry, mut events) = registry();
    let (mut one, _rx1) = Session::open(Some(claims("hw-1"))).ok().unwrap();
    let (mut two, _rx2) = Session::open(Some(claims("hw-2"))).ok().unwrap();
    let _ = one.receive(&mut registry, register("hw-1"));
    let _ = two.receive(&mut registry, register("hw-2"));
    one.close(&mut registry);
    assert_eq!(registry.list_clients(), vec!["hw-2"]);
    let mut last = None;
    while let Ok(event) = events.try_recv() {
        last = Some(event);
    }
    assert!(matches!(last, Some(ConnectionEvent::Disconnected(id)) if id == "hw-1"));
}

#[test]
fn client_with_an_empty_id_stays_at_the_end() {
    let (mut registry, _events) = registry();
    let (mut session, _rx) = Session::open(Some(claims(""))).ok().unwrap();
    let _ = session.receive(&mut registry, register(""));
    assert_eq!(registry.list_clients(), vec![""]);
    assert_eq!(session.client_id(), Some(""));
    session.close(&mut registry);
    assert_eq!(registry.list_clients(), vec![""]);
}

#[test]
fn end_of_a_session_leaves_others_connected() {
    let (mut registry, _events) = registry();
    let (mut first, _rx1) = Session::open(Some(claims("hw-1"))).ok().unwrap();
    let (mut second, _rx2) = Session::open(Some(claims("hw-2"))).ok().unwrap();
    let _ = first.receive_at(&mut registry, register("hw-1"), 10);
    let _ = second.receive_at(&mut registry, register("hw-2"), 20);
    let _ = registry.send_command("away", command("c1"));
    first.close(&mut registry);
    assert_eq!(registry.list_clients(), vec!["hw-2"]);
    assert_eq!(registry.evict_stale_at(121, 100), vec!["hw-2"]);
    let (mut third, mut rx3) = Session::open(Some(claims("away"))).ok().unwrap();
    let _ = third.receive(&mut registry, register("away"));
    assert_eq!(rx3.try_recv().unwrap().unwrap().command_id, "c1");
}

#[test]
fn nothing_counts_after_a_refusal() {
    let (mut registry, mut events) = registry();
    let (mut session, mut rx) = Session::open(Some(claims("hw-1"))).ok().unwrap();
    let _ = session.receive_at(&mut registry, register("hw-1"), 10);
    assert!(matches!(
        session.receive_at(&mut registry, register("hw-2"), 20),
        SessionStep::Refuse { .. }
    ));
    let mut call = registry.send_command_await("away", command("c1"));
    let response = CommandResponse { command_id: "c1".to_string(), payload: Vec::new() };
    for message in [
        register("hw-1"),
        register("hw-2"),
        Some(ClientMessage::Ping),
        Some(ClientMessage::Refresh { new_jwt: "jwt".to_string() }),
        Some(ClientMessage::Response(response)),
        None,
    ] {
        let step = session.receive_at(&mut registry, message, 500);
        assert!(matches!(step, SessionStep::Ended));
    }
    assert!(call.reply.try_recv().is_err());
    assert!(rx.try_recv().is_err());
    // The ping did not count as a sign of life.
    assert_eq!(registry.evict_stale_at(111, 100), vec!["hw-1"]);
    let _ = session.close(&mut registry);
    let mut heard = Vec::new();
    while let Ok(event) = events.try_recv() {
        heard.push(format!("{:?}", event));
    }
    assert_eq!(heard, vec!["Connected(\"hw-1\")", "Disconnected(\"hw-1\")"]);
}

#[test]
fn refused_client_that_registered_before_is_dropped_at_the_end() {
    let (mut registry, _events) = registry();
    let (mut session, _rx) = Session::open(Some(claims("hw-1"))).ok().unwrap();
    let _ = session.receive(&mut registry, register("hw-1"));
    let _ = session.receive(&mut registry, register("hw-2"));
    assert_eq!(registry.list_clients(), vec!["hw-1"]);
    session.close(&mut registry);
    assert!(registry.list_clients().is_empty());
}

#[test]
fn stream_takes_the_first_hundred() {
    let (mut registry, _events) = registry();
    for i in 0..103 {
        let _ = registry.send_command("hw-1", command(&format!("c{}", i)));
    }
    let (mut session, mut rx) = Session::open(Some(claims("hw-1"))).ok().unwrap();
    let step = session.receive(&mut registry, register("hw-1"));
    assert!(matches!(step, SessionStep::Registered { flushed: 103, .. }));
    for i in 0..100 {
        assert_eq!(rx.try_recv().unwrap().unwrap(), command(&format!("c{}", i)));
    }
    assert!(rx.try_recv().is_err());
}
