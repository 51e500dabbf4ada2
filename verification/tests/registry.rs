use tokio::sync::{broadcast, mpsc, oneshot};
use wasmbridge_server_proto::channels::{CommandReceiver, CommandSender};
use wasmbridge_server_proto::messages::{CloudCommand, CommandResponse};
use wasmbridge_server_proto::registry::{send_outcome, ReplyOutcome, SendStep};
use wasmbridge_server_proto::{ClientRegistry, CloudHandle, ConnectionEvent};

fn command(id: &str) -> CloudCommand {
    CloudCommand { command_id: id.to_string(), payload: vec![1, 2, 3] }
}

fn response(id: &str) -> CommandResponse {
    CommandResponse { command_id: id.to_string(), payload: vec![7] }
}

fn stream(capacity: usize) -> (CommandSender, CommandReceiver) {
    mpsc::channel(capacity)
}

fn registry() -> (ClientRegistry, broadcast::Receiver<ConnectionEvent>) {
    let (event_tx, events) = broadcast::channel(16);
    (ClientRegistry::new(event_tx), events)
}

fn received(receiver: &mut CommandReceiver) -> Vec<String> {
    let mut ids = Vec::new();
    while let Ok(item) = receiver.try_recv() {
        ids.push(item.unwrap().command_id);
    }
    ids
}

fn heard(events: &mut broadcast::Receiver<ConnectionEvent>) -> Vec<String> {
    let mut all = Vec::new();
    while let Ok(event) = events.try_recv() {
        all.push(match event {
            ConnectionEvent::Connected(id) => format!("+{}", id),
            ConnectionEvent::Disconnected(id) => format!("-{}", id),
        });
    }
    all
}

fn clients(registry: &ClientRegistry) -> Vec<String> {
    let mut ids = registry.list_clients();
    ids.sort();
    ids
}

#[test]
fn new_registry_is_empty() {
    let (registry, mut events) = registry();
    assert!(registry.list_clients().is_empty());
    assert!(heard(&mut events).is_empty());
}

#[test]
fn registered_client_is_listed_and_announced() {
    let (mut registry, mut events) = registry();
    let (mut tx, _rx) = stream(4);
    registry.register("alpha".to_string(), &mut tx);
    registry.register("beta".to_string(), &mut tx);
    assert_eq!(clients(&registry), vec!["alpha", "beta"]);
    assert_eq!(heard(&mut events), vec!["+alpha", "+beta"]);
}

#[test]
fn command_for_connected_client_goes_to_its_stream() {
    let (mut registry, _events) = registry();
    let (mut tx, mut rx) = stream(4);
    registry.register("alpha".to_string(), &mut tx);
    match registry.send_command("alpha", command("c1")) {
        SendStep::Deliver { sender, command } => {
            assert!(sender.same_channel(&tx));
            sender.try_send(Ok(command)).unwrap();
        }
        SendStep::Queued => panic!("alpha is connected"),
    }
    let got = rx.try_recv().unwrap().unwrap();
    assert_eq!(got, command("c1"));
}

#[test]
fn last_registration_gets_the_commands() {
    let (mut registry, _events) = registry();
    let (mut first, _rx1) = stream(4);
    let (mut second, _rx2) = stream(4);
    registry.register("alpha".to_string(), &mut first);
    registry.register("alpha".to_string(), &mut second);
    match registry.send_command("alpha", command("c1")) {
        SendStep::Deliver { sender, .. } => {
            assert!(sender.same_channel(&second));
            assert!(!sender.same_channel(&first));
        }
        SendStep::Queued => panic!("alpha is connected"),
    }
    assert_eq!(clients(&registry), vec!["alpha"]);
}

#[test]
fn commands_wait_and_are_flushed_in_order() {
    let (mut registry, _events) = registry();
    for id in ["c1", "c2", "c3"] {
        assert!(matches!(registry.send_command("alpha", command(id)), SendStep::Queued));
    }
    assert!(matches!(registry.send_command("beta", command("d1")), SendStep::Queued));
    assert!(registry.list_clients().is_empty());
    let (mut tx, mut rx) = stream(8);
    assert_eq!(registry.register("alpha".to_string(), &mut tx), 3);
    assert_eq!(received(&mut rx), vec!["c1", "c2", "c3"]);
    // Nothing is left to be flushed a second time.
    assert_eq!(registry.register("alpha".to_string(), &mut tx), 0);
    assert!(received(&mut rx).is_empty());
    let (mut other, mut other_rx) = stream(8);
    registry.register("beta".to_string(), &mut other);
    assert_eq!(received(&mut other_rx), vec!["d1"]);
}

#[test]
fn flush_drops_what_the_stream_does_not_take() {
    let (mut registry, mut events) = registry();
    for id in ["c1", "c2", "c3"] {
        let _ = registry.send_command("alpha", command(id));
    }
    let (mut tx, mut rx) = stream(2);
    registry.register("alpha".to_string(), &mut tx);
    assert_eq!(received(&mut rx), vec!["c1", "c2"]);
    assert_eq!(heard(&mut events), vec!["+alpha"]);
}

#[test]
fn flush_into_a_closed_stream_still_registers() {
    let (mut registry, mut events) = registry();
    let _ = registry.send_command("alpha", command("c1"));
    let (mut tx, rx) = stream(2);
    drop(rx);
    registry.register("alpha".to_string(), &mut tx);
    assert_eq!(clients(&registry), vec!["alpha"]);
    assert_eq!(heard(&mut events), vec!["+alpha"]);
}

#[test]
fn flush_into_a_stream_that_others_filled_takes_what_has_room() {
    let (mut registry, _events) = registry();
    for id in ["c1", "c2", "c3", "c4"] {
        let _ = registry.send_command("alpha", command(id));
    }
    let (mut tx, mut rx) = stream(5);
    for id in ["x1", "x2", "x3"] {
        tx.clone().try_send(Ok(command(id))).unwrap();
    }
    assert_eq!(registry.register("alpha".to_string(), &mut tx), 4);
    assert_eq!(received(&mut rx), vec!["x1", "x2", "x3", "c1", "c2"]);
}

#[test]
fn room_that_was_drained_is_filled_again() {
    let (mut registry, _events) = registry();
    for id in ["c1", "c2", "c3"] {
        let _ = registry.send_command("alpha", command(id));
    }
    let (mut tx, mut rx) = stream(2);
    registry.register("alpha".to_string(), &mut tx);
    assert_eq!(rx.try_recv().unwrap().unwrap().command_id, "c1");
    registry.unregister("alpha");
    for id in ["c4", "c5"] {
        let _ = registry.send_command("alpha", command(id));
    }
    registry.register("alpha".to_string(), &mut tx);
    assert_eq!(received(&mut rx), vec!["c2", "c4"]);
}

#[test]
fn closed_stream_takes_nothing_of_a_flush() {
    let (mut registry, _events) = registry();
    for id in ["c1", "c2"] {
        let _ = registry.send_command("alpha", command(id));
    }
    let (mut tx, mut rx) = stream(4);
    tx.try_send(Ok(command("x1"))).unwrap();
    rx.close();
    assert_eq!(registry.register("alpha".to_string(), &mut tx), 2);
    assert_eq!(received(&mut rx), vec!["x1"]);
    // What the stream did not take waits no more.
    let (mut other, mut other_rx) = stream(4);
    assert_eq!(registry.register("alpha".to_string(), &mut other), 0);
    assert!(received(&mut other_rx).is_empty());
}

#[test]
fn fresh_handle_lists_nobody_and_tells_of_the_first_client() {
    let mut handle = CloudHandle::new();
    let mut early = handle.subscribe_events();
    assert!(handle.list_clients().is_empty());
    assert!(heard(&mut early).is_empty());
    let (mut tx, _rx) = stream(4);
    handle.registry.register("alpha".to_string(), &mut tx);
    let mut late = handle.subscribe_events();
    assert_eq!(handle.list_clients(), vec!["alpha"]);
    assert_eq!(heard(&mut early), vec!["+alpha"]);
    assert!(heard(&mut late).is_empty());
    handle.registry.unregister("alpha");
    assert_eq!(heard(&mut early), vec!["-alpha"]);
    assert_eq!(heard(&mut late), vec!["-alpha"]);
}

#[test]
fn unregister_announces_only_connected_clients() {
    let (mut registry, mut events) = registry();
    let (mut tx, _rx) = stream(4);
    registry.unregister("alpha");
    assert!(heard(&mut events).is_empty());
    registry.register("alpha".to_string(), &mut tx);
    registry.unregister("alpha");
    registry.unregister("alpha");
    assert_eq!(heard(&mut events), vec!["+alpha", "-alpha"]);
    assert!(registry.list_clients().is_empty());
}

#[test]
fn what_waits_survives_a_disconnect() {
    let (mut registry, _events) = registry();
    let (mut tx, mut rx) = stream(4);
    let _ = registry.send_command("alpha", command("c1"));
    registry.unregister("alpha");
    let _ = registry.send_command("alpha", command("c2"));
    registry.register("alpha".to_string(), &mut tx);
    assert_eq!(received(&mut rx), vec!["c1", "c2"]);
}

#[test]
fn eviction_drops_exactly_the_stale() {
    let (mut registry, mut events) = registry();
    let (mut tx, _rx) = stream(4);
    registry.register_at("old".to_string(), &mut tx, 100);
    registry.register_at("edge".to_string(), &mut tx, 200);
    registry.register_at("new".to_string(), &mut tx, 300);
    // A sign of life from nobody who is connected.
    registry.update_activity_at("", 50);
    assert_eq!(heard(&mut events), vec!["+old", "+edge", "+new"]);
    // 300 - 100 > 100, 300 - 200 is not.
    let mut evicted = registry.evict_stale_at(300, 100);
    evicted.sort();
    assert_eq!(evicted, vec!["", "old"]);
    assert_eq!(clients(&registry), vec!["edge", "new"]);
    assert_eq!(heard(&mut events), vec!["-old"]);
    assert!(registry.evict_stale_at(300, 100).is_empty());
}

#[test]
fn activity_saves_from_eviction() {
    let (mut registry, _events) = registry();
    let (mut tx, _rx) = stream(4);
    registry.register_at("alpha".to_string(), &mut tx, 100);
    registry.update_activity_at("alpha", 250);
    assert!(registry.evict_stale_at(300, 100).is_empty());
    assert_eq!(registry.evict_stale_at(351, 100), vec!["alpha"]);
}

#[test]
fn reading_from_the_future_is_not_stale() {
    let (mut registry, _events) = registry();
    let (mut tx, _rx) = stream(4);
    registry.register_at("alpha".to_string(), &mut tx, 500);
    assert!(registry.evict_stale_at(100, 0).is_empty());
}

#[test]
fn clocked_operations_use_the_present() {
    let (mut registry, _events) = registry();
    let (mut tx, _rx) = stream(4);
    registry.register("alpha".to_string(), &mut tx);
    registry.update_activity("beta");
    // Ten minutes have not passed since.
    assert!(registry.evict_stale_clients(600_000_000_000).is_empty());
    assert!(registry.evict_stale_at(600_000_000_000, 600_000_000_000).is_empty());
    let mut evicted = registry.evict_stale_at(u128::MAX, 600_000_000_000);
    evicted.sort();
    assert_eq!(evicted, vec!["alpha", "beta"]);
}

#[test]
fn subscriber_can_follow_the_clients() {
    let mut handle = CloudHandle::new();
    let (mut tx, _rx) = stream(4);
    handle.registry.register("early".to_string(), &mut tx);
    let mut events = handle.subscribe_events();
    let mut known: Vec<String> = handle.list_clients();
    handle.registry.register_at("alpha".to_string(), &mut tx, 0);
    handle.registry.register_at("beta".to_string(), &mut tx, 5);
    handle.registry.unregister("early");
    let _ = handle.registry.evict_stale_at(u128::MAX, u128::MAX - 1);
    while let Ok(event) = events.try_recv() {
        match event {
            ConnectionEvent::Connected(id) => known.push(id),
            ConnectionEvent::Disconnected(id) => known.retain(|other| *other != id),
        }
    }
    known.sort();
    let mut now = handle.list_clients();
    now.sort();
    assert_eq!(known, now);
    assert_eq!(now, vec!["beta"]);
}

#[test]
fn response_reaches_the_waiting_caller_once() {
    let mut handle = CloudHandle::new();
    let mut call = handle.send_command_await("alpha", command("c1"));
    assert_eq!(call.command_id, "c1");
    assert!(matches!(call.step, SendStep::Queued));
    assert_eq!(handle.registry.complete_command(response("c1")), Some(true));
    let got = call.reply.try_recv().unwrap();
    assert_eq!(got, response("c1"));
    assert_eq!(handle.registry.complete_command(response("c1")), None);
    let result = handle.registry.await_reply("c1", ReplyOutcome::Response(got));
    assert_eq!(result, Ok(response("c1")));
}

#[test]
fn response_for_a_caller_that_left_is_not_taken() {
    let mut handle = CloudHandle::new();
    let call = handle.send_command_await("alpha", command("c1"));
    drop(call);
    assert_eq!(handle.registry.complete_command(response("c1")), Some(false));
}

#[test]
fn unasked_response_is_ignored() {
    let mut handle = CloudHandle::new();
    assert_eq!(handle.registry.complete_command(response("c9")), None);
}

#[test]
fn later_caller_replaces_the_earlier_one() {
    let mut handle = CloudHandle::new();
    let mut first = handle.send_command_await("alpha", command("c1"));
    let mut second = handle.send_command_await("alpha", command("c1"));
    assert_eq!(first.reply.try_recv(), Err(oneshot::error::TryRecvError::Closed));
    assert_eq!(second.reply.try_recv(), Err(oneshot::error::TryRecvError::Empty));
    assert_eq!(handle.registry.complete_command(response("c1")), Some(true));
    assert_eq!(second.reply.try_recv().unwrap(), response("c1"));
}

#[test]
fn awaited_command_goes_to_a_connected_client() {
    let mut handle = CloudHandle::new();
    let (mut tx, _rx) = stream(4);
    handle.registry.register("alpha".to_string(), &mut tx);
    let call = handle.send_command_await("alpha", command("c1"));
    match call.step {
        SendStep::Deliver { sender, command: sent } => {
            assert!(sender.same_channel(&tx));
            assert_eq!(sent, command("c1"));
        }
        SendStep::Queued => panic!("alpha is connected"),
    }
    assert!(matches!(handle.send_command("beta", command("c2")), SendStep::Queued));
}

fn refused_sending() -> Result<(), String> {
    send_outcome(Err(mpsc::error::SendError(Ok(command("c1")))))
}

#[test]
fn failed_sending_ends_the_wait() {
    let mut handle = CloudHandle::new();
    let call = handle.send_command_await("alpha", command("c1"));
    assert_eq!(handle.registry.await_sent("c1", Ok(())), Ok(()));
    assert_eq!(
        handle.registry.await_sent(call.command_id.as_str(), refused_sending()),
        Err("Failed to send: channel closed".to_string())
    );
    assert_eq!(handle.registry.complete_command(response("c1")), None);
}

#[test]
fn send_outcome_reports_failures() {
    assert_eq!(send_outcome(Ok(())), Ok(()));
    assert_eq!(refused_sending(), Err("Failed to send: channel closed".to_string()));
}

#[test]
fn timeout_ends_the_wait() {
    let mut handle = CloudHandle::new();
    let _call = handle.send_command_await("alpha", command("c1"));
    assert_eq!(
        handle.registry.await_reply("c1", ReplyOutcome::TimedOut),
        Err("Response timeout".to_string())
    );
    assert_eq!(handle.registry.complete_command(response("c1")), None);
}

#[test]
fn closed_reply_channel_is_reported() {
    let mut handle = CloudHandle::new();
    let _call = handle.send_command_await("alpha", command("c1"));
    assert_eq!(
        handle.registry.await_reply("c1", ReplyOutcome::Closed),
        Err("Response channel closed".to_string())
    );
    // Whoever waits under the id still does.
    assert_eq!(handle.registry.complete_command(response("c1")), Some(true));
}

#[test]
fn handle_keeps_a_hundred_events() {
    let mut handle = CloudHandle::new();
    let (mut tx, _rx) = stream(4);
    let mut events = handle.subscribe_events();
    for i in 0..100 {
        handle.registry.register(format!("client-{}", i), &mut tx);
    }
    match events.try_recv() {
        Ok(ConnectionEvent::Connected(id)) => assert_eq!(id, "client-0"),
        other => panic!("{:?}", other),
    }
}

#[test]
fn callers_wait_while_clients_come_and_go() {
    let mut handle = CloudHandle::new();
    let mut call = handle.send_command_await("alpha", command("c1"));
    let (mut tx, mut rx) = stream(4);
    handle.registry.register("alpha".to_string(), &mut tx);
    assert_eq!(received(&mut rx), vec!["c1"]);
    handle.registry.update_activity("alpha");
    handle.registry.unregister("alpha");
    let _ = handle.send_command("alpha", command("c2"));
    assert_eq!(handle.registry.complete_command(response("c1")), Some(true));
    assert_eq!(call.reply.try_recv().unwrap(), response("c1"));
}

#[test]
fn what_waits_for_one_client_is_not_touched_by_others() {
    let (mut registry, _events) = registry();
    let (mut tx, mut rx) = stream(4);
    let _ = registry.send_command("alpha", command("c1"));
    registry.register("beta".to_string(), &mut tx);
    registry.update_activity("alpha");
    let _ = registry.send_command("gamma", command("d1"));
    registry.unregister("beta");
    assert_eq!(registry.evict_stale_at(u128::MAX, 0), vec!["alpha"]);
    let _ = registry.send_command("alpha", command("c2"));
    assert!(received(&mut rx).is_empty());
    registry.register("alpha".to_string(), &mut tx);
    assert_eq!(received(&mut rx), vec!["c1", "c2"]);
}

#[test]
fn regular_eviction_spares_whoever_was_just_seen() {
    let mut handle = CloudHandle::new();
    let (mut tx, _rx) = stream(4);
    handle.registry.register("alpha".to_string(), &mut tx);
    assert!(handle.evict_stale_clients().is_empty());
    assert_eq!(handle.list_clients(), vec!["alpha"]);
}

#[test]
fn eviction_comes_after_two_minutes() {
    let second: u128 = 1_000_000_000;
    let (mut registry, _events) = registry();
    let (mut tx, _rx) = stream(4);
    registry.register_at("alpha".to_string(), &mut tx, 30 * second);
    for tick in [60, 120] {
        assert!(registry.evict_stale_at(tick * second, 120 * second).is_empty());
    }
    assert!(registry.evict_stale_at(150 * second, 120 * second).is_empty());
    assert_eq!(registry.evict_stale_at(180 * second, 120 * second), vec!["alpha"]);
}
