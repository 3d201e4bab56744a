use tempo::gateway::close_connection;
use tempo::gateway::conn_step;
use tempo::gateway::open_connection;
use tempo::gateway::ConnAction;
use tempo::gateway::ConnEvent;
use tempo::gateway::ConnPhase;
use tempo::registry::SubscriberRegistry;
use tempo::shutdown::ShutdownCoordinator;

#[test]
fn upgrade_opens_and_registers() {
    let (phase, actions) = conn_step(ConnPhase::Connecting, ConnEvent::Upgraded);
    assert!(phase == ConnPhase::Open);
    assert!(actions == vec![ConnAction::RegisterAndSpawn]);
}

#[test]
fn reader_end_or_shutdown_starts_teardown() {
    for event in [ConnEvent::ReaderEnded, ConnEvent::ShutdownFired] {
        let (phase, actions) = conn_step(ConnPhase::Open, event);
        assert!(phase == ConnPhase::Closing);
        assert!(actions == vec![ConnAction::CancelWriter, ConnAction::CancelReader]);
    }
}

#[test]
fn unregister_comes_only_after_both_cancels() {
    let (phase, actions) = conn_step(ConnPhase::Closing, ConnEvent::TasksCancelled);
    assert!(phase == ConnPhase::Closed);
    assert!(actions == vec![ConnAction::Unregister]);
}

#[test]
fn closed_connection_never_acts_again() {
    for event in [
        ConnEvent::Upgraded,
        ConnEvent::ReaderEnded,
        ConnEvent::ShutdownFired,
        ConnEvent::TasksCancelled,
    ] {
        let (phase, actions) = conn_step(ConnPhase::Closed, event);
        assert!(phase == ConnPhase::Closed);
        assert!(actions.is_empty());
    }
}

#[test]
fn mismatched_events_are_no_ops() {
    let (phase, actions) = conn_step(ConnPhase::Connecting, ConnEvent::ReaderEnded);
    assert!(phase == ConnPhase::Connecting);
    assert!(actions.is_empty());
    let (phase, actions) = conn_step(ConnPhase::Closing, ConnEvent::ShutdownFired);
    assert!(phase == ConnPhase::Closing);
    assert!(actions.is_empty());
}

#[test]
fn open_and_close_drive_the_registry() {
    let mut reg = SubscriberRegistry::new();
    let (id, mut rx) = open_connection(&mut reg);
    assert!(reg.contains(id));
    assert_eq!(reg.count(), 1);

    reg.broadcast(&b"live".to_vec());
    assert_eq!(rx.try_recv().expect("frame missing"), b"live");

    close_connection(&mut reg, id);
    assert!(!reg.contains(id));
    assert_eq!(reg.count(), 0);
}

#[test]
fn distinct_connections_get_distinct_identities() {
    let mut reg = SubscriberRegistry::new();
    let (id1, _rx1) = open_connection(&mut reg);
    let (id2, _rx2) = open_connection(&mut reg);
    assert_ne!(id1, id2);
    assert_eq!(reg.count(), 2);
}

#[test]
fn observer_sees_the_signal_exactly_once() {
    let mut coord = ShutdownCoordinator::new();
    let obs = coord.subscribe();
    assert!(!coord.observe(obs));
    coord.fire();
    assert!(coord.has_fired());
    assert!(coord.observe(obs));
    assert!(!coord.observe(obs));
}

#[test]
fn fire_wakes_every_earlier_observer_independently() {
    let mut coord = ShutdownCoordinator::new();
    let a = coord.subscribe();
    let b = coord.subscribe();
    assert_eq!(coord.observer_count(), 2);
    coord.fire();
    assert!(coord.observe(a));
    // observer a taking the event does not consume it for observer b
    assert!(coord.observe(b));
}

#[test]
fn late_subscriber_never_sees_the_event() {
    let mut coord = ShutdownCoordinator::new();
    coord.fire();
    let late = coord.subscribe();
    assert!(!coord.observe(late));
    // firing again is a harmless no-op and still wakes nobody new
    coord.fire();
    assert!(!coord.observe(late));
}
