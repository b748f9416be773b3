use port_proxy::acceptor::{AcceptAction, Acceptor, ConnectionSetup, SetupFailure, SetupStage};

#[test]
fn accepted_clients_are_numbered_from_zero() {
    let mut a = Acceptor::new();
    assert_eq!(a.next_id(), 0);
    assert_eq!(a.on_accept(true), AcceptAction::SetUp(0));
    assert_eq!(a.on_accept(true), AcceptAction::SetUp(1));
    assert_eq!(a.on_accept(true), AcceptAction::SetUp(2));
    assert_eq!(a.next_id(), 3);
}

#[test]
fn listener_failure_stops_the_loop() {
    let mut a = Acceptor::new();
    assert_eq!(a.on_accept(true), AcceptAction::SetUp(0));
    assert_eq!(a.on_accept(false), AcceptAction::Stop);
    assert_eq!(a.next_id(), 1);
}

#[test]
fn unreachable_destination_starts_no_relay() {
    let mut s = ConnectionSetup::new(7);
    assert_eq!(s.stage(), SetupStage::Connecting);
    s.on_connect(false);
    assert_eq!(s.stage(), SetupStage::Abandoned(SetupFailure::Unreachable));
    assert_eq!(s.id(), 7);
}

#[test]
fn connected_destination_starts_relays() {
    let mut s = ConnectionSetup::new(3);
    s.on_connect(true);
    assert_eq!(s.stage(), SetupStage::Duplicating);
    s.on_duplicate(true);
    assert_eq!(s.stage(), SetupStage::Relaying);
    assert_eq!(s.id(), 3);
}

#[test]
fn failed_handle_duplication_abandons() {
    let mut s = ConnectionSetup::new(0);
    s.on_connect(true);
    s.on_duplicate(false);
    assert_eq!(s.stage(), SetupStage::Abandoned(SetupFailure::Duplication));
}

#[test]
fn unreachable_destination_leaves_accept_loop_serving() {
    let mut a = Acceptor::new();
    let first = match a.on_accept(true) {
        AcceptAction::SetUp(id) => id,
        AcceptAction::Stop => panic!("accept loop stopped"),
    };
    let mut s = ConnectionSetup::new(first);
    s.on_connect(false);
    assert_eq!(s.stage(), SetupStage::Abandoned(SetupFailure::Unreachable));
    let second = match a.on_accept(true) {
        AcceptAction::SetUp(id) => id,
        AcceptAction::Stop => panic!("accept loop stopped"),
    };
    assert_eq!(second, 1);
    let mut t = ConnectionSetup::new(second);
    t.on_connect(true);
    t.on_duplicate(true);
    assert_eq!(t.stage(), SetupStage::Relaying);
}
