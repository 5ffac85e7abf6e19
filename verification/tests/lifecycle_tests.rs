use socket_io_rust::random_id_generator::RandomIdGenerator;
use socket_io_rust::socket_io_adaptor::namespace::{Namespace, NamespaceName};
use socket_io_rust::socket_io_websocket::connection_lifecycle::{
    ConnectionLifecycle, ConnectionState, FrameAction, HeartbeatAction, InboundFrame,
    CLIENT_TIMEOUT, HEARTBEAT_INTERVAL,
};

#[test]
fn timeout_transitions_to_closed_and_deregisters() {
    // A connection that hears nothing for longer than the timeout window
    // tears itself down and vanishes from its namespace's enumeration.
    let mut ns: Namespace<u8> = Namespace::new(NamespaceName::try_new("/").unwrap());
    let mut conn = ConnectionLifecycle::new("c1", "/");
    assert_eq!(conn.state(), ConnectionState::Connecting);
    conn.on_open(0);
    assert_eq!(conn.state(), ConnectionState::Active);
    ns.add_socket(conn.id(), 1);
    assert_eq!(ns.get_all_sids(), vec![String::from("c1")]);

    // Within the window the machine keeps probing.
    assert_eq!(conn.heartbeat_tick(HEARTBEAT_INTERVAL), HeartbeatAction::SendPing);
    assert_eq!(conn.state(), ConnectionState::Active);

    // Past the window it stops, and stops probing.
    assert_eq!(conn.heartbeat_tick(CLIENT_TIMEOUT + 1), HeartbeatAction::Stop);
    assert_eq!(conn.state(), ConnectionState::Closing);
    assert_eq!(conn.heartbeat_tick(CLIENT_TIMEOUT + 2), HeartbeatAction::Stop);

    ns.remove_socket(conn.id());
    conn.on_teardown_complete();
    assert_eq!(conn.state(), ConnectionState::Closed);
    assert!(ns.get_all_sids().is_empty());
}

#[test]
fn liveness_signals_reset_the_window() {
    let mut conn = ConnectionLifecycle::new("c2", "/");
    conn.on_open(0);
    match conn.handle(InboundFrame::Ping(vec![1, 2]), 9) {
        FrameAction::ReplyPong(bytes) => assert_eq!(bytes, vec![1, 2]),
        _ => panic!("a ping must be answered with a pong"),
    }
    // The ping at 9 reset the window, so 15 is still within it.
    assert_eq!(conn.heartbeat_tick(15), HeartbeatAction::SendPing);
    match conn.handle(InboundFrame::Pong, 16) {
        FrameAction::Ignore => {},
        _ => panic!("a pong carries no action"),
    }
    assert_eq!(conn.heartbeat_tick(26), HeartbeatAction::SendPing);
    assert_eq!(conn.heartbeat_tick(27), HeartbeatAction::Stop);
}

#[test]
fn inbound_event_packet_broadcasts_its_payload() {
    let mut conn = ConnectionLifecycle::new("c3", "/");
    conn.on_open(0);
    let action = conn.handle(InboundFrame::Text(String::from("2{\"hello\":1}")), 1);
    match action {
        FrameAction::BroadcastAll(content) => assert_eq!(content, "{\"hello\":1}"),
        _ => panic!("an event packet with a payload must broadcast"),
    }
    assert_eq!(conn.state(), ConnectionState::Active);

    // A decoded non-event packet does nothing.
    let action = conn.handle(InboundFrame::Text(String::from("0")), 2);
    assert!(matches!(action, FrameAction::Ignore));
}

#[test]
fn malformed_inbound_text_tears_down() {
    let mut conn = ConnectionLifecycle::new("c4", "/");
    conn.on_open(0);
    let action = conn.handle(InboundFrame::Text(String::from("2{oops")), 1);
    assert!(matches!(action, FrameAction::Teardown));
    assert_eq!(conn.state(), ConnectionState::Closing);
    // Once out of Active, further frames are ignored.
    let action = conn.handle(InboundFrame::Pong, 2);
    assert!(matches!(action, FrameAction::Ignore));
}

#[test]
fn binary_and_close_frames_tear_down() {
    let mut conn = ConnectionLifecycle::new("c5", "/");
    conn.on_open(0);
    assert!(matches!(conn.handle(InboundFrame::Binary, 1), FrameAction::Teardown));
    assert_eq!(conn.state(), ConnectionState::Closing);

    let mut conn2 = ConnectionLifecycle::new("c6", "/ns");
    assert_eq!(conn2.namespace(), "/ns");
    conn2.on_open(0);
    assert!(matches!(conn2.handle(InboundFrame::Close, 1), FrameAction::Teardown));
    assert_eq!(conn2.state(), ConnectionState::Closing);
}

#[test]
fn random_uuid_has_fixed_width() {
    let a = RandomIdGenerator::get_random_uuid();
    let b = RandomIdGenerator::get_random_uuid();
    assert_eq!(a.len(), 32);
    assert_eq!(b.len(), 32);
    assert!(a.chars().all(|c| c.is_ascii_hexdigit()));
}
