use p2p_core::clock::seconds_of;
use p2p_core::config::HolePunchConfig;
use p2p_core::connection::ConnectionEvent::{
    ConnectRequested, Failure, HandshakeAcknowledged, HandshakeReceived, Reset,
};
use p2p_core::connection::ConnectionState::{Connected, Connecting, Disconnected, Failed};
use p2p_core::connection::{ConnectionState, P2PConnection, PeerAddr};
use p2p_core::wire::{MessageType, P2PMessage};

fn local() -> PeerAddr {
    PeerAddr::V4 { octets: [192, 168, 1, 7], port: 4000 }
}

fn remote() -> PeerAddr {
    PeerAddr::V6 { segments: [0x2001, 0xdb8, 0, 0, 0, 0, 0, 1], port: 4001, flowinfo: 0, scope_id: 0 }
}

fn fresh(now: u64) -> P2PConnection {
    P2PConnection::new_at(String::from("peer-1"), local(), remote(), now)
}

#[test]
fn new_connection_is_disconnected() {
    let conn = fresh(1000);
    assert_eq!(conn.peer_id, "peer-1");
    assert_eq!(conn.local_addr, local());
    assert_eq!(conn.remote_addr, remote());
    assert_eq!(conn.state, ConnectionState::Disconnected);
    assert_eq!(conn.last_ping, 1000);
    assert_eq!(conn.sequence_num, 0);
}

#[test]
fn new_connection_reads_the_clock() {
    let conn = P2PConnection::new(String::from("peer-2"), local(), remote());
    assert_eq!(conn.state, ConnectionState::Disconnected);
    assert_eq!(conn.sequence_num, 0);
    assert!(conn.last_ping > 1_500_000_000);
    assert!(!conn.needs_keepalive(3600));
}

#[test]
fn clock_before_the_epoch_reads_as_zero() {
    assert_eq!(seconds_of(None), 0);
    assert_eq!(seconds_of(Some(0)), 0);
    assert_eq!(seconds_of(Some(1_700_000_000)), 1_700_000_000);
    assert_eq!(seconds_of(Some(u64::MAX)), u64::MAX);
}

#[test]
fn sequence_numbers_count_up() {
    let mut conn = fresh(0);
    assert_eq!(conn.next_sequence(), 1);
    assert_eq!(conn.next_sequence(), 2);
    assert_eq!(conn.next_sequence(), 3);
    assert_eq!(conn.sequence_num, 3);
}

#[test]
fn sequence_number_wraps_to_zero() {
    let mut conn = fresh(0);
    conn.sequence_num = u32::MAX;
    assert_eq!(conn.next_sequence(), 0);
    assert_eq!(conn.sequence_num, 0);
    assert_eq!(conn.next_sequence(), 1);
}

#[test]
fn keepalive_is_due_after_the_timeout() {
    let t: u64 = 1_700_000_000;
    let conn = fresh(t);
    assert!(conn.needs_keepalive_at(t + 31, 30));
    assert!(!conn.needs_keepalive_at(t + 29, 30));
    assert!(!conn.needs_keepalive_at(t + 30, 30));
    assert!(!conn.needs_keepalive_at(t, 30));
    assert!(conn.needs_keepalive_at(t + 1, 0));
    assert!(!conn.needs_keepalive_at(t, 0));
}

#[test]
fn keepalive_is_not_due_when_the_clock_went_back() {
    let conn = fresh(1000);
    assert!(!conn.needs_keepalive_at(10, 30));
    assert!(!conn.needs_keepalive_at(0, 0));
    assert!(!fresh(u64::MAX).needs_keepalive_at(0, 0));
    assert!(fresh(0).needs_keepalive_at(u64::MAX, u64::MAX - 1));
    assert!(!fresh(0).needs_keepalive_at(u64::MAX, u64::MAX));
}

#[test]
fn contact_only_moves_forward() {
    let mut conn = fresh(1000);
    conn.record_contact(1500);
    assert_eq!(conn.last_ping, 1500);
    conn.record_contact(1200);
    assert_eq!(conn.last_ping, 1500);
    conn.record_contact(1500);
    assert_eq!(conn.last_ping, 1500);
    conn.record_contact(1501);
    assert_eq!(conn.last_ping, 1501);
    assert_eq!(conn.state, ConnectionState::Disconnected);
    assert_eq!(conn.sequence_num, 0);
}

#[test]
fn initiator_path_goes_through_connecting() {
    let mut conn = fresh(1000);
    conn.connect();
    assert_eq!(conn.state, ConnectionState::Connecting);
    conn.handshake_acknowledged(1010);
    assert_eq!(conn.state, ConnectionState::Connected);
    assert_eq!(conn.last_ping, 1010);
    conn.fail();
    assert_eq!(conn.state, ConnectionState::Failed);
    conn.reset();
    assert_eq!(conn.state, ConnectionState::Disconnected);
}

#[test]
fn responder_path_goes_through_connecting() {
    let mut conn = fresh(1000);
    conn.handshake_received();
    assert_eq!(conn.state, ConnectionState::Connecting);
    conn.handshake_acknowledged(900);
    assert_eq!(conn.state, ConnectionState::Connected);
    assert_eq!(conn.last_ping, 1000);
    conn.reset();
    assert_eq!(conn.state, ConnectionState::Disconnected);
}

#[test]
fn failure_is_recorded_from_every_state() {
    for state in [Disconnected, Connecting, Connected, Failed] {
        let mut conn = fresh(1000);
        conn.state = state;
        conn.fail();
        assert_eq!(conn.state, ConnectionState::Failed);
    }
}

#[test]
fn acknowledgement_does_not_connect_a_disconnected_peer() {
    let mut conn = fresh(1000);
    conn.handshake_acknowledged(1100);
    assert_eq!(conn.state, ConnectionState::Disconnected);
    assert_eq!(conn.last_ping, 1100);
}

#[test]
fn transition_table() {
    let table = [
        (Disconnected, ConnectRequested, Connecting),
        (Disconnected, HandshakeReceived, Connecting),
        (Disconnected, HandshakeAcknowledged, Disconnected),
        (Disconnected, Failure, Failed),
        (Disconnected, Reset, Disconnected),
        (Connecting, ConnectRequested, Connecting),
        (Connecting, HandshakeReceived, Connecting),
        (Connecting, HandshakeAcknowledged, Connected),
        (Connecting, Failure, Failed),
        (Connecting, Reset, Connecting),
        (Connected, ConnectRequested, Connected),
        (Connected, HandshakeReceived, Connected),
        (Connected, HandshakeAcknowledged, Connected),
        (Connected, Failure, Failed),
        (Connected, Reset, Disconnected),
        (Failed, ConnectRequested, Failed),
        (Failed, HandshakeReceived, Failed),
        (Failed, HandshakeAcknowledged, Failed),
        (Failed, Failure, Failed),
        (Failed, Reset, Disconnected),
    ];
    for (state, event, expected) in table {
        assert_eq!(state.next(event), expected, "{:?} on {:?}", state, event);
        let mut conn = fresh(5);
        conn.state = state;
        conn.apply(event);
        assert_eq!(conn.state, expected);
        assert_eq!(conn.last_ping, 5);
        assert_eq!(conn.sequence_num, 0);
    }
}

#[test]
fn compose_issues_the_next_sequence_number() {
    let mut conn = fresh(1000);
    let first = conn.compose(MessageType::Ping, String::from("me"), vec![], 1005);
    assert_eq!(
        first,
        P2PMessage {
            msg_type: String::from("Ping"),
            sender_id: String::from("me"),
            timestamp: 1005,
            sequence_num: 1,
            payload: vec![],
        }
    );
    let second = conn.compose(MessageType::Text, String::from("me"), vec![104, 105], 1006);
    assert_eq!(second.sequence_num, 2);
    assert_eq!(second.payload, vec![104, 105]);
    assert_eq!(conn.sequence_num, 2);
    conn.sequence_num = u32::MAX;
    assert_eq!(conn.compose(MessageType::Pong, String::from("me"), vec![], 1007).sequence_num, 0);
}

#[test]
fn default_config_has_the_documented_values() {
    let config = HolePunchConfig::default();
    assert_eq!(config.punch_attempts, 5);
    assert_eq!(config.punch_delay_ms, 100);
    assert_eq!(config.connection_timeout, 10);
    assert_eq!(config.keepalive_interval, 30);
    assert!(config.is_usable());
}

#[test]
fn config_without_attempts_or_timeouts_is_not_usable() {
    let mut config = HolePunchConfig::default();
    config.punch_attempts = 0;
    assert!(!config.is_usable());
    let mut config = HolePunchConfig::default();
    config.connection_timeout = 0;
    assert!(!config.is_usable());
    let mut config = HolePunchConfig::default();
    config.keepalive_interval = 0;
    assert!(!config.is_usable());
    let mut config = HolePunchConfig::default();
    config.punch_delay_ms = 0;
    assert!(config.is_usable());
}

#[test]
fn keepalive_follows_the_configured_interval() {
    let config = HolePunchConfig::default();
    let conn = fresh(100);
    assert!(!conn.needs_keepalive_at(130, config.keepalive_interval));
    assert!(conn.needs_keepalive_at(131, config.keepalive_interval));
}
