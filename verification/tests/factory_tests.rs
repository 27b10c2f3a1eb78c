use p2p_core::aead::DecryptError;
use p2p_core::codec::DecodeError;
use p2p_core::factory::{create_handshake_message, create_text_message, parse_message};
use p2p_core::keys::derive_key;
use p2p_core::wire::{MessageType, P2PMessage};

#[test]
fn kinds_have_their_wire_names() {
    let names = [
        (MessageType::Handshake, "Handshake"),
        (MessageType::HandshakeAck, "HandshakeAck"),
        (MessageType::Ping, "Ping"),
        (MessageType::Pong, "Pong"),
        (MessageType::Text, "Text"),
        (MessageType::Close, "Close"),
    ];
    for (kind, name) in names {
        assert_eq!(kind.name(), name);
        assert_eq!(MessageType::from_name(name), Some(kind));
        assert_eq!(format!("{:?}", kind), name);
    }
    assert_eq!(MessageType::from_name("text"), None);
    assert_eq!(MessageType::from_name(""), None);
    assert_eq!(MessageType::from_name("Handshake "), None);
    assert_eq!(MessageType::from_name("HandshakeAcknowledged"), None);
}

#[test]
fn new_message_carries_its_arguments_and_the_time() {
    let msg = P2PMessage::new(MessageType::HandshakeAck, String::from("alice"), 9, vec![1, 2]);
    assert_eq!(msg.msg_type, "HandshakeAck");
    assert_eq!(msg.sender_id, "alice");
    assert_eq!(msg.sequence_num, 9);
    assert_eq!(msg.payload, vec![1, 2]);
    assert!(msg.timestamp > 1_500_000_000);
    assert_eq!(msg.kind(), Some(MessageType::HandshakeAck));
}

#[test]
fn control_messages_are_empty() {
    for kind in [
        MessageType::Handshake,
        MessageType::HandshakeAck,
        MessageType::Ping,
        MessageType::Pong,
        MessageType::Close,
    ] {
        let msg = P2PMessage::control(kind, String::from("bob"), 77, 3);
        assert_eq!(msg.kind(), Some(kind));
        assert_eq!(msg.sender_id, "bob");
        assert_eq!(msg.timestamp, 77);
        assert_eq!(msg.sequence_num, 3);
        assert!(msg.payload.is_empty());
    }
}

#[test]
fn shape_is_checked_against_the_kind() {
    assert!(P2PMessage::control(MessageType::Ping, String::from("bob"), 1, 1).is_well_formed());
    assert!(P2PMessage::text(String::from("bob"), 1, 1, "").is_well_formed());
    assert!(P2PMessage::text(String::from("bob"), 1, 1, "hi").is_well_formed());
    let binary = P2PMessage::with_timestamp(MessageType::Text, String::from("bob"), 1, 1, vec![0xFF]);
    assert!(binary.is_well_formed());
    let loaded = P2PMessage::with_timestamp(MessageType::Close, String::from("bob"), 1, 1, vec![1]);
    assert!(!loaded.is_well_formed());
    let unknown = P2PMessage {
        msg_type: String::from("Gossip"),
        sender_id: String::from("bob"),
        timestamp: 1,
        sequence_num: 1,
        payload: vec![],
    };
    assert!(!unknown.is_well_formed());
}

#[test]
fn text_message_carries_utf8() {
    let msg = P2PMessage::text(String::from("bob"), 77, 4, "héllo");
    assert_eq!(msg.msg_type, "Text");
    assert_eq!(msg.payload, "héllo".as_bytes().to_vec());
    assert_eq!(msg.payload.len(), 6);
}

#[test]
fn sealed_text_opens_under_its_key_only() {
    let key = derive_key(b"test seed", "encryption");
    let msg = P2PMessage::sealed_text(String::from("bob"), 77, 5, "hello peer", &key).unwrap();
    assert_eq!(msg.msg_type, "Text");
    assert_eq!(msg.timestamp, 77);
    assert_eq!(msg.sequence_num, 5);
    assert_eq!(msg.payload.len(), 12 + 10 + 16);
    assert_ne!(&msg.payload[12..22], b"hello peer");
    assert_eq!(msg.open_text(&key).unwrap(), "hello peer");
    let other = derive_key(b"test seed", "signing");
    assert_eq!(msg.open_text(&other), Err(DecryptError::AuthenticationFailed));
    let back = P2PMessage::from_bytes(&msg.to_bytes().unwrap()).unwrap();
    assert_eq!(back.open_text(&key).unwrap(), "hello peer");
}

#[test]
fn opening_a_clear_text_payload_fails() {
    let key = derive_key(b"test seed", "encryption");
    let short = P2PMessage::text(String::from("bob"), 1, 1, "hi");
    assert_eq!(short.open_text(&key), Err(DecryptError::TooShort));
    let long = P2PMessage::text(String::from("bob"), 1, 1, "this text is longer than a nonce and a tag");
    assert_eq!(long.open_text(&key), Err(DecryptError::AuthenticationFailed));
}

#[test]
fn handshake_bytes_parse_back() {
    let bytes = create_handshake_message(String::from("alice")).unwrap();
    assert_eq!(bytes.len(), 36 + 9 + 5);
    let msg = P2PMessage::from_bytes(&bytes).unwrap();
    assert_eq!(msg.msg_type, "Handshake");
    assert_eq!(msg.sender_id, "alice");
    assert_eq!(msg.sequence_num, 0);
    assert!(msg.payload.is_empty());
    assert!(msg.timestamp > 1_500_000_000);
    let (sender, kind, timestamp, text) = parse_message(bytes).unwrap();
    assert_eq!(sender, "alice");
    assert_eq!(kind, "Handshake");
    assert_eq!(timestamp, msg.timestamp);
    assert_eq!(text, "");
}

#[test]
fn text_bytes_parse_back() {
    let bytes = create_text_message(String::from("alice"), 12, String::from("hello peer")).unwrap();
    let msg = P2PMessage::from_bytes(&bytes).unwrap();
    assert_eq!(msg.sequence_num, 12);
    assert_eq!(msg.payload, b"hello peer".to_vec());
    let (sender, kind, _, text) = parse_message(bytes).unwrap();
    assert_eq!(sender, "alice");
    assert_eq!(kind, "Text");
    assert_eq!(text, "hello peer");
}

#[test]
fn parse_shows_no_text_for_other_kinds() {
    let ping = P2PMessage::with_timestamp(MessageType::Ping, String::from("a"), 3, 1, b"ignored".to_vec());
    let (_, kind, timestamp, text) = parse_message(ping.to_bytes().unwrap()).unwrap();
    assert_eq!(kind, "Ping");
    assert_eq!(timestamp, 3);
    assert_eq!(text, "");
    let empty = P2PMessage::with_timestamp(MessageType::Text, String::from("a"), 3, 1, vec![]);
    let (sender, kind, _, text) = parse_message(empty.to_bytes().unwrap()).unwrap();
    assert_eq!(sender, "a");
    assert_eq!(kind, "Text");
    assert_eq!(text, "");
    let loaded = P2PMessage::with_timestamp(MessageType::Pong, String::from("a"), 3, 1, vec![0xFF, 0xFE]);
    let (_, kind, _, text) = parse_message(loaded.to_bytes().unwrap()).unwrap();
    assert_eq!(kind, "Pong");
    assert_eq!(text, "");
}

#[test]
fn parse_refuses_a_text_message_that_is_not_utf8() {
    let hostile = P2PMessage {
        msg_type: "Text".to_string(),
        sender_id: "a".to_string(),
        timestamp: 1,
        sequence_num: 1,
        payload: vec![0xff, 0xfe],
    };
    assert_eq!(parse_message(hostile.to_bytes().unwrap()), Err(DecodeError::InvalidUtf8));
    let cut = P2PMessage::with_timestamp(MessageType::Text, String::from("a"), 3, 1, vec![0xE2, 0x82]);
    assert_eq!(parse_message(cut.to_bytes().unwrap()), Err(DecodeError::InvalidUtf8));
    assert!(P2PMessage::from_bytes(&hostile.to_bytes().unwrap()).is_ok());
}

#[test]
fn parse_reports_decode_errors() {
    assert_eq!(parse_message(vec![]), Err(DecodeError::Truncated));
    assert_eq!(parse_message(vec![0; 35]), Err(DecodeError::Truncated));
    let mut bytes = create_handshake_message(String::from("alice")).unwrap();
    bytes[8] = 0x80;
    assert_eq!(parse_message(bytes), Err(DecodeError::InvalidUtf8));
}
