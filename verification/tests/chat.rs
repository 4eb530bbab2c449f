use p2p_chat::chat::{
    compose, fits, fresh_payload, message_id, payload, MAX_MESSAGE_BYTES, RECIPIENT, TOPIC,
};
use p2p_chat::message::ChatMessage;

#[test]
fn constants_of_the_room() {
    assert_eq!(TOPIC, "global-chat");
    assert_eq!(RECIPIENT, "global");
    assert_eq!(MAX_MESSAGE_BYTES, 4096);
}

#[test]
fn limit_counts_bytes() {
    assert!(fits(""));
    assert!(fits(&"x".repeat(4096)));
    assert!(!fits(&"x".repeat(4097)));
    assert!(fits(&"\u{e9}".repeat(2048)));
    assert!(!fits(&"\u{e9}".repeat(2049)));
}

#[test]
fn composed_message_is_for_the_room() {
    let message = compose("alice", "hi".to_string(), "id-1".to_string(), 12);
    let expected = ChatMessage {
        id: "id-1".to_string(),
        sender_id: "alice".to_string(),
        recipient_id: "global".to_string(),
        content: "hi".to_string(),
        timestamp: 12,
    };
    assert_eq!(message, expected);
}

#[test]
fn payload_is_the_encoded_message() {
    let bytes = payload("al", "hi".to_string(), "i".to_string(), 1).unwrap();
    let expected = vec![
        0x0a, 1, b'i', 0x12, 2, b'a', b'l', 0x1a, 6, b'g', b'l', b'o', b'b', b'a', b'l', 0x22, 2,
        b'h', b'i', 0x28, 1,
    ];
    assert_eq!(bytes, expected);
}

#[test]
fn message_is_identified_by_its_id() {
    let bytes = payload("alice", "hi".to_string(), "id-1".to_string(), 1).unwrap();
    assert_eq!(message_id(&bytes), "id-1");
    assert_eq!(message_id(&[]), "");
}

#[test]
fn other_bytes_are_identified_by_their_hash() {
    assert_eq!(
        message_id(b"abc"),
        "6437b3ac38465133ffb63b75273a8db548c558465d79db03fd359c6cd5bd9d85"
    );
    let mut hasher = blake3::Hasher::new();
    hasher.update(b"\xff\xff");
    assert_eq!(message_id(b"\xff\xff"), hasher.finalize().to_string());
    assert_eq!(message_id(b"\xff\xff"), message_id(b"\xff\xff"));
    assert_ne!(message_id(b"\xff\xff"), message_id(b"\xff\xfe"));
}

fn is_uuid_v4(text: &str) -> bool {
    let bytes = text.as_bytes();
    bytes.len() == 36
        && bytes.iter().enumerate().all(|(i, b)| match i {
            8 | 13 | 18 | 23 => *b == b'-',
            14 => *b == b'4',
            19 => b"89ab".contains(b),
            _ => b"0123456789abcdef".contains(b),
        })
}

#[test]
fn fresh_payloads_have_random_ids() {
    let first = fresh_payload("alice", "hi".to_string(), 5).unwrap();
    let second = fresh_payload("alice", "hi".to_string(), 5).unwrap();
    let first = ChatMessage::decode(&first).unwrap();
    let second = ChatMessage::decode(&second).unwrap();
    assert!(is_uuid_v4(&first.id));
    assert!(is_uuid_v4(&second.id));
    assert_ne!(first.id, second.id);
    assert_eq!(
        first,
        compose("alice", "hi".to_string(), first.id.clone(), 5)
    );
}

#[test]
fn published_message_is_decoded_as_it_was_composed() {
    let bytes = payload("alice", "h\u{e9}".to_string(), "id-7".to_string(), 99).unwrap();
    let message = ChatMessage::decode(&bytes).unwrap();
    assert_eq!(
        message,
        compose("alice", "h\u{e9}".to_string(), "id-7".to_string(), 99)
    );
    assert_eq!(message_id(&bytes), message.id);
}
