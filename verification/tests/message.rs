use p2p_chat::message::{ChatMessage, MalformedMessage};

fn sample() -> ChatMessage {
    ChatMessage {
        id: "id-1".to_string(),
        sender_id: "alice".to_string(),
        recipient_id: "global".to_string(),
        content: "h\u{e9}llo \u{1f980}".to_string(),
        timestamp: 300,
    }
}

fn encode(message: &ChatMessage) -> Vec<u8> {
    let mut buf = Vec::new();
    assert_eq!(message.encode(&mut buf), Ok(()));
    buf
}

#[test]
fn empty_message_has_an_empty_encoding() {
    assert_eq!(encode(&ChatMessage::default()), Vec::<u8>::new());
    assert_eq!(ChatMessage::decode(&[]), Ok(ChatMessage::default()));
}

#[test]
fn encoding_is_the_fields_in_order() {
    let message = ChatMessage {
        id: "ab".to_string(),
        sender_id: "c".to_string(),
        recipient_id: "d".to_string(),
        content: "e\u{e9}".to_string(),
        timestamp: 300,
    };
    let expected = vec![
        0x0a, 2, b'a', b'b', 0x12, 1, b'c', 0x1a, 1, b'd', 0x22, 3, b'e', 0xc3, 0xa9, 0x28, 0xac,
        0x02,
    ];
    assert_eq!(encode(&message), expected);
    assert_eq!(ChatMessage::decode(&expected), Ok(message));
}

#[test]
fn empty_fields_are_left_out() {
    let message = ChatMessage {
        content: "x".to_string(),
        ..ChatMessage::default()
    };
    assert_eq!(encode(&message), vec![0x22, 1, b'x']);
}

#[test]
fn encoding_is_appended() {
    let mut buf = vec![1, 2, 3];
    let message = ChatMessage {
        timestamp: 1,
        ..ChatMessage::default()
    };
    assert_eq!(message.encode(&mut buf), Ok(()));
    assert_eq!(buf, vec![1, 2, 3, 0x28, 1]);
}

#[test]
fn decoding_gives_the_message_back() {
    let message = sample();
    assert_eq!(ChatMessage::decode(&encode(&message)), Ok(message));
    let long = ChatMessage {
        content: "x".repeat(70000),
        timestamp: u64::MAX,
        ..sample()
    };
    assert_eq!(ChatMessage::decode(&encode(&long)), Ok(long));
}

#[test]
fn different_messages_have_different_encodings() {
    let other = ChatMessage {
        timestamp: 301,
        ..sample()
    };
    assert_ne!(encode(&sample()), encode(&other));
}

#[test]
fn the_last_of_equal_fields_counts() {
    let bytes = vec![0x0a, 1, b'a', 0x28, 5, 0x0a, 1, b'b', 0x28, 6];
    let message = ChatMessage {
        id: "b".to_string(),
        timestamp: 6,
        ..ChatMessage::default()
    };
    assert_eq!(ChatMessage::decode(&bytes), Ok(message));
}

#[test]
fn fields_come_in_any_order() {
    let bytes = vec![0x28, 7, 0x22, 1, b'y', 0x0a, 1, b'a'];
    let message = ChatMessage {
        id: "a".to_string(),
        content: "y".to_string(),
        timestamp: 7,
        ..ChatMessage::default()
    };
    assert_eq!(ChatMessage::decode(&bytes), Ok(message));
}

#[test]
fn unknown_fields_are_skipped() {
    let mut bytes = encode(&sample());
    // Tag 6: an integer, eight bytes, a block, a group that holds an integer, four bytes.
    bytes.extend_from_slice(&[0x30, 0xff, 0x01]);
    bytes.extend_from_slice(&[0x31, 1, 2, 3, 4, 5, 6, 7, 8]);
    bytes.extend_from_slice(&[0x32, 2, 9, 9]);
    bytes.extend_from_slice(&[0x33, 0x08, 1, 0x34]);
    bytes.extend_from_slice(&[0x35, 1, 2, 3, 4]);
    assert_eq!(ChatMessage::decode(&bytes), Ok(sample()));
}

#[test]
fn malformed_input_is_refused() {
    let cases: Vec<Vec<u8>> = vec![
        // A key that is cut short.
        vec![0x80],
        // Tag zero.
        vec![0x02, 0],
        // A wire type that does not exist.
        vec![0x0e],
        vec![0x0f],
        // A key of more than 32 bits.
        vec![0x80, 0x80, 0x80, 0x80, 0x10],
        // No length, a length past the end, a text that is not UTF-8.
        vec![0x0a],
        vec![0x0a, 3, b'a', b'b'],
        vec![0x0a, 1, 0xff],
        // A text field that holds an integer, an integer field that holds a text.
        vec![0x08, 1],
        vec![0x2a, 1, b'a'],
        // An integer that is cut short, too long, or too large.
        vec![0x28, 0xff],
        vec![0x28, 0xff, 0xff, 0xff, 0xff, 0xff, 0xff, 0xff, 0xff, 0xff, 0xff, 0x01],
        vec![0x28, 0xff, 0xff, 0xff, 0xff, 0xff, 0xff, 0xff, 0xff, 0xff, 0x02],
        // Unknown fields that run past the end, and a group's end without its start.
        vec![0x31, 1, 2, 3],
        vec![0x35, 1, 2, 3],
        vec![0x32, 4, 1],
        vec![0x33, 0x08, 1],
        vec![0x34],
        vec![0x33, 0x3c],
    ];
    for bytes in cases {
        assert_eq!(ChatMessage::decode(&bytes), Err(MalformedMessage), "{:?}", bytes);
    }
}

#[test]
fn largest_integer_is_read() {
    let bytes = vec![0x28, 0xff, 0xff, 0xff, 0xff, 0xff, 0xff, 0xff, 0xff, 0xff, 0x01];
    let message = ChatMessage {
        timestamp: u64::MAX,
        ..ChatMessage::default()
    };
    assert_eq!(ChatMessage::decode(&bytes), Ok(message));
}

#[test]
fn padded_integers_are_read() {
    let bytes = vec![0xa8, 0x00, 0x87, 0x80, 0x00];
    let message = ChatMessage {
        timestamp: 7,
        ..ChatMessage::default()
    };
    assert_eq!(ChatMessage::decode(&bytes), Ok(message));
}

#[test]
fn groups_nest_only_so_deep() {
    let nested = |depth: usize| {
        let mut bytes = vec![0x33; depth];
        bytes.extend(vec![0x34; depth]);
        ChatMessage::decode(&bytes)
    };
    assert_eq!(nested(100), Ok(ChatMessage::default()));
    assert_eq!(nested(101), Err(MalformedMessage));
}

#[test]
fn group_ends_with_its_own_tag() {
    // Tag 6 holds an integer and a group with tag 7 that holds a block; an id follows.
    let bytes = vec![0x33, 0x08, 0x05, 0x3b, 0x12, 0x01, 0xff, 0x3c, 0x34, 0x0a, 0x01, b'i'];
    let message = ChatMessage {
        id: "i".to_string(),
        ..ChatMessage::default()
    };
    assert_eq!(ChatMessage::decode(&bytes), Ok(message));
    for bytes in [
        vec![0x33, 0x3c],
        vec![0x33, 0x3b, 0x34, 0x3c],
        vec![0x33],
        vec![0x33, 0x08],
        vec![0x33, 0x00, 0x34],
        vec![0x33, 0x0f, 0x34],
    ] {
        assert_eq!(ChatMessage::decode(&bytes), Err(MalformedMessage));
    }
}

#[test]
fn fields_in_groups_count_as_nested() {
    let around = |depth: usize| {
        let mut bytes = vec![0x33; depth];
        bytes.extend([0x08, 0x05]);
        bytes.extend(vec![0x34; depth]);
        ChatMessage::decode(&bytes)
    };
    assert_eq!(around(99), Ok(ChatMessage::default()));
    assert_eq!(around(100), Err(MalformedMessage));
}
