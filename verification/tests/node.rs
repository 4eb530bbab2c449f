use p2p_chat::chat::{message_id, payload};
use p2p_chat::identity::load_or_create_identity;
use p2p_chat::message::{ChatMessage, MessageTooLong};
use p2p_chat::node::{
    node_step, publication, relay_target, start_node, InvalidRelayAddress, NodeAction, NodeEvent,
    RelayTarget, NODE_IDLE_SECONDS,
};
use p2p_chat::relay::load_messages;

type Event = NodeEvent<u8, u16>;
type Action = NodeAction<u8, u16>;

#[test]
fn node_closes_idle_connections_after_a_minute() {
    assert_eq!(NODE_IDLE_SECONDS, 60);
}

#[test]
fn node_starts_without_a_relay() {
    let plan = start_node(0, None).unwrap();
    assert_eq!(plan.listen_address, "/ip4/0.0.0.0/tcp/0");
    assert_eq!(plan.relay, None);
}

#[test]
fn node_starts_with_a_relay_and_its_peer() {
    let peer = load_or_create_identity(None).unwrap().peer_id;
    let address = format!("/ip4/127.0.0.1/tcp/8000/p2p/{}", peer);
    let plan = start_node(8000, Some(address.clone())).unwrap();
    assert_eq!(plan.listen_address, "/ip4/0.0.0.0/tcp/8000");
    assert_eq!(
        plan.relay,
        Some(RelayTarget {
            address,
            peer: Some(peer),
        })
    );
}

#[test]
fn relay_without_a_peer_is_dialled_all_the_same() {
    let address = "/ip4/1.2.3.4/tcp/8000".to_string();
    let plan = start_node(1, Some(address.clone())).unwrap();
    assert_eq!(
        plan.relay,
        Some(RelayTarget {
            address,
            peer: None,
        })
    );
}

#[test]
fn first_peer_of_the_relay_address_counts() {
    let first = load_or_create_identity(None).unwrap().peer_id;
    let second = load_or_create_identity(None).unwrap().peer_id;
    let address = format!("/ip4/1.2.3.4/tcp/1/p2p/{}/p2p-circuit/p2p/{}", first, second);
    let plan = start_node(1, Some(address)).unwrap();
    assert_eq!(plan.relay.unwrap().peer, Some(first));
}

#[test]
fn invalid_relay_address_is_refused() {
    for address in [
        "nonsense",
        "127.0.0.1:8000",
        "/ip4/300.0.0.1/tcp/1",
        "/ip4/127.0.0.1/tcp/8000/p2p/RELAY_PEER_ID",
        "/unknown/1",
    ] {
        assert_eq!(
            start_node(1, Some(address.to_string())),
            Err(InvalidRelayAddress),
            "{}",
            address
        );
    }
}

#[test]
fn target_keeps_the_address() {
    let target = relay_target("x".to_string(), &vec![None, Some("p".to_string())]);
    assert_eq!(target.address, "x");
    assert_eq!(target.peer, Some("p".to_string()));
}

#[test]
fn line_within_the_limit_is_stamped_and_published() {
    let line = "x".repeat(4096);
    let action: Action = node_step("alice", Event::Line(line.clone()));
    assert_eq!(
        action,
        NodeAction::ReadClock {
            content: line.clone(),
        }
    );
    let action: Action = node_step(
        "alice",
        Event::Stamped {
            content: line.clone(),
            timestamp: 77,
        },
    );
    let data = match action {
        NodeAction::Publish(data) => data,
        other => panic!("{:?}", other),
    };
    let message = ChatMessage::decode(&data).unwrap();
    assert_eq!(message.id.len(), 36);
    assert_eq!(message.sender_id, "alice");
    assert_eq!(message.recipient_id, "global");
    assert_eq!(message.content, line);
    assert_eq!(message.timestamp, 77);
    assert_eq!(message_id(&data), message.id);
}

#[test]
fn line_over_the_limit_is_dropped() {
    let action: Action = node_step("alice", Event::Line("x".repeat(4097)));
    assert_eq!(action, NodeAction::WarnTooLarge { len: 4097 });
    let action: Action = node_step("alice", Event::Line("\u{e9}".repeat(2049)));
    assert_eq!(action, NodeAction::WarnTooLarge { len: 4098 });
}

#[test]
fn connected_peer_is_remembered() {
    let action: Action = node_step(
        "alice",
        Event::Connected {
            peer: 3,
            address: 4,
        },
    );
    assert_eq!(action, NodeAction::AddAddress { peer: 3, address: 4 });
}

#[test]
fn received_message_is_shown() {
    let data = payload("bob", "hi".to_string(), "i".to_string(), 1).unwrap();
    let action: Action = node_step("alice", Event::Message(data));
    assert_eq!(
        action,
        NodeAction::Show {
            sender: "bob".to_string(),
            content: "hi".to_string(),
        }
    );
}

#[test]
fn received_garbage_is_ignored() {
    let action: Action = node_step("alice", Event::Message(vec![0xff]));
    assert_eq!(action, NodeAction::Ignore);
    let action: Action = node_step("alice", Event::Other);
    assert_eq!(action, NodeAction::Ignore);
}

#[test]
fn unencodable_message_stops_the_node() {
    let action: Action = publication(Err(MessageTooLong));
    assert_eq!(action, NodeAction::Fail);
    let action: Action = publication(Ok(vec![1]));
    assert_eq!(action, NodeAction::Publish(vec![1]));
}

#[test]
fn node_sends_what_the_relay_stores() {
    for size in [0, 1, 4095, 4096, 4097, 5000] {
        let line = "x".repeat(size);
        let action: Action = node_step("alice", Event::Line(line.clone()));
        let sent = matches!(action, NodeAction::ReadClock { .. });
        let data = payload("alice", line, "i".to_string(), 1).unwrap();
        let mut relay = load_messages(None);
        relay.step(p2p_chat::relay::RelayEvent::<u8>::Message(data));
        assert_eq!(relay.stored.len() == 1, sent);
    }
}

#[test]
fn lines_are_published_in_order() {
    let peer = load_or_create_identity(None).unwrap().peer_id;
    let mut published = Vec::new();
    for line in ["one", "", "two", "one"] {
        let action: Action = node_step(&peer, Event::Line(line.to_string()));
        let content = match action {
            NodeAction::ReadClock { content } => content,
            other => panic!("{:?}", other),
        };
        let action: Action = node_step(
            &peer,
            Event::Stamped {
                content,
                timestamp: 9,
            },
        );
        match action {
            NodeAction::Publish(data) => published.push(ChatMessage::decode(&data).unwrap()),
            other => panic!("{:?}", other),
        }
        let action: Action = node_step(&peer, Event::Line("x".repeat(4097)));
        assert_eq!(action, NodeAction::WarnTooLarge { len: 4097 });
    }
    let contents: Vec<&str> = published.iter().map(|m| m.content.as_str()).collect();
    assert_eq!(contents, ["one", "", "two", "one"]);
    assert!(published.iter().all(|m| m.sender_id == peer));
    assert_ne!(published[0].id, published[3].id);
}
