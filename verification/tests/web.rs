use p2p_chat::chat::payload;
use p2p_chat::identity::load_or_create_identity;
use p2p_chat::message::{ChatMessage, MessageTooLong};
use p2p_chat::node::{node_step, NodeAction, NodeEvent};
use p2p_chat::web::{
    dialed, send_error_text, send_message, start_chat, start_error_text, web_publication, web_step,
    SendError, Session, StartError, WebAction, WebEvent,
};

const NEW: Session = Session { started: false };
const RUNNING: Session = Session { started: true };

#[test]
fn browser_node_starts_once() {
    let peer = load_or_create_identity(None).unwrap().peer_id;
    let address = format!("/ip4/127.0.0.1/tcp/8001/ws/p2p/{}", peer);
    let mut session = NEW;
    assert_eq!(start_chat(&session, &address), Ok(()));
    dialed(&mut session, true);
    assert_eq!(
        start_chat(&session, &address),
        Err(StartError::AlreadyStarted)
    );
    dialed(&mut session, false);
    assert_eq!(session, RUNNING);
}

#[test]
fn browser_node_needs_a_multiaddress() {
    assert_eq!(start_chat(&NEW, "/ip4/127.0.0.1/tcp/8001/ws"), Ok(()));
    assert_eq!(
        start_chat(&NEW, "ws://127.0.0.1:8001"),
        Err(StartError::InvalidRelayAddress {
            reason: "InvalidMultiaddr".to_string(),
        })
    );
    assert_eq!(
        start_chat(&RUNNING, "ws://127.0.0.1:8001"),
        Err(StartError::AlreadyStarted)
    );
}

#[test]
fn reason_for_a_refused_address_is_the_parsers() {
    for address in ["nonsense", "/unknown/1", "/ip4/300.0.0.1/tcp/1", "/tcp/x"] {
        let error = address.parse::<libp2p::Multiaddr>().unwrap_err();
        assert_eq!(
            start_chat(&NEW, address),
            Err(StartError::InvalidRelayAddress {
                reason: format!("{:?}", error),
            })
        );
    }
}

#[test]
fn failed_start_can_be_repeated() {
    let mut session = NEW;
    assert!(start_chat(&session, "nonsense").is_err());
    assert_eq!(start_chat(&session, "/ip4/127.0.0.1/tcp/1/ws"), Ok(()));
    dialed(&mut session, false);
    assert_eq!(session, NEW);
    assert_eq!(
        send_message(&session, "hi".to_string(), true),
        Err(SendError::NotStarted)
    );
    assert_eq!(start_chat(&session, "/ip4/127.0.0.1/tcp/1/ws"), Ok(()));
    dialed(&mut session, true);
    assert_eq!(
        send_message(&session, "hi".to_string(), true),
        Ok("hi".to_string())
    );
}

#[test]
fn start_errors_are_told() {
    assert_eq!(
        start_error_text(&StartError::AlreadyStarted),
        "Chat node already started. Reload the page to reconnect."
    );
    assert_eq!(
        start_error_text(&StartError::InvalidRelayAddress {
            reason: "InvalidMultiaddr".to_string(),
        }),
        "Invalid relay address: InvalidMultiaddr"
    );
}

#[test]
fn message_is_sent_only_by_a_started_node() {
    let long = "x".repeat(5000);
    for content in ["hi", "", long.as_str()] {
        let content = content.to_string();
        assert_eq!(
            send_message(&RUNNING, content.clone(), true),
            Ok(content.clone())
        );
        assert_eq!(
            send_message(&NEW, content.clone(), true),
            Err(SendError::NotStarted)
        );
        assert_eq!(
            send_message(&NEW, content.clone(), false),
            Err(SendError::NotStarted)
        );
        assert_eq!(
            send_message(&RUNNING, content, false),
            Err(SendError::Disconnected)
        );
    }
}

#[test]
fn send_errors_are_told() {
    assert_eq!(send_error_text(SendError::NotStarted), "Node not started");
    let (sender, receiver) = futures::channel::mpsc::unbounded::<String>();
    drop(receiver);
    assert!(sender.is_closed());
    let error = sender.unbounded_send("hi".to_string()).unwrap_err();
    assert_eq!(
        send_error_text(SendError::Disconnected),
        format!("{:?}", error)
    );
}

#[test]
fn browser_messages_are_published_in_order() {
    let peer = load_or_create_identity(None).unwrap().peer_id;
    let mut published = Vec::new();
    for line in ["one", "", "two", "one"] {
        let mut event = WebEvent::Line(line.to_string());
        while let WebAction::ReadClock { content } = web_step(&peer, event.clone()) {
            event = WebEvent::Stamped {
                content,
                millis: 5000,
            };
        }
        if let WebAction::Publish(data) = web_step(&peer, event) {
            published.push(ChatMessage::decode(&data).unwrap());
        }
        let dropped = web_step(&peer, WebEvent::Line("x".repeat(4097)));
        assert!(matches!(dropped, WebAction::WarnTooLarge { .. }));
    }
    let contents: Vec<&str> = published.iter().map(|m| m.content.as_str()).collect();
    assert_eq!(contents, ["one", "", "two", "one"]);
    assert!(published.iter().all(|m| m.sender_id == peer));
}

#[test]
fn browser_message_is_stamped_in_seconds() {
    let action = web_step("web", WebEvent::Line("hi".to_string()));
    assert_eq!(
        action,
        WebAction::ReadClock {
            content: "hi".to_string(),
        }
    );
    let action = web_step(
        "web",
        WebEvent::Stamped {
            content: "hi".to_string(),
            millis: 1_700_000_000_999,
        },
    );
    let data = match action {
        WebAction::Publish(data) => data,
        other => panic!("{:?}", other),
    };
    let message = ChatMessage::decode(&data).unwrap();
    assert_eq!(message.sender_id, "web");
    assert_eq!(message.recipient_id, "global");
    assert_eq!(message.content, "hi");
    assert_eq!(message.timestamp, 1_700_000_000);
    assert_eq!(message.id.len(), 36);
}

#[test]
fn browser_message_over_the_limit_is_dropped() {
    let action = web_step("web", WebEvent::Line("x".repeat(4097)));
    assert_eq!(
        action,
        WebAction::WarnTooLarge {
            text: "Message too large (4097 bytes), dropping".to_string(),
        }
    );
}

#[test]
fn received_message_is_delivered_to_the_page() {
    let data = payload("bob", "hi".to_string(), "i".to_string(), 1).unwrap();
    assert_eq!(
        web_step("web", WebEvent::Message(data)),
        WebAction::Deliver {
            peer_id: "web".to_string(),
            sender: "bob".to_string(),
            content: "hi".to_string(),
        }
    );
    assert_eq!(
        web_step("web", WebEvent::Message(vec![0xff])),
        WebAction::Ignore
    );
    assert_eq!(web_step("web", WebEvent::Other), WebAction::Ignore);
}

#[test]
fn unencodable_browser_message_is_not_sent() {
    assert_eq!(web_publication(Err(MessageTooLong)), WebAction::Ignore);
    assert_eq!(
        web_publication(Ok(vec![1])),
        WebAction::Publish(vec![1])
    );
}

#[test]
fn terminal_shows_what_the_browser_sends() {
    let action = web_step(
        "web",
        WebEvent::Stamped {
            content: "hello".to_string(),
            millis: 1000,
        },
    );
    let data = match action {
        WebAction::Publish(data) => data,
        other => panic!("{:?}", other),
    };
    let shown: NodeAction<u8, u8> = node_step("cli", NodeEvent::Message(data));
    assert_eq!(
        shown,
        NodeAction::Show {
            sender: "web".to_string(),
            content: "hello".to_string(),
        }
    );
}
