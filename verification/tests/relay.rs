use p2p_chat::chat::payload;
use p2p_chat::message::ChatMessage;
use p2p_chat::relay::{
    load_messages, relay_config, save_messages, Relay, RelayAction, RelayEvent, SaveStep,
    MAX_STORED_MESSAGES, RELAY_IDLE_SECONDS, TCP_LISTEN_ADDRESS, WEBSOCKET_LISTEN_ADDRESS,
};
use std::collections::VecDeque;

fn data(id: usize) -> Vec<u8> {
    payload("alice", format!("text {}", id), format!("id-{}", id), 1).unwrap()
}

fn receive(relay: &mut Relay, bytes: Vec<u8>) -> RelayAction<u8> {
    relay.step(RelayEvent::Message(bytes))
}

fn ids(relay: &Relay) -> Vec<String> {
    relay.stored.iter().map(|m| m.id.clone()).collect()
}

fn received(save: bool) -> RelayAction<u8> {
    RelayAction::Received {
        sender: "alice".to_string(),
        save,
    }
}

#[test]
fn relay_constants() {
    assert_eq!(MAX_STORED_MESSAGES, 500);
    assert_eq!(RELAY_IDLE_SECONDS, 120);
    assert_eq!(TCP_LISTEN_ADDRESS, "/ip4/0.0.0.0/tcp/8000");
    assert_eq!(WEBSOCKET_LISTEN_ADDRESS, "/ip4/0.0.0.0/tcp/8001/ws");
}

#[test]
fn paths_come_from_the_environment_or_are_the_usual_ones() {
    let config = relay_config(None, None);
    assert_eq!(config.storage_path, "storage.json");
    assert_eq!(config.identity_path, "relay_identity.key");
    let config = relay_config(Some("a".to_string()), Some("b".to_string()));
    assert_eq!(config.storage_path, "a");
    assert_eq!(config.identity_path, "b");
}

#[test]
fn missing_history_is_empty() {
    assert_eq!(load_messages(None).stored.len(), 0);
}

#[test]
fn stored_history_is_kept_as_it_is() {
    let message = ChatMessage::decode(&data(1)).unwrap();
    let stored: VecDeque<ChatMessage> = vec![message.clone(), message].into();
    assert_eq!(load_messages(Some(stored.clone())).stored, stored);
    let many: VecDeque<ChatMessage> = vec![ChatMessage::default(); 600].into();
    assert_eq!(load_messages(Some(many)).stored.len(), 600);
}

#[test]
fn new_message_is_stored_and_saved() {
    let mut relay = load_messages(None);
    assert_eq!(receive(&mut relay, data(1)), received(true));
    assert_eq!(receive(&mut relay, data(2)), received(true));
    assert_eq!(ids(&relay), vec!["id-1", "id-2"]);
    assert_eq!(relay.stored[1], ChatMessage::decode(&data(2)).unwrap());
}

#[test]
fn message_is_stored_once() {
    let mut relay = load_messages(None);
    assert_eq!(receive(&mut relay, data(1)), received(true));
    assert_eq!(receive(&mut relay, data(1)), received(false));
    let other = payload("alice", "another".to_string(), "id-1".to_string(), 2).unwrap();
    assert_eq!(receive(&mut relay, other), received(false));
    assert_eq!(ids(&relay), vec!["id-1"]);
    assert_eq!(relay.stored[0].content, "text 1");
}

#[test]
fn garbage_changes_nothing() {
    let mut relay = load_messages(None);
    receive(&mut relay, data(1));
    assert_eq!(receive(&mut relay, vec![0xff]), RelayAction::Ignore);
    assert_eq!(ids(&relay), vec!["id-1"]);
}

#[test]
fn oversized_message_is_dropped() {
    let mut relay = load_messages(None);
    let bytes = payload("alice", "x".repeat(4097), "big".to_string(), 1).unwrap();
    assert_eq!(
        receive(&mut relay, bytes),
        RelayAction::DropOversized {
            sender: "alice".to_string(),
            len: 4097,
        }
    );
    assert_eq!(relay.stored.len(), 0);
    let bytes = payload("alice", "x".repeat(4096), "ok".to_string(), 1).unwrap();
    assert_eq!(receive(&mut relay, bytes), received(true));
}

#[test]
fn history_keeps_the_newest_messages() {
    let mut relay = load_messages(None);
    for i in 0..500 {
        assert_eq!(receive(&mut relay, data(i)), received(true));
    }
    assert_eq!(relay.stored.len(), 500);
    assert_eq!(receive(&mut relay, data(500)), received(true));
    assert_eq!(relay.stored.len(), 500);
    assert_eq!(relay.stored[0].id, "id-1");
    assert_eq!(relay.stored[499].id, "id-500");
    // What has left the history counts as new again.
    assert_eq!(receive(&mut relay, data(0)), received(true));
    assert_eq!(relay.stored[0].id, "id-2");
    assert_eq!(relay.stored[499].id, "id-0");
}

#[test]
fn overlong_history_is_cut_when_a_message_is_stored() {
    let stored: VecDeque<ChatMessage> = (0..600)
        .map(|i| ChatMessage::decode(&data(i)).unwrap())
        .collect();
    let mut relay = load_messages(Some(stored));
    assert_eq!(receive(&mut relay, data(5)), received(false));
    assert_eq!(relay.stored.len(), 600);
    assert_eq!(receive(&mut relay, data(600)), received(true));
    assert_eq!(relay.stored.len(), 500);
    assert_eq!(relay.stored[0].id, "id-101");
    assert_eq!(relay.stored[499].id, "id-600");
}

#[test]
fn ids_stay_distinct() {
    let mut relay = load_messages(None);
    for i in 0..1500 {
        receive(&mut relay, data(i * 7 % 600));
    }
    let mut all = ids(&relay);
    all.sort();
    all.dedup();
    assert_eq!(all.len(), relay.stored.len());
    assert!(all.len() <= 500);
}

#[test]
fn ids_of_an_overlong_history_stay_distinct() {
    let stored: VecDeque<ChatMessage> = (0..700)
        .map(|i| ChatMessage::decode(&data(i)).unwrap())
        .collect();
    let mut relay = load_messages(Some(stored));
    for i in 0..800 {
        receive(&mut relay, data(i));
        let mut all = ids(&relay);
        all.sort();
        all.dedup();
        assert_eq!(all.len(), relay.stored.len());
        assert!(relay.stored.len() <= if i < 700 { 700 } else { 500 });
    }
}

#[test]
fn record_tells_whether_it_stored() {
    let mut relay = load_messages(None);
    let message = ChatMessage::decode(&data(1)).unwrap();
    assert!(relay.record(message.clone()));
    assert!(!relay.record(message));
}

#[test]
fn subscription_to_the_room_is_reported() {
    let mut relay = load_messages(None);
    receive(&mut relay, data(1));
    let event = RelayEvent::Subscribed {
        peer: 9u8,
        topic: "global-chat".to_string(),
    };
    assert_eq!(
        relay.step(event),
        RelayAction::PeerJoined { peer: 9, count: 1 }
    );
    let event = RelayEvent::Subscribed {
        peer: 9u8,
        topic: "elsewhere".to_string(),
    };
    assert_eq!(relay.step(event), RelayAction::Ignore);
    assert_eq!(relay.step(RelayEvent::<u8>::Other), RelayAction::Ignore);
    assert_eq!(ids(&relay), vec!["id-1"]);
}

#[test]
fn topic_hash_is_the_topic() {
    let topic = libp2p::gossipsub::IdentTopic::new(p2p_chat::chat::TOPIC);
    assert_eq!(topic.hash().into_string(), "global-chat");
}

#[test]
fn save_goes_by_way_of_a_temporary_file() {
    let step = SaveStep::Serialize;
    let step = save_messages(step, true);
    assert_eq!(step, SaveStep::WriteTemp);
    let step = save_messages(step, true);
    assert_eq!(step, SaveStep::Rename);
    let step = save_messages(step, true);
    assert_eq!(step, SaveStep::Done);
    assert_eq!(save_messages(step, true), SaveStep::Done);
    assert_eq!(save_messages(step, false), SaveStep::Done);
}

#[test]
fn failed_step_ends_the_save() {
    assert_eq!(
        save_messages(SaveStep::Serialize, false),
        SaveStep::SerializeFailed
    );
    assert_eq!(
        save_messages(SaveStep::WriteTemp, false),
        SaveStep::WriteFailed
    );
    assert_eq!(
        save_messages(SaveStep::Rename, false),
        SaveStep::RenameFailed
    );
    for end in [
        SaveStep::SerializeFailed,
        SaveStep::WriteFailed,
        SaveStep::RenameFailed,
    ] {
        assert_eq!(save_messages(end, true), end);
    }
}
