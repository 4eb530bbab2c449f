//! The relay node: it keeps a bounded history of the messages that pass through it.

use crate::chat::{fits, outgoing, within_limit, TOPIC};
use crate::message::{decoded, encoded, ChatMessage, MessageModel};
use std::collections::VecDeque;
use vstd::prelude::*;
use vstd::utf8::encode_utf8;

verus! {

/// Maximum number of messages kept in the relay's history.
pub const MAX_STORED_MESSAGES: usize = 500;

/// Where the history is stored unless the environment says otherwise.
pub const DEFAULT_STORAGE_PATH: &'static str = "storage.json";

/// Where the relay's key is stored unless the environment says otherwise.
pub const DEFAULT_IDENTITY_PATH: &'static str = "relay_identity.key";

/// The address at which the relay listens for TCP clients.
pub const TCP_LISTEN_ADDRESS: &'static str = "/ip4/0.0.0.0/tcp/8000";

/// The address at which the relay listens for WebSocket clients.
pub const WEBSOCKET_LISTEN_ADDRESS: &'static str = "/ip4/0.0.0.0/tcp/8001/ws";

/// Seconds after which the relay closes an idle connection.
pub const RELAY_IDLE_SECONDS: u64 = 120;

/// Where the relay keeps its files.
#[derive(Clone, Debug, PartialEq, Eq)]
pub struct RelayConfig {
    pub storage_path: String,
    pub identity_path: String,
}

/// The files of a relay, given the paths that the environment names.
pub fn relay_config(storage_path: Option<String>, identity_path: Option<String>) -> (r: RelayConfig)
    ensures
        r.storage_path@ == (match storage_path {
            Some(path) => path@,
            None => DEFAULT_STORAGE_PATH@,
        }),
        r.identity_path@ == (match identity_path {
            Some(path) => path@,
            None => DEFAULT_IDENTITY_PATH@,
        }),
{
    RelayConfig {
        storage_path: match storage_path {
            Some(path) => path,
            None => DEFAULT_STORAGE_PATH.to_owned(),
        },
        identity_path: match identity_path {
            Some(path) => path,
            None => DEFAULT_IDENTITY_PATH.to_owned(),
        },
    }
}

/// Whether `history` holds a message with identifier `id`.
pub open spec fn holds_id(history: Seq<MessageModel>, id: Seq<char>) -> bool {
    exists|i: int| 0 <= i < history.len() && (#[trigger] history[i]).id == id
}

/// The newest messages of `history`, as many as the relay keeps.
pub open spec fn newest(history: Seq<MessageModel>) -> Seq<MessageModel> {
    if history.len() <= MAX_STORED_MESSAGES {
        history
    } else {
        history.skip(history.len() - MAX_STORED_MESSAGES)
    }
}

/// The history after the message `m` was stored: unchanged if its identifier is there
/// already, else with `m` at its end and the oldest messages gone that are too many.
pub open spec fn recorded(history: Seq<MessageModel>, m: MessageModel) -> Seq<MessageModel> {
    if holds_id(history, m.id) {
        history
    } else {
        newest(history.push(m))
    }
}

/// The history after `data` came in over gossip: bytes that are no message, and messages
/// whose content is too large, leave it unchanged.
pub open spec fn after(history: Seq<MessageModel>, data: Seq<u8>) -> Seq<MessageModel> {
    match decoded(data) {
        Some(m) => if within_limit(m.content) {
            recorded(history, m)
        } else {
            history
        },
        None => history,
    }
}

/// The history after each of `incoming` came in over gossip, in this order.
pub open spec fn after_all(history: Seq<MessageModel>, incoming: Seq<Seq<u8>>) -> Seq<MessageModel>
    decreases incoming.len(),
{
    if incoming.len() == 0 {
        history
    } else {
        after(after_all(history, incoming.drop_last()), incoming.last())
    }
}

/// Whether no two messages of `history` have the same identifier.
pub open spec fn ids_distinct(history: Seq<MessageModel>) -> bool {
    forall|i: int, j: int|
        0 <= i < j < history.len() ==> (#[trigger] history[i]).id != (#[trigger] history[j]).id
}

/// Whether no message of `history` is too large.
pub open spec fn contents_fit(history: Seq<MessageModel>) -> bool {
    forall|i: int| 0 <= i < history.len() ==> within_limit((#[trigger] history[i]).content)
}

/// What holds of every history that a relay has built: it is bounded, holds no message
/// twice, and no message that is too large.
pub open spec fn well_kept(history: Seq<MessageModel>) -> bool {
    &&& history.len() <= MAX_STORED_MESSAGES
    &&& ids_distinct(history)
    &&& contents_fit(history)
}

/// What happens to a relay. `P` stands for whatever identifies a peer.
#[derive(Clone, Debug, PartialEq, Eq)]
pub enum RelayEvent<P> {
    /// Bytes came in over gossip.
    Message(Vec<u8>),
    /// A peer subscribed to a topic.
    Subscribed { peer: P, topic: String },
    /// Anything else.
    Other,
}

/// What a relay does about an event.
#[derive(Clone, Debug, PartialEq, Eq)]
pub enum RelayAction<P> {
    /// Nothing.
    Ignore,
    /// Report that a message was dropped because its content, of `len` bytes, is too large.
    DropOversized { sender: String, len: usize },
    /// Report that a message was received; if `save`, the history changed and is to be saved.
    Received { sender: String, save: bool },
    /// Report that a peer joined the room, with the number of messages in the history. The
    /// history itself is not sent: over gossip it would reach every peer.
    PeerJoined { peer: P, count: usize },
}

/// What a message that came in over gossip makes a relay do.
pub open spec fn is_message_action<P>(
    action: RelayAction<P>,
    history: Seq<MessageModel>,
    data: Seq<u8>,
) -> bool {
    match decoded(data) {
        Some(m) => if within_limit(m.content) {
            action matches RelayAction::Received { sender, save } && sender@ == m.sender_id && save
                == !holds_id(history, m.id)
        } else {
            action matches RelayAction::DropOversized { sender, len } && sender@ == m.sender_id
                && len == encode_utf8(m.content).len()
        },
        None => action is Ignore,
    }
}

/// Whether a relay with the history `before` may answer `event` with `action` and then have
/// the history `next`.
pub open spec fn is_relay_step<P>(
    before: Seq<MessageModel>,
    event: RelayEvent<P>,
    next: Seq<MessageModel>,
    action: RelayAction<P>,
) -> bool {
    match event {
        RelayEvent::Message(data) => next == after(before, data@) && is_message_action(
            action,
            before,
            data@,
        ),
        RelayEvent::Subscribed { peer, topic } => next == before && action == if topic@ == TOPIC@ {
            RelayAction::PeerJoined { peer, count: before.len() as usize }
        } else {
            RelayAction::Ignore
        },
        RelayEvent::Other => next == before && action is Ignore,
    }
}

/// The state of a relay: the messages that it stores, oldest first.
#[derive(Clone, Debug, PartialEq, Eq)]
pub struct Relay {
    pub stored: VecDeque<ChatMessage>,
}

impl View for Relay {
    type V = Seq<MessageModel>;

    open spec fn view(&self) -> Seq<MessageModel> {
        self.stored@.map_values(|m: ChatMessage| m@)
    }
}

/// The history with which a relay starts: the one that was stored, or an empty one where
/// none could be read.
pub fn load_messages(stored: Option<VecDeque<ChatMessage>>) -> (r: Relay)
    ensures
        match stored {
            Some(messages) => r.stored == messages,
            None => r@ == Seq::<MessageModel>::empty(),
        },
{
    let stored = match stored {
        Some(messages) => messages,
        None => VecDeque::new(),
    };
    let r = Relay { stored };
    assert(r.stored@.len() == 0 ==> r@ =~= Seq::<MessageModel>::empty());
    r
}

impl Relay {
    /// Whether a message with identifier `id` is stored.
    fn holds(&self, id: &String) -> (r: bool)
        ensures
            r == holds_id(self@, id@),
            r <==> exists|i: int|
                0 <= i < self.stored@.len() && (#[trigger] self.stored@[i]).id@ == id@,
    {
        proof {
            history_is_what_is_stored(*self);
        }
        let mut i: usize = 0;
        while i < self.stored.len()
            invariant
                i <= self.stored.len(),
                forall|j: int| 0 <= j < i ==> (#[trigger] self@[j]).id != id@,
                forall|j: int| 0 <= j < i ==> (#[trigger] self.stored@[j]).id@ != id@,
            decreases self.stored.len() - i,
        {
            if self.stored[i].id == *id {
                assert(self@[i as int].id == id@);
                return true;
            }
            i = i + 1;
        }
        false
    }

    /// Stores a message, unless one with its identifier is stored already. Returns whether
    /// it was stored.
    pub fn record(&mut self, message: ChatMessage) -> (r: bool)
        ensures
            r == !holds_id(old(self)@, message@.id),
            final(self)@ == recorded(old(self)@, message@),
            r <==> forall|i: int|
                0 <= i < old(self).stored@.len() ==> (#[trigger] old(self).stored@[i]).id@
                    != message.id@,
            !r ==> final(self).stored@ == old(self).stored@,
            r && old(self).stored@.len() < 500 ==> final(self).stored@ == old(self).stored@.push(
                message,
            ),
            r && old(self).stored@.len() >= 500 ==> final(self).stored@ == old(self).stored@.push(
                message,
            ).skip(old(self).stored@.len() - 499),
    {
        if self.holds(&message.id) {
            return false;
        }
        self.stored.push_back(message);
        let ghost pushed = self.stored@;
        assert(self@ =~= old(self)@.push(message@));
        while self.stored.len() > MAX_STORED_MESSAGES
            invariant
                self.stored@.len() <= pushed.len(),
                self.stored@.len() == pushed.len() || self.stored@.len() >= MAX_STORED_MESSAGES,
                self.stored@ == pushed.skip(pushed.len() - self.stored@.len()),
            decreases self.stored.len(),
        {
            self.stored.pop_front();
            assert(self.stored@ =~= pushed.skip(pushed.len() - self.stored@.len()));
        }
        assert(self@ =~= newest(old(self)@.push(message@)));
        assert(pushed.len() <= 500 ==> self.stored@ =~= pushed);
        true
    }

    /// Takes a message that came in over gossip.
    fn receive<P>(&mut self, data: &[u8]) -> (r: RelayAction<P>)
        ensures
            final(self)@ == after(old(self)@, data@),
            is_message_action(r, old(self)@, data@),
    {
        match ChatMessage::decode(data) {
            Ok(message) => {
                let sender = message.sender_id.clone();
                if !fits(message.content.as_str()) {
                    let len: usize = message.content.as_str().as_bytes().len();
                    return RelayAction::DropOversized { sender, len };
                }
                let save = self.record(message);
                RelayAction::Received { sender, save }
            },
            Err(_) => RelayAction::Ignore,
        }
    }

    /// Handles an event: updates the history and says what else is to be done.
    pub fn step<P>(&mut self, event: RelayEvent<P>) -> (r: RelayAction<P>)
        ensures
            is_relay_step(old(self)@, event, final(self)@, r),
            match event {
                RelayEvent::Message(data) => {
                    &&& final(self)@ == after(old(self)@, data@)
                    &&& is_message_action(r, old(self)@, data@)
                },
                RelayEvent::Subscribed { peer, topic } => {
                    &&& final(self)@ == old(self)@
                    &&& r == if topic@ == TOPIC@ {
                        RelayAction::PeerJoined { peer, count: old(self)@.len() as usize }
                    } else {
                        RelayAction::Ignore
                    }
                },
                RelayEvent::Other => final(self)@ == old(self)@ && r is Ignore,
            },
    {
        match event {
            RelayEvent::Message(data) => self.receive(data.as_slice()),
            RelayEvent::Subscribed { peer, topic } => {
                let room: String = TOPIC.to_owned();
                if topic == room {
                    RelayAction::PeerJoined { peer, count: self.stored.len() }
                } else {
                    RelayAction::Ignore
                }
            },
            RelayEvent::Other => RelayAction::Ignore,
        }
    }
}

/// How far the saving of the history has got: the step that is to be taken next.
#[derive(Clone, Copy, Debug, PartialEq, Eq, Structural)]
pub enum SaveStep {
    /// Turn the history into text.
    Serialize,
    /// Write the text to a temporary file.
    WriteTemp,
    /// Put the temporary file in the place of the stored one.
    Rename,
    /// Nothing: the history is saved.
    Done,
    /// Nothing: the text could not be made.
    SerializeFailed,
    /// Nothing: the temporary file could not be written.
    WriteFailed,
    /// Nothing: the stored file could not be replaced.
    RenameFailed,
}

/// The step that follows `step`, depending on whether `step` succeeded.
pub open spec fn following(step: SaveStep, succeeded: bool) -> SaveStep {
    match step {
        SaveStep::Serialize => if succeeded {
            SaveStep::WriteTemp
        } else {
            SaveStep::SerializeFailed
        },
        SaveStep::WriteTemp => if succeeded {
            SaveStep::Rename
        } else {
            SaveStep::WriteFailed
        },
        SaveStep::Rename => if succeeded {
            SaveStep::Done
        } else {
            SaveStep::RenameFailed
        },
        _ => step,
    }
}

/// Goes on with saving the history, by way of a temporary file, so that the stored one is
/// replaced at once or not at all: returns the step that follows `step`.
pub fn save_messages(step: SaveStep, succeeded: bool) -> (r: SaveStep)
    ensures
        r == following(step, succeeded),
{
    match (step, succeeded) {
        (SaveStep::Serialize, true) => SaveStep::WriteTemp,
        (SaveStep::Serialize, false) => SaveStep::SerializeFailed,
        (SaveStep::WriteTemp, true) => SaveStep::Rename,
        (SaveStep::WriteTemp, false) => SaveStep::WriteFailed,
        (SaveStep::Rename, true) => SaveStep::Done,
        (SaveStep::Rename, false) => SaveStep::RenameFailed,
        (other, _) => other,
    }
}

/// The steps of a save, given how each of them turned out, from the first on.
pub open spec fn saved_up_to(outcomes: Seq<bool>) -> SaveStep
    decreases outcomes.len(),
{
    if outcomes.len() == 0 {
        SaveStep::Serialize
    } else {
        following(saved_up_to(outcomes.drop_last()), outcomes.last())
    }
}

/// The stored file is replaced only after the text was made and the temporary file was
/// written, and a save is done only if the replacement succeeded as well.
pub proof fn stored_file_is_replaced_by_a_complete_one(outcomes: Seq<bool>)
    ensures
        saved_up_to(outcomes) == SaveStep::Rename <==> outcomes =~= seq![true, true],
        saved_up_to(outcomes) == SaveStep::Done <==> outcomes.len() >= 3 && outcomes[0]
            && outcomes[1] && outcomes[2],
    decreases outcomes.len(),
{
    reveal_with_fuel(saved_up_to, 4);
    if outcomes.len() > 3 {
        stored_file_is_replaced_by_a_complete_one(outcomes.drop_last());
    }
}

/// The two files that a save touches: what each of them holds, if it is there. They are two
/// as long as the stored one is not itself named like a temporary file.
pub struct Disk {
    pub stored: Option<Seq<char>>,
    pub temp: Option<Seq<char>>,
}

/// Whether a step of saving `text` can turn the files `before` into the files `after`. A
/// write that failed, or was cut short, may leave anything in the temporary file; a rename
/// takes place at once or not at all.
pub open spec fn is_effect(
    step: SaveStep,
    succeeded: bool,
    text: Seq<char>,
    before: Disk,
    after: Disk,
) -> bool {
    match step {
        SaveStep::WriteTemp => after.stored == before.stored && (succeeded ==> after.temp == Some(
            text,
        )),
        SaveStep::Rename => if succeeded {
            after.stored == before.temp && after.temp is None
        } else {
            after == before
        },
        _ => after == before,
    }
}

/// Whether `disks` can be what the files hold at the start of saving `text` and after each of
/// its steps, given how the steps turned out.
pub open spec fn is_save(text: Seq<char>, outcomes: Seq<bool>, disks: Seq<Disk>) -> bool
    decreases outcomes.len(),
{
    if outcomes.len() == 0 {
        disks.len() == 1
    } else {
        &&& disks.len() == outcomes.len() + 1
        &&& is_save(text, outcomes.drop_last(), disks.drop_last())
        &&& is_effect(
            saved_up_to(outcomes.drop_last()),
            outcomes.last(),
            text,
            disks[disks.len() - 2],
            disks.last(),
        )
    }
}

/// At every moment of a save the stored file holds what it held before, or all of the new
/// text: the new text if the save is done, and else what it held before.
pub proof fn stored_file_is_never_half_written(
    text: Seq<char>,
    outcomes: Seq<bool>,
    disks: Seq<Disk>,
)
    requires
        is_save(text, outcomes, disks),
    ensures
        disks.last().stored == if saved_up_to(outcomes) == SaveStep::Done {
            Some(text)
        } else {
            disks[0].stored
        },
        saved_up_to(outcomes) == SaveStep::Rename ==> disks.last().temp == Some(text),
        forall|i: int|
            0 <= i < disks.len() ==> (#[trigger] disks[i]).stored == disks[0].stored
                || disks[i].stored == Some(text),
    decreases outcomes.len(),
{
    if outcomes.len() > 0 {
        let earlier = disks.drop_last();
        stored_file_is_never_half_written(text, outcomes.drop_last(), earlier);
        assert(earlier.last() == disks[disks.len() - 2]);
        assert forall|i: int| 0 <= i < disks.len() implies (#[trigger] disks[i]).stored
            == disks[0].stored || disks[i].stored == Some(text) by {
            if i < disks.len() - 1 {
                assert(earlier[i] == disks[i]);
            }
        }
    }
}

/// A history never exceeds its bound once a message was stored into it, however long it was.
pub proof fn recorded_history_is_bounded(history: Seq<MessageModel>, m: MessageModel)
    ensures
        !holds_id(history, m.id) ==> recorded(history, m).len() <= MAX_STORED_MESSAGES,
        recorded(history, m).len() <= MAX_STORED_MESSAGES || recorded(history, m) == history,
{
}

/// A message that is stored anew is the newest of the history, and the messages before it
/// are the newest that were there, in their order.
pub proof fn recorded_message_is_newest(history: Seq<MessageModel>, m: MessageModel)
    requires
        !holds_id(history, m.id),
    ensures
        recorded(history, m).len() > 0,
        recorded(history, m).last() == m,
        recorded(history, m).drop_last() == history.skip(
            history.len() - (recorded(history, m).len() - 1),
        ),
{
    assert(recorded(history, m).drop_last() =~= history.skip(
        history.len() - (recorded(history, m).len() - 1),
    ));
}

/// When the history is full, storing a new message drops exactly the oldest one.
pub proof fn full_history_drops_the_oldest(history: Seq<MessageModel>, m: MessageModel)
    requires
        history.len() == MAX_STORED_MESSAGES,
        !holds_id(history, m.id),
    ensures
        recorded(history, m) == history.drop_first().push(m),
{
    assert(recorded(history, m) =~= history.drop_first().push(m));
}

/// Storing a message keeps the identifiers distinct.
pub proof fn recording_keeps_ids_distinct(history: Seq<MessageModel>, m: MessageModel)
    requires
        ids_distinct(history),
    ensures
        ids_distinct(recorded(history, m)),
{
    let next = recorded(history, m);
    if !holds_id(history, m.id) {
        let pushed = history.push(m);
        let cut = pushed.len() - next.len();
        assert forall|i: int, j: int| 0 <= i < j < next.len() implies (#[trigger] next[i]).id != (
        #[trigger] next[j]).id by {
            assert(next[i] == pushed[i + cut] && next[j] == pushed[j + cut]);
            assert(pushed[i + cut] == history[i + cut]);
        }
    }
}

/// A relay that starts with an empty history has a well-kept one.
pub proof fn empty_history_is_well_kept()
    ensures
        well_kept(Seq::empty()),
{
}

/// Whatever comes in over gossip, and however long the history is, its identifiers stay
/// distinct.
pub proof fn ids_stay_distinct(history: Seq<MessageModel>, incoming: Seq<Seq<u8>>)
    requires
        ids_distinct(history),
    ensures
        ids_distinct(after_all(history, incoming)),
    decreases incoming.len(),
{
    if incoming.len() > 0 {
        let before = after_all(history, incoming.drop_last());
        ids_stay_distinct(history, incoming.drop_last());
        if let Some(m) = decoded(incoming.last()) {
            recording_keeps_ids_distinct(before, m);
        }
    }
}

/// Whatever comes in over gossip, and however long the history is, no message that is too
/// large gets into it.
pub proof fn contents_stay_within_the_limit(history: Seq<MessageModel>, incoming: Seq<Seq<u8>>)
    requires
        contents_fit(history),
    ensures
        contents_fit(after_all(history, incoming)),
    decreases incoming.len(),
{
    if incoming.len() > 0 {
        let before = after_all(history, incoming.drop_last());
        let next = after_all(history, incoming);
        contents_stay_within_the_limit(history, incoming.drop_last());
        if let Some(m) = decoded(incoming.last()) {
            if within_limit(m.content) && !holds_id(before, m.id) {
                let pushed = before.push(m);
                let cut = pushed.len() - next.len();
                assert forall|i: int| 0 <= i < next.len() implies within_limit(
                    (#[trigger] next[i]).content,
                ) by {
                    assert(next[i] == pushed[i + cut]);
                }
            }
        }
    }
}

/// Whatever comes in over gossip, the history does not grow past its bound, nor past the
/// length with which it was loaded if that is greater; and once a new message was stored, it
/// is within its bound.
pub proof fn history_stays_bounded(history: Seq<MessageModel>, incoming: Seq<Seq<u8>>)
    ensures
        after_all(history, incoming) == history || after_all(history, incoming).len()
            <= MAX_STORED_MESSAGES,
    decreases incoming.len(),
{
    if incoming.len() > 0 {
        history_stays_bounded(history, incoming.drop_last());
    }
}

/// Whatever has come in over gossip since the relay started with a well-kept history, its
/// history is well kept.
pub proof fn every_history_is_well_kept(history: Seq<MessageModel>, incoming: Seq<Seq<u8>>)
    requires
        well_kept(history),
    ensures
        well_kept(after_all(history, incoming)),
{
    ids_stay_distinct(history, incoming);
    contents_stay_within_the_limit(history, incoming);
    history_stays_bounded(history, incoming);
}

/// The history is to be saved exactly when it has changed.
pub proof fn history_is_saved_when_it_changes<P>(
    action: RelayAction<P>,
    history: Seq<MessageModel>,
    data: Seq<u8>,
)
    requires
        is_message_action(action, history, data),
    ensures
        (action matches RelayAction::Received { save, .. } && save) <==> after(history, data)
            != history,
{
    if let Some(m) = decoded(data) {
        if within_limit(m.content) && !holds_id(history, m.id) {
            recorded_message_is_newest(history, m);
            if after(history, data) == history {
                assert(history[history.len() - 1].id == m.id);
            }
        }
    }
}

/// Receiving the same bytes again changes nothing.
pub proof fn repeated_message_is_stored_once(history: Seq<MessageModel>, data: Seq<u8>)
    ensures
        after(after(history, data), data) == after(history, data),
{
    if let Some(m) = decoded(data) {
        if !holds_id(history, m.id) {
            let next = recorded(history, m);
            recorded_message_is_newest(history, m);
            assert(next[next.len() - 1].id == m.id);
        }
    }
}

/// A message that a node publishes, if its content is within the limit and its identifier
/// is not there yet, becomes the newest message of the history, as it was composed.
pub proof fn published_message_is_stored(
    history: Seq<MessageModel>,
    sender: Seq<char>,
    content: Seq<char>,
    id: Seq<char>,
    timestamp: u64,
)
    requires
        within_limit(content),
        outgoing(sender, content, id, timestamp).encodable(),
        !holds_id(history, id),
    ensures
        after(history, encoded(outgoing(sender, content, id, timestamp))).len() > 0,
        after(history, encoded(outgoing(sender, content, id, timestamp))).last() == outgoing(
            sender,
            content,
            id,
            timestamp,
        ),
{
    let m = outgoing(sender, content, id, timestamp);
    crate::chat::published_message_arrives(sender, content, id, timestamp);
    recorded_message_is_newest(history, m);
}

/// The history of a relay is, message by message and member by member, what it has stored.
pub proof fn history_is_what_is_stored(relay: Relay)
    ensures
        relay@.len() == relay.stored@.len(),
        forall|i: int|
            0 <= i < relay.stored@.len() ==> {
                &&& (#[trigger] relay@[i]).id == relay.stored@[i].id@
                &&& relay@[i].sender_id == relay.stored@[i].sender_id@
                &&& relay@[i].recipient_id == relay.stored@[i].recipient_id@
                &&& relay@[i].content == relay.stored@[i].content@
                &&& relay@[i].timestamp == relay.stored@[i].timestamp
            },
{
}

/// A message whose identifier is that of a stored one changes nothing.
pub proof fn known_message_changes_nothing(history: Seq<MessageModel>, m: MessageModel, i: int)
    requires
        0 <= i < history.len(),
        history[i].id == m.id,
    ensures
        recorded(history, m) == history,
{
}

/// Storing a message with a new identifier into a history of fewer than 500 messages loses
/// nothing: the history is then the old one with the message at its end. A longer one loses
/// its oldest messages, so many that 500 are left. Either way each message that is left is
/// as it was and in its place before the new one.
pub proof fn new_message_costs_no_more_than_its_place(
    history: Seq<MessageModel>,
    m: MessageModel,
)
    requires
        forall|i: int| 0 <= i < history.len() ==> (#[trigger] history[i]).id != m.id,
    ensures
        recorded(history, m).len() == if history.len() < 500 {
            history.len() + 1
        } else {
            500
        },
        recorded(history, m).last() == m,
        history.len() < 500 ==> recorded(history, m) == history.push(m),
        forall|k: int|
            1 <= k < recorded(history, m).len() ==> recorded(history, m)[recorded(history, m).len()
                - 1 - k] == #[trigger] history[history.len() - k],
{
    assert(!holds_id(history, m.id));
}

/// Bytes leave the history as it is if they are no message, if its content takes more than
/// 4096 bytes, or if a stored message has its identifier. Any other message is then the
/// newest one, and the history has grown by it, or still has 500 messages.
pub proof fn incoming_message_is_stored_or_changes_nothing(
    history: Seq<MessageModel>,
    data: Seq<u8>,
)
    ensures
        decoded(data) is None ==> after(history, data) == history,
        decoded(data) matches Some(m) ==> {
            let known = exists|i: int| 0 <= i < history.len() && (#[trigger] history[i]).id == m.id;
            let next = after(history, data);
            &&& encode_utf8(m.content).len() > 4096 || known ==> next == history
            &&& encode_utf8(m.content).len() <= 4096 && !known ==> {
                &&& next.last() == m
                &&& history.len() < 500 ==> next == history.push(m)
                &&& history.len() >= 500 ==> next == history.push(m).skip(history.len() - 499)
            }
        },
{
    if let Some(m) = decoded(data) {
        let known = exists|i: int| 0 <= i < history.len() && (#[trigger] history[i]).id == m.id;
        if !known {
            new_message_costs_no_more_than_its_place(history, m);
        }
    }
}

/// A relay that gets messages within the limit, each under an identifier of its own, has the
/// last 500 of all that it had and got, in order, and loses none as long as these are no
/// more.
pub proof fn history_is_the_last_messages(
    history: Seq<MessageModel>,
    incoming: Seq<Seq<u8>>,
    messages: Seq<MessageModel>,
)
    requires
        history.len() <= 500,
        incoming.len() == messages.len(),
        forall|i: int|
            0 <= i < incoming.len() ==> decoded(#[trigger] incoming[i]) == Some(messages[i]),
        forall|i: int|
            0 <= i < messages.len() ==> encode_utf8((#[trigger] messages[i]).content).len() <= 4096,
        forall|i: int, j: int|
            0 <= i < j < history.len() + messages.len() ==> (#[trigger] (history + messages)[i]).id
                != (#[trigger] (history + messages)[j]).id,
    ensures
        history.len() + messages.len() <= 500 ==> after_all(history, incoming) == history
            + messages,
        history.len() + messages.len() > 500 ==> after_all(history, incoming) == (history
            + messages).skip(history.len() + messages.len() - 500),
    decreases incoming.len(),
{
    let all = history + messages;
    if incoming.len() == 0 {
        assert(all =~= history);
    } else {
        let fewer = history + messages.drop_last();
        let before = after_all(history, incoming.drop_last());
        let m = messages.last();
        assert(all =~= fewer.push(m));
        assert forall|i: int, j: int| 0 <= i < j < fewer.len() implies (#[trigger] fewer[i]).id != (
        #[trigger] fewer[j]).id by {
            assert(fewer[i] == all[i] && fewer[j] == all[j]);
        }
        assert forall|i: int| 0 <= i < incoming.drop_last().len() implies decoded(
            #[trigger] incoming.drop_last()[i],
        ) == Some(messages.drop_last()[i]) by {
            assert(incoming.drop_last()[i] == incoming[i]);
        }
        history_is_the_last_messages(history, incoming.drop_last(), messages.drop_last());
        assert(decoded(incoming[incoming.len() - 1]) == Some(m));
        assert(messages[messages.len() - 1] == m);
        let cut = fewer.len() - before.len();
        assert forall|i: int| 0 <= i < before.len() implies (#[trigger] before[i]).id != m.id by {
            assert(before[i] == fewer[i + cut]);
            assert(all[i + cut] == fewer[i + cut]);
            assert(all[all.len() - 1] == m);
        }
        new_message_costs_no_more_than_its_place(before, m);
        incoming_message_is_stored_or_changes_nothing(before, incoming.last());
        if all.len() <= 500 {
            assert(after_all(history, incoming) =~= all);
        } else {
            assert(after_all(history, incoming) =~= all.skip(all.len() - 500));
        }
    }
}

/// What a relay reports about bytes that came in: nothing if they are no message, else its
/// sender. If the content takes more than 4096 bytes, it reports how many and drops the
/// message; if not, the history is to be saved exactly if no stored message has its
/// identifier.
pub proof fn relay_reports_the_sender<P>(
    action: RelayAction<P>,
    history: Seq<MessageModel>,
    data: Seq<u8>,
)
    requires
        is_message_action(action, history, data),
    ensures
        decoded(data) is None <==> action is Ignore,
        decoded(data) matches Some(m) ==> {
            &&& encode_utf8(m.content).len() > 4096 ==> (action matches RelayAction::DropOversized {
                sender,
                len,
            } && sender@ == m.sender_id && len == encode_utf8(m.content).len())
            &&& encode_utf8(m.content).len() <= 4096 ==> (action matches RelayAction::Received {
                sender,
                save,
            } && sender@ == m.sender_id && (save <==> forall|i: int|
                0 <= i < history.len() ==> (#[trigger] history[i]).id != m.id))
        },
{
}

/// Only a message can change the history. A peer that subscribes to the room is reported
/// with the number of stored messages, and nothing is done about any other topic or event.
pub proof fn only_messages_change_the_history<P>(
    before: Seq<MessageModel>,
    event: RelayEvent<P>,
    next: Seq<MessageModel>,
    action: RelayAction<P>,
)
    requires
        before.len() <= usize::MAX,
        is_relay_step(before, event, next, action),
    ensures
        !(event is Message) ==> next == before,
        event matches RelayEvent::Subscribed { peer, topic } ==> {
            &&& topic@ == "global-chat"@ ==> (action matches RelayAction::PeerJoined {
                peer: p,
                count,
            } && p == peer && count == before.len())
            &&& topic@ != "global-chat"@ ==> action is Ignore
        },
        event is Other ==> action is Ignore,
        event matches RelayEvent::Message(data) ==> {
            &&& decoded(data@) is None <==> action is Ignore
            &&& !(action is PeerJoined)
            &&& (action matches RelayAction::Received { save, .. } && save) <==> next != before
        },
{
    if let RelayEvent::Message(data) = event {
        history_is_saved_when_it_changes(action, before, data@);
    }
}

/// A save that fails ends at the first step that fails, with that failure, however it goes
/// on; and one of which no step has failed is at the step that comes next.
pub proof fn save_ends_at_the_first_failure(outcomes: Seq<bool>)
    ensures
        outcomes.len() == 0 ==> saved_up_to(outcomes) == SaveStep::Serialize,
        outcomes.len() == 1 && outcomes[0] ==> saved_up_to(outcomes) == SaveStep::WriteTemp,
        outcomes.len() == 2 && outcomes[0] && outcomes[1] ==> saved_up_to(outcomes)
            == SaveStep::Rename,
        outcomes.len() >= 3 && outcomes[0] && outcomes[1] && outcomes[2] ==> saved_up_to(outcomes)
            == SaveStep::Done,
        outcomes.len() >= 1 && !outcomes[0] ==> saved_up_to(outcomes) == SaveStep::SerializeFailed,
        outcomes.len() >= 2 && outcomes[0] && !outcomes[1] ==> saved_up_to(outcomes)
            == SaveStep::WriteFailed,
        outcomes.len() >= 3 && outcomes[0] && outcomes[1] && !outcomes[2] ==> saved_up_to(outcomes)
            == SaveStep::RenameFailed,
    decreases outcomes.len(),
{
    reveal_with_fuel(saved_up_to, 4);
    if outcomes.len() > 3 {
        save_ends_at_the_first_failure(outcomes.drop_last());
    }
}

} // verus!
