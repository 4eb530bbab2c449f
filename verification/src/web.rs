//! The browser node: when it may be started and used, and what it does about each thing
//! that happens to it.

use crate::address::{decimal, decimal_text, parse_address, parsed_address};
use crate::chat::{fits, fresh_payload, is_payload, is_uuid_v4, within_limit};
use crate::identity::{is_peer_id, peer_id_takes_few_bytes};
use crate::message::{decoded, ChatMessage, MessageTooLong};
use crate::node::{
    carries, carries_content, is_node_action, pending, sendable, NodeAction, NodeEvent,
};
use vstd::prelude::*;
use vstd::string::StringExecFns;
use vstd::utf8::encode_utf8;

verus! {

/// What the page is told when it starts a node that is already there.
pub const ALREADY_STARTED: &'static str =
    "Chat node already started. Reload the page to reconnect.";

/// What stands before the reason when the relay's address is no multiaddress.
pub const INVALID_RELAY_PREFIX: &'static str = "Invalid relay address: ";

/// What the page is told when it sends a message before it has started a node.
pub const NOT_STARTED: &'static str = "Node not started";

/// What stands before the size in the warning about a message that is too large.
pub const TOO_LARGE_PREFIX: &'static str = "Message too large (";

/// What stands behind the size in the warning about a message that is too large.
pub const TOO_LARGE_SUFFIX: &'static str = " bytes), dropping";

/// What the page is told when it sends a message to a node that has stopped.
pub const DISCONNECTED: &'static str = "TrySendError { kind: Disconnected }";

/// Why a node cannot be started.
#[derive(Clone, Debug, PartialEq, Eq)]
pub enum StartError {
    /// There is a node already.
    AlreadyStarted,
    /// The address of the relay is no multiaddress; `reason` says what is wrong with it.
    InvalidRelayAddress { reason: String },
}

/// Why a message cannot be sent.
#[derive(Clone, Copy, Debug, PartialEq, Eq, Structural)]
pub enum SendError {
    /// No node was started.
    NotStarted,
    /// The node has stopped.
    Disconnected,
}

/// What the page has done so far.
#[derive(Clone, Copy, Debug, PartialEq, Eq, Structural)]
pub struct Session {
    /// Whether a node was started.
    pub started: bool,
}

/// The warning about a message of `len` bytes.
pub open spec fn too_large_warning(len: nat) -> Seq<char> {
    TOO_LARGE_PREFIX@ + decimal(len) + TOO_LARGE_SUFFIX@
}

/// Whether `r` is the answer to a page that starts a node with the relay at `address`.
pub open spec fn is_start_answer(
    r: Result<(), StartError>,
    session: Session,
    address: Seq<char>,
) -> bool {
    match r {
        Ok(()) => !session.started && parsed_address(address) is Ok,
        Err(StartError::AlreadyStarted) => session.started,
        Err(StartError::InvalidRelayAddress { reason }) => !session.started && parsed_address(
            address,
        ) == Err::<Seq<Option<Seq<char>>>, Seq<char>>(reason@),
    }
}

/// The session after a node was told to dial its relay.
pub open spec fn after_dial(session: Session, accepted: bool) -> Session {
    Session { started: session.started || accepted }
}

/// The answer to a page that sends a message, where `listening` says whether the node, if one
/// was started, still takes messages.
pub open spec fn send_answer(session: Session, content: String, listening: bool) -> Result<
    String,
    SendError,
> {
    if !session.started {
        Err(SendError::NotStarted)
    } else if !listening {
        Err(SendError::Disconnected)
    } else {
        Ok(content)
    }
}

/// Whether a node may be started: only if there is none yet, and if the relay's address is a
/// multiaddress. What is wrong with the address matters only if there is no node yet.
pub fn start_chat(session: &Session, relay_addr: &str) -> (r: Result<(), StartError>)
    ensures
        is_start_answer(r, *session, relay_addr@),
{
    if session.started {
        return Err(StartError::AlreadyStarted);
    }
    match parse_address(relay_addr) {
        Ok(_) => Ok(()),
        Err(reason) => Err(StartError::InvalidRelayAddress { reason }),
    }
}

/// Takes note of whether the node could dial its relay: if it could, it is started from then
/// on, and if not, nothing changes.
pub fn dialed(session: &mut Session, accepted: bool)
    ensures
        *final(session) == after_dial(*old(session), accepted),
{
    if accepted {
        session.started = true;
    }
}

/// What the page is told about a node that cannot be started.
pub fn start_error_text(error: &StartError) -> (r: String)
    ensures
        r@ == (match *error {
            StartError::AlreadyStarted => ALREADY_STARTED@,
            StartError::InvalidRelayAddress { reason } => INVALID_RELAY_PREFIX@ + reason@,
        }),
{
    match error {
        StartError::AlreadyStarted => ALREADY_STARTED.to_owned(),
        StartError::InvalidRelayAddress { reason } => INVALID_RELAY_PREFIX.to_owned().concat(
            reason.as_str(),
        ),
    }
}

/// What is handed to the node when the page sends a message: the message as it is, whatever
/// it holds, if a node was started and still takes messages.
pub fn send_message(session: &Session, content: String, listening: bool) -> (r: Result<
    String,
    SendError,
>)
    ensures
        r == send_answer(*session, content, listening),
{
    if !session.started {
        Err(SendError::NotStarted)
    } else if !listening {
        Err(SendError::Disconnected)
    } else {
        Ok(content)
    }
}

/// What the page is told about a message that cannot be sent.
pub fn send_error_text(error: SendError) -> (r: String)
    ensures
        r@ == (match error {
            SendError::NotStarted => NOT_STARTED@,
            SendError::Disconnected => DISCONNECTED@,
        }),
{
    match error {
        SendError::NotStarted => NOT_STARTED.to_owned(),
        SendError::Disconnected => DISCONNECTED.to_owned(),
    }
}

/// Something that a page does.
pub enum PageCall {
    /// It starts a node with the relay at `address`; `accepted` says whether the node, if it
    /// gets that far, can dial the relay.
    Start { address: Seq<char>, accepted: bool },
    /// It sends a message; `listening` says whether the node, if one was started, still takes
    /// messages.
    Send { content: String, listening: bool },
}

/// The session after a page has done all this.
pub open spec fn session_after(calls: Seq<PageCall>) -> Session
    decreases calls.len(),
{
    if calls.len() == 0 {
        Session { started: false }
    } else {
        let before = session_after(calls.drop_last());
        if starts_node(before, calls.last()) {
            after_dial(before, true)
        } else {
            before
        }
    }
}

/// Whether a page starts a node with this call: there is none yet, the address is a
/// multiaddress, and the relay can be dialed.
pub open spec fn starts_node(session: Session, call: PageCall) -> bool {
    call matches PageCall::Start { address, accepted } && accepted && !session.started
        && parsed_address(address) is Ok
}

/// The messages that were handed to the node when a page has done all this.
pub open spec fn queued(calls: Seq<PageCall>) -> Seq<Seq<char>>
    decreases calls.len(),
{
    if calls.len() == 0 {
        Seq::empty()
    } else {
        let before = queued(calls.drop_last());
        match calls.last() {
            PageCall::Send { content, listening } => match send_answer(
                session_after(calls.drop_last()),
                content,
                listening,
            ) {
                Ok(handed) => before.push(handed@),
                Err(_) => before,
            },
            PageCall::Start { .. } => before,
        }
    }
}

/// What happens to a browser node.
#[derive(Clone, Debug, PartialEq, Eq)]
pub enum WebEvent {
    /// The page sent a message.
    Line(String),
    /// The clock was read for a message that is to be sent, in milliseconds since the Unix
    /// epoch.
    Stamped { content: String, millis: u64 },
    /// Bytes came in over gossip.
    Message(Vec<u8>),
    /// Anything else.
    Other,
}

/// What a browser node does about an event.
#[derive(Clone, Debug, PartialEq, Eq)]
pub enum WebAction {
    /// Nothing.
    Ignore,
    /// Warn that a message was dropped because it is too large.
    WarnTooLarge { text: String },
    /// Read the clock, to send the message.
    ReadClock { content: String },
    /// Publish the bytes under the topic.
    Publish(Vec<u8>),
    /// Hand a message to the page, with this node's peer id, so that the page can tell its
    /// own messages.
    Deliver { peer_id: String, sender: String, content: String },
}

/// What the bytes that are to be published for a message make a browser node do.
pub open spec fn is_web_publication(
    action: WebAction,
    payload: Result<Vec<u8>, MessageTooLong>,
) -> bool {
    match payload {
        Ok(bytes) => action == WebAction::Publish(bytes),
        Err(_) => action is Ignore,
    }
}

/// What a browser node with peer id `peer_id` does about an event.
pub open spec fn is_web_action(action: WebAction, peer_id: Seq<char>, event: WebEvent) -> bool {
    match event {
        WebEvent::Line(content) => if within_limit(content@) {
            action == (WebAction::ReadClock { content })
        } else {
            action matches WebAction::WarnTooLarge { text } && text@ == too_large_warning(
                encode_utf8(content@).len(),
            )
        },
        WebEvent::Stamped { content, millis } => exists|
            id: Seq<char>,
            payload: Result<Vec<u8>, MessageTooLong>,
        | #[trigger]
            is_uuid_v4(id) && #[trigger] is_payload(payload, peer_id, content@, id, millis / 1000)
                && is_web_publication(action, payload),
        WebEvent::Message(data) => match decoded(data@) {
            Some(m) => action matches WebAction::Deliver { peer_id: own, sender, content } && own@
                == peer_id && sender@ == m.sender_id && content@ == m.content,
            None => action is Ignore,
        },
        WebEvent::Other => action is Ignore,
    }
}

/// What the bytes that are to be published for a message make a browser node do.
pub fn web_publication(payload: Result<Vec<u8>, MessageTooLong>) -> (r: WebAction)
    ensures
        is_web_publication(r, payload),
{
    match payload {
        Ok(bytes) => WebAction::Publish(bytes),
        Err(_) => WebAction::Ignore,
    }
}

/// What a browser node with peer id `peer_id` does about an event. A message that is too
/// large is dropped; every other one is sent under a fresh identifier.
pub fn web_step(peer_id: &str, event: WebEvent) -> (r: WebAction)
    ensures
        is_web_action(r, peer_id@, event),
{
    match event {
        WebEvent::Line(content) => {
            if fits(content.as_str()) {
                WebAction::ReadClock { content }
            } else {
                let len: usize = content.as_str().as_bytes().len();
                let size = TOO_LARGE_PREFIX.to_owned().concat(decimal_text(len as u64).as_str());
                WebAction::WarnTooLarge { text: size.concat(TOO_LARGE_SUFFIX) }
            }
        },
        WebEvent::Stamped { content, millis } => {
            web_publication(fresh_payload(peer_id, content, millis / 1000))
        },
        WebEvent::Message(data) => match ChatMessage::decode(data.as_slice()) {
            Ok(message) => WebAction::Deliver {
                peer_id: peer_id.to_owned(),
                sender: message.sender_id,
                content: message.content,
            },
            Err(_) => WebAction::Ignore,
        },
        WebEvent::Other => WebAction::Ignore,
    }
}

/// What a browser node publishes for a message decodes to that message, with the node as its
/// sender and the time in whole seconds.
pub proof fn published_web_message_carries_the_message(
    action: WebAction,
    peer_id: Seq<char>,
    content: String,
    millis: u64,
)
    requires
        is_web_action(action, peer_id, WebEvent::Stamped { content, millis }),
    ensures
        action is Publish || action is Ignore,
        action matches WebAction::Publish(data) ==> carries(
            data@,
            peer_id,
            content@,
            millis / 1000,
        ),
{
    let (id, payload) = choose|id: Seq<char>, payload: Result<Vec<u8>, MessageTooLong>|
        #[trigger] is_uuid_v4(id) && #[trigger] is_payload(
            payload,
            peer_id,
            content@,
            id,
            millis / 1000,
        ) && is_web_publication(action, payload);
    crate::chat::payload_decodes_to_its_message(payload, peer_id, content@, id, millis / 1000);
}

/// A browser node and a terminal node understand each other: a line that one goes on to send
/// the other would send too, and what either of them receives, it takes for the same message.
pub proof fn browser_and_terminal_agree<P, A>(
    web_line: WebAction,
    node_line: NodeAction<P, A>,
    line: String,
    web_message: WebAction,
    node_message: NodeAction<P, A>,
    data: Vec<u8>,
    web_peer: Seq<char>,
    node_peer: Seq<char>,
)
    requires
        is_web_action(web_line, web_peer, WebEvent::Line(line)),
        is_node_action(node_line, node_peer, NodeEvent::Line(line)),
        is_web_action(web_message, web_peer, WebEvent::Message(data)),
        is_node_action(node_message, node_peer, NodeEvent::Message(data)),
    ensures
        web_line is ReadClock <==> node_line is ReadClock,
        web_message is Deliver <==> node_message is Show,
        web_message matches WebAction::Deliver { sender: ws, content: wc, .. } ==> node_message
            matches NodeAction::Show { sender: ns, content: nc } && ws@ == ns@ && wc@ == nc@,
{
}

/// Once a node was started, there is one for good.
pub proof fn started_session_stays_started(calls: Seq<PageCall>, i: int)
    requires
        0 <= i <= calls.len(),
        session_after(calls.take(i)).started,
    ensures
        session_after(calls).started,
    decreases calls.len(),
{
    if i == calls.len() {
        assert(calls.take(i) =~= calls);
    } else {
        assert(calls.drop_last().take(i) =~= calls.take(i));
        started_session_stays_started(calls.drop_last(), i);
    }
}

/// A node that was refused, or that could not dial its relay, leaves no trace: the page can
/// start one again.
pub proof fn failed_start_changes_nothing(
    calls: Seq<PageCall>,
    address: Seq<char>,
    accepted: bool,
    answer: Result<(), StartError>,
)
    requires
        is_start_answer(answer, session_after(calls), address),
        answer is Err || !accepted,
    ensures
        session_after(calls.push(PageCall::Start { address, accepted })) == session_after(calls),
        queued(calls.push(PageCall::Start { address, accepted })) == queued(calls),
{
    assert(calls.push(PageCall::Start { address, accepted }).drop_last() =~= calls);
}

/// A page has at most one node: of all that it does, at most one call starts one, and every
/// start after that is refused because there is one.
pub proof fn node_is_started_at_most_once(calls: Seq<PageCall>, i: int, j: int)
    requires
        0 <= i < j < calls.len(),
        starts_node(session_after(calls.take(i)), calls[i]),
    ensures
        !starts_node(session_after(calls.take(j)), calls[j]),
        forall|answer: Result<(), StartError>, address: Seq<char>| #[trigger]
            is_start_answer(answer, session_after(calls.take(j)), address) ==> answer
                == Err::<(), StartError>(StartError::AlreadyStarted),
{
    let upto = calls.take(i + 1);
    assert(upto.drop_last() =~= calls.take(i));
    assert(calls.take(j).take(i + 1) =~= upto);
    started_session_stays_started(calls.take(j), i + 1);
}

/// Until a node was started, no message is handed to one.
pub proof fn nothing_is_queued_before_the_start(calls: Seq<PageCall>)
    requires
        !session_after(calls).started,
    ensures
        queued(calls).len() == 0,
    decreases calls.len(),
{
    if calls.len() > 0 {
        nothing_is_queued_before_the_start(calls.drop_last());
    }
}

/// A message that is accepted is handed to the node once, as it is and behind all that were
/// accepted before; one that is not accepted is not handed to it. What the message holds
/// plays no part in this.
pub proof fn accepted_message_is_queued(
    calls: Seq<PageCall>,
    content: String,
    listening: bool,
    answer: Result<String, SendError>,
)
    requires
        answer == send_answer(session_after(calls), content, listening),
    ensures
        answer is Ok <==> session_after(calls).started && listening,
        queued(calls.push(PageCall::Send { content, listening })) == if answer is Ok {
            queued(calls).push(content@)
        } else {
            queued(calls)
        },
        session_after(calls.push(PageCall::Send { content, listening })) == session_after(calls),
{
    assert(calls.push(PageCall::Send { content, listening }).drop_last() =~= calls);
}

/// What was handed to the node stays handed to it, in the same order.
pub proof fn queue_only_grows(calls: Seq<PageCall>, i: int)
    requires
        0 <= i <= calls.len(),
    ensures
        queued(calls.take(i)).is_prefix_of(queued(calls)),
    decreases calls.len(),
{
    if i == calls.len() {
        assert(calls.take(i) =~= calls);
    } else {
        assert(calls.drop_last().take(i) =~= calls.take(i));
        queue_only_grows(calls.drop_last(), i);
    }
}

/// The message for which a browser node is to read the clock next, at the end of a run.
pub open spec fn web_awaited(run: Seq<(WebEvent, WebAction)>) -> Option<String> {
    if run.len() == 0 {
        None
    } else {
        match run.last().1 {
            WebAction::ReadClock { content } => Some(content),
            _ => None,
        }
    }
}

/// Whether this can be all that happened to a browser node with peer id `peer_id` and all that it
/// did about it, in this order: the clock is read at once when it is asked for, and only
/// then.
pub open spec fn is_web_run(
    peer_id: Seq<char>,
    run: Seq<(WebEvent, WebAction)>,
) -> bool
    decreases run.len(),
{
    if run.len() == 0 {
        true
    } else {
        let before = run.drop_last();
        let (event, action) = run.last();
        &&& is_web_run(peer_id, before)
        &&& is_web_action(action, peer_id, event)
        &&& match (web_awaited(before), event) {
            (Some(awaited), WebEvent::Stamped { content, .. }) => content == awaited,
            (Some(_), _) => false,
            (None, WebEvent::Stamped { .. }) => false,
            (None, _) => true,
        }
    }
}

/// The messages that the page sent during a run, in order.
pub open spec fn web_entered(run: Seq<(WebEvent, WebAction)>) -> Seq<Seq<char>>
    decreases run.len(),
{
    if run.len() == 0 {
        Seq::empty()
    } else {
        match run.last().0 {
            WebEvent::Line(content) => web_entered(run.drop_last()).push(content@),
            _ => web_entered(run.drop_last()),
        }
    }
}

/// What a browser node published during a run, in order.
pub open spec fn web_published(run: Seq<(WebEvent, WebAction)>) -> Seq<Seq<u8>>
    decreases run.len(),
{
    if run.len() == 0 {
        Seq::empty()
    } else {
        match run.last().1 {
            WebAction::Publish(data) => web_published(run.drop_last()).push(data@),
            _ => web_published(run.drop_last()),
        }
    }
}

/// A message within the limit is published whenever the clock can be read.
pub proof fn short_web_message_is_published(
    action: WebAction,
    peer_id: Seq<char>,
    content: String,
    millis: u64,
)
    requires
        is_peer_id(peer_id),
        within_limit(content@),
        is_web_action(action, peer_id, WebEvent::Stamped { content, millis }),
    ensures
        action matches WebAction::Publish(data) && carries(data@, peer_id, content@, millis / 1000),
{
    let (id, payload) = choose|id: Seq<char>, payload: Result<Vec<u8>, MessageTooLong>|
        #[trigger] is_uuid_v4(id) && #[trigger] is_payload(
            payload,
            peer_id,
            content@,
            id,
            millis / 1000,
        ) && is_web_publication(action, payload);
    peer_id_takes_few_bytes(peer_id);
    crate::chat::short_message_can_be_sent(peer_id, content@, id, millis / 1000);
    crate::chat::payload_decodes_to_its_message(payload, peer_id, content@, id, millis / 1000);
}

/// A browser node publishes exactly the messages within the limit, each once and in the order in
/// which the page sent them, and each with its content, from this node. At the end of a run one
/// of them may still wait for the clock.
pub proof fn published_web_messages_are_the_sent_ones(
    peer_id: Seq<char>,
    run: Seq<(WebEvent, WebAction)>,
)
    requires
        is_peer_id(peer_id),
        is_web_run(peer_id, run),
    ensures
        web_published(run).len() == sendable(web_entered(run)).len() - pending(
            web_awaited(run),
        ),
        web_awaited(run) matches Some(content) ==> sendable(web_entered(run)).last()
            == content@ && within_limit(content@),
        forall|i: int|
            0 <= i < web_published(run).len() ==> carries_content(
                #[trigger] web_published(run)[i],
                peer_id,
                sendable(web_entered(run))[i],
            ),
    decreases run.len(),
{
    reveal(Seq::filter);
    if run.len() > 0 {
        let before = run.drop_last();
        let (event, action) = run.last();
        published_web_messages_are_the_sent_ones(peer_id, before);
        match event {
            WebEvent::Line(content) => {
                assert(web_entered(run).drop_last() =~= web_entered(before));
            },
            WebEvent::Stamped { content, millis } => {
                short_web_message_is_published(action, peer_id, content, millis);
                let data = web_published(run).last();
                assert(carries(data, peer_id, content@, millis / 1000));
                assert(carries_content(data, peer_id, content@));
            },
            _ => {},
        }
    }
}

/// Every message that was accepted from the page and is within the limit is published once,
/// as it was and in the order in which the page sent them, when the node has taken all that
/// was handed to it.
pub proof fn accepted_messages_are_published(
    peer_id: Seq<char>,
    run: Seq<(WebEvent, WebAction)>,
    calls: Seq<PageCall>,
)
    requires
        is_peer_id(peer_id),
        is_web_run(peer_id, run),
        web_entered(run) == queued(calls),
        web_awaited(run) is None,
    ensures
        web_published(run).len() == sendable(queued(calls)).len(),
        forall|i: int|
            0 <= i < web_published(run).len() ==> carries_content(
                #[trigger] web_published(run)[i],
                peer_id,
                sendable(queued(calls))[i],
            ),
{
    published_web_messages_are_the_sent_ones(peer_id, run);
}

/// The warning about a message that is too large names its length in bytes: between two
/// fixed texts it holds digits only, which are that length in decimal notation.
pub proof fn warning_names_the_length(len: nat)
    ensures
        too_large_warning(len).len() > 36,
        too_large_warning(len).take(19) == "Message too large ("@,
        too_large_warning(len).skip(too_large_warning(len).len() - 17) == " bytes), dropping"@,
        forall|i: int|
            19 <= i < too_large_warning(len).len() - 17 ==> '0' <= (#[trigger] too_large_warning(
                len,
            )[i]) <= '9',
        crate::address::decimal_value(
            too_large_warning(len).subrange(19, too_large_warning(len).len() - 17),
        ) == len,
{
    let text = too_large_warning(len);
    let digits = decimal(len);
    reveal_strlit("Message too large (");
    reveal_strlit(" bytes), dropping");
    crate::address::decimal_notation_is_digits(len);
    crate::address::decimal_reads_back(len);
    assert(text.take(19) =~= "Message too large ("@);
    assert(text.skip(text.len() - 17) =~= " bytes), dropping"@);
    assert(text.subrange(19, text.len() - 17) =~= digits);
    assert forall|i: int| 19 <= i < text.len() - 17 implies '0' <= (#[trigger] text[i]) <= '9' by {
        assert(text[i] == digits[i - 19]);
    }
}

/// A message of up to 4096 bytes goes on to be sent, as the page sent it; a longer one is
/// dropped with a warning that names its length.
pub proof fn web_message_goes_on_unless_it_is_too_long(
    action: WebAction,
    peer_id: Seq<char>,
    content: String,
)
    requires
        is_web_action(action, peer_id, WebEvent::Line(content)),
    ensures
        encode_utf8(content@).len() <= 4096 ==> (action matches WebAction::ReadClock { content: c }
            && c@ == content@),
        encode_utf8(content@).len() > 4096 ==> action is WarnTooLarge,
        action matches WebAction::WarnTooLarge { text } ==> {
            &&& text@.len() > 36
            &&& text@.take(19) == "Message too large ("@
            &&& text@.skip(text@.len() - 17) == " bytes), dropping"@
            &&& crate::address::decimal_value(text@.subrange(19, text@.len() - 17))
                == encode_utf8(content@).len()
        },
{
    warning_names_the_length(encode_utf8(content@).len());
}

/// What a browser node publishes for a message decodes to a message whose time is the clock
/// reading in whole seconds, whose sender is this node, whose recipient is `global`, whose
/// content is what the page sent, and whose identifier has the form of a UUID. It publishes
/// something for every message of up to 4096 bytes if its own peer id is not longer than
/// that.
pub proof fn published_web_message_has_the_time_it_was_sent(
    action: WebAction,
    peer_id: Seq<char>,
    content: String,
    millis: u64,
)
    requires
        is_web_action(action, peer_id, WebEvent::Stamped { content, millis }),
    ensures
        action is Publish || action is Ignore,
        encode_utf8(peer_id).len() <= 4096 && encode_utf8(content@).len() <= 4096
            ==> action is Publish,
        action matches WebAction::Publish(data) ==> decoded(data@) is Some && {
            let m = decoded(data@).unwrap();
            &&& m.timestamp * 1000 <= millis < m.timestamp * 1000 + 1000
            &&& m.sender_id == peer_id
            &&& m.recipient_id == "global"@
            &&& m.content == content@
            &&& m.id.len() == 36
            &&& m.id[14] == '4'
            &&& crate::chat::gossip_id(data@) == m.id
        },
{
    let (id, payload) = choose|id: Seq<char>, payload: Result<Vec<u8>, MessageTooLong>|
        #[trigger] is_uuid_v4(id) && #[trigger] is_payload(
            payload,
            peer_id,
            content@,
            id,
            millis / 1000,
        ) && is_web_publication(action, payload);
    crate::chat::uuid_has_its_form(id);
    crate::chat::published_members_are_those_given(payload, peer_id, content@, id, millis / 1000);
    if encode_utf8(peer_id).len() <= 4096 && encode_utf8(content@).len() <= 4096 {
        crate::chat::short_line_has_a_payload(payload, peer_id, content@, id, millis / 1000);
    }
    if let WebAction::Publish(data) = action {
        crate::chat::gossip_goes_by_the_message_id(data@, data@);
    }
}

/// Whatever message reaches a browser node is handed to the page, with its sender, its
/// content and the peer id of this node, whoever the sender is. So the page sees two equal
/// peer ids exactly if this node is the sender. Bytes that are no message are passed over.
pub proof fn page_can_tell_its_own_messages(action: WebAction, own_id: Seq<char>, data: Vec<u8>)
    requires
        is_web_action(action, own_id, WebEvent::Message(data)),
    ensures
        action is Deliver <==> decoded(data@) is Some,
        action is Ignore <==> decoded(data@) is None,
        action matches WebAction::Deliver { peer_id, sender, content } ==> {
            let m = decoded(data@).unwrap();
            &&& peer_id@ == own_id
            &&& sender@ == m.sender_id
            &&& content@ == m.content
            &&& peer_id@ == sender@ <==> m.sender_id == own_id
        },
{
}

/// Two browser nodes hand the same message to their pages with the same sender and content,
/// and each with its own peer id: the pages are given equal peer ids only if the nodes have
/// the same.
pub proof fn pages_are_given_their_own_peer_ids(
    action: WebAction,
    other_action: WebAction,
    own_id: Seq<char>,
    other_id: Seq<char>,
    data: Vec<u8>,
)
    requires
        is_web_action(action, own_id, WebEvent::Message(data)),
        is_web_action(other_action, other_id, WebEvent::Message(data)),
    ensures
        action is Deliver <==> other_action is Deliver,
        action matches WebAction::Deliver { peer_id: a, sender: s, content: c } ==> (other_action
            matches WebAction::Deliver { peer_id: b, sender: t, content: d } && s@ == t@ && c@
            == d@ && (a@ == b@ <==> own_id == other_id)),
{
}

/// A browser node does nothing about what is neither a message nor the clock.
pub proof fn browser_node_ignores_the_rest(action: WebAction, peer_id: Seq<char>)
    requires
        is_web_action(action, peer_id, WebEvent::Other),
    ensures
        action is Ignore,
{
}

/// A page that has started a node is told so, whatever address it gives. A page that has not
/// may start one exactly if the address is a multiaddress, and is else told what is wrong
/// with the address.
pub proof fn start_is_answered_by_what_is_there(
    answer: Result<(), StartError>,
    session: Session,
    address: Seq<char>,
)
    requires
        is_start_answer(answer, session, address),
    ensures
        session.started <==> (answer matches Err(StartError::AlreadyStarted)),
        answer is Ok <==> !session.started && parsed_address(address) is Ok,
        answer matches Err(StartError::InvalidRelayAddress { reason }) ==> parsed_address(address)
            == Err::<Seq<Option<Seq<char>>>, Seq<char>>(reason@),
{
}

/// A node that could dial its relay is started, one that was started stays so, and nothing
/// else starts one.
pub proof fn dialing_starts_the_node(session: Session, accepted: bool)
    ensures
        accepted ==> after_dial(session, accepted).started,
        session.started ==> after_dial(session, accepted).started,
        !accepted && !session.started ==> !after_dial(session, accepted).started,
{
}

/// What a page sends is refused as not started exactly if no node was started, as
/// disconnected exactly if one was and has stopped, and is else handed over as it is. What it
/// holds plays no part: any two contents are accepted or refused alike.
pub proof fn every_content_is_answered_alike(
    session: Session,
    content: String,
    other: String,
    listening: bool,
)
    ensures
        !session.started <==> (send_answer(session, content, listening) matches Err(
            SendError::NotStarted,
        )),
        session.started && !listening <==> (send_answer(session, content, listening) matches Err(
            SendError::Disconnected,
        )),
        send_answer(session, content, listening) matches Ok(handed) ==> handed@ == content@,
        send_answer(session, content, listening) is Ok <==> send_answer(
            session,
            other,
            listening,
        ) is Ok,
{
}

} // verus!
