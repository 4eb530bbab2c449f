//! The terminal node: how it starts, and what it does about each thing that happens to it.

use crate::address::{
    first_peer, first_peer_of, listen_address, listen_address_of, parse_address, parsed_address,
    parts_view, text_view,
};
use crate::chat::{
    fits, fresh_payload, gossip_id, is_payload, is_uuid_v4, outgoing, within_limit,
};
use crate::identity::{is_peer_id, peer_id_takes_few_bytes};
use crate::message::{decoded, encoded, ChatMessage, MessageModel, MessageTooLong};
use crate::relay::{after, holds_id};
use vstd::prelude::*;
use vstd::utf8::encode_utf8;

verus! {

/// Seconds after which a node closes an idle connection.
pub const NODE_IDLE_SECONDS: u64 = 60;

/// A relay that a node connects to.
#[derive(Clone, Debug, PartialEq, Eq)]
pub struct RelayTarget {
    /// The address to dial.
    pub address: String,
    /// The peer id of the relay, if the address names one. The node then enters it into its
    /// routing table and bootstraps from it.
    pub peer: Option<String>,
}

/// What a node does when it starts.
#[derive(Clone, Debug, PartialEq, Eq)]
pub struct StartPlan {
    /// The address to listen at.
    pub listen_address: String,
    /// The relay to connect to, if any.
    pub relay: Option<RelayTarget>,
}

/// The address of the relay is no multiaddress.
#[derive(Clone, Copy, Debug, PartialEq, Eq)]
pub struct InvalidRelayAddress;

/// Whether `target` is the relay at `address`, whose components are `parts`.
pub open spec fn is_target(
    target: RelayTarget,
    address: Seq<char>,
    parts: Seq<Option<Seq<char>>>,
) -> bool {
    target.address@ == address && text_view(target.peer) == first_peer_of(parts)
}

/// The relay at `address`, whose components are `parts`.
pub fn relay_target(address: String, parts: &Vec<Option<String>>) -> (r: RelayTarget)
    ensures
        is_target(r, address@, parts_view(parts@)),
{
    RelayTarget { address, peer: first_peer(parts) }
}

/// Whether `r` is right for a node that is to listen at `port` and connect to the relay at
/// `relay_addr`, if one is given.
pub open spec fn is_start(
    r: Result<StartPlan, InvalidRelayAddress>,
    port: u16,
    relay_addr: Option<String>,
) -> bool {
    match r {
        Ok(plan) => {
            &&& plan.listen_address@ == listen_address_of(port)
            &&& match (relay_addr, plan.relay) {
                (Some(address), Some(target)) => parsed_address(address@) matches Ok(parts)
                    && is_target(target, address@, parts),
                (None, None) => true,
                _ => false,
            }
        },
        Err(InvalidRelayAddress) => relay_addr matches Some(address) && parsed_address(
            address@,
        ) is Err,
    }
}

/// Plans the start of a node that listens at `port` (0 for any free one) and connects to the
/// relay at `relay_addr`, if one is given. The relay's address is checked before anything
/// else happens.
pub fn start_node(port: u16, relay_addr: Option<String>) -> (r: Result<
    StartPlan,
    InvalidRelayAddress,
>)
    ensures
        is_start(r, port, relay_addr),
        match r {
            Ok(plan) => {
                &&& plan.listen_address@ == listen_address_of(port)
                &&& match (relay_addr, plan.relay) {
                    (Some(address), Some(target)) => parsed_address(address@) matches Ok(parts)
                        && is_target(target, address@, parts),
                    (None, None) => true,
                    _ => false,
                }
            },
            Err(InvalidRelayAddress) => relay_addr matches Some(address) && parsed_address(
                address@,
            ) is Err,
        },
{
    let relay = match relay_addr {
        Some(address) => match parse_address(address.as_str()) {
            Ok(parts) => Some(relay_target(address, &parts)),
            Err(_) => return Err(InvalidRelayAddress),
        },
        None => None,
    };
    Ok(StartPlan { listen_address: listen_address(port), relay })
}

/// What happens to a node. `P` stands for whatever identifies a peer, `A` for an address.
#[derive(Clone, Debug, PartialEq, Eq)]
pub enum NodeEvent<P, A> {
    /// The user entered a line.
    Line(String),
    /// The clock was read for a line that is to be sent, in seconds since the Unix epoch.
    Stamped { content: String, timestamp: u64 },
    /// A connection to a peer was established.
    Connected { peer: P, address: A },
    /// Bytes came in over gossip.
    Message(Vec<u8>),
    /// Anything else.
    Other,
}

/// What a node does about an event.
#[derive(Clone, Debug, PartialEq, Eq)]
pub enum NodeAction<P, A> {
    /// Nothing.
    Ignore,
    /// Report that a line of `len` bytes was dropped because it is too large.
    WarnTooLarge { len: usize },
    /// Read the clock, to send the line.
    ReadClock { content: String },
    /// Publish the bytes under the topic.
    Publish(Vec<u8>),
    /// Stop with an error: the message cannot be encoded.
    Fail,
    /// Enter the peer's address into the routing table.
    AddAddress { peer: P, address: A },
    /// Show a message to the user.
    Show { sender: String, content: String },
}

/// What the bytes that are to be published for a line make a node do.
pub open spec fn is_publication<P, A>(
    action: NodeAction<P, A>,
    payload: Result<Vec<u8>, MessageTooLong>,
) -> bool {
    match payload {
        Ok(bytes) => action == NodeAction::<P, A>::Publish(bytes),
        Err(_) => action is Fail,
    }
}

/// What a node with peer id `peer_id` does about an event.
pub open spec fn is_node_action<P, A>(
    action: NodeAction<P, A>,
    peer_id: Seq<char>,
    event: NodeEvent<P, A>,
) -> bool {
    match event {
        NodeEvent::Line(content) => if within_limit(content@) {
            action == NodeAction::<P, A>::ReadClock { content }
        } else {
            action matches NodeAction::WarnTooLarge { len } && len == encode_utf8(content@).len()
        },
        NodeEvent::Stamped { content, timestamp } => exists|
            id: Seq<char>,
            payload: Result<Vec<u8>, MessageTooLong>,
        | #[trigger]
            is_uuid_v4(id) && #[trigger] is_payload(payload, peer_id, content@, id, timestamp)
                && is_publication(action, payload),
        NodeEvent::Connected { peer, address } => action == (NodeAction::AddAddress {
            peer,
            address,
        }),
        NodeEvent::Message(data) => match decoded(data@) {
            Some(m) => action matches NodeAction::Show { sender, content } && sender@
                == m.sender_id && content@ == m.content,
            None => action is Ignore,
        },
        NodeEvent::Other => action is Ignore,
    }
}

/// What the bytes that are to be published for a line make a node do.
pub fn publication<P, A>(payload: Result<Vec<u8>, MessageTooLong>) -> (r:
    NodeAction<P, A>)
    ensures
        is_publication(r, payload),
{
    match payload {
        Ok(bytes) => NodeAction::Publish(bytes),
        Err(_) => NodeAction::Fail,
    }
}

/// What a node with peer id `peer_id` does about an event. A line that is too large is
/// dropped before the clock is read; every other line is sent under a fresh identifier.
pub fn node_step<P, A>(peer_id: &str, event: NodeEvent<P, A>) -> (r: NodeAction<P, A>)
    ensures
        is_node_action(r, peer_id@, event),
{
    match event {
        NodeEvent::Line(content) => {
            if fits(content.as_str()) {
                NodeAction::ReadClock { content }
            } else {
                NodeAction::WarnTooLarge { len: content.as_str().as_bytes().len() }
            }
        },
        NodeEvent::Stamped { content, timestamp } => {
            publication(fresh_payload(peer_id, content, timestamp))
        },
        NodeEvent::Connected { peer, address } => NodeAction::AddAddress { peer, address },
        NodeEvent::Message(data) => match ChatMessage::decode(data.as_slice()) {
            Ok(message) => NodeAction::Show {
                sender: message.sender_id,
                content: message.content,
            },
            Err(_) => NodeAction::Ignore,
        },
        NodeEvent::Other => NodeAction::Ignore,
    }
}

/// Whether `data` decodes to a message from `sender` to the room with the given content and
/// time, under an identifier that is a random UUID and identifies `data` in gossip.
pub open spec fn carries(
    data: Seq<u8>,
    sender: Seq<char>,
    content: Seq<char>,
    timestamp: u64,
) -> bool {
    decoded(data) matches Some(m) && m == outgoing(sender, content, m.id, timestamp) && is_uuid_v4(
        m.id,
    ) && gossip_id(data) == m.id
}

/// What a node publishes for a line decodes to that line, with the node as its sender.
pub proof fn published_line_carries_the_line<P, A>(
    action: NodeAction<P, A>,
    peer_id: Seq<char>,
    content: String,
    timestamp: u64,
)
    requires
        is_node_action(action, peer_id, NodeEvent::Stamped { content, timestamp }),
    ensures
        action is Publish || action is Fail,
        action matches NodeAction::Publish(data) ==> carries(data@, peer_id, content@, timestamp),
{
    let (id, payload) = choose|id: Seq<char>, payload: Result<Vec<u8>, MessageTooLong>|
        #[trigger] is_uuid_v4(id) && #[trigger] is_payload(
            payload,
            peer_id,
            content@,
            id,
            timestamp,
        ) && is_publication(action, payload);
    crate::chat::payload_decodes_to_its_message(payload, peer_id, content@, id, timestamp);
}

/// A node shows what another node sent: its sender and its content.
pub proof fn sent_line_is_shown<P, A>(
    action: NodeAction<P, A>,
    receiver: Seq<char>,
    data: Vec<u8>,
    sender: Seq<char>,
    content: Seq<char>,
    id: Seq<char>,
    timestamp: u64,
)
    requires
        outgoing(sender, content, id, timestamp).encodable(),
        data@ == encoded(outgoing(sender, content, id, timestamp)),
        is_node_action(action, receiver, NodeEvent::Message(data)),
    ensures
        action matches NodeAction::Show { sender: s, content: c } && s@ == sender && c@ == content,
{
    crate::chat::published_message_arrives(sender, content, id, timestamp);
}

/// A node sends exactly those lines that a relay stores: a line that it goes on to send is,
/// if its identifier is new, stored as the newest message, and one that it drops would have
/// left the history unchanged.
pub proof fn sent_lines_are_stored_lines<P, A>(
    action: NodeAction<P, A>,
    sender: Seq<char>,
    content: String,
    id: Seq<char>,
    timestamp: u64,
    history: Seq<MessageModel>,
)
    requires
        outgoing(sender, content@, id, timestamp).encodable(),
        is_node_action(action, sender, NodeEvent::Line(content)),
    ensures
        action is ReadClock || action is WarnTooLarge,
        action is ReadClock && !holds_id(history, id) ==> {
            let next = after(history, encoded(outgoing(sender, content@, id, timestamp)));
            next.len() > 0 && next.last() == outgoing(sender, content@, id, timestamp)
        },
        action is WarnTooLarge ==> after(
            history,
            encoded(outgoing(sender, content@, id, timestamp)),
        ) == history,
{
    crate::chat::published_message_arrives(sender, content@, id, timestamp);
    if action is ReadClock && !holds_id(history, id) {
        crate::relay::published_message_is_stored(history, sender, content@, id, timestamp);
    }
}

/// Whether `data` decodes to a message from `sender` to the room with the given content.
pub open spec fn carries_content(data: Seq<u8>, sender: Seq<char>, content: Seq<char>) -> bool {
    exists|timestamp: u64| carries(data, sender, content, timestamp)
}

/// How many lines wait for the clock.
pub open spec fn pending(awaited: Option<String>) -> nat {
    if awaited is Some {
        1
    } else {
        0
    }
}

/// Those of `lines` that are small enough to be sent, in their order.
pub open spec fn sendable(lines: Seq<Seq<char>>) -> Seq<Seq<char>> {
    lines.filter(|line: Seq<char>| within_limit(line))
}

/// The line for which a node is to read the clock next, at the end of a run.
pub open spec fn awaited<P, A>(run: Seq<(NodeEvent<P, A>, NodeAction<P, A>)>) -> Option<String> {
    if run.len() == 0 {
        None
    } else {
        match run.last().1 {
            NodeAction::ReadClock { content } => Some(content),
            _ => None,
        }
    }
}

/// Whether this can be all that happened to a node with peer id `peer_id` and all that it
/// did about it, in this order: the clock is read at once when it is asked for, and only
/// then, and nothing happens once it has stopped.
pub open spec fn is_node_run<P, A>(
    peer_id: Seq<char>,
    run: Seq<(NodeEvent<P, A>, NodeAction<P, A>)>,
) -> bool
    decreases run.len(),
{
    if run.len() == 0 {
        true
    } else {
        let before = run.drop_last();
        let (event, action) = run.last();
        &&& is_node_run(peer_id, before)
        &&& before.len() > 0 ==> !(before.last().1 is Fail)
        &&& is_node_action(action, peer_id, event)
        &&& match (awaited(before), event) {
            (Some(awaited), NodeEvent::Stamped { content, .. }) => content == awaited,
            (Some(_), _) => false,
            (None, NodeEvent::Stamped { .. }) => false,
            (None, _) => true,
        }
    }
}

/// The lines that the user entered during a run, in order.
pub open spec fn entered<P, A>(run: Seq<(NodeEvent<P, A>, NodeAction<P, A>)>) -> Seq<Seq<char>>
    decreases run.len(),
{
    if run.len() == 0 {
        Seq::empty()
    } else {
        match run.last().0 {
            NodeEvent::Line(content) => entered(run.drop_last()).push(content@),
            _ => entered(run.drop_last()),
        }
    }
}

/// What a node published during a run, in order.
pub open spec fn published<P, A>(run: Seq<(NodeEvent<P, A>, NodeAction<P, A>)>) -> Seq<Seq<u8>>
    decreases run.len(),
{
    if run.len() == 0 {
        Seq::empty()
    } else {
        match run.last().1 {
            NodeAction::Publish(data) => published(run.drop_last()).push(data@),
            _ => published(run.drop_last()),
        }
    }
}

/// A line within the limit is published whenever the clock can be read.
pub proof fn short_line_is_published<P, A>(
    action: NodeAction<P, A>,
    peer_id: Seq<char>,
    content: String,
    timestamp: u64,
)
    requires
        is_peer_id(peer_id),
        within_limit(content@),
        is_node_action(action, peer_id, NodeEvent::Stamped { content, timestamp }),
    ensures
        action matches NodeAction::Publish(data) && carries(data@, peer_id, content@, timestamp),
{
    let (id, payload) = choose|id: Seq<char>, payload: Result<Vec<u8>, MessageTooLong>|
        #[trigger] is_uuid_v4(id) && #[trigger] is_payload(
            payload,
            peer_id,
            content@,
            id,
            timestamp,
        ) && is_publication(action, payload);
    peer_id_takes_few_bytes(peer_id);
    crate::chat::short_message_can_be_sent(peer_id, content@, id, timestamp);
    crate::chat::payload_decodes_to_its_message(payload, peer_id, content@, id, timestamp);
}

/// A node publishes exactly the lines within the limit, each once and in the order in
/// which the user entered them, and each with its content, from this node. At the end of a run one
/// of them may still wait for the clock.
pub proof fn published_lines_are_the_entered_ones<P, A>(
    peer_id: Seq<char>,
    run: Seq<(NodeEvent<P, A>, NodeAction<P, A>)>,
)
    requires
        is_peer_id(peer_id),
        is_node_run(peer_id, run),
    ensures
        published(run).len() == sendable(entered(run)).len() - pending(awaited(run)),
        awaited(run) matches Some(content) ==> sendable(entered(run)).last()
            == content@ && within_limit(content@),
        forall|i: int|
            0 <= i < published(run).len() ==> carries_content(
                #[trigger] published(run)[i],
                peer_id,
                sendable(entered(run))[i],
            ),
    decreases run.len(),
{
    reveal(Seq::filter);
    if run.len() > 0 {
        let before = run.drop_last();
        let (event, action) = run.last();
        published_lines_are_the_entered_ones(peer_id, before);
        match event {
            NodeEvent::Line(content) => {
                assert(entered(run).drop_last() =~= entered(before));
            },
            NodeEvent::Stamped { content, timestamp } => {
                short_line_is_published(action, peer_id, content, timestamp);
                let data = published(run).last();
                assert(carries(data, peer_id, content@, timestamp));
                assert(carries_content(data, peer_id, content@));
            },
            _ => {},
        }
    }
}

/// Nothing that happens to a node makes it stop: of all that it does, nothing is to stop with
/// an error.
pub proof fn node_goes_on<P, A>(peer_id: Seq<char>, run: Seq<(NodeEvent<P, A>, NodeAction<P, A>)>)
    requires
        is_peer_id(peer_id),
        is_node_run(peer_id, run),
    ensures
        forall|i: int| 0 <= i < run.len() ==> !((#[trigger] run[i]).1 is Fail),
    decreases run.len(),
{
    if run.len() > 0 {
        let before = run.drop_last();
        let (event, action) = run.last();
        node_goes_on(peer_id, before);
        published_lines_are_the_entered_ones(peer_id, before);
        if let NodeEvent::Stamped { content, timestamp } = event {
            short_line_is_published(action, peer_id, content, timestamp);
        }
        assert forall|i: int| 0 <= i < run.len() implies !((#[trigger] run[i]).1 is Fail) by {
            if i < run.len() - 1 {
                assert(run[i] == before[i]);
            }
        }
    }
}

/// A node starts unless the address of its relay is no multiaddress. It listens at every
/// interface at the very port that was asked for.
pub proof fn node_listens_at_its_port(
    r: Result<StartPlan, InvalidRelayAddress>,
    port: u16,
    relay_addr: Option<String>,
)
    requires
        is_start(r, port, relay_addr),
    ensures
        r is Ok <==> (relay_addr matches Some(address) ==> parsed_address(address@) is Ok),
        r matches Ok(plan) ==> {
            let address = plan.listen_address@;
            &&& address.len() > 17
            &&& address.take(17) == "/ip4/0.0.0.0/tcp/"@
            &&& forall|i: int| 17 <= i < address.len() ==> '0' <= (#[trigger] address[i]) <= '9'
            &&& crate::address::decimal_value(address.skip(17)) == port
        },
{
    crate::address::address_names_its_port(port);
}

/// A node connects to the relay that it was given, and to none if it was given none. The
/// relay's peer is the one that the first component of the address that names a peer names;
/// it has none exactly if no component names one.
pub proof fn node_connects_to_its_relay(
    r: Result<StartPlan, InvalidRelayAddress>,
    port: u16,
    relay_addr: Option<String>,
)
    requires
        is_start(r, port, relay_addr),
    ensures
        r matches Ok(plan) ==> (plan.relay is Some <==> relay_addr is Some),
        r matches Ok(plan) ==> (plan.relay matches Some(target) ==> {
            let address = relay_addr.unwrap()@;
            let parts = parsed_address(address)->Ok_0;
            &&& target.address@ == address
            &&& target.peer is None <==> forall|j: int|
                0 <= j < parts.len() ==> (#[trigger] parts[j]) is None
            &&& forall|i: int|
                0 <= i < parts.len() && (#[trigger] parts[i]) is Some && (forall|j: int|
                    0 <= j < i ==> (#[trigger] parts[j]) is None) ==> target.peer is Some
                    && target.peer.unwrap()@ == parts[i].unwrap()
        }),
{
    if r is Ok && r->Ok_0.relay is Some {
        crate::address::first_peer_comes_before_all_others(
            parsed_address(relay_addr.unwrap()@)->Ok_0,
        );
    }
}

/// A line of up to 4096 bytes goes on to be sent, as it was entered; a longer one is dropped,
/// and its length is reported. Who the node is plays no part in this.
pub proof fn line_goes_on_unless_it_is_too_long<P, A>(
    action: NodeAction<P, A>,
    peer_id: Seq<char>,
    content: String,
)
    requires
        is_node_action(action, peer_id, NodeEvent::Line(content)),
    ensures
        encode_utf8(content@).len() <= 4096 ==> (action matches NodeAction::ReadClock { content: c }
            && c@ == content@),
        encode_utf8(content@).len() > 4096 ==> (action matches NodeAction::WarnTooLarge { len }
            && len == encode_utf8(content@).len()),
{
}

/// What a node publishes for a line decodes to a message whose time is the clock reading,
/// whose sender is this node, whose recipient is `global`, whose content is the line, and
/// whose identifier has the form of a UUID. It publishes something for every line of up to
/// 4096 bytes, if its own peer id is not longer than that.
pub proof fn published_line_has_the_time_it_was_sent<P, A>(
    action: NodeAction<P, A>,
    peer_id: Seq<char>,
    content: String,
    timestamp: u64,
)
    requires
        is_node_action(action, peer_id, NodeEvent::Stamped { content, timestamp }),
    ensures
        action is Publish || action is Fail,
        encode_utf8(peer_id).len() <= 4096 && encode_utf8(content@).len() <= 4096
            ==> action is Publish,
        action matches NodeAction::Publish(data) ==> decoded(data@) is Some && {
            let m = decoded(data@).unwrap();
            &&& m.timestamp == timestamp
            &&& m.sender_id == peer_id
            &&& m.recipient_id == "global"@
            &&& m.content == content@
            &&& m.id.len() == 36
            &&& m.id[14] == '4'
            &&& gossip_id(data@) == m.id
        },
{
    let (id, payload) = choose|id: Seq<char>, payload: Result<Vec<u8>, MessageTooLong>|
        #[trigger] is_uuid_v4(id) && #[trigger] is_payload(
            payload,
            peer_id,
            content@,
            id,
            timestamp,
        ) && is_publication(action, payload);
    crate::chat::uuid_has_its_form(id);
    crate::chat::published_members_are_those_given(payload, peer_id, content@, id, timestamp);
    if encode_utf8(peer_id).len() <= 4096 && encode_utf8(content@).len() <= 4096 {
        crate::chat::short_line_has_a_payload(payload, peer_id, content@, id, timestamp);
    }
    if let NodeAction::Publish(data) = action {
        crate::chat::gossip_goes_by_the_message_id(data@, data@);
    }
}

/// Whatever message reaches a node is shown, with its own sender and content, and so it is
/// with every other node that it reaches; bytes that are no message are passed over.
pub proof fn every_node_shows_the_same<P, A>(
    action: NodeAction<P, A>,
    other_action: NodeAction<P, A>,
    receiver: Seq<char>,
    other_receiver: Seq<char>,
    data: Vec<u8>,
)
    requires
        is_node_action(action, receiver, NodeEvent::Message(data)),
        is_node_action(other_action, other_receiver, NodeEvent::Message(data)),
    ensures
        action is Show <==> decoded(data@) is Some,
        action is Ignore <==> decoded(data@) is None,
        action matches NodeAction::Show { sender, content } ==> sender@ == decoded(
            data@,
        ).unwrap().sender_id && content@ == decoded(data@).unwrap().content,
        other_action is Show <==> action is Show,
        action matches NodeAction::Show { sender, content } ==> (other_action matches
            NodeAction::Show { sender: s, content: c } && s@ == sender@ && c@ == content@),
{
}

/// A peer that a node is connected to is entered under the address of the connection, and
/// nothing is done about anything else.
pub proof fn connected_peer_is_entered<P, A>(
    connected: NodeAction<P, A>,
    other: NodeAction<P, A>,
    peer_id: Seq<char>,
    peer: P,
    address: A,
)
    requires
        is_node_action(connected, peer_id, NodeEvent::Connected { peer, address }),
        is_node_action(other, peer_id, NodeEvent::Other),
    ensures
        connected matches NodeAction::AddAddress { peer: p, address: a } && p == peer && a
            == address,
        other is Ignore,
{
}

} // verus!
