//! What all nodes of the chat agree on: the topic, the limits, how a message is composed
//! and how gossiped bytes are identified.

use crate::message::{
    decoded, encoded, text_field_is_short, uint_field_is_short, ChatMessage, MessageModel,
    MessageTooLong, CONTENT_TAG, ID_TAG, RECIPIENT_ID_TAG, SENDER_ID_TAG, TIMESTAMP_TAG,
};
use vstd::prelude::*;
use vstd::utf8::{encode_utf8, is_ascii_chars_encode_utf8};

verus! {

/// Name of the gossip topic that all nodes subscribe to.
pub const TOPIC: &'static str = "global-chat";

/// Recipient of every message: there is one room.
pub const RECIPIENT: &'static str = "global";

/// Maximum allowed size in bytes for a single chat message content.
pub const MAX_MESSAGE_BYTES: usize = 4096;

/// Seconds between two heartbeats of the gossip protocol.
pub const HEARTBEAT_SECONDS: u64 = 1;

/// Whether `content` is small enough to be sent and stored.
pub open spec fn within_limit(content: Seq<char>) -> bool {
    encode_utf8(content).len() <= MAX_MESSAGE_BYTES
}

/// The message that the node `sender` sends when its user enters `content`.
pub open spec fn outgoing(
    sender: Seq<char>,
    content: Seq<char>,
    id: Seq<char>,
    timestamp: u64,
) -> MessageModel {
    MessageModel { id, sender_id: sender, recipient_id: RECIPIENT@, content, timestamp }
}

/// Whether `c` is a lower-case hexadecimal digit.
pub open spec fn is_hex_digit(c: char) -> bool {
    '0' <= c <= '9' || 'a' <= c <= 'f'
}

/// Whether `s` is a version 4 UUID in its hyphenated form.
pub open spec fn is_uuid_v4(s: Seq<char>) -> bool {
    &&& s.len() == 36
    &&& forall|i: int|
        #![trigger s[i]]
        0 <= i < 36 ==> if i == 8 || i == 13 || i == 18 || i == 23 {
            s[i] == '-'
        } else {
            is_hex_digit(s[i])
        }
    &&& s[14] == '4'
    &&& s[19] == '8' || s[19] == '9' || s[19] == 'a' || s[19] == 'b'
}

/// The BLAKE3 hash of `data` in hexadecimal, as `blake3::hash` computes it.
pub uninterp spec fn blake3_hex(data: Seq<u8>) -> Seq<char>;

/// The identifier of gossiped bytes: that of the message they encode, or else their hash.
pub open spec fn gossip_id(data: Seq<u8>) -> Seq<char> {
    match decoded(data) {
        Some(m) => m.id,
        None => blake3_hex(data),
    }
}

/// Calls `blake3::hash`, whose result prints as 64 lower-case hexadecimal digits and
/// depends on the input alone. `blake3::Hasher` gives the same for the same bytes.
#[verifier::external_body]
fn hash_text(data: &[u8]) -> (r: String)
    ensures
        r@ == blake3_hex(data@),
        r@.len() == 64,
        forall|i: int| 0 <= i < 64 ==> is_hex_digit(#[trigger] r@[i]),
{
    blake3::hash(data).to_string()
}

/// Calls `uuid::Uuid::new_v4`, which draws a random UUID of version 4. It prints in
/// hyphenated form, in lower case. Which one it is, is left to chance.
#[verifier::external_body]
fn random_uuid() -> (r: String)
    ensures
        is_uuid_v4(r@),
{
    uuid::Uuid::new_v4().to_string()
}

/// The identifier by which the gossip protocol recognises `data`, so that every node
/// handles a message once, whichever way it arrives.
pub fn message_id(data: &[u8]) -> (r: String)
    ensures
        r@ == gossip_id(data@),
        decoded(data@) is None ==> r@.len() == 64 && forall|i: int|
            0 <= i < 64 ==> is_hex_digit(#[trigger] r@[i]),
{
    match ChatMessage::decode(data) {
        Ok(message) => message.id,
        Err(_) => hash_text(data),
    }
}

/// Whether `content` is small enough to be sent and stored.
pub fn fits(content: &str) -> (r: bool)
    ensures
        r == within_limit(content@),
        r == (encode_utf8(content@).len() <= 4096),
{
    content.as_bytes().len() <= MAX_MESSAGE_BYTES
}

/// The message that the node `sender` sends when its user enters `content`.
pub fn compose(sender: &str, content: String, id: String, timestamp: u64) -> (r: ChatMessage)
    ensures
        r@ == outgoing(sender@, content@, id@, timestamp),
        r.id@ == id@,
        r.sender_id@ == sender@,
        r.recipient_id@ == "global"@,
        r.content@ == content@,
        r.timestamp == timestamp,
{
    ChatMessage {
        id,
        sender_id: sender.to_owned(),
        recipient_id: RECIPIENT.to_owned(),
        content,
        timestamp,
    }
}

/// What `r` has to be when the message with identifier `id` was to be published.
pub open spec fn is_payload(
    r: Result<Vec<u8>, MessageTooLong>,
    sender: Seq<char>,
    content: Seq<char>,
    id: Seq<char>,
    timestamp: u64,
) -> bool {
    let bytes = encoded(outgoing(sender, content, id, timestamp));
    match r {
        Ok(payload) => bytes.len() <= isize::MAX && payload@ == bytes,
        Err(MessageTooLong) => bytes.len() > isize::MAX,
    }
}

/// The bytes that are published for `content`, under a given message identifier.
pub fn payload(sender: &str, content: String, id: String, timestamp: u64) -> (r: Result<
    Vec<u8>,
    MessageTooLong,
>)
    ensures
        is_payload(r, sender@, content@, id@, timestamp),
{
    let message = compose(sender, content, id, timestamp);
    let mut buf: Vec<u8> = Vec::new();
    match message.encode(&mut buf) {
        Ok(()) => {
            assert(buf@ =~= encoded(message@));
            Ok(buf)
        },
        Err(e) => Err(e),
    }
}

/// The bytes that are published for `content`, under a fresh random message identifier.
pub fn fresh_payload(sender: &str, content: String, timestamp: u64) -> (r: Result<
    Vec<u8>,
    MessageTooLong,
>)
    ensures
        exists|id: Seq<char>| #[trigger]
            is_uuid_v4(id) && is_payload(r, sender@, content@, id, timestamp),
{
    let id = random_uuid();
    let ghost id_text = id@;
    let r = payload(sender, content, id, timestamp);
    assert(is_uuid_v4(id_text));
    r
}

/// A message whose content and sender are within the limit can always be encoded.
pub proof fn short_message_can_be_sent(
    sender: Seq<char>,
    content: Seq<char>,
    id: Seq<char>,
    timestamp: u64,
)
    requires
        encode_utf8(sender).len() <= MAX_MESSAGE_BYTES,
        within_limit(content),
        is_uuid_v4(id),
    ensures
        encoded(outgoing(sender, content, id, timestamp)).len() <= isize::MAX,
{
    let m = outgoing(sender, content, id, timestamp);
    assert forall|i: int| 0 <= i < id.len() implies '\0' <= #[trigger] id[i] <= '\u{7f}' by {
        assert(id[i] == '-' || is_hex_digit(id[i]));
    }
    is_ascii_chars_encode_utf8(id);
    reveal_strlit("global");
    is_ascii_chars_encode_utf8(RECIPIENT@);
    text_field_is_short(ID_TAG, m.id);
    text_field_is_short(SENDER_ID_TAG, m.sender_id);
    text_field_is_short(RECIPIENT_ID_TAG, m.recipient_id);
    text_field_is_short(CONTENT_TAG, m.content);
    uint_field_is_short(TIMESTAMP_TAG, m.timestamp);
}

/// The gossip identifier of an encoded message is the message's own identifier.
pub proof fn encoded_message_is_identified_by_its_id(m: MessageModel)
    requires
        m.encodable(),
    ensures
        gossip_id(encoded(m)) == m.id,
{
    crate::message::encoding_decodes_back(m);
}

/// What one node publishes, any other node decodes to the same sender, content and time,
/// and identifies by the identifier under which it was published.
pub proof fn published_message_arrives(
    sender: Seq<char>,
    content: Seq<char>,
    id: Seq<char>,
    timestamp: u64,
)
    requires
        outgoing(sender, content, id, timestamp).encodable(),
    ensures
        decoded(encoded(outgoing(sender, content, id, timestamp))) == Some(
            outgoing(sender, content, id, timestamp),
        ),
        gossip_id(encoded(outgoing(sender, content, id, timestamp))) == id,
{
    crate::message::encoding_decodes_back(outgoing(sender, content, id, timestamp));
}

/// Whatever bytes are published for a line, every node decodes them to the message that was
/// composed, and identifies them by its identifier.
pub proof fn payload_decodes_to_its_message(
    payload: Result<Vec<u8>, MessageTooLong>,
    sender: Seq<char>,
    content: Seq<char>,
    id: Seq<char>,
    timestamp: u64,
)
    requires
        is_payload(payload, sender, content, id, timestamp),
    ensures
        payload matches Ok(data) ==> decoded(data@) == Some(
            outgoing(sender, content, id, timestamp),
        ) && gossip_id(data@) == id,
{
    if payload is Ok {
        crate::message::short_encoding_is_encodable(outgoing(sender, content, id, timestamp));
        published_message_arrives(sender, content, id, timestamp);
    }
}

/// The limit on a content is 4096 bytes, whatever the content is.
pub proof fn limit_is_a_number_of_bytes(content: Seq<char>)
    ensures
        within_limit(content) <==> encode_utf8(content).len() <= 4096,
{
}

/// Whatever the sender, the content, the identifier and the clock reading are, published
/// bytes decode to a message with these: its time is the clock reading, its recipient is
/// `global`, and its other members are what was given.
pub proof fn published_members_are_those_given(
    payload: Result<Vec<u8>, MessageTooLong>,
    sender: Seq<char>,
    content: Seq<char>,
    id: Seq<char>,
    timestamp: u64,
)
    requires
        is_payload(payload, sender, content, id, timestamp),
    ensures
        payload matches Ok(data) ==> decoded(data@) is Some && {
            let m = decoded(data@).unwrap();
            &&& m.timestamp == timestamp
            &&& m.recipient_id == "global"@
            &&& m.sender_id == sender
            &&& m.content == content
            &&& m.id == id
        },
{
    payload_decodes_to_its_message(payload, sender, content, id, timestamp);
}

/// The bytes for a line are the encoding of the message with the members that were given,
/// and there are such bytes unless that encoding is too long for a vector.
pub proof fn payload_is_refused_only_for_its_length(
    payload: Result<Vec<u8>, MessageTooLong>,
    m: MessageModel,
)
    requires
        m.recipient_id == "global"@,
        is_payload(payload, m.sender_id, m.content, m.id, m.timestamp),
    ensures
        payload is Ok <==> encoded(m).len() <= isize::MAX,
        payload matches Ok(data) ==> data@ == encoded(m),
{
    assert(outgoing(m.sender_id, m.content, m.id, m.timestamp) =~= m);
}

/// There are bytes for every line whose content, sender and identifier take no more than
/// 4096 bytes each.
pub proof fn short_line_has_a_payload(
    payload: Result<Vec<u8>, MessageTooLong>,
    sender: Seq<char>,
    content: Seq<char>,
    id: Seq<char>,
    timestamp: u64,
)
    requires
        encode_utf8(sender).len() <= 4096,
        encode_utf8(content).len() <= 4096,
        encode_utf8(id).len() <= 4096,
        is_payload(payload, sender, content, id, timestamp),
    ensures
        payload is Ok,
{
    let m = outgoing(sender, content, id, timestamp);
    reveal_strlit("global");
    is_ascii_chars_encode_utf8(RECIPIENT@);
    text_field_is_short(ID_TAG, m.id);
    text_field_is_short(SENDER_ID_TAG, m.sender_id);
    text_field_is_short(RECIPIENT_ID_TAG, m.recipient_id);
    text_field_is_short(CONTENT_TAG, m.content);
    uint_field_is_short(TIMESTAMP_TAG, m.timestamp);
}

/// Bytes that are a message are identified by its identifier and by nothing else of it: two
/// of them are taken for the same exactly if their messages have the same identifier. Bytes
/// that are no message are identified by their hash.
pub proof fn gossip_goes_by_the_message_id(a: Seq<u8>, b: Seq<u8>)
    ensures
        decoded(a) is None ==> gossip_id(a) == blake3_hex(a),
        decoded(a) matches Some(m) ==> gossip_id(a) == m.id,
        decoded(a) is Some && decoded(b) is Some ==> (gossip_id(a) == gossip_id(b) <==> decoded(
            a,
        ).unwrap().id == decoded(b).unwrap().id),
{
}

/// The identifier of a message is 36 characters: lower-case hexadecimal digits, of which the
/// fifteenth is 4, with four hyphens between them.
pub proof fn uuid_has_its_form(id: Seq<char>)
    requires
        is_uuid_v4(id),
    ensures
        id.len() == 36,
        id[8] == '-',
        id[13] == '-',
        id[14] == '4',
        id[18] == '-',
        id[19] == '8' || id[19] == '9' || id[19] == 'a' || id[19] == 'b',
        id[23] == '-',
        forall|i: int|
            0 <= i < 36 && i != 8 && i != 13 && i != 18 && i != 23 ==> '0' <= (#[trigger] id[i])
                <= '9' || 'a' <= id[i] <= 'f',
        encode_utf8(id).len() == 36,
{
    assert forall|i: int| 0 <= i < id.len() implies '\0' <= #[trigger] id[i] <= '\u{7f}' by {
        assert(id[i] == '-' || is_hex_digit(id[i]));
    }
    is_ascii_chars_encode_utf8(id);
}

} // verus!
