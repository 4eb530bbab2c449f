//! The chat message and its encoding.

use crate::wire::{
    key_at, leb128, read_key, read_string, read_uint, skip_at, skip_field, string_at, string_field,
    string_len, uint_at, uint_field, uint_len, write_string, write_uint, LENGTH_DELIMITED,
    MAX_TAG, THIRTY_TWO_BIT, VARINT,
};
use vstd::prelude::*;
use vstd::utf8::encode_utf8;

verus! {

/// Field tag of [`ChatMessage::id`].
pub const ID_TAG: u32 = 1;

/// Field tag of [`ChatMessage::sender_id`].
pub const SENDER_ID_TAG: u32 = 2;

/// Field tag of [`ChatMessage::recipient_id`].
pub const RECIPIENT_ID_TAG: u32 = 3;

/// Field tag of [`ChatMessage::content`].
pub const CONTENT_TAG: u32 = 4;

/// Field tag of [`ChatMessage::timestamp`].
pub const TIMESTAMP_TAG: u32 = 5;

/// A chat message, as it travels between the nodes and as the relay stores it.
#[derive(Clone, Debug, PartialEq, Eq, Hash)]
pub struct ChatMessage {
    /// Identifier of the message, unique to it.
    pub id: String,
    /// Peer id of the node that wrote it.
    pub sender_id: String,
    /// Who it is for.
    pub recipient_id: String,
    /// What it says.
    pub content: String,
    /// When it was written, in seconds since the Unix epoch.
    pub timestamp: u64,
}

/// What a [`ChatMessage`] holds.
#[verifier::ext_equal]
pub struct MessageModel {
    pub id: Seq<char>,
    pub sender_id: Seq<char>,
    pub recipient_id: Seq<char>,
    pub content: Seq<char>,
    pub timestamp: u64,
}

/// The error of [`ChatMessage::decode`]: the bytes are not an encoded chat message.
#[derive(Clone, Copy, Debug, PartialEq, Eq)]
pub struct MalformedMessage;

/// The error of [`ChatMessage::encode`]: the encoding does not fit into the buffer.
#[derive(Clone, Copy, Debug, PartialEq, Eq)]
pub struct MessageTooLong;

impl View for ChatMessage {
    type V = MessageModel;

    open spec fn view(&self) -> MessageModel {
        MessageModel {
            id: self.id@,
            sender_id: self.sender_id@,
            recipient_id: self.recipient_id@,
            content: self.content@,
            timestamp: self.timestamp,
        }
    }
}

impl MessageModel {
    /// The message all of whose fields are empty.
    pub open spec fn empty() -> MessageModel {
        MessageModel {
            id: Seq::empty(),
            sender_id: Seq::empty(),
            recipient_id: Seq::empty(),
            content: Seq::empty(),
            timestamp: 0,
        }
    }

    /// The text field with tag `tag`.
    pub open spec fn text(self, tag: u32) -> Seq<char> {
        if tag == ID_TAG {
            self.id
        } else if tag == SENDER_ID_TAG {
            self.sender_id
        } else if tag == RECIPIENT_ID_TAG {
            self.recipient_id
        } else {
            self.content
        }
    }

    /// The message with another text in the field with tag `tag`.
    pub open spec fn with_text(self, tag: u32, text: Seq<char>) -> MessageModel {
        if tag == ID_TAG {
            MessageModel { id: text, ..self }
        } else if tag == SENDER_ID_TAG {
            MessageModel { sender_id: text, ..self }
        } else if tag == RECIPIENT_ID_TAG {
            MessageModel { recipient_id: text, ..self }
        } else {
            MessageModel { content: text, ..self }
        }
    }

    /// Whether each text's length in bytes is a 64-bit number, which the encoding needs.
    pub open spec fn encodable(self) -> bool {
        &&& encode_utf8(self.id).len() <= u64::MAX
        &&& encode_utf8(self.sender_id).len() <= u64::MAX
        &&& encode_utf8(self.recipient_id).len() <= u64::MAX
        &&& encode_utf8(self.content).len() <= u64::MAX
    }
}

/// The encoding of a text field; an empty text is left out.
pub open spec fn encoded_text(tag: u32, text: Seq<char>) -> Seq<u8> {
    if text.len() == 0 {
        Seq::empty()
    } else {
        string_field(tag, text)
    }
}

/// The encoding of an integer field; zero is left out.
pub open spec fn encoded_uint(tag: u32, value: u64) -> Seq<u8> {
    if value == 0 {
        Seq::empty()
    } else {
        uint_field(tag, value)
    }
}

/// The encoding of a message: its fields in the order of their tags.
pub open spec fn encoded(m: MessageModel) -> Seq<u8> {
    encoded_text(ID_TAG, m.id) + encoded_text(SENDER_ID_TAG, m.sender_id) + encoded_text(
        RECIPIENT_ID_TAG,
        m.recipient_id,
    ) + encoded_text(CONTENT_TAG, m.content) + encoded_uint(TIMESTAMP_TAG, m.timestamp)
}

/// The message `m` after one field was read into it, and the bytes behind the field. A
/// field replaces what an earlier one with the same tag brought, and one with an unknown
/// tag is skipped.
pub open spec fn field_merged(m: MessageModel, tag: u32, wire: u64, bytes: Seq<u8>) -> Option<
    (MessageModel, Seq<u8>),
> {
    if ID_TAG <= tag <= CONTENT_TAG {
        match string_at(wire, bytes) {
            Some((text, rest)) => Some((m.with_text(tag, text), rest)),
            None => None,
        }
    } else if tag == TIMESTAMP_TAG {
        match uint_at(wire, bytes) {
            Some((timestamp, rest)) => Some((MessageModel { timestamp, ..m }, rest)),
            None => None,
        }
    } else {
        match skip_at(wire, tag, bytes) {
            Some(rest) => Some((m, rest)),
            None => None,
        }
    }
}

/// The message `m` after all the fields in `bytes` were read into it; `None` where
/// `bytes` is no sequence of fields.
pub open spec fn merged(m: MessageModel, bytes: Seq<u8>) -> Option<MessageModel>
    decreases bytes.len(),
{
    if bytes.len() == 0 {
        Some(m)
    } else {
        match key_at(bytes) {
            Some((tag, wire, body)) => match field_merged(m, tag, wire, body) {
                Some((next, rest)) => if rest.len() < bytes.len() {
                    merged(next, rest)
                } else {
                    None
                },
                None => None,
            },
            None => None,
        }
    }
}

/// The message that `bytes` encodes, if any.
pub open spec fn decoded(bytes: Seq<u8>) -> Option<MessageModel> {
    merged(MessageModel::empty(), bytes)
}

impl Default for ChatMessage {
    /// The message all of whose fields are empty.
    fn default() -> (r: Self)
        ensures
            r@ == MessageModel::empty(),
            r.id@.len() == 0,
            r.sender_id@.len() == 0,
            r.recipient_id@.len() == 0,
            r.content@.len() == 0,
            r.timestamp == 0,
    {
        ChatMessage {
            id: String::new(),
            sender_id: String::new(),
            recipient_id: String::new(),
            content: String::new(),
            timestamp: 0,
        }
    }
}

/// How many bytes a text field takes, unless the text itself is too long for a vector.
fn text_len(tag: u32, text: &String) -> (r: Option<usize>)
    requires
        1 <= tag <= MAX_TAG,
    ensures
        match r {
            Some(n) => n == encoded_text(tag, text@).len(),
            None => encoded_text(tag, text@).len() > isize::MAX,
        },
{
    if text.as_str().is_empty() {
        Some(0)
    } else if text.as_str().as_bytes().len() > isize::MAX as usize {
        None
    } else {
        Some(string_len(tag, text))
    }
}

/// Appends a text field, unless the text is empty.
fn push_text(tag: u32, text: &String, buf: &mut Vec<u8>)
    requires
        1 <= tag <= MAX_TAG,
        old(buf)@.len() + encoded_text(tag, text@).len() <= isize::MAX,
    ensures
        final(buf)@ == old(buf)@ + encoded_text(tag, text@),
{
    if !text.as_str().is_empty() {
        write_string(tag, text, buf);
    }
}

impl ChatMessage {
    /// How many bytes the message takes, unless one of its texts is too long for a vector.
    fn encoded_len(&self) -> (r: Option<u128>)
        ensures
            match r {
                Some(n) => n == encoded(self@).len(),
                None => encoded(self@).len() > isize::MAX,
            },
    {
        let timestamp: usize = if self.timestamp == 0 {
            0
        } else {
            uint_len(TIMESTAMP_TAG, self.timestamp)
        };
        match (
            text_len(ID_TAG, &self.id),
            text_len(SENDER_ID_TAG, &self.sender_id),
            text_len(RECIPIENT_ID_TAG, &self.recipient_id),
            text_len(CONTENT_TAG, &self.content),
        ) {
            (Some(id), Some(sender), Some(recipient), Some(content)) => {
                Some(
                    id as u128 + sender as u128 + recipient as u128 + content as u128
                        + timestamp as u128,
                )
            },
            _ => None,
        }
    }

    /// Appends the encoding of the message to `buf`. It fails, and leaves `buf` alone,
    /// where `buf` would grow beyond what a vector can hold.
    pub fn encode(&self, buf: &mut Vec<u8>) -> (r: Result<(), MessageTooLong>)
        ensures
            match r {
                Ok(()) => {
                    &&& old(buf)@.len() + encoded(self@).len() <= isize::MAX
                    &&& final(buf)@ == old(buf)@ + encoded(self@)
                },
                Err(MessageTooLong) => {
                    &&& old(buf)@.len() + encoded(self@).len() > isize::MAX
                    &&& final(buf)@ == old(buf)@
                },
            },
    {
        let required: u128 = match self.encoded_len() {
            Some(n) => n,
            None => return Err(MessageTooLong),
        };
        let limit: u128 = isize::MAX as u128;
        if required > limit || buf.len() as u128 + required > limit {
            return Err(MessageTooLong);
        }
        push_text(ID_TAG, &self.id, buf);
        push_text(SENDER_ID_TAG, &self.sender_id, buf);
        push_text(RECIPIENT_ID_TAG, &self.recipient_id, buf);
        push_text(CONTENT_TAG, &self.content, buf);
        if self.timestamp != 0 {
            write_uint(TIMESTAMP_TAG, self.timestamp, buf);
        }
        assert(buf@ =~= old(buf)@ + encoded(self@));
        Ok(())
    }

    /// Reads one field into the message; returns the bytes behind the field.
    fn merge_field<'a>(&mut self, tag: u32, wire: u64, buf: &'a [u8]) -> (r: Result<
        &'a [u8],
        MalformedMessage,
    >)
        requires
            wire <= THIRTY_TWO_BIT,
        ensures
            match r {
                Ok(rest) => {
                    &&& field_merged(old(self)@, tag, wire, buf@) == Some((final(self)@, rest@))
                    &&& rest@.len() <= buf@.len()
                },
                Err(MalformedMessage) => field_merged(old(self)@, tag, wire, buf@) is None,
            },
    {
        proof {
            crate::wire::field_stays_inside(wire, buf@);
            crate::wire::skip_stays_inside(wire, tag, buf@);
        }
        let rest = match tag {
            ID_TAG => read_string(wire, &mut self.id, buf),
            SENDER_ID_TAG => read_string(wire, &mut self.sender_id, buf),
            RECIPIENT_ID_TAG => read_string(wire, &mut self.recipient_id, buf),
            CONTENT_TAG => read_string(wire, &mut self.content, buf),
            TIMESTAMP_TAG => read_uint(wire, &mut self.timestamp, buf),
            _ => skip_field(wire, tag, buf),
        };
        match rest {
            Ok(rest) => Ok(rest),
            Err(_) => Err(MalformedMessage),
        }
    }

    /// Decodes a message. All of `bytes` has to be fields; a field that is absent is left
    /// empty, one that occurs again replaces the earlier one, and an unknown one is skipped.
    pub fn decode(bytes: &[u8]) -> (r: Result<ChatMessage, MalformedMessage>)
        ensures
            match r {
                Ok(m) => decoded(bytes@) == Some(m@),
                Err(MalformedMessage) => decoded(bytes@) is None,
            },
    {
        let mut message = ChatMessage::default();
        let mut rest = bytes;
        while rest.len() > 0
            invariant
                merged(message@, rest@) == decoded(bytes@),
            decreases rest.len(),
        {
            proof {
                crate::wire::key_consumes(rest@);
            }
            let (tag, wire, body) = match read_key(rest) {
                Ok(key) => key,
                Err(_) => return Err(MalformedMessage),
            };
            match message.merge_field(tag, wire, body) {
                Ok(behind) => {
                    rest = behind;
                },
                Err(_) => return Err(MalformedMessage),
            }
        }
        Ok(message)
    }
}

proof fn lemma_text_merged(m: MessageModel, tag: u32, text: Seq<char>, tail: Seq<u8>)
    requires
        ID_TAG <= tag <= CONTENT_TAG,
        encode_utf8(text).len() <= u64::MAX,
        m.text(tag) == Seq::<char>::empty(),
    ensures
        merged(m, encoded_text(tag, text) + tail) == merged(m.with_text(tag, text), tail),
{
    if text.len() == 0 {
        assert(encoded_text(tag, text) + tail =~= tail);
        assert(text =~= Seq::<char>::empty());
        assert(m.with_text(tag, text) =~= m);
    } else {
        let block = crate::wire::leb128(encode_utf8(text).len()) + encode_utf8(text);
        let key = crate::wire::leb128((tag * 8 + LENGTH_DELIMITED) as nat);
        let bytes = encoded_text(tag, text) + tail;
        assert(bytes =~= key + (block + tail));
        crate::wire::key_reads_back(tag, LENGTH_DELIMITED, block + tail);
        crate::wire::string_reads_back(text, tail);
        crate::wire::key_consumes(bytes);
    }
}

proof fn lemma_uint_merged(m: MessageModel, value: u64, tail: Seq<u8>)
    requires
        m.timestamp == 0,
    ensures
        merged(m, encoded_uint(TIMESTAMP_TAG, value) + tail) == merged(
            MessageModel { timestamp: value, ..m },
            tail,
        ),
{
    if value == 0 {
        assert(encoded_uint(TIMESTAMP_TAG, value) + tail =~= tail);
    } else {
        let block = crate::wire::leb128(value as nat);
        let key = crate::wire::leb128((TIMESTAMP_TAG * 8 + VARINT) as nat);
        let bytes = encoded_uint(TIMESTAMP_TAG, value) + tail;
        assert(bytes =~= key + (block + tail));
        crate::wire::key_reads_back(TIMESTAMP_TAG, VARINT, block + tail);
        crate::wire::varint_reads_back(value, tail);
        crate::wire::key_consumes(bytes);
    }
}

/// Decoding the encoding of a message gives the message back.
pub proof fn encoding_decodes_back(m: MessageModel)
    requires
        m.encodable(),
    ensures
        decoded(encoded(m)) == Some(m),
{
    let none = Seq::<u8>::empty();
    let timestamp = encoded_uint(TIMESTAMP_TAG, m.timestamp);
    let content = encoded_text(CONTENT_TAG, m.content) + (timestamp + none);
    let recipient = encoded_text(RECIPIENT_ID_TAG, m.recipient_id) + content;
    let sender = encoded_text(SENDER_ID_TAG, m.sender_id) + recipient;
    let all = encoded_text(ID_TAG, m.id) + sender;
    assert(all =~= encoded(m));

    let m0 = MessageModel::empty();
    let m1 = m0.with_text(ID_TAG, m.id);
    let m2 = m1.with_text(SENDER_ID_TAG, m.sender_id);
    let m3 = m2.with_text(RECIPIENT_ID_TAG, m.recipient_id);
    let m4 = m3.with_text(CONTENT_TAG, m.content);
    lemma_text_merged(m0, ID_TAG, m.id, sender);
    lemma_text_merged(m1, SENDER_ID_TAG, m.sender_id, recipient);
    lemma_text_merged(m2, RECIPIENT_ID_TAG, m.recipient_id, content);
    lemma_text_merged(m3, CONTENT_TAG, m.content, timestamp + none);
    lemma_uint_merged(m4, m.timestamp, none);
}

proof fn lemma_text_not_longer(tag: u32, text: Seq<char>)
    ensures
        encode_utf8(text).len() <= encoded_text(tag, text).len(),
{
    if text.len() == 0 {
        assert(encode_utf8(text).len() == 0);
    }
}

/// A message whose encoding a vector can hold is one whose texts the encoding can hold.
pub proof fn short_encoding_is_encodable(m: MessageModel)
    requires
        encoded(m).len() <= isize::MAX,
    ensures
        m.encodable(),
{
    lemma_text_not_longer(ID_TAG, m.id);
    lemma_text_not_longer(SENDER_ID_TAG, m.sender_id);
    lemma_text_not_longer(RECIPIENT_ID_TAG, m.recipient_id);
    lemma_text_not_longer(CONTENT_TAG, m.content);
}

/// A field adds at most 20 bytes to the text that it holds.
pub proof fn text_field_is_short(tag: u32, text: Seq<char>)
    requires
        encode_utf8(text).len() <= u64::MAX,
    ensures
        encoded_text(tag, text).len() <= 20 + encode_utf8(text).len(),
{
    crate::wire::leb128_is_short((tag * 8 + crate::wire::LENGTH_DELIMITED) as u64);
    crate::wire::leb128_is_short(encode_utf8(text).len() as u64);
}

/// A field with an integer takes at most 20 bytes.
pub proof fn uint_field_is_short(tag: u32, value: u64)
    ensures
        encoded_uint(tag, value).len() <= 20,
{
    crate::wire::leb128_is_short((tag * 8 + crate::wire::VARINT) as u64);
    crate::wire::leb128_is_short(value);
}

/// Two messages with the same encoding are the same message.
pub proof fn encoding_is_unique(a: MessageModel, b: MessageModel)
    requires
        a.encodable(),
        b.encodable(),
        encoded(a) == encoded(b),
    ensures
        a == b,
{
    encoding_decodes_back(a);
    encoding_decodes_back(b);
}

/// A field whose tag a chat message does not have leaves no trace: the bytes behind it are
/// read as if it were not there.
pub proof fn unknown_field_is_ignored(m: MessageModel, tag: u32, wire: u64, body: Seq<u8>)
    requires
        TIMESTAMP_TAG < tag <= MAX_TAG,
        wire <= THIRTY_TWO_BIT,
        skip_at(wire, tag, body) is Some,
    ensures
        merged(m, crate::wire::leb128((tag * 8 + wire) as nat) + body) == merged(
            m,
            skip_at(wire, tag, body).unwrap(),
        ),
{
    crate::wire::key_reads_back(tag, wire, body);
    crate::wire::key_consumes(crate::wire::leb128((tag * 8 + wire) as nat) + body);
    crate::wire::skip_stays_inside(wire, tag, body);
}

/// What a message is taken to hold is what its members hold.
pub proof fn view_shows_the_members(m: ChatMessage)
    ensures
        m@.id == m.id@,
        m@.sender_id == m.sender_id@,
        m@.recipient_id == m.recipient_id@,
        m@.content == m.content@,
        m@.timestamp == m.timestamp,
{
}

/// The encoding of a message begins with its identifier, if that is not empty: the byte 10,
/// the number of bytes that follow, and these. Behind it is the encoding of the message
/// without its identifier.
pub proof fn encoding_begins_with_the_id(m: MessageModel)
    requires
        m.id.len() > 0,
    ensures
        encoded(m) == seq![10u8] + leb128(encode_utf8(m.id).len()) + encode_utf8(m.id) + encoded(
            MessageModel { id: Seq::empty(), ..m },
        ),
{
    assert(leb128(10) == seq![10u8]);
    assert(encoded(m) =~= seq![10u8] + leb128(encode_utf8(m.id).len()) + encode_utf8(m.id)
        + encoded(MessageModel { id: Seq::empty(), ..m }));
}

/// Where there is no identifier, the encoding begins with the sender, behind the byte 18.
pub proof fn encoding_goes_on_with_the_sender(m: MessageModel)
    requires
        m.id.len() == 0,
        m.sender_id.len() > 0,
    ensures
        encoded(m) == seq![18u8] + leb128(encode_utf8(m.sender_id).len()) + encode_utf8(
            m.sender_id,
        ) + encoded(MessageModel { sender_id: Seq::empty(), ..m }),
{
    assert(leb128(18) == seq![18u8]);
    assert(encoded(m) =~= seq![18u8] + leb128(encode_utf8(m.sender_id).len()) + encode_utf8(
        m.sender_id,
    ) + encoded(MessageModel { sender_id: Seq::empty(), ..m }));
}

/// Where there is neither identifier nor sender, the encoding begins with the recipient,
/// behind the byte 26.
pub proof fn encoding_goes_on_with_the_recipient(m: MessageModel)
    requires
        m.id.len() == 0,
        m.sender_id.len() == 0,
        m.recipient_id.len() > 0,
    ensures
        encoded(m) == seq![26u8] + leb128(encode_utf8(m.recipient_id).len()) + encode_utf8(
            m.recipient_id,
        ) + encoded(MessageModel { recipient_id: Seq::empty(), ..m }),
{
    assert(leb128(26) == seq![26u8]);
    assert(encoded(m) =~= seq![26u8] + leb128(encode_utf8(m.recipient_id).len()) + encode_utf8(
        m.recipient_id,
    ) + encoded(MessageModel { recipient_id: Seq::empty(), ..m }));
}

/// Where there is neither identifier nor sender nor recipient, the encoding begins with the
/// content, behind the byte 34.
pub proof fn encoding_goes_on_with_the_content(m: MessageModel)
    requires
        m.id.len() == 0,
        m.sender_id.len() == 0,
        m.recipient_id.len() == 0,
        m.content.len() > 0,
    ensures
        encoded(m) == seq![34u8] + leb128(encode_utf8(m.content).len()) + encode_utf8(m.content)
            + encoded(MessageModel { content: Seq::empty(), ..m }),
{
    assert(leb128(34) == seq![34u8]);
    assert(encoded(m) =~= seq![34u8] + leb128(encode_utf8(m.content).len()) + encode_utf8(
        m.content,
    ) + encoded(MessageModel { content: Seq::empty(), ..m }));
}

/// Where there is no text at all, the encoding is the time behind the byte 40, or nothing if
/// the time is zero.
pub proof fn encoding_ends_with_the_time(m: MessageModel)
    requires
        m.id.len() == 0,
        m.sender_id.len() == 0,
        m.recipient_id.len() == 0,
        m.content.len() == 0,
    ensures
        m.timestamp == 0 ==> encoded(m).len() == 0,
        m.timestamp != 0 ==> encoded(m) == seq![40u8] + leb128(m.timestamp as nat),
{
    assert(leb128(40) == seq![40u8]);
    if m.timestamp != 0 {
        assert(encoded(m) =~= seq![40u8] + leb128(m.timestamp as nat));
    }
}

/// No bytes at all are a message with nothing in it.
pub proof fn no_bytes_are_the_empty_message()
    ensures
        decoded(Seq::empty()) matches Some(m) && m.id.len() == 0 && m.sender_id.len() == 0
            && m.recipient_id.len() == 0 && m.content.len() == 0 && m.timestamp == 0,
{
}

/// Bytes are read as fields from the front on. One that is the identifier replaces the
/// identifier alone, and so it is with the sender, the recipient, the content and the time;
/// any other field changes nothing. What is behind the field is read likewise. If there is
/// no field at the front, or the field cannot be read, the bytes are no message.
pub proof fn fields_are_read_one_by_one(m: MessageModel, bytes: Seq<u8>)
    requires
        bytes.len() > 0,
    ensures
        merged(m, Seq::empty()) == Some(m),
        key_at(bytes) is None ==> merged(m, bytes) is None,
        key_at(bytes) matches Some((tag, wire, body)) ==> {
            &&& tag == 1 ==> merged(m, bytes) == (match string_at(wire, body) {
                Some((text, rest)) => merged(MessageModel { id: text, ..m }, rest),
                None => None,
            })
            &&& tag == 2 ==> merged(m, bytes) == (match string_at(wire, body) {
                Some((text, rest)) => merged(MessageModel { sender_id: text, ..m }, rest),
                None => None,
            })
            &&& tag == 3 ==> merged(m, bytes) == (match string_at(wire, body) {
                Some((text, rest)) => merged(MessageModel { recipient_id: text, ..m }, rest),
                None => None,
            })
            &&& tag == 4 ==> merged(m, bytes) == (match string_at(wire, body) {
                Some((text, rest)) => merged(MessageModel { content: text, ..m }, rest),
                None => None,
            })
            &&& tag == 5 ==> merged(m, bytes) == (match uint_at(wire, body) {
                Some((timestamp, rest)) => merged(MessageModel { timestamp, ..m }, rest),
                None => None,
            })
            &&& !(1 <= tag <= 5) ==> merged(m, bytes) == (match skip_at(wire, tag, body) {
                Some(rest) => merged(m, rest),
                None => None,
            })
        },
{
    crate::wire::key_consumes(bytes);
    if let Some((tag, wire, body)) = key_at(bytes) {
        crate::wire::field_stays_inside(wire, body);
        crate::wire::skip_stays_inside(wire, tag, body);
    }
}

} // verus!
