//! The Protocol Buffers wire format, as far as a chat message needs it: LEB128
//! integers, field keys, text fields and integer fields.
//!
//! Reading and writing single fields is the work of the `prost` crate. The functions
//! at the end of this file make those calls; the spec functions before them say what
//! the calls do.

use vstd::prelude::*;
use vstd::utf8::{decode_utf8, encode_utf8, valid_utf8};

verus! {

/// Wire type of a field that holds a LEB128 integer.
pub const VARINT: u64 = 0;

/// Wire type of a field that holds eight bytes.
pub const SIXTY_FOUR_BIT: u64 = 1;

/// Wire type of a field that holds a length and that many bytes.
pub const LENGTH_DELIMITED: u64 = 2;

/// Wire type that opens a group.
pub const START_GROUP: u64 = 3;

/// Wire type that closes a group.
pub const END_GROUP: u64 = 4;

/// Wire type of a field that holds four bytes.
pub const THIRTY_TWO_BIT: u64 = 5;

/// The largest field tag.
pub const MAX_TAG: u32 = 0x1fff_ffff;

/// How deep groups may nest in a field that is skipped over.
pub const NESTING_LIMIT: u32 = 100;

/// The LEB128 encoding of `n`: seven bits to a byte, low bits first, the high bit set
/// on every byte but the last.
pub open spec fn leb128(n: nat) -> Seq<u8>
    decreases n,
{
    if n < 128 {
        seq![n as u8]
    } else {
        seq![(n % 128 + 128) as u8] + leb128(n / 128)
    }
}

/// The integer whose encoding `bytes` begins with, and how many bytes it takes, where
/// it takes no more than `limit` of them.
pub open spec fn leb128_prefix(bytes: Seq<u8>, limit: nat) -> Option<(nat, nat)>
    decreases limit,
{
    if limit == 0 || bytes.len() == 0 {
        None
    } else if bytes[0] < 128 {
        Some((bytes[0] as nat, 1))
    } else {
        match leb128_prefix(bytes.skip(1), (limit - 1) as nat) {
            Some((high, width)) => Some(((bytes[0] - 128 + 128 * high) as nat, width + 1)),
            None => None,
        }
    }
}

/// The 64-bit integer that `bytes` begins with, and what follows it. There is none where
/// the encoding is cut short, takes more than ten bytes or exceeds 64 bits.
pub open spec fn varint_at(bytes: Seq<u8>) -> Option<(u64, Seq<u8>)> {
    match leb128_prefix(bytes, 10) {
        Some((value, width)) => if value <= u64::MAX {
            Some((value as u64, bytes.skip(width as int)))
        } else {
            None
        },
        None => None,
    }
}

/// The field key that `bytes` begins with: the tag, the wire type, and what follows.
pub open spec fn key_at(bytes: Seq<u8>) -> Option<(u32, u64, Seq<u8>)> {
    match varint_at(bytes) {
        Some((key, rest)) => if key <= u32::MAX && key % 8 <= THIRTY_TWO_BIT && key / 8 >= 1 {
            Some(((key / 8) as u32, key % 8, rest))
        } else {
            None
        },
        None => None,
    }
}

/// The length-prefixed run of bytes that `bytes` begins with, and what follows it.
pub open spec fn block_at(bytes: Seq<u8>) -> Option<(Seq<u8>, Seq<u8>)> {
    match varint_at(bytes) {
        Some((len, rest)) => if len <= rest.len() {
            Some((rest.take(len as int), rest.skip(len as int)))
        } else {
            None
        },
        None => None,
    }
}

/// The text that a field of wire type `wire` holds when its contents are at the start
/// of `bytes`, and what follows it.
pub open spec fn string_at(wire: u64, bytes: Seq<u8>) -> Option<(Seq<char>, Seq<u8>)> {
    match block_at(bytes) {
        Some((text, rest)) => if wire == LENGTH_DELIMITED && valid_utf8(text) {
            Some((decode_utf8(text), rest))
        } else {
            None
        },
        None => None,
    }
}

/// The integer that a field of wire type `wire` holds when its contents are at the start
/// of `bytes`, and what follows it.
pub open spec fn uint_at(wire: u64, bytes: Seq<u8>) -> Option<(u64, Seq<u8>)> {
    if wire == VARINT {
        varint_at(bytes)
    } else {
        None
    }
}

/// `bytes` without its first `n` elements, where it has that many.
pub open spec fn dropped(bytes: Seq<u8>, n: nat) -> Option<Seq<u8>> {
    if n <= bytes.len() {
        Some(bytes.skip(n as int))
    } else {
        None
    }
}

/// What follows the contents of a field that is skipped over.
pub open spec fn skip_at(wire: u64, tag: u32, bytes: Seq<u8>) -> Option<Seq<u8>> {
    skipped(wire, tag, bytes, NESTING_LIMIT as nat)
}

/// What follows the contents of a field that is skipped over, where groups may nest up to
/// `depth` deep.
pub open spec fn skipped(wire: u64, tag: u32, bytes: Seq<u8>, depth: nat) -> Option<Seq<u8>>
    decreases depth, bytes.len(), 1nat,
{
    if depth == 0 {
        None
    } else if wire == VARINT {
        match varint_at(bytes) {
            Some((_, rest)) => Some(rest),
            None => None,
        }
    } else if wire == SIXTY_FOUR_BIT {
        dropped(bytes, 8)
    } else if wire == LENGTH_DELIMITED {
        match block_at(bytes) {
            Some((_, rest)) => Some(rest),
            None => None,
        }
    } else if wire == START_GROUP {
        group_skipped(tag, bytes, depth)
    } else if wire == THIRTY_TWO_BIT {
        dropped(bytes, 4)
    } else {
        None
    }
}

/// What follows a group with tag `tag` whose fields are at the start of `bytes`: they are
/// skipped one by one, up to the end of the group, which has to have the same tag.
pub open spec fn group_skipped(tag: u32, bytes: Seq<u8>, depth: nat) -> Option<Seq<u8>>
    decreases depth, bytes.len(), 0nat,
{
    if depth == 0 {
        None
    } else {
        match key_at(bytes) {
            Some((inner, wire, body)) => if wire == END_GROUP {
                if inner == tag {
                    Some(body)
                } else {
                    None
                }
            } else {
                match skipped(wire, inner, body, (depth - 1) as nat) {
                    Some(rest) => if rest.len() < bytes.len() {
                        group_skipped(tag, rest, depth)
                    } else {
                        None
                    },
                    None => None,
                }
            },
            None => None,
        }
    }
}

/// The encoding of a text field.
pub open spec fn string_field(tag: u32, text: Seq<char>) -> Seq<u8> {
    leb128((tag * 8 + LENGTH_DELIMITED) as nat) + (leb128(encode_utf8(text).len()) + encode_utf8(
        text,
    ))
}

/// The encoding of an integer field.
pub open spec fn uint_field(tag: u32, value: u64) -> Seq<u8> {
    leb128((tag * 8 + VARINT) as nat) + leb128(value as nat)
}

/// What a reader that hands back the remaining bytes has left of its input.
pub open spec fn rest_of<E>(r: Result<&[u8], E>) -> Option<Seq<u8>> {
    match r {
        Ok(rest) => Some(rest@),
        Err(_) => None,
    }
}

/// `128` to the power of `width`: what `width` bytes of LEB128 stay below.
spec fn leb128_bound(width: nat) -> nat
    decreases width,
{
    if width == 0 {
        1
    } else {
        128 * leb128_bound((width - 1) as nat)
    }
}

proof fn lemma_leb128_prefix(n: nat, tail: Seq<u8>, limit: nat)
    requires
        limit > 0,
        n < leb128_bound(limit),
    ensures
        leb128_prefix(leb128(n) + tail, limit) == Some((n, leb128(n).len())),
    decreases limit,
{
    let bytes = leb128(n) + tail;
    if n < 128 {
        assert(bytes[0] == n as u8);
    } else {
        reveal_with_fuel(leb128_bound, 2);
        assert(bytes[0] == (n % 128 + 128) as u8);
        assert(bytes.skip(1) =~= leb128(n / 128) + tail);
        lemma_leb128_prefix(n / 128, tail, (limit - 1) as nat);
    }
}

/// Reading an integer back: the bytes that encode a 64-bit integer are read as that
/// integer, whatever follows them.
pub proof fn varint_reads_back(value: u64, tail: Seq<u8>)
    ensures
        varint_at(leb128(value as nat) + tail) == Some((value, tail)),
{
    assert(leb128_bound(10) > u64::MAX) by {
        reveal_with_fuel(leb128_bound, 11);
    }
    lemma_leb128_prefix(value as nat, tail, 10);
    assert((leb128(value as nat) + tail).skip(leb128(value as nat).len() as int) =~= tail);
}

/// Reading a key back: the bytes that encode a field key are read as that tag and that
/// wire type, whatever follows them.
pub proof fn key_reads_back(tag: u32, wire: u64, tail: Seq<u8>)
    requires
        1 <= tag <= MAX_TAG,
        wire <= THIRTY_TWO_BIT,
    ensures
        key_at(leb128((tag * 8 + wire) as nat) + tail) == Some((tag, wire, tail)),
{
    varint_reads_back((tag * 8 + wire) as u64, tail);
}

/// Reading a text field back: behind its key, the field's bytes are read as its text,
/// whatever follows them.
pub proof fn string_reads_back(text: Seq<char>, tail: Seq<u8>)
    requires
        encode_utf8(text).len() <= u64::MAX,
    ensures
        string_at(
            LENGTH_DELIMITED,
            leb128(encode_utf8(text).len()) + encode_utf8(text) + tail,
        ) == Some((text, tail)),
{
    let block = encode_utf8(text);
    varint_reads_back(block.len() as u64, block + tail);
    assert(leb128(block.len()) + block + tail =~= leb128(block.len()) + (block + tail));
    assert((block + tail).take(block.len() as int) =~= block);
    assert((block + tail).skip(block.len() as int) =~= tail);
    vstd::utf8::encode_utf8_valid_utf8(text);
    vstd::utf8::encode_utf8_decode_utf8(text);
}

proof fn lemma_leb128_prefix_width(bytes: Seq<u8>, limit: nat)
    ensures
        leb128_prefix(bytes, limit) matches Some((_, width)) ==> 1 <= width <= bytes.len(),
    decreases limit,
{
    if limit > 0 && bytes.len() > 0 && bytes[0] >= 128 {
        lemma_leb128_prefix_width(bytes.skip(1), (limit - 1) as nat);
    }
}

/// What follows a key is shorter than the bytes that the key was read from.
pub proof fn key_consumes(bytes: Seq<u8>)
    ensures
        key_at(bytes) matches Some((_, _, rest)) ==> rest.len() < bytes.len(),
{
    lemma_leb128_prefix_width(bytes, 10);
}

/// What follows the contents of a field is no longer than the bytes they were read from.
pub proof fn field_stays_inside(wire: u64, bytes: Seq<u8>)
    ensures
        uint_at(wire, bytes) matches Some((_, rest)) ==> rest.len() <= bytes.len(),
        string_at(wire, bytes) matches Some((_, rest)) ==> rest.len() <= bytes.len(),
{
    lemma_leb128_prefix_width(bytes, 10);
}

/// What follows a skipped field is no longer than the bytes it was read from.
pub proof fn skip_stays_inside(wire: u64, tag: u32, bytes: Seq<u8>)
    ensures
        skip_at(wire, tag, bytes) matches Some(rest) ==> rest.len() <= bytes.len(),
{
    lemma_skipped_inside(wire, tag, bytes, NESTING_LIMIT as nat);
}

proof fn lemma_skipped_inside(wire: u64, tag: u32, bytes: Seq<u8>, depth: nat)
    ensures
        skipped(wire, tag, bytes, depth) matches Some(rest) ==> rest.len() <= bytes.len(),
    decreases depth, bytes.len(), 1nat,
{
    lemma_leb128_prefix_width(bytes, 10);
    if depth > 0 && wire == START_GROUP {
        lemma_group_skipped_inside(tag, bytes, depth);
    }
}

proof fn lemma_group_skipped_inside(tag: u32, bytes: Seq<u8>, depth: nat)
    ensures
        group_skipped(tag, bytes, depth) matches Some(rest) ==> rest.len() < bytes.len(),
    decreases depth, bytes.len(), 0nat,
{
    key_consumes(bytes);
    if depth > 0 {
        if let Some((inner, wire, body)) = key_at(bytes) {
            if let Some(rest) = skipped(wire, inner, body, (depth - 1) as nat) {
                if rest.len() < bytes.len() {
                    lemma_group_skipped_inside(tag, rest, depth);
                }
            }
        }
    }
}

/// A 64-bit integer takes at most ten bytes.
pub proof fn leb128_is_short(value: u64)
    ensures
        leb128(value as nat).len() <= 10,
{
    assert(leb128_bound(10) > u64::MAX) by {
        reveal_with_fuel(leb128_bound, 11);
    }
    lemma_leb128_prefix(value as nat, Seq::empty(), 10);
    lemma_leb128_prefix_limit(leb128(value as nat) + Seq::<u8>::empty(), 10);
}

proof fn lemma_leb128_prefix_limit(bytes: Seq<u8>, limit: nat)
    ensures
        leb128_prefix(bytes, limit) matches Some((_, width)) ==> width <= limit,
    decreases limit,
{
    if limit > 0 && bytes.len() > 0 && bytes[0] >= 128 {
        lemma_leb128_prefix_limit(bytes.skip(1), (limit - 1) as nat);
    }
}

/// The error of the `prost` readers.
#[verifier::external_type_specification]
#[verifier::external_body]
pub struct ExDecodeError(prost::DecodeError);

/// Calls `prost::encoding::decode_key`, which reads a field key: a LEB128 integer of at
/// most 32 bits, whose low three bits are a wire type and whose other bits are a tag other
/// than zero. Anything else is an error.
#[verifier::external_body]
pub(crate) fn read_key(buf: &[u8]) -> (r: Result<(u32, u64, &[u8]), prost::DecodeError>)
    ensures
        key_at(buf@) == (match r {
            Ok((tag, wire, rest)) => Some((tag, wire, rest@)),
            Err(_) => None,
        }),
{
    let mut rest = buf;
    let (tag, wire) = prost::encoding::decode_key(&mut rest)?;
    Ok((tag, wire as u64, rest))
}

/// Calls `prost::encoding::string::merge`, which replaces `value` by the text of a
/// length-delimited field. It is an error if the field has another wire type, if its
/// length is malformed or runs past the input, or if its contents are not UTF-8; then
/// `value` is left empty.
#[verifier::external_body]
pub(crate) fn read_string<'a>(wire: u64, value: &mut String, buf: &'a [u8]) -> (r: Result<
    &'a [u8],
    prost::DecodeError,
>)
    requires
        wire <= THIRTY_TWO_BIT,
    ensures
        match string_at(wire, buf@) {
            Some((text, rest)) => rest_of(r) == Some(rest) && final(value)@ == text,
            None => r is Err && final(value)@ == Seq::<char>::empty(),
        },
{
    let mut rest = buf;
    let wire = prost::encoding::WireType::try_from(wire)?;
    prost::encoding::string::merge(wire, value, &mut rest, Default::default())?;
    Ok(rest)
}

/// Calls `prost::encoding::uint64::merge`, which replaces `value` by the integer of a
/// LEB128 field. It is an error if the field has another wire type or if the integer is
/// malformed; then `value` keeps what it had.
#[verifier::external_body]
pub(crate) fn read_uint<'a>(wire: u64, value: &mut u64, buf: &'a [u8]) -> (r: Result<
    &'a [u8],
    prost::DecodeError,
>)
    requires
        wire <= THIRTY_TWO_BIT,
    ensures
        match uint_at(wire, buf@) {
            Some((n, rest)) => rest_of(r) == Some(rest) && *final(value) == n,
            None => r is Err && *final(value) == *old(value),
        },
{
    let mut rest = buf;
    let wire = prost::encoding::WireType::try_from(wire)?;
    prost::encoding::uint64::merge(wire, value, &mut rest, Default::default())?;
    Ok(rest)
}

/// Calls `prost::encoding::skip_field`, which passes over the contents of a field: a
/// LEB128 integer, eight bytes, a length and that many bytes, four bytes, or a group up to
/// its end. A group's end by itself is an error, as is a field that runs past the input or
/// in which groups nest too deep.
#[verifier::external_body]
pub(crate) fn skip_field(wire: u64, tag: u32, buf: &[u8]) -> (r: Result<&[u8], prost::DecodeError>)
    requires
        wire <= THIRTY_TWO_BIT,
    ensures
        rest_of(r) == skip_at(wire, tag, buf@),
{
    let mut rest = buf;
    let wire = prost::encoding::WireType::try_from(wire)?;
    prost::encoding::skip_field(wire, tag, &mut rest, Default::default())?;
    Ok(rest)
}

/// Calls `prost::encoding::string::encode`, which appends a text field to `buf`.
#[verifier::external_body]
pub(crate) fn write_string(tag: u32, value: &String, buf: &mut Vec<u8>)
    requires
        1 <= tag <= MAX_TAG,
        old(buf)@.len() + string_field(tag, value@).len() <= isize::MAX,
    ensures
        final(buf)@ == old(buf)@ + string_field(tag, value@),
{
    prost::encoding::string::encode(tag, value, buf);
}

/// Calls `prost::encoding::uint64::encode`, which appends an integer field to `buf`.
#[verifier::external_body]
pub(crate) fn write_uint(tag: u32, value: u64, buf: &mut Vec<u8>)
    requires
        1 <= tag <= MAX_TAG,
        old(buf)@.len() + uint_field(tag, value).len() <= isize::MAX,
    ensures
        final(buf)@ == old(buf)@ + uint_field(tag, value),
{
    prost::encoding::uint64::encode(tag, &value, buf);
}

/// Calls `prost::encoding::string::encoded_len`, which returns how many bytes a text
/// field takes.
#[verifier::external_body]
pub(crate) fn string_len(tag: u32, value: &String) -> (r: usize)
    requires
        1 <= tag <= MAX_TAG,
        encode_utf8(value@).len() <= isize::MAX,
    ensures
        r == string_field(tag, value@).len(),
{
    prost::encoding::string::encoded_len(tag, value)
}

/// Calls `prost::encoding::uint64::encoded_len`, which returns how many bytes an integer
/// field takes.
#[verifier::external_body]
pub(crate) fn uint_len(tag: u32, value: u64) -> (r: usize)
    requires
        1 <= tag <= MAX_TAG,
    ensures
        r == uint_field(tag, value).len(),
{
    prost::encoding::uint64::encoded_len(tag, &value)
}

} // verus!
