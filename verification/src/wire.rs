//! The primitives of the binary wire format: variable-length integers, field
//! keys, and the four field shapes that the schema of this library uses.
//!
//! The bytes themselves are produced by `prost`; the spec functions of this
//! module say which bytes those are.

use crate::error::Error;
use vstd::prelude::*;
use vstd::string::StringSliceAdditionalSpecFns;
use vstd::utf8::encode_utf8;

verus! {

/// The largest field number that the wire format admits.
pub const MAX_TAG: u32 = 0x1fff_ffff;

/// The largest number of bytes that a string field may occupy. Decoders of
/// the wire format refuse anything longer.
pub const MAX_FIELD_LEN: usize = 0x7fff_ffff;

/// Wire type of a field that holds a variable-length integer.
pub open spec fn wire_varint() -> nat {
    0
}

/// Wire type of a field that holds a length followed by that many bytes.
pub open spec fn wire_length_delimited() -> nat {
    2
}

/// Little-endian base-128 encoding of `value`: seven bits per byte, least
/// significant group first, the high bit set on every byte but the last.
pub open spec fn varint(value: nat) -> Seq<u8>
    decreases value,
{
    if value < 128 {
        seq![value as u8]
    } else {
        seq![(value % 128 + 128) as u8] + varint(value / 128)
    }
}

/// The key that precedes every field: its number and wire type as one varint.
pub open spec fn key(tag: u32, wire_type: nat) -> Seq<u8> {
    varint(tag as nat * 8 + wire_type)
}

/// A field that holds `payload` verbatim, preceded by its length.
pub open spec fn bytes_field(tag: u32, payload: Seq<u8>) -> Seq<u8> {
    key(tag, wire_length_delimited()) + varint(payload.len()) + payload
}

/// A field that holds the UTF-8 encoding of `text`.
pub open spec fn string_field(tag: u32, text: Seq<char>) -> Seq<u8> {
    bytes_field(tag, encode_utf8(text))
}

/// A field that holds a signed integer in two's complement, as a varint.
pub open spec fn int64_field(tag: u32, value: i64) -> Seq<u8> {
    key(tag, wire_varint()) + varint(value as u64 as nat)
}

/// A field that holds a boolean, as the varint 0 or 1.
pub open spec fn bool_field(tag: u32, value: bool) -> Seq<u8> {
    key(tag, wire_varint()) + varint(if value { 1 } else { 0 })
}

/// The encodings that `each` gives to the items of a sequence, one after the
/// other in the order of the sequence.
pub open spec fn concat_map<T>(items: Seq<T>, each: spec_fn(T) -> Seq<u8>) -> Seq<u8>
    decreases items.len(),
{
    if items.len() == 0 {
        seq![]
    } else {
        concat_map(items.drop_last(), each) + each(items.last())
    }
}

/// Appending an item to a sequence appends its encoding.
pub proof fn lemma_concat_map_push<T>(items: Seq<T>, item: T, each: spec_fn(T) -> Seq<u8>)
    ensures
        concat_map(items.push(item), each) == concat_map(items, each) + each(item),
{
    assert(items.push(item).drop_last() =~= items);
}

/// True if a string field can hold `text`: its UTF-8 encoding is no longer
/// than [`MAX_FIELD_LEN`].
pub open spec fn string_encodable(text: Seq<char>) -> bool {
    encode_utf8(text).len() <= MAX_FIELD_LEN
}

/// The UTF-8 encoding of a concatenation is the concatenation of the
/// encodings.
pub proof fn lemma_encode_utf8_concat(left: Seq<char>, right: Seq<char>)
    ensures
        encode_utf8(left + right) == encode_utf8(left) + encode_utf8(right),
    decreases left.len(),
{
    if left.len() == 0 {
        assert(left + right =~= right);
        assert(encode_utf8(left) + encode_utf8(right) =~= encode_utf8(right));
    } else {
        lemma_encode_utf8_concat(left.drop_first(), right);
        assert((left + right).drop_first() =~= left.drop_first() + right);
        assert((left + right)[0] == left[0]);
        assert(encode_utf8(left + right) =~= encode_utf8(left) + encode_utf8(right));
    }
}

/// The number of bytes that `text` occupies in UTF-8.
pub fn utf8_len(text: &str) -> (len: usize)
    ensures
        len == encode_utf8(text@).len(),
{
    text.as_bytes().len()
}

/// Validates the length in bytes of a string field: [`Error::Encoding`] if
/// it is over [`MAX_FIELD_LEN`].
pub fn check_len(len: usize) -> (result: Result<(), Error>)
    ensures
        result is Ok <==> len <= MAX_FIELD_LEN,
        result is Err ==> result == Err::<(), Error>(Error::Encoding),
{
    if len <= MAX_FIELD_LEN {
        Ok(())
    } else {
        Err(Error::Encoding)
    }
}

/// Validates that a string field can hold `text`.
pub fn check_string(text: &str) -> (result: Result<(), Error>)
    ensures
        result is Ok <==> string_encodable(text@),
        result is Err ==> result == Err::<(), Error>(Error::Encoding),
{
    check_len(utf8_len(text))
}

/// True if `tag` is a field number that the wire format admits.
pub open spec fn valid_tag(tag: u32) -> bool {
    1 <= tag <= MAX_TAG
}

/// Appends a length-delimited field to `buf` by `prost::encoding::bytes::encode`.
///
/// Trusted: the call writes the key of `tag` with the length-delimited wire
/// type, the varint of the payload's length, then the payload itself.
#[verifier::external_body]
pub(crate) fn put_bytes(tag: u32, payload: &Vec<u8>, buf: &mut Vec<u8>)
    requires
        valid_tag(tag),
    ensures
        final(buf)@ == old(buf)@ + bytes_field(tag, payload@),
{
    prost::encoding::bytes::encode(tag, payload, buf)
}

/// Appends a string field to `buf` by `prost::encoding::string::encode`.
///
/// Trusted: the call writes the key of `tag` with the length-delimited wire
/// type, the varint of the length of the string's UTF-8 bytes, then those
/// bytes.
#[verifier::external_body]
pub(crate) fn put_string(tag: u32, text: &String, buf: &mut Vec<u8>)
    requires
        valid_tag(tag),
    ensures
        final(buf)@ == old(buf)@ + string_field(tag, text@),
{
    prost::encoding::string::encode(tag, text, buf)
}

/// Appends a signed integer field to `buf` by `prost::encoding::int64::encode`.
///
/// Trusted: the call writes the key of `tag` with the varint wire type, then
/// the varint of the value reinterpreted as an unsigned 64-bit integer.
#[verifier::external_body]
pub(crate) fn put_int64(tag: u32, value: i64, buf: &mut Vec<u8>)
    requires
        valid_tag(tag),
    ensures
        final(buf)@ == old(buf)@ + int64_field(tag, value),
{
    prost::encoding::int64::encode(tag, &value, buf)
}

/// Appends a boolean field to `buf` by `prost::encoding::bool::encode`.
///
/// Trusted: the call writes the key of `tag` with the varint wire type, then
/// the single byte 1 for `true` or 0 for `false`.
#[verifier::external_body]
pub(crate) fn put_bool(tag: u32, value: bool, buf: &mut Vec<u8>)
    requires
        valid_tag(tag),
    ensures
        final(buf)@ == old(buf)@ + bool_field(tag, value),
{
    prost::encoding::bool::encode(tag, &value, buf)
}

} // verus!
