//! Wire primitives of the envelope encoding: base-128 variable-length
//! integers and tagged fields.

use prost::encoding::{decode_varint, encode_varint};
use prost::DecodeError;
use vstd::prelude::*;
use vstd::slice::slice_subrange;

verus! {

/// `prost::DecodeError`, the error of `prost`'s decoding functions. It is
/// only told apart from success, and never looked into.
#[verifier::external_type_specification]
#[verifier::external_body]
pub struct ExDecodeError(DecodeError);

/// Wire type of a variable-length integer field.
pub const WIRE_VARINT: u8 = 0;

/// Wire type of an eight-byte field.
pub const WIRE_FIXED64: u8 = 1;

/// Wire type of a field whose content is preceded by its length.
pub const WIRE_LEN: u8 = 2;

/// Wire type of a four-byte field.
pub const WIRE_FIXED32: u8 = 5;

/// Largest tag a field key can carry.
pub const MAX_TAG: u32 = 0x1fff_ffff;

/// The variable-length encoding of `value`: seven bits per byte, least
/// significant group first, the high bit set on every byte but the last.
pub open spec fn varint_bytes(value: nat) -> Seq<u8>
    decreases value,
{
    if value < 128 {
        seq![value as u8]
    } else {
        seq![(value % 128 + 128) as u8] + varint_bytes(value / 128)
    }
}

/// Reads one variable-length integer from the front of `bytes`, where
/// `position` bytes of it were read before. Gives the value and the number
/// of bytes it occupies, or `None` when the input ends early, runs past ten
/// bytes, or does not fit in 64 bits.
pub open spec fn varint_parse(bytes: Seq<u8>, position: nat) -> Option<(nat, nat)>
    decreases bytes.len(),
{
    if bytes.len() == 0 || position >= 10 {
        None
    } else if bytes[0] < 128 {
        if position == 9 && bytes[0] >= 2 {
            None
        } else {
            Some((bytes[0] as nat, 1nat))
        }
    } else {
        match varint_parse(bytes.skip(1), position + 1) {
            None => None,
            Some((high, length)) => Some((((bytes[0] - 128) + 128 * high) as nat, length + 1)),
        }
    }
}

/// Exclusive upper bound of the values that can still be encoded when
/// `position` bytes of a ten-byte integer are already written.
pub open spec fn varint_capacity(position: nat) -> nat {
    if position == 0 {
        0x1_0000_0000_0000_0000
    } else if position == 1 {
        0x200_0000_0000_0000
    } else if position == 2 {
        0x4_0000_0000_0000
    } else if position == 3 {
        0x800_0000_0000
    } else if position == 4 {
        0x10_0000_0000
    } else if position == 5 {
        0x2000_0000
    } else if position == 6 {
        0x40_0000
    } else if position == 7 {
        0x8000
    } else if position == 8 {
        0x100
    } else if position == 9 {
        2
    } else {
        0
    }
}

/// Reading back an encoded integer gives the integer and its length,
/// whatever follows it.
pub proof fn lemma_varint_round_trip(value: nat, rest: Seq<u8>, position: nat)
    requires
        value < varint_capacity(position),
    ensures
        varint_parse(varint_bytes(value) + rest, position) == Some(
            (value, varint_bytes(value).len()),
        ),
        1 <= varint_bytes(value).len() <= 10 - position,
    decreases value,
{
    let bytes = varint_bytes(value) + rest;
    if value < 128 {
        assert(bytes[0] == value as u8);
    } else {
        let tail = varint_bytes(value / 128);
        assert(bytes[0] == (value % 128 + 128) as u8);
        assert(bytes.skip(1) =~= tail + rest);
        assert(position <= 8);
        assert(value / 128 < varint_capacity(position + 1));
        lemma_varint_round_trip(value / 128, rest, position + 1);
    }
}

/// What a parse consumed is a prefix of the input, and the value fits in 64
/// bits.
pub proof fn lemma_varint_parse_bounds(bytes: Seq<u8>, position: nat)
    ensures
        varint_parse(bytes, position) matches Some((value, length)) ==> 1 <= length
            <= bytes.len() && length <= 10 - position && value < varint_capacity(position),
    decreases bytes.len(),
{
    if bytes.len() == 0 || position >= 10 {
    } else if bytes[0] < 128 {
    } else {
        lemma_varint_parse_bounds(bytes.skip(1), position + 1);
    }
}

/// Calls `prost::encoding::encode_varint` on a `Vec<u8>`. Claimed: the call
/// appends the variable-length encoding of `value` and changes nothing else.
#[verifier::external_body]
fn varint_encode(value: u64, buf: &mut Vec<u8>)
    ensures
        final(buf)@ == old(buf)@ + varint_bytes(value as nat),
{
    encode_varint(value, buf)
}

/// Calls `prost::encoding::decode_varint` on a byte slice. Claimed: the call
/// fails exactly when `varint_parse` gives `None`, and otherwise returns the
/// parsed value and leaves the slice advanced past the bytes it occupies.
#[verifier::external_body]
fn varint_decode<'a>(bytes: &'a [u8]) -> (result: Result<(u64, &'a [u8]), DecodeError>)
    ensures
        match varint_parse(bytes@, 0) {
            None => result is Err,
            Some((value, length)) => result is Ok && result->Ok_0.0 == value
                && result->Ok_0.1@ == bytes@.skip(length as int),
        },
{
    let mut rest = bytes;
    let value = decode_varint(&mut rest)?;
    Ok((value, rest))
}

/// One field of a message, as a parse sees it.
pub struct FieldSpec {
    /// The field's number.
    pub tag: nat,
    /// How the field's value is laid out.
    pub wire_type: nat,
    /// The bytes of the field's value (for a length-delimited field, without
    /// the length).
    pub content: Seq<u8>,
    /// How many bytes the whole field occupies, key included.
    pub length: nat,
}

/// The encoding of a length-delimited field: its key, the length of its
/// content, then the content.
pub open spec fn len_field_bytes(tag: nat, content: Seq<u8>) -> Seq<u8> {
    varint_bytes(tag * 8 + 2) + varint_bytes(content.len()) + content
}

/// Reads the value of a field of the given wire type from the front of
/// `body`: the value's bytes and the number of bytes consumed.
pub open spec fn value_parse(wire_type: nat, body: Seq<u8>) -> Option<(Seq<u8>, nat)> {
    if wire_type == WIRE_VARINT {
        match varint_parse(body, 0) {
            None => None,
            Some((_, length)) => Some((body.take(length as int), length)),
        }
    } else if wire_type == WIRE_FIXED64 {
        if body.len() < 8 {
            None
        } else {
            Some((body.take(8), 8nat))
        }
    } else if wire_type == WIRE_FIXED32 {
        if body.len() < 4 {
            None
        } else {
            Some((body.take(4), 4nat))
        }
    } else if wire_type == WIRE_LEN {
        match varint_parse(body, 0) {
            None => None,
            Some((size, length)) => if size > body.len() - length {
                None
            } else {
                Some((body.subrange(length as int, (length + size) as int), length + size))
            },
        }
    } else {
        None
    }
}

/// Reads one field from the front of `bytes`. `None` when the key is not a
/// valid variable-length integer, exceeds 32 bits, carries tag 0 or a wire
/// type other than the four above, or when the value is cut short.
pub open spec fn field_parse(bytes: Seq<u8>) -> Option<FieldSpec> {
    match varint_parse(bytes, 0) {
        None => None,
        Some((key, key_len)) => if key > u32::MAX || key / 8 == 0 {
            None
        } else {
            match value_parse(key % 8, bytes.skip(key_len as int)) {
                None => None,
                Some((content, value_len)) => Some(
                    FieldSpec {
                        tag: key / 8,
                        wire_type: key % 8,
                        content,
                        length: key_len + value_len,
                    },
                ),
            }
        },
    }
}

/// A parsed field occupies a non-empty prefix of the input.
pub proof fn lemma_field_parse_bounds(bytes: Seq<u8>)
    ensures
        field_parse(bytes) matches Some(field) ==> 2 <= field.length <= bytes.len() && 1
            <= field.tag <= MAX_TAG && field.wire_type <= 5,
{
    lemma_varint_parse_bounds(bytes, 0);
    if let Some((key, key_len)) = varint_parse(bytes, 0) {
        lemma_varint_parse_bounds(bytes.skip(key_len as int), 0);
    }
}

/// Reading back an encoded length-delimited field gives its tag and content,
/// whatever follows it.
pub proof fn lemma_len_field_round_trip(tag: nat, content: Seq<u8>, rest: Seq<u8>)
    requires
        1 <= tag <= MAX_TAG,
        content.len() <= u64::MAX,
    ensures
        field_parse(len_field_bytes(tag, content) + rest) == Some(
            FieldSpec {
                tag,
                wire_type: WIRE_LEN as nat,
                content,
                length: len_field_bytes(tag, content).len(),
            },
        ),
        len_field_bytes(tag, content).len() >= 2 + content.len(),
{
    let key = tag * 8 + 2;
    let key_bytes = varint_bytes(key);
    let size_bytes = varint_bytes(content.len());
    let bytes = len_field_bytes(tag, content) + rest;
    assert(bytes =~= key_bytes + (size_bytes + content + rest));
    lemma_varint_round_trip(key, size_bytes + content + rest, 0);
    let body = bytes.skip(key_bytes.len() as int);
    assert(body =~= size_bytes + (content + rest));
    lemma_varint_round_trip(content.len(), content + rest, 0);
    assert(body.subrange(size_bytes.len() as int, (size_bytes.len() + content.len()) as int)
        =~= content);
}

/// One field read from a byte slice.
pub struct Field<'a> {
    /// The field's number.
    pub tag: u32,
    /// How the field's value is laid out.
    pub wire_type: u8,
    /// The bytes of the field's value.
    pub content: &'a [u8],
    /// The bytes that follow the field.
    pub rest: &'a [u8],
}

impl<'a> Field<'a> {
    /// Whether this is the field that `field_parse` finds at the front of
    /// `bytes`.
    pub open spec fn is_front_of(self, bytes: Seq<u8>) -> bool {
        match field_parse(bytes) {
            None => false,
            Some(field) => {
                &&& self.tag == field.tag
                &&& self.wire_type == field.wire_type
                &&& self.content@ == field.content
                &&& self.rest@ == bytes.skip(field.length as int)
            },
        }
    }
}

/// Appends a length-delimited field with the given tag and content.
pub fn put_len_field(tag: u32, content: &[u8], buf: &mut Vec<u8>)
    requires
        1 <= tag <= MAX_TAG,
    ensures
        final(buf)@ == old(buf)@ + len_field_bytes(tag as nat, content@),
{
    let ghost before = buf@;
    let key: u64 = tag as u64 * 8 + 2;
    varint_encode(key, buf);
    varint_encode(content.len() as u64, buf);
    buf.extend_from_slice(content);
    assert(buf@ =~= before + len_field_bytes(tag as nat, content@));
}

/// Reads one field from the front of `bytes`.
pub fn take_field<'a>(bytes: &'a [u8]) -> (result: Option<Field<'a>>)
    ensures
        match result {
            None => field_parse(bytes@) is None,
            Some(field) => field.is_front_of(bytes@),
        },
{
    let (key, body) = match varint_decode(bytes) {
        Err(_) => { return None; },
        Ok(found) => found,
    };
    if key > u32::MAX as u64 || key / 8 == 0 {
        return None;
    }
    let tag: u32 = (key / 8) as u32;
    let wire_type: u8 = (key % 8) as u8;
    proof {
        lemma_varint_parse_bounds(bytes@, 0);
        lemma_varint_parse_bounds(body@, 0);
    }
    if wire_type == WIRE_VARINT {
        match varint_decode(body) {
            Err(_) => None,
            Ok((_, rest)) => {
                let length: usize = body.len() - rest.len();
                let content = slice_subrange(body, 0, length);
                assert(rest@ =~= bytes@.skip(bytes@.len() - rest@.len()));
                Some(Field { tag, wire_type, content, rest })
            },
        }
    } else if wire_type == WIRE_FIXED64 || wire_type == WIRE_FIXED32 {
        let width: usize = if wire_type == WIRE_FIXED64 { 8 } else { 4 };
        if body.len() < width {
            None
        } else {
            let content = slice_subrange(body, 0, width);
            let rest = slice_subrange(body, width, body.len());
            assert(rest@ =~= bytes@.skip(bytes@.len() - rest@.len()));
            Some(Field { tag, wire_type, content, rest })
        }
    } else if wire_type == WIRE_LEN {
        match varint_decode(body) {
            Err(_) => None,
            Ok((size, after)) => {
                if size > after.len() as u64 {
                    None
                } else {
                    let size: usize = size as usize;
                    let content = slice_subrange(after, 0, size);
                    let rest = slice_subrange(after, size, after.len());
                    assert(content@ =~= body@.subrange(
                        body@.len() - after@.len(),
                        body@.len() - after@.len() + size,
                    ));
                    assert(rest@ =~= bytes@.skip(bytes@.len() - rest@.len()));
                    Some(Field { tag, wire_type, content, rest })
                }
            },
        }
    } else {
        None
    }
}


} // verus!
