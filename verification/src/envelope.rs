//! The envelope protocol: a type identifier, an opaque payload and an
//! optional correlation id, carried as one self-describing record.
//!
//! An envelope is a message of two length-delimited fields. Field 1 holds the
//! typed payload, itself a message whose field 1 is the type identifier and
//! whose field 2 is the payload bytes; either is left out when empty. Field 2
//! holds the correlation id and is present exactly when there is one.
//! Fields with other tags are skipped when reading; group fields are not
//! accepted.

use crate::wire::{
    field_parse, lemma_field_parse_bounds, lemma_len_field_round_trip, len_field_bytes,
    put_len_field, take_field, FieldSpec, WIRE_LEN,
};
use vstd::prelude::*;
use vstd::slice::slice_to_vec;
use vstd::string::*;
use vstd::utf8::*;

verus! {

/// Tag of the typed payload within an envelope.
pub const TAG_PAYLOAD: u32 = 1;

/// Tag of the correlation id within an envelope.
pub const TAG_CORRELATION: u32 = 2;

/// Tag of the type identifier within a typed payload.
pub const TAG_TYPE_ID: u32 = 1;

/// Tag of the payload bytes within a typed payload.
pub const TAG_VALUE: u32 = 2;

/// The unit of application-level communication.
#[derive(Clone, Debug, PartialEq, Eq)]
pub struct Envelope {
    /// Identifies the logical type of the payload. Never empty.
    pub type_id: String,
    /// The pre-serialized payload; never interpreted here.
    pub payload: Vec<u8>,
    /// Present exactly when the sender expects a reply tied to this exchange.
    pub correlation_id: Option<String>,
}

/// What an envelope holds, as mathematical values.
pub struct EnvelopeView {
    pub type_id: Seq<char>,
    pub payload: Seq<u8>,
    pub correlation_id: Option<Seq<char>>,
}

/// The view of an optional string.
pub open spec fn option_view(text: Option<String>) -> Option<Seq<char>> {
    match text {
        Some(s) => Some(s@),
        None => None,
    }
}

impl View for Envelope {
    type V = EnvelopeView;

    open spec fn view(&self) -> EnvelopeView {
        EnvelopeView {
            type_id: self.type_id@,
            payload: self.payload@,
            correlation_id: option_view(self.correlation_id),
        }
    }
}

/// Why an envelope could not be written or read.
#[derive(Clone, Copy, Debug, PartialEq, Eq)]
pub enum EnvelopeError {
    /// The envelope to write has an empty type identifier.
    EmptyTypeId,
    /// The bytes are not an envelope: they cannot be parsed, or the typed
    /// payload or its type identifier is missing.
    MalformedEnvelope,
}

/// A typed payload: a type identifier and the payload bytes.
pub struct PayloadSpec {
    pub type_id: Seq<char>,
    pub value: Seq<u8>,
}

/// The fields of an envelope found so far while reading.
pub struct PartsSpec {
    pub payload: Option<PayloadSpec>,
    pub correlation_id: Option<Seq<char>>,
}

/// The encoding of a typed payload.
pub open spec fn payload_bytes(type_id: Seq<char>, value: Seq<u8>) -> Seq<u8> {
    let first = if type_id.len() > 0 {
        len_field_bytes(TAG_TYPE_ID as nat, encode_utf8(type_id))
    } else {
        Seq::empty()
    };
    let second = if value.len() > 0 {
        len_field_bytes(TAG_VALUE as nat, value)
    } else {
        Seq::empty()
    };
    first + second
}

/// The encoding of an envelope.
pub open spec fn envelope_bytes(envelope: EnvelopeView) -> Seq<u8> {
    let first = len_field_bytes(
        TAG_PAYLOAD as nat,
        payload_bytes(envelope.type_id, envelope.payload),
    );
    let second = match envelope.correlation_id {
        Some(id) => len_field_bytes(TAG_CORRELATION as nat, encode_utf8(id)),
        None => Seq::empty(),
    };
    first + second
}

/// The typed payload after one more field: a known field replaces what was
/// read before, an unknown one changes nothing, and a known field of the
/// wrong shape is an error.
pub open spec fn payload_accept(so_far: PayloadSpec, field: FieldSpec) -> Option<PayloadSpec> {
    if field.tag == TAG_TYPE_ID {
        if field.wire_type == WIRE_LEN && valid_utf8(field.content) {
            Some(PayloadSpec { type_id: decode_utf8(field.content), value: so_far.value })
        } else {
            None
        }
    } else if field.tag == TAG_VALUE {
        if field.wire_type == WIRE_LEN {
            Some(PayloadSpec { type_id: so_far.type_id, value: field.content })
        } else {
            None
        }
    } else {
        Some(so_far)
    }
}

/// Reads the fields of a typed payload from `bytes`, starting from what was
/// read before.
pub open spec fn payload_parse(bytes: Seq<u8>, so_far: PayloadSpec) -> Option<PayloadSpec>
    decreases bytes.len(),
{
    if bytes.len() == 0 {
        Some(so_far)
    } else {
        match field_parse(bytes) {
            None => None,
            Some(field) => match payload_accept(so_far, field) {
                None => None,
                Some(next) => {
                    proof {
                        lemma_field_parse_bounds(bytes);
                    }
                    payload_parse(bytes.skip(field.length as int), next)
                },
            },
        }
    }
}

/// A typed payload of which nothing was read yet.
pub open spec fn empty_payload() -> PayloadSpec {
    PayloadSpec { type_id: Seq::empty(), value: Seq::empty() }
}

/// The envelope after one more field. A repeated typed payload is read on
/// top of the one before it.
pub open spec fn parts_accept(so_far: PartsSpec, field: FieldSpec) -> Option<PartsSpec> {
    if field.tag == TAG_PAYLOAD {
        let start = match so_far.payload {
            Some(payload) => payload,
            None => empty_payload(),
        };
        if field.wire_type == WIRE_LEN {
            match payload_parse(field.content, start) {
                Some(payload) => Some(
                    PartsSpec { payload: Some(payload), correlation_id: so_far.correlation_id },
                ),
                None => None,
            }
        } else {
            None
        }
    } else if field.tag == TAG_CORRELATION {
        if field.wire_type == WIRE_LEN && valid_utf8(field.content) {
            Some(
                PartsSpec {
                    payload: so_far.payload,
                    correlation_id: Some(decode_utf8(field.content)),
                },
            )
        } else {
            None
        }
    } else {
        Some(so_far)
    }
}

/// Reads the fields of an envelope from `bytes`, starting from what was read
/// before.
pub open spec fn parts_parse(bytes: Seq<u8>, so_far: PartsSpec) -> Option<PartsSpec>
    decreases bytes.len(),
{
    if bytes.len() == 0 {
        Some(so_far)
    } else {
        match field_parse(bytes) {
            None => None,
            Some(field) => match parts_accept(so_far, field) {
                None => None,
                Some(next) => {
                    proof {
                        lemma_field_parse_bounds(bytes);
                    }
                    parts_parse(bytes.skip(field.length as int), next)
                },
            },
        }
    }
}

/// The envelope that `bytes` encode, if they encode one: all fields must
/// parse, and the typed payload must be there with a type identifier.
pub open spec fn envelope_parse(bytes: Seq<u8>) -> Option<EnvelopeView> {
    match parts_parse(bytes, PartsSpec { payload: None, correlation_id: None }) {
        Some(parts) => match parts.payload {
            Some(payload) => if payload.type_id.len() > 0 {
                Some(
                    EnvelopeView {
                        type_id: payload.type_id,
                        payload: payload.value,
                        correlation_id: parts.correlation_id,
                    },
                )
            } else {
                None
            },
            None => None,
        },
        None => None,
    }
}

/// Reading back an encoded typed payload gives the type identifier and the
/// payload bytes.
pub proof fn lemma_payload_round_trip(type_id: Seq<char>, value: Seq<u8>)
    requires
        payload_bytes(type_id, value).len() <= u64::MAX,
    ensures
        payload_parse(payload_bytes(type_id, value), empty_payload()) == Some(
            PayloadSpec { type_id, value },
        ),
{
    let text = encode_utf8(type_id);
    let second = if value.len() > 0 {
        len_field_bytes(TAG_VALUE as nat, value)
    } else {
        Seq::empty()
    };
    let after_first = PayloadSpec { type_id, value: Seq::empty() };
    let whole = PayloadSpec { type_id, value };
    assert(payload_parse(second, after_first) == Some(whole)) by {
        reveal_with_fuel(payload_parse, 2);
        if value.len() > 0 {
            lemma_len_field_round_trip(TAG_VALUE as nat, value, Seq::empty());
            assert(second + Seq::<u8>::empty() =~= second);
            assert(second.skip(second.len() as int) =~= Seq::<u8>::empty());
            assert(payload_accept(after_first, field_parse(second).unwrap()) == Some(whole));
        } else {
            assert(value =~= Seq::<u8>::empty());
        }
    }
    if type_id.len() > 0 {
        let first = len_field_bytes(TAG_TYPE_ID as nat, text);
        lemma_len_field_round_trip(TAG_TYPE_ID as nat, text, second);
        encode_utf8_valid_utf8(type_id);
        encode_utf8_decode_utf8(type_id);
        assert((first + second).skip(first.len() as int) =~= second);
    } else {
        assert(type_id =~= Seq::<char>::empty());
        assert(payload_bytes(type_id, value) =~= second);
    }
}

/// Round trip: reading back an encoded envelope gives the envelope, for
/// every envelope with a type identifier.
pub proof fn lemma_envelope_round_trip(envelope: EnvelopeView)
    requires
        envelope.type_id.len() > 0,
        envelope_bytes(envelope).len() <= u64::MAX,
    ensures
        envelope_parse(envelope_bytes(envelope)) == Some(envelope),
{
    let inner = payload_bytes(envelope.type_id, envelope.payload);
    let first = len_field_bytes(TAG_PAYLOAD as nat, inner);
    let second = match envelope.correlation_id {
        Some(id) => len_field_bytes(TAG_CORRELATION as nat, encode_utf8(id)),
        None => Seq::empty(),
    };
    let start = PartsSpec { payload: None, correlation_id: None };
    let payload = PayloadSpec { type_id: envelope.type_id, value: envelope.payload };
    let after_first = PartsSpec { payload: Some(payload), correlation_id: None };
    lemma_payload_round_trip(envelope.type_id, envelope.payload);
    lemma_len_field_round_trip(TAG_PAYLOAD as nat, inner, second);
    assert((first + second).skip(first.len() as int) =~= second);
    assert(parts_parse(first + second, start) == parts_parse(second, after_first)) by {
        assert(parts_accept(start, field_parse(first + second).unwrap()) == Some(after_first));
    }
    let whole = PartsSpec { payload: Some(payload), correlation_id: envelope.correlation_id };
    assert(parts_parse(second, after_first) == Some(whole)) by {
        reveal_with_fuel(parts_parse, 2);
        match envelope.correlation_id {
            Some(id) => {
                lemma_len_field_round_trip(
                    TAG_CORRELATION as nat,
                    encode_utf8(id),
                    Seq::empty(),
                );
                encode_utf8_valid_utf8(id);
                encode_utf8_decode_utf8(id);
                assert(second + Seq::<u8>::empty() =~= second);
                assert(second.skip(second.len() as int) =~= Seq::<u8>::empty());
                assert(parts_accept(after_first, field_parse(second).unwrap()) == Some(whole));
            },
            None => {},
        }
    }
}

/// Calls `core::str::from_utf8`. Claimed: the call succeeds exactly on valid
/// UTF-8, and the text it returns consists of the given bytes.
#[verifier::external_body]
fn text_from_utf8<'a>(bytes: &'a [u8]) -> (result: Option<&'a str>)
    ensures
        result is Some <==> valid_utf8(bytes@),
        result is Some ==> result->Some_0.spec_bytes() == bytes@,
{
    match std::str::from_utf8(bytes) {
        Ok(text) => Some(text),
        Err(_) => None,
    }
}

/// The text that `bytes` encode, when they are valid UTF-8.
fn read_text(bytes: &[u8]) -> (result: Option<String>)
    ensures
        result is Some <==> valid_utf8(bytes@),
        result is Some ==> result->Some_0@ == decode_utf8(bytes@),
{
    match text_from_utf8(bytes) {
        Some(text) => {
            proof {
                encode_utf8_decode_utf8(text@);
            }
            Some(text.to_owned())
        },
        None => None,
    }
}

/// Reads the fields of a typed payload on top of a type identifier and
/// payload bytes read before.
fn read_payload(bytes: &[u8], type_id: String, value: Vec<u8>) -> (result: Option<
    (String, Vec<u8>),
>)
    ensures
        match payload_parse(bytes@, PayloadSpec { type_id: type_id@, value: value@ }) {
            Some(payload) => result is Some && result->Some_0.0@ == payload.type_id
                && result->Some_0.1@ == payload.value,
            None => result is None,
        },
{
    let ghost start = PayloadSpec { type_id: type_id@, value: value@ };
    let mut found_type = type_id;
    let mut found_value = value;
    let mut rest = bytes;
    while rest.len() > 0
        invariant
            start == (PayloadSpec { type_id: type_id@, value: value@ }),
            payload_parse(bytes@, start) == payload_parse(
                rest@,
                PayloadSpec { type_id: found_type@, value: found_value@ },
            ),
        decreases rest@.len(),
    {
        proof {
            lemma_field_parse_bounds(rest@);
        }
        let field = match take_field(rest) {
            Some(field) => field,
            None => { return None; },
        };
        if field.tag == TAG_TYPE_ID {
            if field.wire_type != WIRE_LEN {
                return None;
            }
            match read_text(field.content) {
                Some(text) => { found_type = text; },
                None => { return None; },
            }
        } else if field.tag == TAG_VALUE {
            if field.wire_type != WIRE_LEN {
                return None;
            }
            found_value = slice_to_vec(field.content);
        }
        rest = field.rest;
    }
    Some((found_type, found_value))
}

/// The typed payload read so far, as a mathematical value.
pub open spec fn payload_view(payload: Option<(String, Vec<u8>)>) -> Option<PayloadSpec> {
    match payload {
        Some((type_id, value)) => Some(PayloadSpec { type_id: type_id@, value: value@ }),
        None => None,
    }
}

/// Encodes an envelope from its three fields.
///
/// Fails with `EmptyTypeId` exactly when `type_id` is empty; otherwise the
/// result is the encoding of the envelope.
pub fn encode_envelope(type_id: &str, payload: &[u8], correlation_id: &Option<String>) -> (result:
    Result<Vec<u8>, EnvelopeError>)
    ensures
        type_id@.len() == 0 ==> result == Err::<Vec<u8>, EnvelopeError>(
            EnvelopeError::EmptyTypeId,
        ),
        type_id@.len() > 0 ==> result is Ok && result->Ok_0@ == envelope_bytes(
            EnvelopeView {
                type_id: type_id@,
                payload: payload@,
                correlation_id: option_view(*correlation_id),
            },
        ),
{
    if type_id.is_empty() {
        return Err(EnvelopeError::EmptyTypeId);
    }
    let mut inner: Vec<u8> = Vec::new();
    put_len_field(TAG_TYPE_ID, type_id.as_bytes(), &mut inner);
    if payload.len() > 0 {
        put_len_field(TAG_VALUE, payload, &mut inner);
    }
    assert(inner@ =~= payload_bytes(type_id@, payload@));
    let mut bytes: Vec<u8> = Vec::new();
    put_len_field(TAG_PAYLOAD, inner.as_slice(), &mut bytes);
    match correlation_id {
        Some(id) => {
            put_len_field(TAG_CORRELATION, id.as_str().as_bytes(), &mut bytes);
        },
        None => {},
    }
    assert(bytes@ =~= envelope_bytes(
        EnvelopeView {
            type_id: type_id@,
            payload: payload@,
            correlation_id: option_view(*correlation_id),
        },
    ));
    Ok(bytes)
}

/// Decodes an envelope.
///
/// Succeeds exactly on the byte strings that `envelope_parse` accepts, with
/// the envelope it gives; every other input is a `MalformedEnvelope`.
pub fn decode_envelope(bytes: &[u8]) -> (result: Result<Envelope, EnvelopeError>)
    ensures
        match envelope_parse(bytes@) {
            Some(envelope) => result is Ok && result->Ok_0@ == envelope,
            None => result == Err::<Envelope, EnvelopeError>(EnvelopeError::MalformedEnvelope),
        },
        result is Ok ==> result->Ok_0.type_id@.len() > 0,
{
    let ghost start = PartsSpec { payload: None, correlation_id: None };
    let mut payload: Option<(String, Vec<u8>)> = None;
    let mut correlation_id: Option<String> = None;
    let mut rest = bytes;
    while rest.len() > 0
        invariant
            start == (PartsSpec { payload: None, correlation_id: None }),
            parts_parse(bytes@, start) == parts_parse(
                rest@,
                PartsSpec {
                    payload: payload_view(payload),
                    correlation_id: option_view(correlation_id),
                },
            ),
        decreases rest@.len(),
    {
        proof {
            lemma_field_parse_bounds(rest@);
        }
        let field = match take_field(rest) {
            Some(field) => field,
            None => { return Err(EnvelopeError::MalformedEnvelope); },
        };
        if field.tag == TAG_PAYLOAD {
            if field.wire_type != WIRE_LEN {
                return Err(EnvelopeError::MalformedEnvelope);
            }
            let (type_id, value) = match payload {
                Some(found) => found,
                None => (String::new(), Vec::new()),
            };
            match read_payload(field.content, type_id, value) {
                Some(found) => { payload = Some(found); },
                None => { return Err(EnvelopeError::MalformedEnvelope); },
            }
        } else if field.tag == TAG_CORRELATION {
            if field.wire_type != WIRE_LEN {
                return Err(EnvelopeError::MalformedEnvelope);
            }
            match read_text(field.content) {
                Some(text) => { correlation_id = Some(text); },
                None => { return Err(EnvelopeError::MalformedEnvelope); },
            }
        }
        rest = field.rest;
    }
    match payload {
        Some((type_id, value)) => {
            if type_id.as_str().is_empty() {
                Err(EnvelopeError::MalformedEnvelope)
            } else {
                Ok(Envelope { type_id, payload: value, correlation_id })
            }
        },
        None => Err(EnvelopeError::MalformedEnvelope),
    }
}


} // verus!
