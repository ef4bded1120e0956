//! Length-delimited framing: every frame is a four-byte big-endian length
//! followed by that many payload bytes.

use tokio_util::bytes::BytesMut;
use tokio_util::codec::{Decoder, Encoder, LengthDelimitedCodec};
use vstd::prelude::*;

verus! {

/// Number of bytes in the length header of a frame.
pub const HEADER_LEN: usize = 4;

/// Largest payload length a four-byte header can announce.
pub const MAX_HEADER_VALUE: usize = 0xffff_ffff;

/// The longest payload a decoder accepts unless told otherwise: 8 MiB.
pub const DEFAULT_MAX_FRAME_LENGTH: usize = 0x80_0000;

/// `std::io::Error`, the error type of the codec. It is carried from the
/// call to the place where it becomes a `FrameError`, and never looked into.
#[verifier::external_type_specification]
#[verifier::external_body]
pub struct ExIoError(std::io::Error);

/// The four header bytes that announce a payload of `len` bytes.
pub open spec fn frame_header(len: nat) -> Seq<u8> {
    seq![
        ((len / 0x100_0000) % 0x100) as u8,
        ((len / 0x1_0000) % 0x100) as u8,
        ((len / 0x100) % 0x100) as u8,
        (len % 0x100) as u8,
    ]
}

/// The payload length announced by the first four bytes of `bytes`.
pub open spec fn announced_len(bytes: Seq<u8>) -> nat
    recommends
        bytes.len() >= 4,
{
    (bytes[0] as nat) * 0x100_0000 + (bytes[1] as nat) * 0x1_0000 + (bytes[2] as nat) * 0x100
        + (bytes[3] as nat)
}

/// The limit a codec really applies when asked for `limit`: a four-byte
/// header cannot announce more than `MAX_HEADER_VALUE`.
pub open spec fn effective_limit(limit: usize) -> nat {
    if limit > MAX_HEADER_VALUE {
        MAX_HEADER_VALUE as nat
    } else {
        limit as nat
    }
}

/// Calls `Encoder::<&[u8]>::encode` of a `tokio_util` `LengthDelimitedCodec`
/// built with `max_frame_length(limit)` and otherwise default settings, on an
/// empty buffer. Claimed: the call fails exactly when the payload is longer
/// than the effective limit, and otherwise the buffer holds the big-endian
/// four-byte length followed by the payload.
#[verifier::external_body]
fn codec_encode(limit: usize, payload: &[u8]) -> (result: Result<Vec<u8>, std::io::Error>)
    ensures
        result is Err <==> payload@.len() > effective_limit(limit),
        result is Ok ==> result->Ok_0@ == frame_header(payload@.len()) + payload@,
{
    let mut codec = LengthDelimitedCodec::builder().max_frame_length(limit).new_codec();
    let mut dst = BytesMut::new();
    codec.encode(payload, &mut dst)?;
    Ok(dst.to_vec())
}

/// What can go wrong while framing.
#[derive(Clone, Copy, Debug, PartialEq, Eq)]
pub enum FrameError {
    /// A frame is longer than the configured maximum.
    FrameTooLarge,
    /// The stream ended inside a frame.
    UnexpectedEof,
}

/// A payload as it travels: its length header, then the payload.
pub open spec fn frame_bytes(payload: Seq<u8>) -> Seq<u8> {
    frame_header(payload.len()) + payload
}

/// What stands at the front of a byte stream.
pub enum FrontSpec {
    /// Not enough bytes yet to tell, or to complete the frame.
    Incomplete,
    /// A header that announces more than the limit.
    Oversized,
    /// A complete frame with this payload.
    Frame(Seq<u8>),
}

/// Looks at the front of `bytes` under the given limit.
pub open spec fn front_parse(bytes: Seq<u8>, limit: nat) -> FrontSpec {
    if bytes.len() < HEADER_LEN {
        FrontSpec::Incomplete
    } else if announced_len(bytes) > limit {
        FrontSpec::Oversized
    } else if bytes.len() < HEADER_LEN + announced_len(bytes) {
        FrontSpec::Incomplete
    } else {
        FrontSpec::Frame(
            bytes.subrange(HEADER_LEN as int, (HEADER_LEN + announced_len(bytes)) as int),
        )
    }
}

/// The outcome of taking frames from a byte stream for as long as complete
/// frames stand at its front.
pub struct StreamSpec {
    /// The payloads of the frames taken, in order.
    pub frames: Seq<Seq<u8>>,
    /// The bytes left over.
    pub rest: Seq<u8>,
    /// Whether taking stopped at a header that announces more than the limit.
    pub oversized: bool,
}

/// Takes frames from the front of `bytes` until the front is incomplete or
/// oversized.
pub open spec fn stream_parse(bytes: Seq<u8>, limit: nat) -> StreamSpec
    decreases bytes.len(),
{
    match front_parse(bytes, limit) {
        FrontSpec::Incomplete => StreamSpec { frames: Seq::empty(), rest: bytes, oversized: false },
        FrontSpec::Oversized => StreamSpec { frames: Seq::empty(), rest: bytes, oversized: true },
        FrontSpec::Frame(payload) => {
            let tail = stream_parse(bytes.skip((HEADER_LEN + payload.len()) as int), limit);
            StreamSpec { frames: seq![payload] + tail.frames, rest: tail.rest, oversized: tail.oversized }
        },
    }
}

/// The frames of several payloads, one after the other.
pub open spec fn frames_bytes(payloads: Seq<Seq<u8>>) -> Seq<u8>
    decreases payloads.len(),
{
    if payloads.len() == 0 {
        Seq::empty()
    } else {
        frame_bytes(payloads[0]) + frames_bytes(payloads.skip(1))
    }
}

/// Several chunks of bytes, joined in order.
pub open spec fn joined(chunks: Seq<Seq<u8>>) -> Seq<u8>
    decreases chunks.len(),
{
    if chunks.len() == 0 {
        Seq::empty()
    } else {
        chunks[0] + joined(chunks.skip(1))
    }
}

/// The outcome of receiving `chunks` one at a time on top of `pending`
/// bytes: after each chunk, every complete frame is taken. Receiving stops
/// for good at an oversized header.
pub open spec fn chunked_parse(chunks: Seq<Seq<u8>>, pending: Seq<u8>, limit: nat) -> StreamSpec
    decreases chunks.len(),
{
    if chunks.len() == 0 {
        StreamSpec { frames: Seq::empty(), rest: pending, oversized: false }
    } else {
        let step = stream_parse(pending + chunks[0], limit);
        if step.oversized {
            StreamSpec {
                frames: step.frames,
                rest: step.rest + joined(chunks.skip(1)),
                oversized: true,
            }
        } else {
            let tail = chunked_parse(chunks.skip(1), step.rest, limit);
            StreamSpec {
                frames: step.frames + tail.frames,
                rest: tail.rest,
                oversized: tail.oversized,
            }
        }
    }
}

/// A header announces the length it was made from.
pub proof fn lemma_header_round_trip(len: nat, rest: Seq<u8>)
    requires
        len <= MAX_HEADER_VALUE,
    ensures
        announced_len(frame_header(len) + rest) == len,
        frame_header(len).len() == HEADER_LEN,
{
    let bytes = frame_header(len) + rest;
    assert(bytes[0] == frame_header(len)[0]);
    assert(bytes[1] == frame_header(len)[1]);
    assert(bytes[2] == frame_header(len)[2]);
    assert(bytes[3] == frame_header(len)[3]);
}

/// A frame within the limit is found at the front of whatever it is
/// followed by.
pub proof fn lemma_front_of_frame(payload: Seq<u8>, rest: Seq<u8>, limit: nat)
    requires
        payload.len() <= limit <= MAX_HEADER_VALUE,
    ensures
        front_parse(frame_bytes(payload) + rest, limit) == FrontSpec::Frame(payload),
        (frame_bytes(payload) + rest).skip((HEADER_LEN + payload.len()) as int) == rest,
{
    let bytes = frame_bytes(payload) + rest;
    lemma_header_round_trip(payload.len(), payload + rest);
    assert(bytes =~= frame_header(payload.len()) + (payload + rest));
    assert(bytes.subrange(HEADER_LEN as int, (HEADER_LEN + payload.len()) as int) =~= payload);
    assert(bytes.skip((HEADER_LEN + payload.len()) as int) =~= rest);
}

/// Taking frames from the frames of `payloads` gives back `payloads`, with
/// nothing left over.
pub proof fn lemma_stream_round_trip(payloads: Seq<Seq<u8>>, limit: nat)
    requires
        limit <= MAX_HEADER_VALUE,
        forall|i: int| 0 <= i < payloads.len() ==> (#[trigger] payloads[i]).len() <= limit,
    ensures
        stream_parse(frames_bytes(payloads), limit) == (StreamSpec {
            frames: payloads,
            rest: Seq::empty(),
            oversized: false,
        }),
    decreases payloads.len(),
{
    if payloads.len() == 0 {
        assert(payloads =~= Seq::<Seq<u8>>::empty());
    } else {
        let tail = payloads.skip(1);
        assert forall|i: int| 0 <= i < tail.len() implies (#[trigger] tail[i]).len() <= limit by {
            assert(tail[i] == payloads[i + 1]);
        }
        lemma_stream_round_trip(tail, limit);
        lemma_front_of_frame(payloads[0], frames_bytes(tail), limit);
        assert(seq![payloads[0]] + tail =~= payloads);
    }
}

/// Taking frames from `first + second` is taking them from `first` and then
/// going on with what `first` left over, followed by `second`.
pub proof fn lemma_stream_parse_append(first: Seq<u8>, second: Seq<u8>, limit: nat)
    ensures
        ({
            let head = stream_parse(first, limit);
            let whole = stream_parse(first + second, limit);
            if head.oversized {
                whole == (StreamSpec {
                    frames: head.frames,
                    rest: head.rest + second,
                    oversized: true,
                })
            } else {
                let tail = stream_parse(head.rest + second, limit);
                whole == (StreamSpec {
                    frames: head.frames + tail.frames,
                    rest: tail.rest,
                    oversized: tail.oversized,
                })
            }
        }),
    decreases first.len(),
{
    let head = stream_parse(first, limit);
    let both = first + second;
    match front_parse(first, limit) {
        FrontSpec::Incomplete => {
            assert(Seq::<Seq<u8>>::empty() + stream_parse(both, limit).frames =~= stream_parse(
                both,
                limit,
            ).frames);
        },
        FrontSpec::Oversized => {
            assert(announced_len(both) == announced_len(first));
        },
        FrontSpec::Frame(payload) => {
            let used = (HEADER_LEN + payload.len()) as int;
            assert(announced_len(both) == announced_len(first));
            assert(both.subrange(HEADER_LEN as int, used) =~= payload);
            assert(both.skip(used) =~= first.skip(used) + second);
            lemma_stream_parse_append(first.skip(used), second, limit);
            let inner = stream_parse(first.skip(used), limit);
            if !inner.oversized {
                let tail = stream_parse(inner.rest + second, limit);
                assert(seq![payload] + (inner.frames + tail.frames) =~= (seq![payload]
                    + inner.frames) + tail.frames);
            }
        },
    }
}

/// What is left after taking frames holds no further complete frame, and an
/// oversized header stays where it is.
pub proof fn lemma_stream_parse_rest(bytes: Seq<u8>, limit: nat)
    ensures
        ({
            let parse = stream_parse(bytes, limit);
            stream_parse(parse.rest, limit) == (StreamSpec {
                frames: Seq::empty(),
                rest: parse.rest,
                oversized: parse.oversized,
            })
        }),
    decreases bytes.len(),
{
    match front_parse(bytes, limit) {
        FrontSpec::Frame(payload) => {
            lemma_stream_parse_rest(bytes.skip((HEADER_LEN + payload.len()) as int), limit);
        },
        _ => {},
    }
}

/// Chunk boundaries do not matter: receiving chunks one at a time gives the
/// frames of the joined chunks.
pub proof fn lemma_chunking(chunks: Seq<Seq<u8>>, pending: Seq<u8>, limit: nat)
    requires
        stream_parse(pending, limit) == (StreamSpec {
            frames: Seq::empty(),
            rest: pending,
            oversized: false,
        }),
    ensures
        chunked_parse(chunks, pending, limit) == stream_parse(pending + joined(chunks), limit),
    decreases chunks.len(),
{
    if chunks.len() == 0 {
        assert(pending + joined(chunks) =~= pending);
    } else {
        let tail = chunks.skip(1);
        let step = stream_parse(pending + chunks[0], limit);
        assert(pending + joined(chunks) =~= (pending + chunks[0]) + joined(tail));
        lemma_stream_parse_append(pending + chunks[0], joined(tail), limit);
        if !step.oversized {
            lemma_stream_parse_rest(pending + chunks[0], limit);
            lemma_chunking(tail, step.rest, limit);
        }
    }
}

/// Framing: the frames of any payloads within the limit, cut into chunks at
/// arbitrary places and received chunk by chunk, come out as the same
/// payloads in the same order, with nothing left over.
pub proof fn lemma_framing(payloads: Seq<Seq<u8>>, chunks: Seq<Seq<u8>>, limit: nat)
    requires
        limit <= MAX_HEADER_VALUE,
        forall|i: int| 0 <= i < payloads.len() ==> (#[trigger] payloads[i]).len() <= limit,
        joined(chunks) == frames_bytes(payloads),
    ensures
        chunked_parse(chunks, Seq::empty(), limit) == (StreamSpec {
            frames: payloads,
            rest: Seq::empty(),
            oversized: false,
        }),
{
    lemma_chunking(chunks, Seq::empty(), limit);
    lemma_stream_round_trip(payloads, limit);
    assert(Seq::<u8>::empty() + joined(chunks) =~= joined(chunks));
}

/// Calls `Decoder::decode` of a `tokio_util` `LengthDelimitedCodec` built
/// with `max_frame_length(limit)` and otherwise default settings, in its
/// initial state, on a buffer that holds `pending`. Claimed: the call fails
/// exactly at a header that announces more than the effective limit, returns
/// no frame while the front is incomplete, and otherwise returns the payload
/// of the frame at the front.
#[verifier::external_body]
fn codec_decode(limit: usize, pending: &[u8]) -> (result: Result<Option<Vec<u8>>, std::io::Error>)
    ensures
        match front_parse(pending@, effective_limit(limit)) {
            FrontSpec::Incomplete => result is Ok && result->Ok_0 is None,
            FrontSpec::Oversized => result is Err,
            FrontSpec::Frame(payload) => result is Ok && result->Ok_0 is Some
                && result->Ok_0->Some_0@ == payload,
        },
{
    let mut codec = LengthDelimitedCodec::builder().max_frame_length(limit).new_codec();
    let mut src = BytesMut::from(pending);
    match codec.decode(&mut src) {
        Ok(Some(frame)) => Ok(Some(frame.to_vec())),
        Ok(None) => Ok(None),
        Err(error) => Err(error),
    }
}

/// Frames a payload: its length as four big-endian bytes, then the payload.
///
/// Fails with `FrameTooLarge` exactly when the payload is longer than the
/// effective limit.
pub fn encode_frame(limit: usize, payload: &[u8]) -> (result: Result<Vec<u8>, FrameError>)
    ensures
        payload@.len() > effective_limit(limit) ==> result == Err::<Vec<u8>, FrameError>(
            FrameError::FrameTooLarge,
        ),
        payload@.len() <= effective_limit(limit) ==> result is Ok && result->Ok_0@ == frame_bytes(
            payload@,
        ),
{
    match codec_encode(limit, payload) {
        Ok(bytes) => Ok(bytes),
        Err(_) => Err(FrameError::FrameTooLarge),
    }
}

/// The payloads of a list of frames, as mathematical values.
pub open spec fn frames_view(frames: Seq<Vec<u8>>) -> Seq<Seq<u8>> {
    Seq::new(frames.len(), |i: int| frames[i]@)
}

/// Turns a byte stream that arrives in chunks into frames.
pub struct FrameDecoder {
    buffer: Vec<u8>,
    limit: usize,
}

impl FrameDecoder {
    /// The bytes received and not yet given out as frames.
    pub closed spec fn pending(&self) -> Seq<u8> {
        self.buffer@
    }

    /// The longest payload this decoder accepts.
    pub closed spec fn limit(&self) -> nat {
        effective_limit(self.limit)
    }

    /// A decoder with nothing pending that accepts payloads of up to `limit`
    /// bytes (at most what a header can announce).
    pub fn new(limit: usize) -> (decoder: FrameDecoder)
        ensures
            decoder.pending() == Seq::<u8>::empty(),
            decoder.limit() == effective_limit(limit),
    {
        FrameDecoder { buffer: Vec::new(), limit }
    }

    /// The longest payload this decoder accepts.
    pub fn max_frame_length(&self) -> (limit: usize)
        ensures
            limit == self.limit(),
            limit <= MAX_HEADER_VALUE,
    {
        if self.limit > MAX_HEADER_VALUE {
            MAX_HEADER_VALUE
        } else {
            self.limit
        }
    }

    /// Receives the next bytes of the stream.
    pub fn feed(&mut self, chunk: &[u8])
        ensures
            final(self).pending() == old(self).pending() + chunk@,
            final(self).limit() == old(self).limit(),
    {
        self.buffer.extend_from_slice(chunk);
    }

    /// Takes the frame at the front of the pending bytes, if a complete one
    /// is there. At an oversized header nothing is taken and the error is
    /// `FrameTooLarge`.
    ///
    /// Every call hands all pending bytes to the codec, so the cost of a
    /// call grows with what is pending.
    pub fn next_frame(&mut self) -> (result: Result<Option<Vec<u8>>, FrameError>)
        ensures
            final(self).limit() == old(self).limit(),
            match front_parse(old(self).pending(), old(self).limit()) {
                FrontSpec::Incomplete => result == Ok::<Option<Vec<u8>>, FrameError>(None)
                    && final(self).pending() == old(self).pending(),
                FrontSpec::Oversized => result == Err::<Option<Vec<u8>>, FrameError>(
                    FrameError::FrameTooLarge,
                ) && final(self).pending() == old(self).pending(),
                FrontSpec::Frame(payload) => result is Ok && result->Ok_0 is Some
                    && result->Ok_0->Some_0@ == payload && final(self).pending() == old(
                    self,
                ).pending().skip((HEADER_LEN + payload.len()) as int),
            },
    {
        match codec_decode(self.limit, self.buffer.as_slice()) {
            Err(_) => Err(FrameError::FrameTooLarge),
            Ok(None) => Ok(None),
            Ok(Some(frame)) => {
                assert(HEADER_LEN + frame@.len() <= self.buffer.len());
                let used: usize = HEADER_LEN + frame.len();
                let tail = self.buffer.split_off(used);
                self.buffer = tail;
                Ok(Some(frame))
            },
        }
    }

    /// Takes every complete frame from the front of the pending bytes. The
    /// flag tells whether taking stopped at an oversized header.
    pub fn drain(&mut self) -> (result: (Vec<Vec<u8>>, bool))
        ensures
            final(self).limit() == old(self).limit(),
            frames_view(result.0@) == stream_parse(old(self).pending(), old(self).limit()).frames,
            final(self).pending() == stream_parse(old(self).pending(), old(self).limit()).rest,
            result.1 == stream_parse(old(self).pending(), old(self).limit()).oversized,
    {
        let ghost target = stream_parse(self.pending(), self.limit());
        let mut frames: Vec<Vec<u8>> = Vec::new();
        let mut oversized = false;
        let mut done = false;
        assert(frames_view(frames@) =~= Seq::<Seq<u8>>::empty());
        assert(frames_view(frames@) + target.frames =~= target.frames);
        while !done
            invariant
                self.limit() == old(self).limit(),
                target == stream_parse(old(self).pending(), old(self).limit()),
                !done ==> !oversized,
                !done ==> ({
                    let parse = stream_parse(self.pending(), self.limit());
                    &&& target.frames == frames_view(frames@) + parse.frames
                    &&& target.rest == parse.rest
                    &&& target.oversized == parse.oversized
                }),
                done ==> target.frames == frames_view(frames@) && target.rest == self.pending()
                    && target.oversized == oversized,
            decreases self.pending().len() + (if done { 0nat } else { 1nat }),
        {
            let ghost before = frames_view(frames@);
            let ghost parse = stream_parse(self.pending(), self.limit());
            match self.next_frame() {
                Err(_) => {
                    oversized = true;
                    done = true;
                    assert(parse.oversized && parse.rest == self.pending());
                    assert(before + parse.frames =~= before);
                },
                Ok(None) => {
                    done = true;
                    assert(!parse.oversized && parse.rest == self.pending());
                    assert(before + parse.frames =~= before);
                },
                Ok(Some(frame)) => {
                    let ghost payload = frame@;
                    frames.push(frame);
                    proof {
                        let next = stream_parse(self.pending(), self.limit());
                        assert(frames_view(frames@) =~= before + seq![payload]);
                        assert(before + (seq![payload] + next.frames) =~= (before + seq![payload])
                            + next.frames);
                    }
                },
            }
        }
        (frames, oversized)
    }

    /// Checks that the stream may end here: it may not end inside a frame.
    pub fn finish(&self) -> (result: Result<(), FrameError>)
        ensures
            self.pending().len() == 0 ==> result == Ok::<(), FrameError>(()),
            self.pending().len() > 0 ==> result == Err::<(), FrameError>(
                FrameError::UnexpectedEof,
            ),
    {
        if self.buffer.len() == 0 {
            Ok(())
        } else {
            Err(FrameError::UnexpectedEof)
        }
    }
}

} // verus!
