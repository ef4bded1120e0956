//! The connection side of the transport: where a server listens, the state
//! of one accepted connection, and the context handed to a handler with each
//! inbound envelope.

use crate::envelope::{
    decode_envelope, encode_envelope, envelope_bytes, envelope_parse, lemma_envelope_round_trip,
    option_view, EnvelopeView,
};
use crate::frame::{
    effective_limit, encode_frame, frame_bytes, frames_view, front_parse, lemma_front_of_frame,
    stream_parse, FrameDecoder, FrameError, FrontSpec, MAX_HEADER_VALUE,
};
use message_handler::{handled_by, Dispatch, HandlerError, MessageHandler, Replies};
use vstd::prelude::*;
use vstd::string::*;

pub mod message_handler;

verus! {

/// The decimal digit `digit` as a character.
pub open spec fn digit_char(digit: nat) -> char
    recommends
        digit < 10,
{
    (48 + digit) as u8 as char
}

/// `number` written in decimal, without leading zeros.
pub open spec fn decimal(number: nat) -> Seq<char>
    decreases number,
{
    if number < 10 {
        seq![digit_char(number)]
    } else {
        decimal(number / 10) + seq![digit_char(number % 10)]
    }
}

/// The text of one decimal digit.
fn digit_text(digit: u16) -> (text: &'static str)
    requires
        digit < 10,
    ensures
        text@ == seq![digit_char(digit as nat)],
{
    proof {
        reveal_strlit("0");
        reveal_strlit("1");
        reveal_strlit("2");
        reveal_strlit("3");
        reveal_strlit("4");
        reveal_strlit("5");
        reveal_strlit("6");
        reveal_strlit("7");
        reveal_strlit("8");
        reveal_strlit("9");
    }
    let text = if digit == 0 {
        "0"
    } else if digit == 1 {
        "1"
    } else if digit == 2 {
        "2"
    } else if digit == 3 {
        "3"
    } else if digit == 4 {
        "4"
    } else if digit == 5 {
        "5"
    } else if digit == 6 {
        "6"
    } else if digit == 7 {
        "7"
    } else if digit == 8 {
        "8"
    } else {
        "9"
    };
    assert(text@ =~= seq![digit_char(digit as nat)]);
    text
}

/// `number` written in decimal.
fn decimal_text(number: u16) -> (text: String)
    ensures
        text@ == decimal(number as nat),
    decreases number,
{
    if number < 10 {
        digit_text(number).to_owned()
    } else {
        let mut text = decimal_text(number / 10);
        text.append(digit_text(number % 10));
        text
    }
}

/// Where a server listens.
#[derive(Clone, Debug, PartialEq, Eq)]
pub struct SocketOptions {
    /// The address to bind, without the port.
    pub bind_address: String,
    /// The port to bind.
    pub port: u16,
}

impl SocketOptions {
    /// Options for the given address and port.
    pub fn new(bind_address: String, port: u16) -> (options: SocketOptions)
        ensures
            options.bind_address == bind_address,
            options.port == port,
    {
        SocketOptions { bind_address, port }
    }

    /// Options for the given port on the loopback address.
    pub fn with_port(port: u16) -> (options: SocketOptions)
        ensures
            options.bind_address@ == "127.0.0.1"@,
            options.port == port,
    {
        SocketOptions { bind_address: "127.0.0.1".to_owned(), port }
    }

    /// The text of the socket address: the bind address, a colon, and the
    /// port in decimal.
    pub open spec fn address_text(&self) -> Seq<char> {
        self.bind_address@ + seq![':'] + decimal(self.port as nat)
    }

    /// The socket address as text, ready to be parsed.
    pub fn get_socket_address(&self) -> (address: String)
        ensures
            address@ == self.address_text(),
    {
        proof {
            reveal_strlit(":");
        }
        let mut address = self.bind_address.clone();
        address.append(":");
        address.append(decimal_text(self.port).as_str());
        assert(":"@ =~= seq![':']);
        address
    }
}

/// Why a message could not be sent.
#[derive(Clone, Copy, Debug, PartialEq, Eq)]
pub enum SendError {
    /// A reply was asked for a message that carries no correlation id.
    NoCorrelationExpected,
    /// The connection is closed.
    ConnectionClosed,
    /// The message to send has an empty type identifier.
    EmptyTypeId,
    /// The message to send does not fit in one frame.
    FrameTooLarge,
}

/// What a message context holds, as mathematical values.
pub struct ContextView {
    /// The correlation id of the inbound message, if it asks for a reply.
    pub acknowledgement_id: Option<Seq<char>>,
    /// The type of the inbound message.
    pub message_type: Seq<char>,
    /// The longest envelope the connection can send in one frame.
    pub limit: nat,
    /// Whether the connection was open when the context was made.
    pub open: bool,
}

/// The frame that carries an envelope.
pub open spec fn envelope_frame(envelope: EnvelopeView) -> Seq<u8> {
    frame_bytes(envelope_bytes(envelope))
}

/// What sending an envelope on a connection gives: the frame to write, or
/// why there is none. A closed connection is told first, then an empty type
/// identifier, then an envelope too long for one frame.
pub open spec fn send_outcome(
    open: bool,
    limit: nat,
    envelope: EnvelopeView,
    result: Result<Vec<u8>, SendError>,
) -> bool {
    if !open {
        result == Err::<Vec<u8>, SendError>(SendError::ConnectionClosed)
    } else if envelope.type_id.len() == 0 {
        result == Err::<Vec<u8>, SendError>(SendError::EmptyTypeId)
    } else if envelope_bytes(envelope).len() > limit {
        result == Err::<Vec<u8>, SendError>(SendError::FrameTooLarge)
    } else {
        result is Ok && result->Ok_0@ == envelope_frame(envelope)
    }
}

/// Correlation: a reply to a message that carries a correlation id, sent on
/// an open connection and within its limit, is a frame whose envelope
/// carries the same correlation id and the given type and payload.
pub proof fn lemma_reply_correlates(
    context: ContextView,
    type_id: Seq<char>,
    payload: Seq<u8>,
    result: Result<Vec<u8>, SendError>,
)
    requires
        context.acknowledgement_id is Some,
        context.open,
        context.limit <= MAX_HEADER_VALUE,
        type_id.len() > 0,
        envelope_bytes(
            EnvelopeView { type_id, payload, correlation_id: context.acknowledgement_id },
        ).len() <= context.limit,
        send_outcome(
            context.open,
            context.limit,
            EnvelopeView { type_id, payload, correlation_id: context.acknowledgement_id },
            result,
        ),
    ensures
        result is Ok,
        front_parse(result->Ok_0@, context.limit) matches FrontSpec::Frame(bytes)
            && envelope_parse(bytes) == Some(
            EnvelopeView { type_id, payload, correlation_id: context.acknowledgement_id },
        ),
{
    let envelope = EnvelopeView { type_id, payload, correlation_id: context.acknowledgement_id };
    lemma_envelope_round_trip(envelope);
    lemma_front_of_frame(envelope_bytes(envelope), Seq::empty(), context.limit);
    assert(frame_bytes(envelope_bytes(envelope)) + Seq::<u8>::empty() =~= frame_bytes(
        envelope_bytes(envelope),
    ));
}

/// Encodes and frames an envelope for a connection.
fn outbound_frame(
    open: bool,
    limit: usize,
    type_id: &str,
    payload: &[u8],
    correlation_id: &Option<String>,
) -> (result: Result<Vec<u8>, SendError>)
    ensures
        send_outcome(
            open,
            effective_limit(limit),
            EnvelopeView {
                type_id: type_id@,
                payload: payload@,
                correlation_id: option_view(*correlation_id),
            },
            result,
        ),
{
    if !open {
        return Err(SendError::ConnectionClosed);
    }
    let bytes = match encode_envelope(type_id, payload, correlation_id) {
        Ok(bytes) => bytes,
        Err(_) => { return Err(SendError::EmptyTypeId); },
    };
    match encode_frame(limit, bytes.as_slice()) {
        Ok(frame) => Ok(frame),
        Err(_) => Err(SendError::FrameTooLarge),
    }
}

/// What a handler is told about the inbound message it is given, and its
/// way to answer on the connection the message came from.
#[derive(Debug)]
pub struct MessageContext {
    acknowledgement_id: Option<String>,
    message_type: String,
    limit: usize,
    open: bool,
}

impl View for MessageContext {
    type V = ContextView;

    closed spec fn view(&self) -> ContextView {
        ContextView {
            acknowledgement_id: option_view(self.acknowledgement_id),
            message_type: self.message_type@,
            limit: effective_limit(self.limit),
            open: self.open,
        }
    }
}

impl MessageContext {
    /// The context of an inbound message of type `message_type` that arrived
    /// on `channel`, with the correlation id it carried.
    pub fn new(acknowledgement_id: Option<String>, message_type: String, channel: &ProtoChannel) -> (context:
        MessageContext)
        ensures
            context@ == (ContextView {
                acknowledgement_id: option_view(acknowledgement_id),
                message_type: message_type@,
                limit: channel.limit(),
                open: !channel.closed(),
            }),
    {
        MessageContext {
            acknowledgement_id,
            message_type,
            limit: channel.decoder.max_frame_length(),
            open: !channel.closed,
        }
    }

    /// Whether the inbound message carries a correlation id, that is, whether
    /// its sender expects a reply.
    pub fn needs_acknowledgement(&self) -> (needed: bool)
        ensures
            needed == self@.acknowledgement_id is Some,
    {
        self.acknowledgement_id.is_some()
    }

    /// The type of the inbound message.
    pub fn message_type(&self) -> (message_type: &str)
        ensures
            message_type@ == self@.message_type,
    {
        self.message_type.as_str()
    }

    /// The correlation id of the inbound message, if it carried one.
    pub fn acknowledgement_id(&self) -> (id: &Option<String>)
        ensures
            option_view(*id) == self@.acknowledgement_id,
    {
        &self.acknowledgement_id
    }

    /// The frame that answers the inbound message: an envelope of the given
    /// type and payload that carries the inbound message's correlation id.
    ///
    /// Without a correlation id there is nothing to answer: the error is
    /// `NoCorrelationExpected`, whatever else holds, and no frame is made.
    pub fn reply(&self, type_id: &str, payload: &[u8]) -> (result: Result<Vec<u8>, SendError>)
        ensures
            self@.acknowledgement_id is None ==> result == Err::<Vec<u8>, SendError>(
                SendError::NoCorrelationExpected,
            ),
            self@.acknowledgement_id is Some ==> send_outcome(
                self@.open,
                self@.limit,
                EnvelopeView {
                    type_id: type_id@,
                    payload: payload@,
                    correlation_id: self@.acknowledgement_id,
                },
                result,
            ),
    {
        if self.acknowledgement_id.is_none() {
            return Err(SendError::NoCorrelationExpected);
        }
        outbound_frame(self.open, self.limit, type_id, payload, &self.acknowledgement_id)
    }

    /// The frame that carries a message of its own to the connection the
    /// inbound message came from: an envelope without a correlation id.
    pub fn send(&self, type_id: &str, payload: &[u8]) -> (result: Result<Vec<u8>, SendError>)
        ensures
            send_outcome(
                self@.open,
                self@.limit,
                EnvelopeView { type_id: type_id@, payload: payload@, correlation_id: None },
                result,
            ),
    {
        outbound_frame(self.open, self.limit, type_id, payload, &None)
    }
}

/// Why an inbound frame was not handled.
#[derive(Clone, Debug, PartialEq, Eq)]
pub enum ChannelError {
    /// The frame does not hold an envelope.
    MalformedEnvelope,
    /// The handler of the envelope's type failed.
    Handler(HandlerError),
}

/// What came of the bytes received on a connection.
#[derive(Clone, Debug, PartialEq, Eq)]
pub struct StreamOutcome {
    /// One entry for each complete frame, in the order of arrival.
    pub results: Vec<Result<Dispatch, ChannelError>>,
    /// Why the connection was closed, if it was.
    pub failure: Option<FrameError>,
}

/// The context that a handler is given with an inbound envelope.
pub open spec fn context_for(envelope: EnvelopeView, limit: nat, open: bool) -> ContextView {
    ContextView {
        acknowledgement_id: envelope.correlation_id,
        message_type: envelope.type_id,
        limit,
        open,
    }
}

/// The result of a frame as the registry sees it, if the frame got that
/// far.
pub open spec fn dispatch_result(result: Result<Dispatch, ChannelError>) -> Option<
    Result<Dispatch, HandlerError>,
> {
    match result {
        Ok(dispatch) => Some(Ok(dispatch)),
        Err(ChannelError::Handler(error)) => Some(Err(error)),
        Err(ChannelError::MalformedEnvelope) => None,
    }
}

/// Whether `result` is what handing `envelope` to `handler` may give: the
/// handler was given the envelope's payload and a context with the
/// envelope's type and correlation id.
pub open spec fn delivered<H: Fn(MessageContext, Vec<u8>) -> Result<Replies, String>>(
    handler: H,
    envelope: EnvelopeView,
    limit: nat,
    open: bool,
    result: Result<Dispatch, HandlerError>,
) -> bool {
    exists|context: MessageContext, message: Vec<u8>|
        context@ == context_for(envelope, limit, open) && message@ == envelope.payload
            && #[trigger] handled_by(handler, context, message, result)
}

/// Whether `result` is what processing `frame` may give under the given
/// registry: a frame that holds no envelope is malformed, an envelope of a
/// type without a handler is dropped, and any other envelope is delivered to
/// the handler of its type.
pub open spec fn frame_outcome<H: Fn(MessageContext, Vec<u8>) -> Result<Replies, String>>(
    listeners: Map<Seq<char>, H>,
    limit: nat,
    open: bool,
    frame: Seq<u8>,
    result: Result<Dispatch, ChannelError>,
) -> bool {
    match envelope_parse(frame) {
        None => result == Err::<Dispatch, ChannelError>(ChannelError::MalformedEnvelope),
        Some(envelope) => if listeners.contains_key(envelope.type_id) {
            match dispatch_result(result) {
                Some(inner) => delivered(listeners[envelope.type_id], envelope, limit, open, inner),
                None => false,
            }
        } else {
            result == Ok::<Dispatch, ChannelError>(Dispatch::Dropped)
        },
    }
}

/// The state of one accepted connection: the bytes received and not yet
/// framed, and whether the connection is closed.
pub struct ProtoChannel {
    decoder: FrameDecoder,
    closed: bool,
}

impl ProtoChannel {
    /// The bytes received and not yet given out as frames.
    pub closed spec fn pending(&self) -> Seq<u8> {
        self.decoder.pending()
    }

    /// The longest envelope this connection accepts or sends in one frame.
    pub closed spec fn limit(&self) -> nat {
        self.decoder.limit()
    }

    /// Whether the connection is closed.
    pub closed spec fn closed(&self) -> bool {
        self.closed
    }

    /// The state of a connection that was just accepted: active, with
    /// nothing received, and with frames of up to `max_frame_length` bytes.
    pub fn new(max_frame_length: usize) -> (channel: ProtoChannel)
        ensures
            channel.pending() == Seq::<u8>::empty(),
            channel.limit() == effective_limit(max_frame_length),
            !channel.closed(),
    {
        ProtoChannel { decoder: FrameDecoder::new(max_frame_length), closed: false }
    }

    /// Whether the connection is closed.
    pub fn is_closed(&self) -> (closed: bool)
        ensures
            closed == self.closed(),
    {
        self.closed
    }

    /// Takes the bytes that arrived on the connection, frames them, and
    /// processes every complete frame in the order of arrival.
    ///
    /// On a closed connection nothing happens. At a frame longer than the
    /// limit the connection is closed, after the frames before it were
    /// processed.
    pub fn process_stream<H: Fn(MessageContext, Vec<u8>) -> Result<Replies, String>>(
        &mut self,
        input: &[u8],
        handlers: &MessageHandler<H>,
    ) -> (outcome: StreamOutcome)
        requires
            handlers.wf(),
        ensures
            final(self).limit() == old(self).limit(),
            old(self).closed() ==> final(self).closed() && final(self).pending() == old(
                self,
            ).pending() && outcome.results@.len() == 0 && outcome.failure is None,
            !old(self).closed() ==> ({
                let parse = stream_parse(old(self).pending() + input@, old(self).limit());
                &&& final(self).pending() == parse.rest
                &&& final(self).closed() == parse.oversized
                &&& outcome.failure == (if parse.oversized {
                    Some(FrameError::FrameTooLarge)
                } else {
                    None
                })
                &&& outcome.results@.len() == parse.frames.len()
                &&& forall|i: int|
                    0 <= i < parse.frames.len() ==> frame_outcome(
                        handlers.listeners(),
                        old(self).limit(),
                        true,
                        parse.frames[i],
                        #[trigger] outcome.results@[i],
                    )
            }),
    {
        let mut results: Vec<Result<Dispatch, ChannelError>> = Vec::new();
        if self.closed {
            return StreamOutcome { results, failure: None };
        }
        self.decoder.feed(input);
        let (frames, oversized) = self.decoder.drain();
        let ghost parse = stream_parse(old(self).pending() + input@, old(self).limit());
        let mut index: usize = 0;
        while index < frames.len()
            invariant
                handlers.wf(),
                !self.closed(),
                self.limit() == old(self).limit(),
                index <= frames.len(),
                frames_view(frames@) == parse.frames,
                results@.len() == index,
                forall|i: int|
                    0 <= i < index ==> frame_outcome(
                        handlers.listeners(),
                        old(self).limit(),
                        true,
                        parse.frames[i],
                        #[trigger] results@[i],
                    ),
            decreases frames.len() - index,
        {
            assert(frames_view(frames@)[index as int] == frames@[index as int]@);
            let result = self.process_frame(frames[index].as_slice(), handlers);
            results.push(result);
            index += 1;
        }
        let failure = if oversized {
            self.closed = true;
            Some(FrameError::FrameTooLarge)
        } else {
            None
        };
        StreamOutcome { results, failure }
    }

    /// Processes the content of one frame: decodes the envelope and hands it
    /// to the handler of its type.
    pub fn process_frame<H: Fn(MessageContext, Vec<u8>) -> Result<Replies, String>>(
        &self,
        frame: &[u8],
        handlers: &MessageHandler<H>,
    ) -> (result: Result<Dispatch, ChannelError>)
        requires
            handlers.wf(),
        ensures
            frame_outcome(handlers.listeners(), self.limit(), !self.closed(), frame@, result),
    {
        let envelope = match decode_envelope(frame) {
            Ok(envelope) => envelope,
            Err(_) => { return Err(ChannelError::MalformedEnvelope); },
        };
        let ghost parsed = envelope@;
        let message_ctx = MessageContext::new(envelope.correlation_id, envelope.type_id, self);
        let message = envelope.payload;
        let ghost context = message_ctx;
        let ghost content = message;
        match handlers.handle_message(message_ctx, message) {
            Ok(dispatch) => {
                proof {
                    if handlers.listeners().contains_key(parsed.type_id) {
                        assert(handled_by(
                            handlers.listeners()[parsed.type_id],
                            context,
                            content,
                            Ok(dispatch),
                        ));
                    }
                }
                Ok(dispatch)
            },
            Err(error) => {
                assert(handled_by(
                    handlers.listeners()[parsed.type_id],
                    context,
                    content,
                    Err(error),
                ));
                Err(ChannelError::Handler(error))
            },
        }
    }

    /// Tells the connection that its stream has ended. The connection is
    /// closed; it is an `UnexpectedEof` when the stream ended inside a frame.
    pub fn end_of_stream(&mut self) -> (result: Result<(), FrameError>)
        ensures
            final(self).closed(),
            final(self).limit() == old(self).limit(),
            final(self).pending() == old(self).pending(),
            old(self).pending().len() == 0 ==> result == Ok::<(), FrameError>(()),
            old(self).pending().len() > 0 ==> result == Err::<(), FrameError>(
                FrameError::UnexpectedEof,
            ),
    {
        self.closed = true;
        self.decoder.finish()
    }

    /// Closes the connection: from now on nothing is received or sent.
    pub fn close(&mut self)
        ensures
            final(self).closed(),
            final(self).limit() == old(self).limit(),
            final(self).pending() == old(self).pending(),
    {
        self.closed = true;
    }

    /// The frame that carries a message without a correlation id to the
    /// peer.
    pub fn send_message(&self, type_id: &str, payload: &[u8]) -> (result: Result<
        Vec<u8>,
        SendError,
    >)
        ensures
            send_outcome(
                !self.closed(),
                self.limit(),
                EnvelopeView { type_id: type_id@, payload: payload@, correlation_id: None },
                result,
            ),
    {
        self.send_message_ack(type_id, payload, &None)
    }

    /// The frame that carries a message to the peer, with the given
    /// correlation id if there is one.
    pub fn send_message_ack(
        &self,
        type_id: &str,
        payload: &[u8],
        acknowledgement_id: &Option<String>,
    ) -> (result: Result<Vec<u8>, SendError>)
        ensures
            send_outcome(
                !self.closed(),
                self.limit(),
                EnvelopeView {
                    type_id: type_id@,
                    payload: payload@,
                    correlation_id: option_view(*acknowledgement_id),
                },
                result,
            ),
    {
        outbound_frame(
            !self.closed,
            self.decoder.max_frame_length(),
            type_id,
            payload,
            acknowledgement_id,
        )
    }
}


} // verus!
