use proto_sockets::envelope::{decode_envelope, encode_envelope, Envelope};
use proto_sockets::frame::{encode_frame, FrameDecoder, FrameError};
use proto_sockets::server_socket::message_handler::{Dispatch, HandlerError, MessageHandler, Replies};
use proto_sockets::server_socket::{
    ChannelError, MessageContext, ProtoChannel, SendError, SocketOptions, StreamOutcome,
};
use std::cell::Cell;
use std::rc::Rc;

type Callback = Box<dyn Fn(MessageContext, Vec<u8>) -> Result<Replies, String>>;

const LIMIT: usize = 1 << 20;

fn frame_of(type_id: &str, payload: &[u8], correlation_id: Option<&str>) -> Vec<u8> {
    let envelope = encode_envelope(type_id, payload, &correlation_id.map(String::from)).unwrap();
    encode_frame(LIMIT, &envelope).unwrap()
}

fn envelope_in(frame: &[u8]) -> Envelope {
    let mut decoder = FrameDecoder::new(LIMIT);
    decoder.feed(frame);
    let content = decoder.next_frame().unwrap().unwrap();
    assert_eq!(decoder.finish(), Ok(()));
    decode_envelope(&content).unwrap()
}

fn handle_test_control(message_ctx: MessageContext, message: Vec<u8>) -> Result<Replies, String> {
    println!("{:?} {:?}", message_ctx.message_type(), message);
    Ok(Vec::new())
}

#[test]
fn run_server() {
    let options = SocketOptions::new(String::from("127.0.0.1"), 8080);
    assert_eq!(options.get_socket_address(), "127.0.0.1:8080");
    let mut message_handler: MessageHandler<fn(MessageContext, Vec<u8>) -> Result<Replies, String>> =
        MessageHandler::new();
    message_handler.add_listener("proto.sockets.transport.TestControl", handle_test_control);
    let mut channel = ProtoChannel::new(LIMIT);
    let outcome = channel.process_stream(
        &frame_of("proto.sockets.transport.TestControl", &[8, 1], None),
        &message_handler,
    );
    assert_eq!(
        outcome,
        StreamOutcome { results: vec![Ok(Dispatch::Handled(Vec::new()))], failure: None }
    );
}

#[test]
fn reply_carries_the_correlation_id() {
    let channel = ProtoChannel::new(LIMIT);
    let context = MessageContext::new(Some(String::from("abc123")), String::from("ask"), &channel);
    assert!(context.needs_acknowledgement());
    assert_eq!(context.acknowledgement_id(), &Some(String::from("abc123")));
    let frame = context.reply("answer", &[4, 2]).unwrap();
    assert_eq!(
        envelope_in(&frame),
        Envelope {
            type_id: String::from("answer"),
            payload: vec![4, 2],
            correlation_id: Some(String::from("abc123")),
        }
    );
}

#[test]
fn reply_from_a_handler_is_correlated() {
    let mut handlers: MessageHandler<Callback> = MessageHandler::new();
    handlers.add_listener(
        "ask",
        Box::new(|context, message| {
            let frame = context.reply("answer", &message).map_err(|e| format!("{:?}", e))?;
            Ok(vec![frame])
        }),
    );
    let mut channel = ProtoChannel::new(LIMIT);
    let outcome = channel.process_stream(&frame_of("ask", &[1, 2, 3], Some("abc123")), &handlers);
    assert_eq!(outcome.failure, None);
    assert_eq!(outcome.results.len(), 1);
    match &outcome.results[0] {
        Ok(Dispatch::Handled(frames)) => {
            assert_eq!(frames.len(), 1);
            assert_eq!(
                envelope_in(&frames[0]),
                Envelope {
                    type_id: String::from("answer"),
                    payload: vec![1, 2, 3],
                    correlation_id: Some(String::from("abc123")),
                }
            );
        }
        other => panic!("unexpected result {:?}", other),
    }
}

#[test]
fn reply_without_correlation_is_rejected() {
    let mut channel = ProtoChannel::new(LIMIT);
    let context = MessageContext::new(None, String::from("tell"), &channel);
    assert!(!context.needs_acknowledgement());
    assert_eq!(context.reply("answer", &[1]), Err(SendError::NoCorrelationExpected));
    // whatever else is wrong, the missing correlation id is told first
    assert_eq!(context.reply("", &[1]), Err(SendError::NoCorrelationExpected));
    channel.close();
    let context = MessageContext::new(None, String::from("tell"), &channel);
    assert_eq!(context.reply("answer", &[1]), Err(SendError::NoCorrelationExpected));
}

#[test]
fn reply_without_correlation_in_a_handler_is_a_handler_error() {
    let mut handlers: MessageHandler<Callback> = MessageHandler::new();
    handlers.add_listener(
        "tell",
        Box::new(|context, message| {
            let frame = context.reply("answer", &message).map_err(|e| format!("{:?}", e))?;
            Ok(vec![frame])
        }),
    );
    let mut channel = ProtoChannel::new(LIMIT);
    let outcome = channel.process_stream(&frame_of("tell", &[1], None), &handlers);
    assert_eq!(
        outcome,
        StreamOutcome {
            results: vec![Err(ChannelError::Handler(HandlerError {
                message_type: String::from("tell"),
                reason: String::from("NoCorrelationExpected"),
            }))],
            failure: None,
        }
    );
    assert!(!channel.is_closed());
}

#[test]
fn send_has_no_correlation_id() {
    let channel = ProtoChannel::new(LIMIT);
    let frame = channel.send_message("note", &[7]).unwrap();
    assert_eq!(
        envelope_in(&frame),
        Envelope { type_id: String::from("note"), payload: vec![7], correlation_id: None }
    );
    assert_eq!(frame, frame_of("note", &[7], None));
    let context = MessageContext::new(Some(String::from("id")), String::from("ask"), &channel);
    assert_eq!(context.send("note", &[7]), Ok(frame));
}

#[test]
fn send_with_acknowledgement_id() {
    let channel = ProtoChannel::new(LIMIT);
    let frame = channel.send_message_ack("note", &[7], &Some(String::from("k1"))).unwrap();
    assert_eq!(frame, frame_of("note", &[7], Some("k1")));
    assert_eq!(channel.send_message_ack("note", &[7], &None), channel.send_message("note", &[7]));
}

#[test]
fn send_exact_frame() {
    let channel = ProtoChannel::new(LIMIT);
    assert_eq!(
        channel.send_message("t", &[1, 2]),
        Ok(vec![0, 0, 0, 9, 0x0a, 0x07, 0x0a, 0x01, 0x74, 0x12, 0x02, 0x01, 0x02])
    );
}

#[test]
fn send_on_closed_connection_fails() {
    let mut channel = ProtoChannel::new(LIMIT);
    let before = MessageContext::new(Some(String::from("id")), String::from("ask"), &channel);
    channel.close();
    assert!(channel.is_closed());
    assert_eq!(channel.send_message("note", &[7]), Err(SendError::ConnectionClosed));
    assert_eq!(channel.send_message("", &[7]), Err(SendError::ConnectionClosed));
    assert_eq!(
        channel.send_message_ack("note", &[7], &Some(String::from("k"))),
        Err(SendError::ConnectionClosed)
    );
    let after = MessageContext::new(Some(String::from("id")), String::from("ask"), &channel);
    assert_eq!(after.reply("answer", &[]), Err(SendError::ConnectionClosed));
    assert_eq!(after.send("answer", &[]), Err(SendError::ConnectionClosed));
    // a context made while the connection was open still frames its reply
    assert!(before.reply("answer", &[]).is_ok());
}

#[test]
fn send_rejects_empty_type_and_long_envelope() {
    let channel = ProtoChannel::new(16);
    assert_eq!(channel.send_message("", &[1]), Err(SendError::EmptyTypeId));
    // envelope of 2 + 3 + 2 + 9 = 16 bytes fits, one more byte does not
    assert!(channel.send_message("t", &[0; 9]).is_ok());
    assert_eq!(channel.send_message("t", &[0; 10]), Err(SendError::FrameTooLarge));
    let context = MessageContext::new(Some(String::from("0123456789")), String::from("q"), &channel);
    assert_eq!(context.reply("t", &[]), Err(SendError::FrameTooLarge));
    assert_eq!(context.reply("", &[]), Err(SendError::EmptyTypeId));
}

#[test]
fn malformed_envelope_does_not_stop_the_stream() {
    let counter = Rc::new(Cell::new(0));
    let seen = Rc::clone(&counter);
    let mut handlers: MessageHandler<Callback> = MessageHandler::new();
    handlers.add_listener(
        "count",
        Box::new(move |_context, _message| {
            seen.set(seen.get() + 1);
            Ok(Vec::new())
        }),
    );
    handlers.add_listener("fail", Box::new(|_context, _message| Err(String::from("no"))));
    let mut input = frame_of("count", &[], None);
    input.extend_from_slice(&encode_frame(LIMIT, &[0xff, 0xff]).unwrap());
    input.extend_from_slice(&frame_of("fail", &[], None));
    input.extend_from_slice(&frame_of("nobody", &[], None));
    input.extend_from_slice(&frame_of("count", &[], Some("x")));
    let mut channel = ProtoChannel::new(LIMIT);
    let outcome = channel.process_stream(&input, &handlers);
    assert_eq!(
        outcome,
        StreamOutcome {
            results: vec![
                Ok(Dispatch::Handled(Vec::new())),
                Err(ChannelError::MalformedEnvelope),
                Err(ChannelError::Handler(HandlerError {
                    message_type: String::from("fail"),
                    reason: String::from("no"),
                })),
                Ok(Dispatch::Dropped),
                Ok(Dispatch::Handled(Vec::new())),
            ],
            failure: None,
        }
    );
    assert_eq!(counter.get(), 2);
    assert!(!channel.is_closed());
    assert_eq!(channel.end_of_stream(), Ok(()));
    assert!(channel.is_closed());
}

#[test]
fn process_frame_takes_one_envelope() {
    let mut handlers: MessageHandler<Callback> = MessageHandler::new();
    handlers.add_listener("echo", Box::new(|_context, message| Ok(vec![message])));
    let channel = ProtoChannel::new(LIMIT);
    let envelope = encode_envelope("echo", &[3, 3], &None).unwrap();
    assert_eq!(channel.process_frame(&envelope, &handlers), Ok(Dispatch::Handled(vec![vec![3, 3]])));
    assert_eq!(channel.process_frame(&[0x0a], &handlers), Err(ChannelError::MalformedEnvelope));
    let other = encode_envelope("other", &[3, 3], &None).unwrap();
    assert_eq!(channel.process_frame(&other, &handlers), Ok(Dispatch::Dropped));
}

#[test]
fn stream_in_pieces_is_processed_in_order() {
    let order = Rc::new(Cell::new(0u8));
    let seen = Rc::clone(&order);
    let mut handlers: MessageHandler<Callback> = MessageHandler::new();
    handlers.add_listener(
        "step",
        Box::new(move |_context, message| {
            assert_eq!(message, vec![seen.get()]);
            seen.set(seen.get() + 1);
            Ok(Vec::new())
        }),
    );
    let mut input = Vec::new();
    for step in 0..50u8 {
        input.extend_from_slice(&frame_of("step", &[step], None));
    }
    let mut channel = ProtoChannel::new(LIMIT);
    let mut handled = 0;
    for piece in input.chunks(3) {
        let outcome = channel.process_stream(piece, &handlers);
        assert_eq!(outcome.failure, None);
        for result in outcome.results {
            assert_eq!(result, Ok(Dispatch::Handled(Vec::new())));
            handled += 1;
        }
    }
    assert_eq!(handled, 50);
    assert_eq!(order.get(), 50);
}

#[test]
fn oversized_frame_closes_only_its_connection() {
    let counter = Rc::new(Cell::new(0));
    let seen = Rc::clone(&counter);
    let mut handlers: MessageHandler<Callback> = MessageHandler::new();
    handlers.add_listener(
        "count",
        Box::new(move |_context, _message| {
            seen.set(seen.get() + 1);
            Ok(Vec::new())
        }),
    );
    let mut first = ProtoChannel::new(64);
    let mut second = ProtoChannel::new(64);
    let good = frame_of("count", &[1], None);

    let mut bad = good.clone();
    bad.extend_from_slice(&[0, 0, 0, 65]);
    bad.extend_from_slice(&good);
    let outcome = first.process_stream(&bad, &handlers);
    assert_eq!(
        outcome,
        StreamOutcome {
            results: vec![Ok(Dispatch::Handled(Vec::new()))],
            failure: Some(FrameError::FrameTooLarge),
        }
    );
    assert!(first.is_closed());
    assert_eq!(first.send_message("count", &[]), Err(SendError::ConnectionClosed));
    // a closed connection takes no more input
    assert_eq!(
        first.process_stream(&good, &handlers),
        StreamOutcome { results: Vec::new(), failure: None }
    );

    let outcome = second.process_stream(&good, &handlers);
    assert_eq!(
        outcome,
        StreamOutcome { results: vec![Ok(Dispatch::Handled(Vec::new()))], failure: None }
    );
    assert!(!second.is_closed());
    assert!(second.send_message("count", &[]).is_ok());
    assert_eq!(counter.get(), 2);
}

#[test]
fn end_of_stream_inside_a_frame() {
    let handlers: MessageHandler<Callback> = MessageHandler::new();
    let mut channel = ProtoChannel::new(LIMIT);
    let frame = frame_of("count", &[1], None);
    let outcome = channel.process_stream(&frame[..frame.len() - 1], &handlers);
    assert_eq!(outcome, StreamOutcome { results: Vec::new(), failure: None });
    assert_eq!(channel.end_of_stream(), Err(FrameError::UnexpectedEof));
    assert!(channel.is_closed());
}

#[test]
fn many_connections_keep_their_streams_apart() {
    let connections = 100usize;
    let envelopes = 1000usize;
    let counters: Vec<Rc<Cell<usize>>> = (0..connections).map(|_| Rc::new(Cell::new(0))).collect();
    let mut handlers: MessageHandler<Callback> = MessageHandler::new();
    for (index, counter) in counters.iter().enumerate() {
        let seen = Rc::clone(counter);
        handlers.add_listener(
            &format!("type-{}", index),
            Box::new(move |_context, message| {
                assert_eq!(message.len(), 2);
                assert_eq!(seen.get() % 65536, (message[0] as usize) * 256 + message[1] as usize);
                seen.set(seen.get() + 1);
                Ok(Vec::new())
            }),
        );
    }
    let streams: Vec<Vec<u8>> = (0..connections)
        .map(|index| {
            let mut stream = Vec::new();
            for number in 0..envelopes {
                let payload = [(number / 256) as u8, (number % 256) as u8];
                stream.extend_from_slice(&frame_of(&format!("type-{}", index), &payload, None));
            }
            stream
        })
        .collect();
    let mut channels: Vec<ProtoChannel> = (0..connections).map(|_| ProtoChannel::new(LIMIT)).collect();
    let mut offsets = vec![0usize; connections];
    let mut open = connections;
    while open > 0 {
        open = 0;
        for (index, channel) in channels.iter_mut().enumerate() {
            let stream = &streams[index];
            let start = offsets[index];
            if start < stream.len() {
                let end = (start + 37 + index).min(stream.len());
                let outcome = channel.process_stream(&stream[start..end], &handlers);
                assert_eq!(outcome.failure, None);
                assert!(outcome.results.iter().all(|r| *r == Ok(Dispatch::Handled(Vec::new()))));
                offsets[index] = end;
                open += 1;
            }
        }
    }
    for (counter, channel) in counters.iter().zip(channels.iter_mut()) {
        assert_eq!(counter.get(), envelopes);
        assert_eq!(channel.end_of_stream(), Ok(()));
    }
}
