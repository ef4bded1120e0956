//! The dispatch registry: which handler serves which message type.

use crate::server_socket::MessageContext;
use vstd::hash_map::StringHashMap;
use vstd::prelude::*;
use vstd::string::*;

verus! {

/// What a handler gives back on success: the frames to write to the
/// connection the message came from.
pub type Replies = Vec<Vec<u8>>;

/// What became of a dispatched message.
#[derive(Clone, Debug, PartialEq, Eq)]
pub enum Dispatch {
    /// No handler is registered for the message's type: the message was
    /// dropped.
    Dropped,
    /// The handler registered for the message's type ran and asks for these
    /// frames to be written.
    Handled(Replies),
}

/// A handler failed.
#[derive(Clone, Debug, PartialEq, Eq)]
pub struct HandlerError {
    /// The type of the message that the handler was given.
    pub message_type: String,
    /// What the handler reported.
    pub reason: String,
}

/// Whether `handler` accepts every message.
pub open spec fn accepts_all<H: Fn(MessageContext, Vec<u8>) -> Result<Replies, String>>(
    handler: H,
) -> bool {
    forall|context: MessageContext, message: Vec<u8>| call_requires(handler, (context, message))
}

/// Whether `result` is what dispatching to `handler` may give: the handler's
/// own success, or its failure tagged with the message's type.
pub open spec fn handled_by<H: Fn(MessageContext, Vec<u8>) -> Result<Replies, String>>(
    handler: H,
    context: MessageContext,
    message: Vec<u8>,
    result: Result<Dispatch, HandlerError>,
) -> bool {
    match result {
        Ok(Dispatch::Handled(replies)) => call_ensures(
            handler,
            (context, message),
            Ok::<Replies, String>(replies),
        ),
        Ok(Dispatch::Dropped) => false,
        Err(error) => error.message_type@ == context@.message_type && call_ensures(
            handler,
            (context, message),
            Err::<Replies, String>(error.reason),
        ),
    }
}

/// Whether `result` is what dispatching a message under the given registry
/// may give: what the handler registered for the message's type gives, or
/// `Dropped` when there is none.
pub open spec fn dispatched<H: Fn(MessageContext, Vec<u8>) -> Result<Replies, String>>(
    listeners: Map<Seq<char>, H>,
    context: MessageContext,
    message: Vec<u8>,
    result: Result<Dispatch, HandlerError>,
) -> bool {
    if listeners.contains_key(context@.message_type) {
        handled_by(listeners[context@.message_type], context, message, result)
    } else {
        result == Ok::<Dispatch, HandlerError>(Dispatch::Dropped)
    }
}

/// Dispatch isolation: with `first` registered for one type and `second`
/// for another, a message of the first type is handled by `first` alone.
pub proof fn lemma_dispatch_isolation<H: Fn(MessageContext, Vec<u8>) -> Result<Replies, String>>(
    listeners: Map<Seq<char>, H>,
    first_type: Seq<char>,
    first: H,
    second_type: Seq<char>,
    second: H,
    context: MessageContext,
    message: Vec<u8>,
    result: Result<Dispatch, HandlerError>,
)
    requires
        first_type != second_type,
        context@.message_type == first_type,
    ensures
        dispatched(
            listeners.insert(first_type, first).insert(second_type, second),
            context,
            message,
            result,
        ) <==> handled_by(first, context, message, result),
{
}

/// Overwrite policy: of two handlers registered for one type in sequence,
/// only the second handles a message of that type.
pub proof fn lemma_last_registration_wins<
    H: Fn(MessageContext, Vec<u8>) -> Result<Replies, String>,
>(
    listeners: Map<Seq<char>, H>,
    message_type: Seq<char>,
    first: H,
    second: H,
    context: MessageContext,
    message: Vec<u8>,
    result: Result<Dispatch, HandlerError>,
)
    requires
        context@.message_type == message_type,
    ensures
        dispatched(
            listeners.insert(message_type, first).insert(message_type, second),
            context,
            message,
            result,
        ) <==> handled_by(second, context, message, result),
{
}

/// Unknown type: a message of a type that has no handler, because none was
/// registered or because it was removed, is dropped without error, and no
/// handler has a part in the result.
pub proof fn lemma_unknown_type_is_dropped<
    H: Fn(MessageContext, Vec<u8>) -> Result<Replies, String>,
>(
    listeners: Map<Seq<char>, H>,
    context: MessageContext,
    message: Vec<u8>,
    result: Result<Dispatch, HandlerError>,
)
    ensures
        !listeners.contains_key(context@.message_type) ==> (dispatched(
            listeners,
            context,
            message,
            result,
        ) <==> result == Ok::<Dispatch, HandlerError>(Dispatch::Dropped)),
        dispatched(listeners.remove(context@.message_type), context, message, result) <==> result
            == Ok::<Dispatch, HandlerError>(Dispatch::Dropped),
{
}

/// Maps message types to handlers.
#[verifier::reject_recursive_types(H)]
pub struct MessageHandler<H> {
    listeners: StringHashMap<H>,
}

impl<H: Fn(MessageContext, Vec<u8>) -> Result<Replies, String>> MessageHandler<H> {
    /// The registered handlers, by message type.
    pub closed spec fn listeners(&self) -> Map<Seq<char>, H> {
        self.listeners@
    }

    /// Every registered handler accepts every message.
    pub open spec fn wf(&self) -> bool {
        forall|message_type: Seq<char>| #[trigger]
            self.listeners().contains_key(message_type) ==> accepts_all(
                self.listeners()[message_type],
            )
    }

    /// A registry without handlers.
    pub fn new() -> (handler: MessageHandler<H>)
        ensures
            handler.wf(),
            handler.listeners() == Map::<Seq<char>, H>::empty(),
    {
        MessageHandler { listeners: StringHashMap::new() }
    }

    /// Registers `callback` for `message_type`, in place of any handler
    /// registered for it before.
    pub fn add_listener(&mut self, message_type: &str, callback: H)
        requires
            old(self).wf(),
            accepts_all(callback),
        ensures
            final(self).wf(),
            final(self).listeners() == old(self).listeners().insert(message_type@, callback),
    {
        self.listeners.insert(message_type.to_owned(), callback);
    }

    /// Removes the handler registered for `message_type`, if there is one.
    pub fn remove_listener(&mut self, message_type: String)
        requires
            old(self).wf(),
        ensures
            final(self).wf(),
            final(self).listeners() == old(self).listeners().remove(message_type@),
    {
        self.listeners.remove(message_type.as_str());
    }

    /// Dispatches a message to the handler registered for its type. Without
    /// one the message is dropped, which is no error.
    pub fn handle_message(&self, message_ctx: MessageContext, message: Vec<u8>) -> (result: Result<
        Dispatch,
        HandlerError,
    >)
        requires
            self.wf(),
        ensures
            dispatched(self.listeners(), message_ctx, message, result),
    {
        match self.listeners.get(message_ctx.message_type()) {
            None => Ok(Dispatch::Dropped),
            Some(callback) => {
                assert(self.listeners().contains_key(message_ctx@.message_type));
                let message_type = message_ctx.message_type().to_owned();
                match callback(message_ctx, message) {
                    Ok(replies) => Ok(Dispatch::Handled(replies)),
                    Err(reason) => Err(HandlerError { message_type, reason }),
                }
            },
        }
    }
}

} // verus!
