//! A message-oriented transport core: length-delimited framing, a typed
//! envelope protocol, and a registry that routes envelopes to handlers.

pub mod envelope;
pub mod frame;
pub mod server_socket;
pub mod wire;
