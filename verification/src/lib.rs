//! A small stream-framing layer: codecs that turn a partially delivered
//! byte stream into discrete messages (and back), a buffered connection
//! state machine that drives a codec across non-blocking reads and writes,
//! and a registry that routes readiness events to connections.

pub mod buffers;
pub mod codecs;
pub mod connections;
pub mod reactor;

pub use connections::connection::Connection;
pub use connections::connections::Connections;

pub use codecs::line::LineCodec;
pub use codecs::Codec;
pub use codecs::CodecError;
