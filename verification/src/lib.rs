//! Framing for a minimal HTTP/1.1 server: a codec that turns buffered bytes
//! into requests and responses into bytes, and the read and write state of one
//! connection, with the rules for draining, end of stream and backpressure.

pub mod buffer;
pub mod message;
pub mod wire;
pub mod error;
pub mod codec;
pub mod framed;
pub mod stream;
pub mod serve;
