//! Wire protocol of a peer-to-peer node: the message type registry with its
//! size ceilings, the frame header codec, the payload codecs and the pieces of
//! the frame reader and writer that decide rather than perform I/O.

pub mod ser;
pub mod types;
pub mod msg;
pub mod payload;
