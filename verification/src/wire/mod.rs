//! Byte formats: variable-length integers, stream prefixes, capsules,
//! datagrams, and the WebTransport error code space.

pub mod capsule;
pub mod datagram;
pub mod error_code;
pub mod stream_prefix;
pub mod varint;
pub mod wire_laws;
