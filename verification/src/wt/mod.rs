//! Native WebTransport sessions over HTTP/3.

pub mod block_reasons;
pub mod datagrams;
pub mod ending_laws;
pub mod requests;
pub mod retention;
pub mod runtime;
pub mod runtime_laws;
pub mod session_laws;
pub mod snapshot;
pub mod stream_ends;
pub mod types;
pub mod waiters;
pub mod write_lease;
