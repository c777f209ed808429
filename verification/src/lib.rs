//! The decision core of an HTTP/3 driver with native WebTransport sessions.
//!
//! Every rule here works on plain values. A host feeds what the QUIC transport
//! and the application did into the driver, and performs what the driver asks
//! for in return.

pub mod body_buf;
pub mod client_side_driver;
pub mod conn_close;
pub mod driver;
pub mod header_laws;
pub mod headers;
pub mod lane;
pub mod multicast;
pub mod peer_laws;
pub mod peer_log;
pub mod peer_side;
pub mod pipe_config;
pub mod request_stream;
pub mod request_stream_laws;
pub mod server_requests;
pub mod server_side_driver;
pub mod server_side_laws;
pub mod settings;
pub mod table;
pub mod transport;
pub mod transport_laws;
pub mod wire;
pub mod wt;
