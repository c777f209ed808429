//! Transport parameters of the two ends of a connection.

use vstd::prelude::*;

verus! {

/// The transport parameters that one end announces.
#[derive(Clone, Copy, Debug, PartialEq, Eq, Structural)]
pub struct EndpointConfig {
    pub initial_max_data: u64,
    pub initial_max_stream_data_bidi_local: u64,
    pub initial_max_stream_data_bidi_remote: u64,
    pub initial_max_stream_data_uni: u64,
    pub initial_max_streams_bidi: u64,
    pub initial_max_streams_uni: u64,
    pub dgram_enabled: bool,
    pub dgram_recv_queue_len: usize,
    pub dgram_send_queue_len: usize,
    pub reset_stream_at_enabled: bool,
}

/// The transport parameters of both ends.
#[derive(Clone, Copy, Debug, PartialEq, Eq, Structural)]
pub struct DriverPipe {
    pub client: EndpointConfig,
    pub server: EndpointConfig,
}

/// The parameters of an end that was not configured.
pub open spec fn default_endpoint() -> EndpointConfig {
    EndpointConfig {
        initial_max_data: 1500,
        initial_max_stream_data_bidi_local: 150,
        initial_max_stream_data_bidi_remote: 150,
        initial_max_stream_data_uni: 150,
        initial_max_streams_bidi: 100,
        initial_max_streams_uni: 5,
        dgram_enabled: false,
        dgram_recv_queue_len: 0,
        dgram_send_queue_len: 0,
        reset_stream_at_enabled: false,
    }
}

/// The parameters of an end that was not configured.
pub fn default_quiche_config() -> (config: EndpointConfig)
    ensures
        config == default_endpoint(),
{
    EndpointConfig {
        initial_max_data: 1500,
        initial_max_stream_data_bidi_local: 150,
        initial_max_stream_data_bidi_remote: 150,
        initial_max_stream_data_uni: 150,
        initial_max_streams_bidi: 100,
        initial_max_streams_uni: 5,
        dgram_enabled: false,
        dgram_recv_queue_len: 0,
        dgram_send_queue_len: 0,
        reset_stream_at_enabled: false,
    }
}

impl EndpointConfig {
    /// These parameters with datagrams and reliable resets switched on.
    pub open spec fn webtransport_ready(self, send_queue_len: usize) -> EndpointConfig {
        EndpointConfig {
            dgram_enabled: true,
            dgram_recv_queue_len: 10,
            dgram_send_queue_len: send_queue_len,
            reset_stream_at_enabled: true,
            ..self
        }
    }

    /// Switches datagrams on or off and bounds their queues.
    pub fn enable_dgram(&mut self, enabled: bool, recv_queue_len: usize, send_queue_len: usize)
        ensures
            *final(self) == (EndpointConfig {
                dgram_enabled: enabled,
                dgram_recv_queue_len: recv_queue_len,
                dgram_send_queue_len: send_queue_len,
                ..*old(self)
            }),
    {
        self.dgram_enabled = enabled;
        self.dgram_recv_queue_len = recv_queue_len;
        self.dgram_send_queue_len = send_queue_len;
    }

    /// Switches reliable stream resets on or off.
    pub fn enable_reset_stream_at(&mut self, enabled: bool)
        ensures
            *final(self) == (EndpointConfig { reset_stream_at_enabled: enabled, ..*old(self) }),
    {
        self.reset_stream_at_enabled = enabled;
    }

    /// Bounds what the peer can send on a bidirectional stream that this end
    /// opened.
    pub fn set_initial_max_stream_data_bidi_local(&mut self, bytes: u64)
        ensures
            *final(self) == (EndpointConfig {
                initial_max_stream_data_bidi_local: bytes,
                ..*old(self)
            }),
    {
        self.initial_max_stream_data_bidi_local = bytes;
    }

    /// Bounds what the peer can send on a bidirectional stream that it opened.
    pub fn set_initial_max_stream_data_bidi_remote(&mut self, bytes: u64)
        ensures
            *final(self) == (EndpointConfig {
                initial_max_stream_data_bidi_remote: bytes,
                ..*old(self)
            }),
    {
        self.initial_max_stream_data_bidi_remote = bytes;
    }

    /// Bounds how many bidirectional streams the peer can open.
    pub fn set_initial_max_streams_bidi(&mut self, count: u64)
        ensures
            *final(self) == (EndpointConfig { initial_max_streams_bidi: count, ..*old(self) }),
    {
        self.initial_max_streams_bidi = count;
    }

    /// Bounds how many unidirectional streams the peer can open.
    pub fn set_initial_max_streams_uni(&mut self, count: u64)
        ensures
            *final(self) == (EndpointConfig { initial_max_streams_uni: count, ..*old(self) }),
    {
        self.initial_max_streams_uni = count;
    }
}

impl DriverPipe {
    /// Both ends with the same parameters.
    pub fn with_config(config: EndpointConfig) -> (pipe: Self)
        ensures
            pipe == (DriverPipe { client: config, server: config }),
    {
        DriverPipe { client: config, server: config }
    }
}

} // verus!
