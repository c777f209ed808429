//! Limits and switches of a driver.

use vstd::prelude::*;

use crate::lane::max_lane_capacity;

verus! {

/// What an application configures about HTTP/3 and WebTransport.
#[derive(Clone, Debug)]
pub struct Http3Settings {
    /// Whether extended CONNECT and datagram flows are offered.
    pub enable_extended_connect: bool,
    /// Whether native WebTransport sessions are offered.
    pub enable_webtransport: bool,
    /// The multicast channel that carries HTTP/3 datagrams once it is live.
    pub multicast_datagram_channel_id: Option<Vec<u8>>,
    /// How many commands can wait for the driver.
    pub command_capacity: usize,
    /// How many events can wait for the application.
    pub event_capacity: usize,
    /// How many WebTransport commands can wait for the driver.
    pub webtransport_command_capacity: usize,
    /// How many bytes one stream write can hand over.
    pub webtransport_max_stream_write_bytes: usize,
    /// How many bytes of backing memory one stream write can hold on to.
    pub webtransport_max_stream_write_lease_retained_bytes: usize,
    /// How many bytes of backing memory one sent datagram can hold on to.
    pub webtransport_max_datagram_send_allocation_bytes: usize,
    /// How many streams can wait for their session or for their prefix.
    pub webtransport_max_pending_streams: usize,
    /// The same, for one session.
    pub webtransport_max_pending_streams_per_session: usize,
    /// How many received datagrams can wait for the application.
    pub webtransport_max_pending_datagrams: usize,
    /// The same, for one session.
    pub webtransport_max_pending_datagrams_per_session: usize,
    /// How many bytes of received datagrams can wait for the application.
    pub webtransport_max_pending_datagram_bytes: usize,
    /// The same, for one session.
    pub webtransport_max_pending_datagram_bytes_per_session: usize,
    /// How many waits for the end of a send direction can be open, and how many
    /// ends can be remembered without a wait.
    pub webtransport_max_send_terminal_waiters: usize,
    /// The same, for one session.
    pub webtransport_max_send_terminal_waiters_per_session: usize,
    /// How many waits for the end of a session can be open.
    pub webtransport_max_session_terminal_waiters: usize,
    /// The same, for one session.
    pub webtransport_max_session_terminal_waiters_per_session: usize,
    /// How many WebTransport commands one turn of the driver works off.
    pub webtransport_max_session_work_per_callback: usize,
}

/// The settings of a driver that was not configured.
pub open spec fn default_settings() -> Http3Settings {
    Http3Settings {
        enable_extended_connect: false,
        enable_webtransport: false,
        multicast_datagram_channel_id: None,
        command_capacity: 256,
        event_capacity: 1024,
        webtransport_command_capacity: 64,
        webtransport_max_stream_write_bytes: 65_536,
        webtransport_max_stream_write_lease_retained_bytes: 65_536,
        webtransport_max_datagram_send_allocation_bytes: 2048,
        webtransport_max_pending_streams: 64,
        webtransport_max_pending_streams_per_session: 64,
        webtransport_max_pending_datagrams: 256,
        webtransport_max_pending_datagrams_per_session: 256,
        webtransport_max_pending_datagram_bytes: 262_144,
        webtransport_max_pending_datagram_bytes_per_session: 262_144,
        webtransport_max_send_terminal_waiters: 64,
        webtransport_max_send_terminal_waiters_per_session: 64,
        webtransport_max_session_terminal_waiters: 64,
        webtransport_max_session_terminal_waiters_per_session: 64,
        webtransport_max_session_work_per_callback: 32,
    }
}

impl Default for Http3Settings {
    fn default() -> (settings: Self)
        ensures
            settings == default_settings(),
    {
        Http3Settings {
            enable_extended_connect: false,
            enable_webtransport: false,
            multicast_datagram_channel_id: None,
            command_capacity: 256,
            event_capacity: 1024,
            webtransport_command_capacity: 64,
            webtransport_max_stream_write_bytes: 65_536,
            webtransport_max_stream_write_lease_retained_bytes: 65_536,
            webtransport_max_datagram_send_allocation_bytes: 2048,
            webtransport_max_pending_streams: 64,
            webtransport_max_pending_streams_per_session: 64,
            webtransport_max_pending_datagrams: 256,
            webtransport_max_pending_datagrams_per_session: 256,
            webtransport_max_pending_datagram_bytes: 262_144,
            webtransport_max_pending_datagram_bytes_per_session: 262_144,
            webtransport_max_send_terminal_waiters: 64,
            webtransport_max_send_terminal_waiters_per_session: 64,
            webtransport_max_session_terminal_waiters: 64,
            webtransport_max_session_terminal_waiters_per_session: 64,
            webtransport_max_session_work_per_callback: 32,
        }
    }
}

impl Http3Settings {
    /// Whether lanes can be made with the configured capacities.
    pub open spec fn lanes_fit(self) -> bool {
        &&& 0 < self.command_capacity <= max_lane_capacity()
        &&& 0 < self.event_capacity <= max_lane_capacity()
        &&& 0 < self.webtransport_command_capacity <= max_lane_capacity()
    }
}

} // verus!
