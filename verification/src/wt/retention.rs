//! What a driver keeps alive, now and in total.

use vstd::prelude::*;

use crate::request_stream::{add_capped, capped_sum};

verus! {

/// What a driver keeps alive for WebTransport, and what became of what it kept.
#[derive(Clone, Copy, Debug, PartialEq, Eq, Structural)]
pub struct WebTransportRetentionStats {
    pub sessions: usize,
    pub associated_streams: usize,
    pub provisional_streams: usize,
    pub stream_open_waiters: usize,
    pub stream_open_waiter_work_total: u64,
    pub stream_open_waiter_saturation_total: u64,
    pub session_terminal_waiters: usize,
    pub max_session_terminal_waiters: usize,
    pub max_session_terminal_waiters_per_session: usize,
    pub session_terminal_waiter_saturation_total: u64,
    pub waiters: usize,
    pub send_terminal_waiters: usize,
    pub send_terminal_waiter_work_total: u64,
    pub send_terminal_states: usize,
    pub send_terminal_overloaded_sessions: usize,
    pub send_terminal_waiter_saturation_total: u64,
    pub send_terminal_state_saturation_total: u64,
    pub receive_terminal_observations: usize,
    pub receive_terminal_states: usize,
    pub receive_terminal_waiters: usize,
    pub receive_terminal_leases: usize,
    pub receive_terminal_bytes: usize,
    pub bounded_client_connect_owners: usize,
    pub metadata_index_entries: usize,
    pub pending_datagrams: usize,
    pub pending_datagram_payload_bytes: usize,
    pub pending_datagram_allocation_bytes: usize,
    pub terminal_retention_waiters: usize,
    pub live_connection_snapshot_requests: usize,
    pub max_live_connection_snapshot_requests: usize,
    pub live_connection_snapshot_saturation_total: u64,
    pub live_connection_snapshot_cancellation_total: u64,
    pub live_connection_snapshot_sample_total: u64,
    pub command_capacity: usize,
    pub queued_commands: usize,
    pub queued_command_payload_bytes_upper_bound: usize,
    pub write_leases: usize,
    pub write_lease_retained_bytes: usize,
    pub max_write_leases: usize,
    pub max_write_lease_retained_bytes: usize,
    pub write_lease_admitted_total: u64,
    pub write_lease_queue_full_total: u64,
    pub write_lease_resource_limit_total: u64,
    pub write_lease_too_large_total: u64,
    pub write_lease_abandoned_unexposed_total: u64,
    pub write_lease_abandoned_zero_total: u64,
    pub write_lease_abandoned_unknown_total: u64,
    pub transport_stream_send_bytes: usize,
    pub transport_stream_receive_bytes: u64,
    pub transport_datagram_send_bytes: usize,
    pub transport_datagram_receive_bytes: usize,
}

impl WebTransportRetentionStats {
    /// The memory that waits in this layer.
    pub open spec fn adapter_bytes(self) -> u64 {
        capped_sum(
            capped_sum(
                self.pending_datagram_allocation_bytes as u64,
                self.queued_command_payload_bytes_upper_bound as int,
            ),
            self.write_lease_retained_bytes as int,
        )
    }

    /// The memory that waits in this layer.
    pub fn adapter_bytes_upper_bound(&self) -> (bytes: u64)
        ensures
            bytes == self.adapter_bytes(),
    {
        add_capped(
            add_capped(
                self.pending_datagram_allocation_bytes as u64,
                self.queued_command_payload_bytes_upper_bound,
            ),
            self.write_lease_retained_bytes,
        )
    }

    /// The bytes that wait in the transport.
    pub open spec fn transport_bytes(self) -> u64 {
        capped_sum(
            capped_sum(
                capped_sum(
                    self.transport_stream_receive_bytes,
                    self.transport_stream_send_bytes as int,
                ),
                self.transport_datagram_send_bytes as int,
            ),
            self.transport_datagram_receive_bytes as int,
        )
    }

    /// The bytes that wait in the transport.
    pub fn transport_queued_bytes(&self) -> (bytes: u64)
        ensures
            bytes == self.transport_bytes(),
    {
        add_capped(
            add_capped(
                add_capped(self.transport_stream_receive_bytes, self.transport_stream_send_bytes),
                self.transport_datagram_send_bytes,
            ),
            self.transport_datagram_receive_bytes,
        )
    }

    /// Whether nothing is kept alive any more.
    pub open spec fn current_zero(self) -> bool {
        &&& self.sessions == 0
        &&& self.associated_streams == 0
        &&& self.provisional_streams == 0
        &&& self.stream_open_waiters == 0
        &&& self.session_terminal_waiters == 0
        &&& self.waiters == 0
        &&& self.send_terminal_waiters == 0
        &&& self.send_terminal_states == 0
        &&& self.send_terminal_overloaded_sessions == 0
        &&& self.receive_terminal_observations == 0
        &&& self.receive_terminal_states == 0
        &&& self.receive_terminal_waiters == 0
        &&& self.receive_terminal_leases == 0
        &&& self.receive_terminal_bytes == 0
        &&& self.bounded_client_connect_owners == 0
        &&& self.metadata_index_entries == 0
        &&& self.pending_datagrams == 0
        &&& self.pending_datagram_payload_bytes == 0
        &&& self.pending_datagram_allocation_bytes == 0
        &&& self.terminal_retention_waiters == 0
        &&& self.live_connection_snapshot_requests == 0
        &&& self.queued_commands == 0
        &&& self.queued_command_payload_bytes_upper_bound == 0
        &&& self.write_leases == 0
        &&& self.write_lease_retained_bytes == 0
        &&& self.adapter_bytes() == 0
        &&& self.transport_bytes() == 0
    }

    /// These statistics with everything that is kept alive given back. Totals
    /// and bounds stay.
    pub open spec fn settled(self) -> WebTransportRetentionStats {
        WebTransportRetentionStats {
            sessions: 0,
            associated_streams: 0,
            provisional_streams: 0,
            stream_open_waiters: 0,
            session_terminal_waiters: 0,
            waiters: 0,
            send_terminal_waiters: 0,
            send_terminal_states: 0,
            send_terminal_overloaded_sessions: 0,
            receive_terminal_observations: 0,
            receive_terminal_states: 0,
            receive_terminal_waiters: 0,
            receive_terminal_leases: 0,
            receive_terminal_bytes: 0,
            bounded_client_connect_owners: 0,
            metadata_index_entries: 0,
            pending_datagrams: 0,
            pending_datagram_payload_bytes: 0,
            pending_datagram_allocation_bytes: 0,
            terminal_retention_waiters: 0,
            live_connection_snapshot_requests: 0,
            queued_commands: 0,
            queued_command_payload_bytes_upper_bound: 0,
            write_leases: 0,
            write_lease_retained_bytes: 0,
            transport_stream_send_bytes: 0,
            transport_stream_receive_bytes: 0,
            transport_datagram_send_bytes: 0,
            transport_datagram_receive_bytes: 0,
            ..self
        }
    }

    /// Gives everything back that is kept alive.
    pub fn settle(&mut self)
        ensures
            *final(self) == old(self).settled(),
            final(self).current_zero(),
    {
        self.sessions = 0;
        self.associated_streams = 0;
        self.provisional_streams = 0;
        self.stream_open_waiters = 0;
        self.session_terminal_waiters = 0;
        self.waiters = 0;
        self.send_terminal_waiters = 0;
        self.send_terminal_states = 0;
        self.send_terminal_overloaded_sessions = 0;
        self.receive_terminal_observations = 0;
        self.receive_terminal_states = 0;
        self.receive_terminal_waiters = 0;
        self.receive_terminal_leases = 0;
        self.receive_terminal_bytes = 0;
        self.bounded_client_connect_owners = 0;
        self.metadata_index_entries = 0;
        self.pending_datagrams = 0;
        self.pending_datagram_payload_bytes = 0;
        self.pending_datagram_allocation_bytes = 0;
        self.terminal_retention_waiters = 0;
        self.live_connection_snapshot_requests = 0;
        self.queued_commands = 0;
        self.queued_command_payload_bytes_upper_bound = 0;
        self.write_leases = 0;
        self.write_lease_retained_bytes = 0;
        self.transport_stream_send_bytes = 0;
        self.transport_stream_receive_bytes = 0;
        self.transport_datagram_send_bytes = 0;
        self.transport_datagram_receive_bytes = 0;
    }
}

/// Whether nothing is kept alive any more.
pub fn assert_terminal_retention_current_zero(stats: &WebTransportRetentionStats) -> (zero: bool)
    ensures
        zero == stats.current_zero(),
{
    stats.sessions == 0 && stats.associated_streams == 0 && stats.provisional_streams == 0
        && stats.stream_open_waiters == 0 && stats.session_terminal_waiters == 0 && stats.waiters
        == 0 && stats.send_terminal_waiters == 0 && stats.send_terminal_states == 0
        && stats.send_terminal_overloaded_sessions == 0 && stats.receive_terminal_observations == 0
        && stats.receive_terminal_states == 0 && stats.receive_terminal_waiters == 0
        && stats.receive_terminal_leases == 0 && stats.receive_terminal_bytes == 0
        && stats.bounded_client_connect_owners == 0 && stats.metadata_index_entries == 0
        && stats.pending_datagrams == 0 && stats.pending_datagram_payload_bytes == 0
        && stats.pending_datagram_allocation_bytes == 0 && stats.terminal_retention_waiters == 0
        && stats.live_connection_snapshot_requests == 0 && stats.queued_commands == 0
        && stats.queued_command_payload_bytes_upper_bound == 0 && stats.write_leases == 0
        && stats.write_lease_retained_bytes == 0 && stats.adapter_bytes_upper_bound() == 0
        && stats.transport_queued_bytes() == 0
}

/// What still holds the final statistics back.
#[derive(Clone, Copy, Debug, PartialEq, Eq, Structural)]
pub struct WebTransportTerminalRetentionPending {
    pub runtime_settled: bool,
    pub connection_owner_attached: bool,
    pub connection_owner_dropped: bool,
    pub write_leases: usize,
    pub write_lease_retained_bytes: usize,
}

/// What a claim on the final statistics is answered.
#[derive(Clone, Copy, Debug, PartialEq, Eq, Structural)]
pub enum WebTransportTerminalRetentionOutcome {
    /// Something is still alive.
    Early(WebTransportTerminalRetentionPending),
    Taken(WebTransportRetentionStats),
    AlreadyTaken,
}

/// Who can take the final statistics of a connection, and whether somebody has.
#[derive(Clone, Copy, Debug, PartialEq, Eq, Structural)]
pub struct TerminalClaim {
    /// The driver has given everything back but for leases that are out.
    pub runtime_settled: bool,
    /// The owner of the connection is gone.
    pub owner_dropped: bool,
    pub taken: bool,
}

impl TerminalClaim {
    /// The claim on the final statistics of a connection that is in use.
    pub open spec fn fresh() -> TerminalClaim {
        TerminalClaim { runtime_settled: false, owner_dropped: false, taken: false }
    }

    /// The claim on the final statistics of a connection that is in use.
    pub fn new() -> (claim: Self)
        ensures
            claim == TerminalClaim::fresh(),
    {
        TerminalClaim { runtime_settled: false, owner_dropped: false, taken: false }
    }

    /// What still holds the final statistics back.
    pub open spec fn pending(self, stats: WebTransportRetentionStats) ->
        WebTransportTerminalRetentionPending {
        WebTransportTerminalRetentionPending {
            runtime_settled: self.runtime_settled,
            connection_owner_attached: true,
            connection_owner_dropped: self.owner_dropped,
            write_leases: stats.write_leases,
            write_lease_retained_bytes: stats.write_lease_retained_bytes,
        }
    }

    /// What the claim is answered when the driver's statistics are `stats`. Nothing
    /// but a lease, the driver or the owner of the connection holds the final
    /// statistics back.
    pub open spec fn outcome(self, stats: WebTransportRetentionStats) ->
        WebTransportTerminalRetentionOutcome {
        if self.taken {
            WebTransportTerminalRetentionOutcome::AlreadyTaken
        } else if self.runtime_settled && self.owner_dropped && stats.write_leases == 0 {
            WebTransportTerminalRetentionOutcome::Taken(stats.settled())
        } else {
            WebTransportTerminalRetentionOutcome::Early(self.pending(stats))
        }
    }

    /// Takes the final statistics, once nothing holds them back.
    pub fn try_take(&mut self, stats: WebTransportRetentionStats) -> (outcome:
        WebTransportTerminalRetentionOutcome)
        ensures
            outcome == old(self).outcome(stats),
            *final(self) == (TerminalClaim {
                taken: old(self).taken || outcome is Taken,
                ..*old(self)
            }),
            outcome matches WebTransportTerminalRetentionOutcome::Taken(last) ==>
                last.current_zero(),
    {
        if self.taken {
            WebTransportTerminalRetentionOutcome::AlreadyTaken
        } else if self.runtime_settled && self.owner_dropped && stats.write_leases == 0 {
            self.taken = true;
            let mut last = stats;
            last.settle();
            WebTransportTerminalRetentionOutcome::Taken(last)
        } else {
            WebTransportTerminalRetentionOutcome::Early(
                WebTransportTerminalRetentionPending {
                    runtime_settled: self.runtime_settled,
                    connection_owner_attached: true,
                    connection_owner_dropped: self.owner_dropped,
                    write_leases: stats.write_leases,
                    write_lease_retained_bytes: stats.write_lease_retained_bytes,
                },
            )
        }
    }
}

/// The final statistics are handed out once: whatever the statistics are then,
/// whoever asks after that is told that they were taken.
pub proof fn lemma_final_statistics_are_taken_once(
    claim: TerminalClaim,
    stats: WebTransportRetentionStats,
    later: WebTransportRetentionStats,
)
    requires
        claim.outcome(stats) is Taken,
    ensures
        (TerminalClaim { taken: true, ..claim }).outcome(later)
            == WebTransportTerminalRetentionOutcome::AlreadyTaken,
        stats.write_leases == 0,
        claim.runtime_settled && claim.owner_dropped,
{
}

/// The final statistics keep every total and every bound.
pub proof fn lemma_settled_stats_keep_totals(stats: WebTransportRetentionStats)
    ensures
        stats.settled().current_zero(),
        stats.settled().write_lease_admitted_total == stats.write_lease_admitted_total,
        stats.settled().write_lease_queue_full_total == stats.write_lease_queue_full_total,
        stats.settled().write_lease_abandoned_unexposed_total
            == stats.write_lease_abandoned_unexposed_total,
        stats.settled().live_connection_snapshot_sample_total
            == stats.live_connection_snapshot_sample_total,
        stats.settled().live_connection_snapshot_saturation_total
            == stats.live_connection_snapshot_saturation_total,
        stats.settled().live_connection_snapshot_cancellation_total
            == stats.live_connection_snapshot_cancellation_total,
        stats.settled().max_live_connection_snapshot_requests
            == stats.max_live_connection_snapshot_requests,
{
}

} // verus!
