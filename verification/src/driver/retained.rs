//! What the driver keeps alive for sessions.

use vstd::prelude::*;

use crate::driver::desk::{Desk, Serving};
use crate::driver::readiness::readers;
use crate::driver::state::H3Core;
use crate::peer_log::raw_total;
use crate::request_stream::add_capped;
use crate::transport::byte_count;
use crate::wire::capsule::MAX_CLOSE_MESSAGE_LEN;
use crate::wt::datagrams::{total_allocation, total_bytes};
use crate::wt::requests::{Answer, WebTransportOutcome};
use crate::wt::retention::WebTransportRetentionStats;
use crate::wt::runtime::waiting_count;
use crate::wt::stream_ends::{ends_that_matter, overloaded, remembered};

verus! {

/// A number, or the largest value.
pub open spec fn clipped(n: nat) -> usize {
    if n <= usize::MAX {
        n as usize
    } else {
        usize::MAX
    }
}

/// A number, or the largest value.
pub open spec fn limited(n: nat) -> u64 {
    if n <= u64::MAX {
        n as u64
    } else {
        u64::MAX
    }
}

fn clip(n: u64) -> (value: usize)
    ensures
        value == clipped(n as nat),
{
    if n <= usize::MAX as u64 {
        n as usize
    } else {
        usize::MAX
    }
}

impl Serving {
    /// How many sessions there are.
    pub open spec fn session_count(self) -> nat {
        match self.core.session {
            Some(s) => if s.session is Some {
                1
            } else {
                0
            },
            None => 0,
        }
    }

    /// How many streams of the peer wait for their session.
    pub open spec fn provisional_count(self) -> nat {
        match self.core.session {
            Some(s) => waiting_count(s.streams),
            None => 0,
        }
    }

    /// How many streams belong to a session or wait for one.
    pub open spec fn stream_count(self) -> nat {
        match self.core.session {
            Some(s) => s.streams.len(),
            None => 0,
        }
    }

    /// How many entries the tables about sessions have.
    pub open spec fn index_entries(self) -> nat {
        self.session_count() + self.stream_count() + self.desk.endings.rows.len()
            + self.core.datagrams.queue.len() + self.desk.writes.len()
    }

    /// What is kept alive, with `queued` requests in a lane of `capacity` places.
    #[verifier::opaque]
    pub open spec fn retained(self, queued: nat, capacity: nat) -> WebTransportRetentionStats {
        WebTransportRetentionStats {
            sessions: clipped(self.session_count()),
            associated_streams: clipped(
                (self.stream_count() - self.provisional_count()) as nat,
            ),
            provisional_streams: clipped(self.provisional_count()),
            stream_open_waiters: clipped(self.desk.waits.len()),
            stream_open_waiter_work_total: self.desk.open_work_total,
            stream_open_waiter_saturation_total: self.desk.open_saturation_total,
            session_terminal_waiters: clipped(self.desk.session_waits.list.len()),
            max_session_terminal_waiters:
                self.core.settings.webtransport_max_session_terminal_waiters,
            max_session_terminal_waiters_per_session:
                self.core.settings.webtransport_max_session_terminal_waiters_per_session,
            session_terminal_waiter_saturation_total: self.desk.session_waits.saturation_total,
            waiters: clipped(self.desk.ready_waits.len()),
            send_terminal_waiters: clipped(self.desk.endings.waiters.list.len()),
            send_terminal_waiter_work_total: self.desk.send_work_total,
            send_terminal_states: clipped(remembered(self.desk.endings.rows)),
            send_terminal_overloaded_sessions: if overloaded(self.desk.endings.rows) {
                1
            } else {
                0
            },
            send_terminal_waiter_saturation_total: self.desk.endings.waiters.saturation_total,
            send_terminal_state_saturation_total: self.desk.endings.state_saturation_total,
            receive_terminal_observations: 0,
            receive_terminal_states: clipped(ends_that_matter(self.desk.endings.rows)),
            receive_terminal_waiters: clipped(readers(self.desk.ready_waits)),
            receive_terminal_leases: 0,
            receive_terminal_bytes: 0,
            bounded_client_connect_owners: 0,
            metadata_index_entries: clipped(self.index_entries()),
            pending_datagrams: clipped(self.core.datagrams.queue.len()),
            pending_datagram_payload_bytes: clipped(total_bytes(self.core.datagrams.queue)),
            pending_datagram_allocation_bytes: clipped(
                total_allocation(self.core.datagrams.queue),
            ),
            terminal_retention_waiters: 0,
            live_connection_snapshot_requests: if self.desk.snapshot.stage is Some {
                1
            } else {
                0
            },
            max_live_connection_snapshot_requests: 1,
            live_connection_snapshot_saturation_total: self.desk.snapshot.saturation_total,
            live_connection_snapshot_cancellation_total: self.desk.snapshot.cancellation_total,
            live_connection_snapshot_sample_total: self.desk.snapshot.sample_total,
            command_capacity: clipped(capacity),
            queued_commands: clipped(queued),
            queued_command_payload_bytes_upper_bound: clipped(queued * MAX_CLOSE_MESSAGE_LEN as nat),
            write_leases: self.desk.ledger.leases,
            write_lease_retained_bytes: self.desk.ledger.retained,
            max_write_leases: self.desk.ledger.max_leases,
            max_write_lease_retained_bytes: self.desk.ledger.max_retained,
            write_lease_admitted_total: self.desk.ledger.admitted_total,
            write_lease_queue_full_total: self.desk.ledger.queue_full_total,
            write_lease_resource_limit_total: self.desk.ledger.resource_limit_total,
            write_lease_too_large_total: self.desk.ledger.too_large_total,
            write_lease_abandoned_unexposed_total: self.desk.ledger.abandoned_unexposed_total,
            write_lease_abandoned_zero_total: self.desk.ledger.abandoned_zero_total,
            write_lease_abandoned_unknown_total: self.desk.ledger.abandoned_unknown_total,
            transport_stream_send_bytes: 0,
            transport_stream_receive_bytes: limited(raw_total(self.core.raw.sent)),
            transport_datagram_send_bytes: clipped(byte_count(self.core.transport.dgrams_queued)),
            transport_datagram_receive_bytes: 0,
        }
    }

    /// The state after the application asked what is kept alive.
    #[verifier::opaque]
    pub open spec fn stats_requested(self, op: u64, queued: nat, capacity: nat) -> Serving {
        self.answered(op, Answer::Stats(self.retained(queued, capacity)))
    }
}

impl Desk {
    fn index_size(&self, core: &H3Core, streams: usize, sessions: usize) -> (count: usize)
        requires
            streams == self.with(*core).stream_count(),
            sessions == self.with(*core).session_count(),
        ensures
            count == clipped(self.with(*core).index_entries()),
    {
        let (datagrams, _, _) = core.datagrams.usage();
        let some: u64 = add_capped(add_capped(sessions as u64, streams), self.endings.len());
        let all: u64 = add_capped(add_capped(some, datagrams), self.writes.len());
        clip(all)
    }

    /// What is kept alive, with `queued` requests in a lane of `capacity` places.
    pub fn retention(&self, core: &H3Core, queued: usize, capacity: usize) -> (stats:
        WebTransportRetentionStats)
        ensures
            stats == self.with(*core).retained(queued as nat, capacity as nat),
    {
        proof {
            reveal(Serving::retained);
        }
        let (sessions, owned, waiting) = match &core.session {
            Some(runtime) => (
                runtime.session_count(),
                runtime.active_stream_count(),
                runtime.pending_stream_count(),
            ),
            None => (0, 0, 0),
        };
        let streams: usize = match &core.session {
            Some(runtime) => runtime.stream_count(),
            None => 0,
        };
        let entries: usize = self.index_size(core, streams, sessions);
        let (datagrams, bytes, memory) = core.datagrams.usage();
        let commands: usize = match queued.checked_mul(MAX_CLOSE_MESSAGE_LEN) {
            Some(product) => product,
            None => usize::MAX,
        };
        WebTransportRetentionStats {
            sessions,
            associated_streams: owned,
            provisional_streams: waiting,
            stream_open_waiters: self.waits.len(),
            stream_open_waiter_work_total: self.open_work_total,
            stream_open_waiter_saturation_total: self.open_saturation_total,
            session_terminal_waiters: self.session_waits.len(),
            max_session_terminal_waiters: core.settings.webtransport_max_session_terminal_waiters,
            max_session_terminal_waiters_per_session:
                core.settings.webtransport_max_session_terminal_waiters_per_session,
            session_terminal_waiter_saturation_total: self.session_waits.saturation_total(),
            waiters: self.ready_waits.len(),
            send_terminal_waiters: self.endings.waiter_count(),
            send_terminal_waiter_work_total: self.send_work_total,
            send_terminal_states: self.endings.remembered_count(),
            send_terminal_overloaded_sessions: if self.endings.is_overloaded() {
                1
            } else {
                0
            },
            send_terminal_waiter_saturation_total: self.endings.waiter_saturation_total(),
            send_terminal_state_saturation_total: self.endings.state_saturation_total(),
            receive_terminal_observations: 0,
            receive_terminal_states: self.endings.received_count(),
            receive_terminal_waiters: self.reader_count(),
            receive_terminal_leases: 0,
            receive_terminal_bytes: 0,
            bounded_client_connect_owners: 0,
            metadata_index_entries: entries,
            pending_datagrams: datagrams,
            pending_datagram_payload_bytes: clip(bytes),
            pending_datagram_allocation_bytes: clip(memory),
            terminal_retention_waiters: 0,
            live_connection_snapshot_requests: if self.snapshot.stage.is_some() {
                1
            } else {
                0
            },
            max_live_connection_snapshot_requests: 1,
            live_connection_snapshot_saturation_total: self.snapshot.saturation_total,
            live_connection_snapshot_cancellation_total: self.snapshot.cancellation_total,
            live_connection_snapshot_sample_total: self.snapshot.sample_total,
            command_capacity: capacity,
            queued_commands: queued,
            queued_command_payload_bytes_upper_bound: commands,
            write_leases: self.ledger.leases,
            write_lease_retained_bytes: self.ledger.retained,
            max_write_leases: self.ledger.max_leases,
            max_write_lease_retained_bytes: self.ledger.max_retained,
            write_lease_admitted_total: self.ledger.admitted_total,
            write_lease_queue_full_total: self.ledger.queue_full_total,
            write_lease_resource_limit_total: self.ledger.resource_limit_total,
            write_lease_too_large_total: self.ledger.too_large_total,
            write_lease_abandoned_unexposed_total: self.ledger.abandoned_unexposed_total,
            write_lease_abandoned_zero_total: self.ledger.abandoned_zero_total,
            write_lease_abandoned_unknown_total: self.ledger.abandoned_unknown_total,
            transport_stream_send_bytes: 0,
            transport_stream_receive_bytes: core.raw.raw_byte_count(),
            transport_datagram_send_bytes: clip(core.transport.queued_dgram_bytes()),
            transport_datagram_receive_bytes: 0,
        }
    }

    /// The application asks what is kept alive.
    pub fn request_stats(&mut self, core: &H3Core, op: u64, queued: usize, capacity: usize)
        requires
            old(self).wf(),
        ensures
            final(self).wf(),
            final(self).with(*core) == old(self).with(*core).stats_requested(
                op,
                queued as nat,
                capacity as nat,
            ),
    {
        proof {
            reveal(Serving::stats_requested);
        }
        let stats = self.retention(core, queued, capacity);
        self.answer(op, WebTransportOutcome::Stats(stats));
    }
}

} // verus!
