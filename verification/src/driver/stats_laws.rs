//! What the statistics of what is kept alive and the samples of the connection say.

use vstd::prelude::*;

use crate::driver::desk::{ReadyWait, Serving};
use crate::driver::lease_laws::one_more;
use crate::driver::readiness::readers;
use crate::peer_log::{raw_total, Sent};
use crate::transport::byte_count;
use crate::wt::datagrams::{total_allocation, total_bytes, Received};
use crate::wt::retention::{
    TerminalClaim, WebTransportRetentionStats, WebTransportTerminalRetentionOutcome,
};
use crate::wt::runtime_laws::{lemma_counts, unowned};
use crate::wt::snapshot::{
    PathSnapshot, SnapshotEnd, SnapshotOutcome, SnapshotSlot, SnapshotStage,
    WebTransportLiveConnectionSnapshot,
};
use crate::wt::stream_ends::{ends_that_matter, remembered, StreamEnds};

verus! {

/// Whether a statistic tells a number. One that is too large is told as the largest that
/// there is.
pub open spec fn says(told: int, n: int) -> bool {
    told == n || (told == usize::MAX && n > told)
}

/// The streams of the peer whose refusal is remembered.
pub open spec fn is_refused() -> spec_fn((u64, StreamEnds)) -> bool {
    |row: (u64, StreamEnds)| row.1.stopped is Some
}

/// The streams with an end of the peer's direction that the application did not leave.
pub open spec fn has_ended() -> spec_fn((u64, StreamEnds)) -> bool {
    |row: (u64, StreamEnds)| row.1.received is Some && !row.1.receive_retired
}

/// The requests that wait until there is something to read.
pub open spec fn wants_to_read() -> spec_fn(ReadyWait) -> bool {
    |wait: ReadyWait| wait.kind is Readable
}

/// The remembered ends of streams are counted.
pub proof fn lemma_ends_are_counted(rows: Seq<(u64, StreamEnds)>)
    ensures
        remembered(rows) == rows.filter(is_refused()).len(),
        ends_that_matter(rows) == rows.filter(has_ended()).len(),
    decreases rows.len(),
{
    reveal(Seq::filter);
    if rows.len() > 0 {
        lemma_ends_are_counted(rows.drop_last());
    }
}

proof fn lemma_readers_are_counted(waits: Seq<ReadyWait>)
    ensures
        readers(waits) == waits.filter(wants_to_read()).len(),
    decreases waits.len(),
{
    reveal(Seq::filter);
    if waits.len() > 0 {
        lemma_readers_are_counted(waits.drop_last());
    }
}

/// The sizes of what waits add up entry by entry.
pub proof fn lemma_sizes_add_up(
    queue: Seq<Received>,
    datagram: Received,
    log: Seq<Sent>,
    entry: Sent,
    list: Seq<Seq<u8>>,
    bytes: Seq<u8>,
)
    ensures
        total_bytes(Seq::empty()) == 0,
        total_bytes(queue.push(datagram)) == total_bytes(queue) + datagram.payload.len(),
        total_allocation(Seq::empty()) == 0,
        total_allocation(queue.push(datagram)) == total_allocation(queue) + datagram.allocation,
        raw_total(Seq::empty()) == 0,
        raw_total(log.push(entry)) == raw_total(log) + match entry {
            Sent::Raw { data, .. } => data.len(),
            _ => 0,
        },
        byte_count(Seq::empty()) == 0,
        byte_count(list.push(bytes)) == byte_count(list) + bytes.len(),
{
    assert(queue.push(datagram).drop_last() =~= queue);
    assert(log.push(entry).drop_last() =~= log);
    assert(list.push(bytes).drop_last() =~= list);
}

/// The statistics count what there is: the session, its streams and those that wait for one,
/// the requests that wait, the ends of streams that are remembered, the datagrams and the
/// leases.
pub proof fn lemma_statistics_count_what_there_is(state: Serving, queued: nat, capacity: nat)
    ensures
        ({
            let stats = state.retained(queued, capacity);
            let session = state.core.session;
            let rows = session->Some_0.streams;
            let ends = state.desk.endings.rows;
            let datagrams = state.core.datagrams.queue;
            let there = session is Some && session->Some_0.session is Some;
            let streams: int = if session is Some {
                rows.len() as int
            } else {
                0
            };
            let waiting: int = if session is Some {
                rows.filter(unowned()).len() as int
            } else {
                0
            };
            &&& stats.sessions == (if there {
                1int
            } else {
                0int
            })
            &&& says(stats.provisional_streams as int, waiting)
            &&& says(stats.associated_streams as int, streams - waiting)
            &&& says(stats.stream_open_waiters as int, state.desk.waits.len() as int)
            &&& says(
                stats.session_terminal_waiters as int,
                state.desk.session_waits.list.len() as int,
            )
            &&& says(stats.waiters as int, state.desk.ready_waits.len() as int)
            &&& says(
                stats.receive_terminal_waiters as int,
                state.desk.ready_waits.filter(wants_to_read()).len() as int,
            )
            &&& says(
                stats.send_terminal_waiters as int,
                state.desk.endings.waiters.list.len() as int,
            )
            &&& says(stats.send_terminal_states as int, ends.filter(is_refused()).len() as int)
            &&& says(stats.receive_terminal_states as int, ends.filter(has_ended()).len() as int)
            &&& stats.send_terminal_overloaded_sessions == 1 <==> exists|i: int|
                0 <= i < ends.len() && (#[trigger] ends[i]).1.stop_lost
            &&& stats.send_terminal_overloaded_sessions <= 1
            &&& says(
                stats.metadata_index_entries as int,
                stats.sessions + streams + ends.len() + datagrams.len()
                    + state.desk.writes.len(),
            )
            &&& says(stats.pending_datagrams as int, datagrams.len() as int)
            &&& says(stats.pending_datagram_payload_bytes as int, total_bytes(datagrams) as int)
            &&& says(
                stats.pending_datagram_allocation_bytes as int,
                total_allocation(datagrams) as int,
            )
            &&& says(
                stats.transport_datagram_send_bytes as int,
                byte_count(state.core.transport.dgrams_queued) as int,
            )
            &&& raw_total(state.core.raw.sent) <= u64::MAX ==> stats.transport_stream_receive_bytes
                == raw_total(state.core.raw.sent)
            &&& says(stats.queued_commands as int, queued as int)
            &&& says(stats.command_capacity as int, capacity as int)
            &&& says(stats.queued_command_payload_bytes_upper_bound as int, 1024 * (queued as int))
        }),
{
    reveal(Serving::retained);
    lemma_ends_are_counted(state.desk.endings.rows);
    lemma_readers_are_counted(state.desk.ready_waits);
    if let Some(s) = state.core.session {
        lemma_counts(s.streams, 0);
        reveal(Seq::filter);
        lemma_filter_is_shorter(s.streams, unowned());
    }
}

proof fn lemma_filter_is_shorter<A>(list: Seq<A>, keep: spec_fn(A) -> bool)
    ensures
        list.filter(keep).len() <= list.len(),
    decreases list.len(),
{
    reveal(Seq::filter);
    if list.len() > 0 {
        lemma_filter_is_shorter(list.drop_last(), keep);
    }
}

/// The statistics tell the totals and bounds that the driver keeps: those of the leases, of
/// the samples, and of the requests that wait.
pub proof fn lemma_statistics_tell_the_totals(state: Serving, queued: nat, capacity: nat)
    ensures
        ({
            let stats = state.retained(queued, capacity);
            let ledger = state.desk.ledger;
            let slot = state.desk.snapshot;
            let settings = state.core.settings;
            &&& stats.write_leases == ledger.leases && stats.write_lease_retained_bytes
                == ledger.retained
            &&& stats.max_write_leases == ledger.max_leases
                && stats.max_write_lease_retained_bytes == ledger.max_retained
            &&& stats.write_lease_admitted_total == ledger.admitted_total
            &&& stats.write_lease_queue_full_total == ledger.queue_full_total
            &&& stats.write_lease_resource_limit_total == ledger.resource_limit_total
            &&& stats.write_lease_too_large_total == ledger.too_large_total
            &&& stats.write_lease_abandoned_unexposed_total == ledger.abandoned_unexposed_total
            &&& stats.write_lease_abandoned_zero_total == ledger.abandoned_zero_total
            &&& stats.write_lease_abandoned_unknown_total == ledger.abandoned_unknown_total
            &&& stats.live_connection_snapshot_requests == 1 <==> slot.stage is Some
            &&& stats.live_connection_snapshot_requests <= 1
                && stats.max_live_connection_snapshot_requests == 1
            &&& stats.live_connection_snapshot_saturation_total == slot.saturation_total
            &&& stats.live_connection_snapshot_cancellation_total == slot.cancellation_total
            &&& stats.live_connection_snapshot_sample_total == slot.sample_total
            &&& stats.stream_open_waiter_work_total == state.desk.open_work_total
            &&& stats.stream_open_waiter_saturation_total == state.desk.open_saturation_total
            &&& stats.send_terminal_waiter_work_total == state.desk.send_work_total
            &&& stats.send_terminal_waiter_saturation_total
                == state.desk.endings.waiters.saturation_total
            &&& stats.send_terminal_state_saturation_total
                == state.desk.endings.state_saturation_total
            &&& stats.session_terminal_waiter_saturation_total
                == state.desk.session_waits.saturation_total
            &&& stats.max_session_terminal_waiters
                == settings.webtransport_max_session_terminal_waiters
            &&& stats.max_session_terminal_waiters_per_session
                == settings.webtransport_max_session_terminal_waiters_per_session
        }),
{
    reveal(Serving::retained);
}

/// Everything that is kept alive, added up.
pub open spec fn kept_alive(stats: WebTransportRetentionStats) -> int {
    stats.sessions + stats.associated_streams + stats.provisional_streams
        + stats.stream_open_waiters + stats.session_terminal_waiters + stats.waiters
        + stats.send_terminal_waiters + stats.send_terminal_states
        + stats.send_terminal_overloaded_sessions + stats.receive_terminal_observations
        + stats.receive_terminal_states + stats.receive_terminal_waiters
        + stats.receive_terminal_leases + stats.receive_terminal_bytes
        + stats.bounded_client_connect_owners + stats.metadata_index_entries
        + stats.pending_datagrams + stats.pending_datagram_payload_bytes
        + stats.pending_datagram_allocation_bytes + stats.terminal_retention_waiters
        + stats.live_connection_snapshot_requests + stats.queued_commands
        + stats.queued_command_payload_bytes_upper_bound + stats.write_leases
        + stats.write_lease_retained_bytes + stats.transport_stream_send_bytes
        + stats.transport_stream_receive_bytes + stats.transport_datagram_send_bytes
        + stats.transport_datagram_receive_bytes
}

/// Nothing is kept alive exactly if everything adds up to nothing. The memory of this layer
/// and that of the transport are sums of their parts.
pub proof fn lemma_nothing_is_kept_alive(stats: WebTransportRetentionStats)
    ensures
        stats.current_zero() <==> kept_alive(stats) == 0,
        kept_alive(stats.settled()) == 0,
        kept_alive(stats) == 0 ==> stats.settled() == stats,
        ({
            let here = stats.pending_datagram_allocation_bytes
                + stats.queued_command_payload_bytes_upper_bound
                + stats.write_lease_retained_bytes;
            let there = stats.transport_stream_receive_bytes + stats.transport_stream_send_bytes
                + stats.transport_datagram_send_bytes + stats.transport_datagram_receive_bytes;
            &&& stats.adapter_bytes() == (if here <= 0xffff_ffff_ffff_ffff {
                here
            } else {
                0xffff_ffff_ffff_ffff
            })
            &&& stats.transport_bytes() == (if there <= 0xffff_ffff_ffff_ffff {
                there
            } else {
                0xffff_ffff_ffff_ffff
            })
        }),
{
}

/// The final statistics are there exactly when the driver is done, the owner of the
/// connection is gone and no lease is out, and they are taken once. Before that the claim is
/// told what is missing.
pub proof fn lemma_final_statistics_wait_for_the_leases(
    claim: TerminalClaim,
    stats: WebTransportRetentionStats,
)
    ensures
        ({
            let outcome = claim.outcome(stats);
            let ready = claim.runtime_settled && claim.owner_dropped && stats.write_leases == 0;
            &&& claim.taken ==> outcome == WebTransportTerminalRetentionOutcome::AlreadyTaken
            &&& outcome is Taken <==> !claim.taken && ready
            &&& outcome matches WebTransportTerminalRetentionOutcome::Taken(last) ==> kept_alive(
                last,
            ) == 0 && last.write_lease_admitted_total == stats.write_lease_admitted_total
            &&& outcome matches WebTransportTerminalRetentionOutcome::Early(missing) ==> {
                &&& missing.runtime_settled == claim.runtime_settled
                &&& missing.connection_owner_dropped == claim.owner_dropped
                &&& missing.write_leases == stats.write_leases
                &&& missing.write_lease_retained_bytes == stats.write_lease_retained_bytes
            }
        }),
{
}

/// A sample of the connection is what its path was when the driver saw the request, under
/// the number of samples before it. It is had once, and the next one has the next number.
pub proof fn lemma_sample_is_had_once(slot: SnapshotSlot, path: PathSnapshot)
    requires
        slot.stage is None,
        slot.ended is None,
    ensures
        ({
            let asked = slot.requested(true);
            let sampled = asked.sampled(path);
            let taken = sampled.taken();
            &&& slot.instant_answer(true) is None && asked.answer() is None
            &&& sampled.answer() == Some(
                SnapshotOutcome::Sampled(
                    WebTransportLiveConnectionSnapshot {
                        sample_sequence: slot.sample_total,
                        path,
                    },
                ),
            )
            &&& taken.answer() is None && taken.stage is None
            &&& one_more(slot.sample_total, taken.sample_total)
            &&& taken.saturation_total == slot.saturation_total && taken.cancellation_total
                == slot.cancellation_total && taken.ended is None
        }),
{
}

/// A request for a sample that comes while another is under way, or finds no room, is told
/// so at once and counted. One that was given up is counted too: it gets no sample, and makes
/// way when the driver has seen it.
pub proof fn lemma_requests_for_samples_do_not_pile_up(
    slot: SnapshotSlot,
    room: bool,
    path: PathSnapshot,
)
    requires
        slot.ended is None,
    ensures
        slot.stage is Some || !room ==> {
            &&& slot.instant_answer(room) == Some(SnapshotOutcome::Saturated)
            &&& slot.requested(room).stage == slot.stage
            &&& one_more(slot.saturation_total, slot.requested(room).saturation_total)
        },
        slot.stage == Some(SnapshotStage::Waiting) ==> {
            let after = slot.given_up().sampled(path);
            &&& one_more(slot.cancellation_total, slot.given_up().cancellation_total)
            &&& slot.given_up().instant_answer(true) == Some(SnapshotOutcome::Saturated)
            &&& after.stage is None && after.answer() is None
            &&& after.sample_total == slot.sample_total
        },
        slot.stage matches Some(SnapshotStage::Sampled(_)) ==> {
            &&& slot.given_up().stage is None
            &&& one_more(slot.cancellation_total, slot.given_up().cancellation_total)
        },
        slot.stage is None ==> slot.given_up() == slot,
{
}

/// Once the connection or the driver is gone, every request for a sample is told which, and
/// what came first counts.
pub proof fn lemma_end_answers_requests_for_samples(
    slot: SnapshotSlot,
    end: SnapshotEnd,
    later: SnapshotEnd,
    room: bool,
)
    requires
        slot.ended is None,
    ensures
        ({
            let over = slot.after(end).after(later);
            let told = if end == SnapshotEnd::ConnectionClosed {
                SnapshotOutcome::ConnectionClosed
            } else {
                SnapshotOutcome::DriverGone
            };
            &&& over.answer() == Some(told) && over.instant_answer(room) == Some(told)
            &&& over.requested(room) == over && over.taken().stage is None
            &&& over.sample_total == slot.sample_total
        }),
{
}

} // verus!
