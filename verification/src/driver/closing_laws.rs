//! What is left when the connection has ended.

use vstd::prelude::*;

use crate::conn_close::{H3ConnectionError, H3_EXCESSIVE_LOAD};
use crate::driver::books::{books_agree, lemma_ledger_is_exact};
use crate::driver::commands::DriverState;
use crate::driver::desk::{DeskState, Opening, Serving};
use crate::driver::reads::lemma_flush_keeps_session;
use crate::driver::request_laws::lemma_requests_closed_answers;
use crate::driver::session_ends::{refusals, teardown_answers, Teardown};
use crate::driver::state::CoreState;
use crate::peer_log::direction_of;
use crate::wt::requests::{Answer, Queued, WebTransportOpenStreamOutcome};
use crate::wt::retention::WebTransportRetentionStats;
use crate::wt::snapshot::SnapshotEnd;
use crate::wt::types::WebTransportSelectionError;
use crate::wt::waiters::{WaitState, Waiter};

verus! {

/// Whether a driver knows of no session and keeps neither datagrams nor bytes of
/// frameless streams.
pub open spec fn is_bare(core: CoreState) -> bool {
    &&& core.session matches Some(s) ==> s.session is None && s.streams.len() == 0
    &&& core.datagrams.queue.len() == 0
    &&& core.raw.sent.len() == 0
}

/// Whether nothing is kept alive for sessions but leases, what the transport has to
/// send, and a sample that nobody took.
pub open spec fn keeps_only_leases(stats: WebTransportRetentionStats) -> bool {
    &&& stats.sessions == 0
    &&& stats.associated_streams == 0
    &&& stats.provisional_streams == 0
    &&& stats.stream_open_waiters == 0
    &&& stats.session_terminal_waiters == 0
    &&& stats.waiters == 0
    &&& stats.send_terminal_waiters == 0
    &&& stats.send_terminal_states == 0
    &&& stats.send_terminal_overloaded_sessions == 0
    &&& stats.receive_terminal_states == 0
    &&& stats.receive_terminal_waiters == 0
    &&& stats.pending_datagrams == 0
    &&& stats.pending_datagram_payload_bytes == 0
    &&& stats.pending_datagram_allocation_bytes == 0
    &&& stats.transport_stream_receive_bytes == 0
    &&& stats.queued_commands == 0
    &&& stats.queued_command_payload_bytes_upper_bound == 0
}

proof fn lemma_ended_core_is_bare(state: CoreState, result: Result<(), H3ConnectionError>)
    ensures
        is_bare(state.connection_ended(result)),
{
    reveal(CoreState::connection_ended);
    let closed = CoreState {
        transport: if result == Err::<(), _>(H3ConnectionError::EventQueueOverloaded) {
            state.transport.closed(true, H3_EXCESSIVE_LOAD)
        } else {
            state.transport
        },
        session: match state.session {
            Some(s) => Some(s.disconnected()),
            None => None,
        },
        ..state
    };
    lemma_flush_keeps_session(closed);
}

proof fn lemma_openings_refused_keeps_rest(
    state: Serving,
    list: Seq<Opening>,
    error: WebTransportSelectionError,
    from: int,
)
    ensures
        ({
            let after = state.openings_refused(list, error, from);
            &&& after.desk == (DeskState { answers: after.desk.answers, ..state.desk })
            &&& after.core.session == state.core.session
            &&& after.core.datagrams == state.core.datagrams
            &&& after.core.raw == state.core.raw
        }),
    decreases list.len() - from,
{
    if from < list.len() {
        reveal(Serving::opening_dropped);
        let next = state.opening_dropped(list[from]).answered(
            list[from].op,
            Answer::Open(WebTransportOpenStreamOutcome::Rejected(error)),
        );
        lemma_openings_refused_keeps_rest(next, list, error, from + 1);
    }
}

proof fn lemma_locals_released_keeps_rest(state: Serving, list: Seq<u64>, from: int)
    ensures
        state.locals_released(list, from).desk == state.desk,
        state.locals_released(list, from).core.session == state.core.session,
        state.locals_released(list, from).core.datagrams == state.core.datagrams,
        state.locals_released(list, from).core.raw == state.core.raw,
    decreases list.len() - from,
{
    if from < list.len() {
        let next = Serving {
            core: state.core.stream_released(direction_of(list[from])),
            ..state
        };
        lemma_locals_released_keeps_rest(next, list, from + 1);
    }
}

proof fn lemma_session_waits_are_over(state: Serving, list: Seq<Waiter>, from: int)
    requires
        is_bare(state.core),
    ensures
        ({
            let after = state.session_waits_tried(list, from);
            &&& after.desk == (DeskState { answers: after.desk.answers, ..state.desk })
            &&& after.core == state.core
        }),
    decreases list.len() - from,
{
    if from < list.len() {
        let next = state.answered(
            list[from].op,
            Answer::SessionEnd(state.session_end(list[from].key)),
        );
        lemma_session_waits_are_over(next, list, from + 1);
    }
}

/// The fields that closing all requests leaves empty.
pub open spec fn is_cleared(desk: DeskState) -> bool {
    &&& desk.waits.len() == 0
    &&& desk.openings.len() == 0
    &&& desk.begun.len() == 0
    &&& desk.ready_waits.len() == 0
    &&& desk.session_waits.list.len() == 0
    &&& desk.endings.rows.len() == 0
    &&& desk.endings.waiters.list.len() == 0
}

proof fn lemma_streams_left_clears(state: Serving, session_id: u64)
    ensures
        ({
            let after = state.streams_left(session_id, Teardown::Connection);
            &&& after.desk.endings == state.desk.endings.cleared()
            &&& after.desk.waits == state.desk.waits
            &&& after.desk.openings == state.desk.openings
            &&& after.desk.begun == state.desk.begun
            &&& after.desk.ready_waits == state.desk.ready_waits
            &&& after.core.session == state.core.session
            &&& after.core.datagrams == state.core.datagrams
            &&& after.core.raw == state.core.raw
        }),
{
    reveal(Serving::streams_left);
    let cleared = Serving {
        desk: DeskState {
            answers: teardown_answers(
                state.desk.answers,
                state.desk.endings.waiters.list,
                Teardown::Connection,
                session_id,
            ),
            endings: state.desk.endings.cleared(),
            forgotten: Seq::empty(),
            locals: Seq::empty(),
            serving: None,
            ..state.desk
        },
        ..state
    };
    lemma_locals_released_keeps_rest(cleared, state.desk.locals, 0);
}

proof fn lemma_closing_clears(state: Serving, list: Seq<Queued>)
    requires
        is_bare(state.core),
    ensures
        is_bare(state.all_closed(list).core),
        is_cleared(state.all_closed(list).desk),
{
    reveal(Serving::all_closed);
    reveal(Serving::opens_refused);
    reveal(Serving::sessions_settled);
    let error = WebTransportSelectionError::ConnectionClosed;
    lemma_requests_closed_answers(state, list, 0, 0);
    let ready = state.requests_closed(list, 0).ready_refused();
    let emptied = Serving {
        desk: DeskState {
            waits: Seq::empty(),
            openings: Seq::empty(),
            begun: Seq::empty(),
            answers: refusals(ready.desk.answers, ready.desk.waits, error),
            ..ready.desk
        },
        ..ready
    };
    lemma_openings_refused_keeps_rest(emptied, ready.desk.openings + ready.desk.begun, error, 0);
    let refused = ready.opens_refused(error);
    let left = match refused.desk.serving {
        Some(session_id) => refused.streams_left(session_id, Teardown::Connection),
        None => refused.with_endings(refused.desk.endings.cleared()),
    };
    if let Some(session_id) = refused.desk.serving {
        lemma_streams_left_clears(refused, session_id);
    }
    let begun = Serving {
        desk: DeskState {
            session_waits: WaitState { list: Seq::empty(), ..left.desk.session_waits },
            ..left.desk
        },
        ..left
    };
    lemma_session_waits_are_over(begun, left.desk.session_waits.list, 0);
}

/// When the connection has ended, nothing is kept alive for sessions any more but
/// for leases, which are with their owners.
pub proof fn lemma_connection_end_keeps_only_leases(
    state: DriverState,
    result: Result<(), H3ConnectionError>,
)
    ensures
        keeps_only_leases(state.connection_ended(result).retained()),
        is_cleared(state.connection_ended(result).desk),
        is_bare(state.connection_ended(result).core),
{
    reveal(DriverState::connection_ended);
    reveal(DriverState::requests_ended);
    reveal(Serving::retained);
    lemma_ended_core_is_bare(state.core, result);
    let ended = state.with_core(state.core.connection_ended(result));
    lemma_closing_clears(ended.serving(), state.requests.items);
    let last = state.connection_ended(result);
    assert(last == ended.requests_ended(SnapshotEnd::ConnectionClosed));
    assert(is_cleared(last.desk));
    assert(is_bare(last.core));
}

/// Once the connection has ended and every lease is back with its owner, the tables
/// about sessions are empty.
pub proof fn lemma_returned_leases_leave_nothing(
    state: DriverState,
    result: Result<(), H3ConnectionError>,
)
    requires
        ({
            let desk = state.connection_ended(result).desk;
            &&& books_agree(desk.ledger.leases, desk.ledger.retained, desk.writes, desk.next_op)
            &&& desk.next_op < u64::MAX
            &&& desk.ledger.leases == 0
        }),
    ensures
        ({
            let last = state.connection_ended(result).retained();
            &&& keeps_only_leases(last)
            &&& last.write_leases == 0
            &&& last.write_lease_retained_bytes == 0
            &&& last.metadata_index_entries == 0
        }),
{
    let ended = state.connection_ended(result);
    lemma_connection_end_keeps_only_leases(state, result);
    lemma_ledger_is_exact(ended.desk.ledger, ended.desk.writes, ended.desk.next_op);
    reveal(Serving::retained);
}

} // verus!
