//! The tables of streams stay in order over any number of turns.

use vstd::prelude::*;

use crate::conn_close::bumped;
use crate::driver::commands::{DriverState, H3Driver};
use crate::driver::desk::{DeskState, OpenWait, Opening, Serving};
use crate::driver::openings::{opening_prefix, waits_but};
use crate::driver::readiness::ready_but;
use crate::driver::session_ends::{refusals, teardown_answers, Teardown};
use crate::driver::steady::{
    lemma_datagram_read_requested_is_steady, lemma_datagram_send_requested_is_steady,
    lemma_datagrams_settled_is_steady, lemma_lease_write_requested_is_steady,
    lemma_max_datagram_requested_is_steady, lemma_notices_seen_is_steady,
    lemma_opening_abandoned_is_steady, lemma_opening_dropped_is_steady,
    lemma_opening_failed_is_steady, lemma_put_is_distinct, lemma_read_requested_is_steady,
    lemma_ready_requested_is_steady, lemma_ready_settled_is_steady,
    lemma_receive_retirement_requested_is_steady, lemma_request_dropped_is_steady,
    lemma_reset_requested_is_steady, lemma_retry_wait_requested_is_steady,
    lemma_send_end_requested_is_steady, lemma_send_retirement_requested_is_steady,
    lemma_session_end_requested_is_steady, lemma_sessions_settled_is_steady,
    lemma_stats_requested_is_steady, lemma_stop_requested_is_steady,
    lemma_write_requested_is_steady,
};
use crate::driver::tables::{
    lemma_commanding_is_tidy, lemma_reading_is_tidy, lemma_writing_is_tidy,
};
use crate::peer_log::direction_of;
use crate::pipe_config::DriverPipe;
use crate::settings::Http3Settings;
use crate::transport::Role;
use crate::wt::requests::{answer_taken, Answer, Queued, WebTransportOpenStreamOutcome};
use crate::wt::types::WebTransportSelectionError;
use crate::wt::waiters::{without_op, WaitState};

verus! {

proof fn lemma_opening_tried_is_tidy(state: Serving, opening: Opening)
    requires
        state.is_tidy(),
    ensures
        state.opening_tried(opening).is_tidy(),
{
    broadcast use {lemma_opening_failed_is_steady, lemma_put_is_distinct};

    reveal(Serving::opening_tried);
    reveal(Serving::opening_committed);
    reveal(Serving::opening_done);
    let rest = opening_prefix(opening).skip(opening.written as int);
    let sent = Serving { core: state.core.raw_sent(opening.stream_id, rest, false), ..state };
    let tried = Serving { desk: DeskState { commit_fault: None, ..sent.desk }, ..sent };
    assert(state.steady_to(sent));
    assert(sent.steady_to(tried));
    assert(state.steady_to(state.opening_failed(opening)));
    assert(sent.steady_to(sent.opening_failed(opening)));
    assert(tried.steady_to(tried.opening_failed(opening)));
}

proof fn lemma_openings_pumped_is_tidy(state: Serving, list: Seq<Opening>, from: int)
    requires
        0 <= from,
        state.is_tidy(),
    ensures
        state.openings_pumped(list, from).is_tidy(),
    decreases list.len() - from,
{
    if from < list.len() && state.desk.left > 0 {
        lemma_opening_tried_is_tidy(state.worked(), list[from]);
        let next = state.worked().opening_tried(list[from]);
        lemma_openings_pumped_is_tidy(next, list, from + 1);
    }
}

proof fn lemma_waits_tried_is_tidy(state: Serving, list: Seq<OpenWait>, from: int)
    requires
        0 <= from,
        state.is_tidy(),
    ensures
        state.waits_tried(list, from).is_tidy(),
    decreases list.len() - from,
{
    if from < list.len() {
        reveal(Serving::opening_begun);
        let wait = list[from];
        let begun = state.worked().opening_begun(wait.op, wait.session_id, wait.direction);
        let taken = Serving {
            desk: DeskState {
                open_work_total: bumped(begun.desk.open_work_total),
                ..begun.desk
            },
            ..begun
        };
        lemma_waits_tried_is_tidy(taken, list, from + 1);
        let kept = Serving {
            desk: DeskState { waits: state.desk.waits.push(wait), ..state.desk },
            ..state
        };
        lemma_waits_tried_is_tidy(kept, list, from + 1);
    }
}

proof fn lemma_openings_abandoned_is_tidy(
    state: Serving,
    list: Seq<Opening>,
    op: u64,
    from: int,
)
    requires
        0 <= from,
        state.is_tidy(),
    ensures
        state.openings_abandoned(list, op, from).is_tidy(),
    decreases list.len() - from,
{
    broadcast use lemma_opening_abandoned_is_steady;

    if from < list.len() {
        let next = state.opening_abandoned(list[from]);
        assert(state.steady_to(next));
        lemma_openings_abandoned_is_tidy(next, list, op, from + 1);
        lemma_openings_abandoned_is_tidy(state.opening_kept(list[from]), list, op, from + 1);
    }
}

proof fn lemma_ops_cancelled_is_tidy(state: Serving, ops: Seq<u64>, from: int)
    requires
        0 <= from,
        state.is_tidy(),
    ensures
        state.ops_cancelled(ops, from).is_tidy(),
    decreases ops.len() - from,
{
    if from < ops.len() {
        let op = ops[from];
        let start = Serving {
            desk: DeskState {
                endings: state.desk.endings.cancelled(op),
                session_waits: WaitState {
                    list: without_op(state.desk.session_waits.list, op),
                    ..state.desk.session_waits
                },
                ready_waits: ready_but(state.desk.ready_waits, op),
                answers: answer_taken(state.desk.answers, op),
                waits: waits_but(state.desk.waits, op),
                openings: Seq::empty(),
                ..state.desk
            },
            ..state
        };
        reveal(Serving::op_cancelled);
        lemma_openings_abandoned_is_tidy(start, state.desk.openings, op, 0);
        lemma_ops_cancelled_is_tidy(state.op_cancelled(op), ops, from + 1);
    }
}

proof fn lemma_openings_refused_is_tidy(
    state: Serving,
    list: Seq<Opening>,
    error: WebTransportSelectionError,
    from: int,
)
    requires
        0 <= from,
        state.is_tidy(),
    ensures
        state.openings_refused(list, error, from).is_tidy(),
    decreases list.len() - from,
{
    broadcast use lemma_opening_dropped_is_steady;

    if from < list.len() {
        let dropped = state.opening_dropped(list[from]);
        assert(state.steady_to(dropped));
        let next = dropped.answered(
            list[from].op,
            Answer::Open(WebTransportOpenStreamOutcome::Rejected(error)),
        );
        assert(next.is_tidy());
        lemma_openings_refused_is_tidy(next, list, error, from + 1);
    }
}

proof fn lemma_locals_released_is_tidy(state: Serving, list: Seq<u64>, from: int)
    requires
        0 <= from,
        state.is_tidy(),
    ensures
        state.locals_released(list, from).is_tidy(),
    decreases list.len() - from,
{
    if from < list.len() {
        let next = Serving {
            core: state.core.stream_released(direction_of(list[from])),
            ..state
        };
        lemma_locals_released_is_tidy(next, list, from + 1);
    }
}

proof fn lemma_streams_settled_is_tidy(state: Serving)
    requires
        state.is_tidy(),
    ensures
        state.streams_settled().is_tidy(),
{
    reveal(Serving::streams_settled);
    reveal(Serving::opens_refused);
    reveal(Serving::streams_left);
    if state.desk.serving is Some && state.selection(state.desk.serving->Some_0) is Some {
        let session_id = state.desk.serving->Some_0;
        let error = state.selection(session_id)->Some_0;
        let told = if state.closed_here(session_id) {
            WebTransportSelectionError::ClosingSession
        } else {
            error
        };
        let start = Serving {
            desk: DeskState {
                waits: Seq::empty(),
                openings: Seq::empty(),
                begun: Seq::empty(),
                answers: refusals(state.desk.answers, state.desk.waits, told),
                ..state.desk
            },
            ..state
        };
        lemma_openings_refused_is_tidy(start, state.desk.openings + state.desk.begun, told, 0);
        let refused = state.opens_refused(told);
        let left = Serving {
            desk: DeskState {
                answers: teardown_answers(
                    refused.desk.answers,
                    refused.desk.endings.waiters.list,
                    Teardown::Session,
                    session_id,
                ),
                endings: refused.desk.endings.cleared(),
                forgotten: Seq::empty(),
                locals: Seq::empty(),
                serving: None,
                ..refused.desk
            },
            ..refused
        };
        lemma_locals_released_is_tidy(left, refused.desk.locals, 0);
    }
}

proof fn lemma_request_handled_is_tidy(state: Serving, item: Queued, queued: nat, capacity: nat)
    requires
        state.is_tidy(),
    ensures
        state.request_handled(item, queued, capacity).is_tidy(),
{
    broadcast use {
        lemma_datagram_read_requested_is_steady,
        lemma_datagram_send_requested_is_steady,
        lemma_lease_write_requested_is_steady,
        lemma_max_datagram_requested_is_steady,
        lemma_read_requested_is_steady,
        lemma_ready_requested_is_steady,
        lemma_receive_retirement_requested_is_steady,
        lemma_request_dropped_is_steady,
        lemma_reset_requested_is_steady,
        lemma_retry_wait_requested_is_steady,
        lemma_send_end_requested_is_steady,
        lemma_send_retirement_requested_is_steady,
        lemma_session_end_requested_is_steady,
        lemma_stats_requested_is_steady,
        lemma_stop_requested_is_steady,
        lemma_write_requested_is_steady,
    };

    reveal(Serving::request_handled);
    let after = state.request_handled(item, queued, capacity);
    if !state.desk.cancelled.contains(item.op) && item.request is Open {
        reveal(Serving::open_requested);
        reveal(Serving::opening_begun);
    } else {
        assert(state.steady_to(after));
    }
}

proof fn lemma_requests_handled_is_tidy(
    state: Serving,
    list: Seq<Queued>,
    capacity: nat,
    from: int,
)
    requires
        0 <= from,
        state.is_tidy(),
    ensures
        state.requests_handled(list, capacity, from).is_tidy(),
    decreases list.len() - from,
{
    if from < list.len() && state.desk.left > 0 {
        let queued = (list.len() - from - 1) as nat;
        lemma_request_handled_is_tidy(state.worked(), list[from], queued, capacity);
        lemma_requests_handled_is_tidy(
            state.worked().request_handled(list[from], queued, capacity),
            list,
            capacity,
            from + 1,
        );
    }
}

proof fn lemma_served_is_tidy(state: Serving, list: Seq<Queued>, capacity: nat)
    requires
        state.is_tidy(),
    ensures
        state.served(list, capacity).is_tidy(),
{
    broadcast use {
        lemma_notices_seen_is_steady,
        lemma_datagrams_settled_is_steady,
        lemma_sessions_settled_is_steady,
        lemma_ready_settled_is_steady,
    };

    reveal(Serving::served);
    reveal(Serving::turn_begun);
    let fresh = Serving {
        desk: DeskState { left: state.desk.work_per_turn, ..state.desk },
        ..state
    };
    lemma_ops_cancelled_is_tidy(fresh, fresh.desk.cancelled, 0);
    let a = fresh.ops_cancelled(fresh.desk.cancelled, 0);
    let b = a.notices_seen();
    assert(a.steady_to(b));
    lemma_streams_settled_is_tidy(b);
    let c = b.streams_settled();
    let d = c.datagrams_settled();
    assert(c.steady_to(d));
    let e = d.sessions_settled();
    assert(d.steady_to(e));
    let f = e.ready_settled();
    assert(e.steady_to(f));
    let woken = f.waits_woken();
    assert(woken.is_tidy()) by {
        reveal(Serving::waits_woken);
        let start = Serving { desk: DeskState { waits: Seq::empty(), ..f.desk }, ..f };
        lemma_waits_tried_is_tidy(start, f.desk.waits, 0);
    }
    let begun = woken.openings_advanced();
    assert(begun.is_tidy()) by {
        reveal(Serving::openings_advanced);
        let start = Serving { desk: DeskState { openings: Seq::empty(), ..woken.desk }, ..woken };
        lemma_openings_pumped_is_tidy(start, woken.desk.openings, 0);
    }
    assert(begun == state.turn_begun());
    lemma_requests_handled_is_tidy(begun, list, capacity, 0);
    let handled = begun.requests_handled(list, capacity, 0);
    let advanced = handled.begun_advanced();
    assert(advanced.is_tidy()) by {
        reveal(Serving::begun_advanced);
        let start = Serving { desk: DeskState { begun: Seq::empty(), ..handled.desk }, ..handled };
        lemma_openings_pumped_is_tidy(start, handled.desk.begun, 0);
    }
    assert(advanced.steady_to(state.served(list, capacity)));
}

/// A driver begins with its tables in order.
pub proof fn lemma_fresh_driver_is_tidy(role: Role, pipe: DriverPipe, settings: Http3Settings)
    ensures
        H3Driver::fresh(role, pipe, settings).serving().is_tidy(),
{
}

/// A turn leaves the tables in order: no stream of the session has two rows, and none has
/// two ends.
pub proof fn lemma_turn_is_tidy(state: DriverState)
    requires
        state.serving().is_tidy(),
    ensures
        state.turned().serving().is_tidy(),
{
    broadcast use {
        lemma_datagrams_settled_is_steady,
        lemma_sessions_settled_is_steady,
        lemma_ready_settled_is_steady,
    };

    reveal(DriverState::turned);
    reveal(DriverState::commands_processed);
    reveal(DriverState::served);
    let read = state.with_core(state.core.read());
    lemma_reading_is_tidy(state.core);
    if read.core.failed is None {
        let commands = read.commands.items;
        lemma_commanding_is_tidy(read.core, commands);
        let ordered = Serving {
            core: read.core.caught_up().commanded_from(commands, 0),
            ..read.serving()
        };
        lemma_streams_settled_is_tidy(ordered);
        let a = ordered.streams_settled();
        let b = a.datagrams_settled();
        assert(a.steady_to(b));
        let c = b.sessions_settled();
        assert(b.steady_to(c));
        let d = c.ready_settled();
        assert(c.steady_to(d));
        let commanded = read.commands_processed();
        assert(commanded.serving() == d);
        lemma_writing_is_tidy(commanded.core);
        let written = commanded.with_core(commanded.core.written());
        lemma_served_is_tidy(written.serving(), written.requests.items, written.requests.capacity);
    }
}

} // verus!
