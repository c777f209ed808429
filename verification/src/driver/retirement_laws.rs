//! A direction that the application retired stays retired, over any number of turns.

use vstd::prelude::*;

use crate::conn_close::bumped;
use crate::driver::calm::{
    lemma_datagrams_settled_is_calm, lemma_notices_seen_is_calm, lemma_ready_settled_is_calm,
    lemma_sessions_settled_is_calm, opened_as,
};
use crate::driver::commands::DriverState;
use crate::driver::counts::{lemma_commanding_grows, lemma_reading_grows, lemma_writing_grows};
use crate::driver::desk::{DeskState, OpenWait, Opening, ReadyWait, Serving};
use crate::driver::helper::HelperState;
use crate::driver::openings::{opening_prefix, waits_but};
use crate::driver::order::{
    lemma_advanced_bears_out, lemma_calm_bears_out, lemma_core_is_watched,
    lemma_ops_cancelled_is_watched, lemma_position_is_not_negative,
    lemma_requests_handled_is_watched, lemma_turn_is_watched, lemma_waits_woken_is_watched,
    watched, Watch,
};
use crate::driver::order_laws::{lemma_steps_keep_order, lemma_turn_keeps_order};
use crate::driver::readiness::ready_but;
use crate::driver::state::{CoreState, Notice};
use crate::driver::steady::{
    knows_stream, lemma_datagram_read_requested_is_steady, lemma_datagram_send_requested_is_steady,
    lemma_datagrams_settled_is_steady, lemma_lease_write_requested_is_steady,
    lemma_max_datagram_requested_is_steady, lemma_notices_seen_is_steady,
    lemma_opening_abandoned_is_steady, lemma_opening_failed_is_steady, lemma_put_is_distinct,
    lemma_put_row, lemma_read_requested_is_steady, lemma_ready_requested_is_steady,
    lemma_ready_settled_is_steady, lemma_receive_retirement_requested_is_steady,
    lemma_request_dropped_is_steady, lemma_reset_requested_is_steady,
    lemma_retry_wait_requested_is_steady, lemma_send_end_requested_is_steady,
    lemma_send_retirement_requested_is_steady, lemma_session_end_requested_is_steady,
    lemma_sessions_settled_is_steady, lemma_stats_requested_is_steady,
    lemma_stop_requested_is_steady, lemma_stream_checked_is_steady,
    lemma_write_requested_is_steady,
};
use crate::driver::tables::{
    lemma_commanding_is_tidy, lemma_reading_is_tidy, lemma_writing_is_tidy,
};
use crate::transport::TransportState;
use crate::wire::stream_prefix::WebTransportStreamDirection;
use crate::wt::requests::{answer_position, answer_taken, Answer, Queued, WebTransportRequest};
use crate::wt::stream_ends::{SendFact, WebTransportStreamSendTerminalOutcome};
use crate::wt::waiters::{ops_under, without_op, WaitState, Waiter};

verus! {

impl Serving {
    /// Whether a stream of a session that can be used is retired, or not known.
    pub open spec fn has_retired(self, session_id: u64, stream_id: u64) -> bool {
        &&& self.selection(session_id) is None
        &&& self.desk.serving matches Some(id) ==> id == session_id
        &&& self.is_tidy()
        &&& knows_stream(self.core.session, stream_id) ==> self.is_retired(stream_id)
    }
}

proof fn lemma_steady_has_retired(a: Serving, b: Serving, session_id: u64, stream_id: u64)
    requires
        a.has_retired(session_id, stream_id),
        a.steady_to(b),
    ensures
        b.has_retired(session_id, stream_id),
{
    assert(knows_stream(b.core.session, stream_id) ==> knows_stream(a.core.session, stream_id));
}

proof fn lemma_opening_tried_has_retired(
    state: Serving,
    opening: Opening,
    session_id: u64,
    stream_id: u64,
)
    requires
        state.has_retired(session_id, stream_id),
        opening.stream_id != stream_id,
    ensures
        state.opening_tried(opening).has_retired(session_id, stream_id),
{
    broadcast use {lemma_opening_failed_is_steady, lemma_put_is_distinct, lemma_put_row};

    reveal(Serving::opening_tried);
    reveal(Serving::opening_committed);
    reveal(Serving::opening_done);
    lemma_steady_has_retired(state, state.opening_failed(opening), session_id, stream_id);
    let rest = opening_prefix(opening).skip(opening.written as int);
    let sent = Serving { core: state.core.raw_sent(opening.stream_id, rest, false), ..state };
    lemma_steady_has_retired(state, sent, session_id, stream_id);
    let tried = Serving { desk: DeskState { commit_fault: None, ..sent.desk }, ..sent };
    lemma_steady_has_retired(sent, tried, session_id, stream_id);
    lemma_steady_has_retired(tried, tried.opening_failed(opening), session_id, stream_id);
    lemma_steady_has_retired(sent, sent.opening_failed(opening), session_id, stream_id);
}

proof fn lemma_openings_pumped_has_retired(
    state: Serving,
    list: Seq<Opening>,
    from: int,
    session_id: u64,
    stream_id: u64,
)
    requires
        0 <= from,
        state.has_retired(session_id, stream_id),
        forall|i: int| 0 <= i < list.len() ==> (#[trigger] list[i]).stream_id != stream_id,
    ensures
        state.openings_pumped(list, from).has_retired(session_id, stream_id),
    decreases list.len() - from,
{
    if from < list.len() && state.desk.left > 0 {
        lemma_opening_tried_has_retired(state.worked(), list[from], session_id, stream_id);
        lemma_openings_pumped_has_retired(
            state.worked().opening_tried(list[from]),
            list,
            from + 1,
            session_id,
            stream_id,
        );
    }
}

proof fn lemma_waits_tried_has_retired(
    state: Serving,
    list: Seq<OpenWait>,
    from: int,
    session_id: u64,
    stream_id: u64,
)
    requires
        0 <= from,
        state.has_retired(session_id, stream_id),
    ensures
        state.waits_tried(list, from).has_retired(session_id, stream_id),
    decreases list.len() - from,
{
    if from < list.len() {
        reveal(Serving::opening_begun);
        let wait = list[from];
        let begun = state.worked().opening_begun(wait.op, wait.session_id, wait.direction);
        let taken = Serving {
            desk: DeskState {
                open_work_total: bumped(begun.desk.open_work_total),
                ..begun.desk
            },
            ..begun
        };
        lemma_waits_tried_has_retired(taken, list, from + 1, session_id, stream_id);
        let kept = Serving {
            desk: DeskState { waits: state.desk.waits.push(wait), ..state.desk },
            ..state
        };
        lemma_waits_tried_has_retired(kept, list, from + 1, session_id, stream_id);
    }
}

proof fn lemma_openings_abandoned_has_retired(
    state: Serving,
    list: Seq<Opening>,
    op: u64,
    from: int,
    session_id: u64,
    stream_id: u64,
)
    requires
        0 <= from,
        state.has_retired(session_id, stream_id),
    ensures
        state.openings_abandoned(list, op, from).has_retired(session_id, stream_id),
    decreases list.len() - from,
{
    broadcast use lemma_opening_abandoned_is_steady;

    if from < list.len() {
        let next = state.opening_abandoned(list[from]);
        lemma_steady_has_retired(state, next, session_id, stream_id);
        lemma_openings_abandoned_has_retired(next, list, op, from + 1, session_id, stream_id);
        lemma_openings_abandoned_has_retired(
            state.opening_kept(list[from]),
            list,
            op,
            from + 1,
            session_id,
            stream_id,
        );
    }
}

proof fn lemma_ops_cancelled_has_retired(
    state: Serving,
    ops: Seq<u64>,
    from: int,
    session_id: u64,
    stream_id: u64,
)
    requires
        0 <= from,
        state.has_retired(session_id, stream_id),
    ensures
        state.ops_cancelled(ops, from).has_retired(session_id, stream_id),
    decreases ops.len() - from,
{
    if from < ops.len() {
        let op = ops[from];
        let start = Serving {
            desk: DeskState {
                endings: state.desk.endings.cancelled(op),
                session_waits: WaitState {
                    list: without_op(state.desk.session_waits.list, op),
                    ..state.desk.session_waits
                },
                ready_waits: ready_but(state.desk.ready_waits, op),
                answers: answer_taken(state.desk.answers, op),
                waits: waits_but(state.desk.waits, op),
                openings: Seq::empty(),
                ..state.desk
            },
            ..state
        };
        reveal(Serving::op_cancelled);
        lemma_openings_abandoned_has_retired(
            start,
            state.desk.openings,
            op,
            0,
            session_id,
            stream_id,
        );
        lemma_ops_cancelled_has_retired(
            state.op_cancelled(op),
            ops,
            from + 1,
            session_id,
            stream_id,
        );
    }
}

proof fn lemma_request_handled_has_retired(
    state: Serving,
    item: Queued,
    queued: nat,
    capacity: nat,
    session_id: u64,
    stream_id: u64,
)
    requires
        state.has_retired(session_id, stream_id),
    ensures
        state.request_handled(item, queued, capacity).has_retired(session_id, stream_id),
{
    broadcast use {
        lemma_datagram_read_requested_is_steady,
        lemma_datagram_send_requested_is_steady,
        lemma_lease_write_requested_is_steady,
        lemma_max_datagram_requested_is_steady,
        lemma_read_requested_is_steady,
        lemma_ready_requested_is_steady,
        lemma_receive_retirement_requested_is_steady,
        lemma_request_dropped_is_steady,
        lemma_reset_requested_is_steady,
        lemma_retry_wait_requested_is_steady,
        lemma_send_end_requested_is_steady,
        lemma_send_retirement_requested_is_steady,
        lemma_session_end_requested_is_steady,
        lemma_stats_requested_is_steady,
        lemma_stop_requested_is_steady,
        lemma_write_requested_is_steady,
    };

    reveal(Serving::request_handled);
    let after = state.request_handled(item, queued, capacity);
    if !state.desk.cancelled.contains(item.op) && item.request is Open {
        reveal(Serving::open_requested);
        reveal(Serving::opening_begun);
    } else {
        assert(state.steady_to(after));
        lemma_steady_has_retired(state, after, session_id, stream_id);
    }
}

proof fn lemma_requests_handled_has_retired(
    state: Serving,
    list: Seq<Queued>,
    capacity: nat,
    from: int,
    session_id: u64,
    stream_id: u64,
)
    requires
        0 <= from,
        state.has_retired(session_id, stream_id),
    ensures
        state.requests_handled(list, capacity, from).has_retired(session_id, stream_id),
    decreases list.len() - from,
{
    if from < list.len() && state.desk.left > 0 {
        let queued = (list.len() - from - 1) as nat;
        let worked = state.worked();
        lemma_request_handled_has_retired(
            worked,
            list[from],
            queued,
            capacity,
            session_id,
            stream_id,
        );
        lemma_requests_handled_has_retired(
            worked.request_handled(list[from], queued, capacity),
            list,
            capacity,
            from + 1,
            session_id,
            stream_id,
        );
    }
}

/// The claim that nobody is about to open the stream `stream_id`.
pub open spec fn not_opening(state: DriverState, stream_id: u64) -> Watch {
    let next = state.desk.next_op;
    Watch {
        start: state.core.transport,
        op: next,
        direction: WebTransportStreamDirection::Bidi,
        known: |op: u64| op < next,
        good: |op: u64, id: u64| id != stream_id,
        next_op: next,
    }
}

proof fn lemma_served_has_retired(
    state: Serving,
    list: Seq<Queued>,
    capacity: nat,
    session_id: u64,
    stream_id: u64,
    watch: Watch,
)
    requires
        state.has_retired(session_id, stream_id),
        watched(state, watch),
        watch.all_ask_well(list),
        forall|op: u64, id: u64| #[trigger] (watch.good)(op, id) ==> id != stream_id,
    ensures
        state.served(list, capacity).has_retired(session_id, stream_id),
{
    broadcast use {
        lemma_notices_seen_is_calm,
        lemma_datagrams_settled_is_calm,
        lemma_sessions_settled_is_calm,
        lemma_ready_settled_is_calm,
        lemma_notices_seen_is_steady,
        lemma_datagrams_settled_is_steady,
        lemma_sessions_settled_is_steady,
        lemma_ready_settled_is_steady,
    };

    reveal(Serving::served);
    reveal(Serving::turn_begun);
    reveal(Serving::streams_settled);
    let fresh = Serving {
        desk: DeskState { left: state.desk.work_per_turn, ..state.desk },
        ..state
    };
    assert(fresh.bears_out(watch));
    lemma_ops_cancelled_has_retired(fresh, fresh.desk.cancelled, 0, session_id, stream_id);
    lemma_ops_cancelled_is_watched(fresh, fresh.desk.cancelled, 0, watch);
    let a = fresh.ops_cancelled(fresh.desk.cancelled, 0);
    let b = a.notices_seen();
    lemma_steady_has_retired(a, b, session_id, stream_id);
    lemma_calm_bears_out(a, b, watch);
    assert(b.streams_settled() == b);
    let d = b.datagrams_settled();
    lemma_steady_has_retired(b, d, session_id, stream_id);
    lemma_calm_bears_out(b, d, watch);
    let e = d.sessions_settled();
    lemma_steady_has_retired(d, e, session_id, stream_id);
    lemma_calm_bears_out(d, e, watch);
    let f = e.ready_settled();
    lemma_steady_has_retired(e, f, session_id, stream_id);
    lemma_calm_bears_out(e, f, watch);
    lemma_waits_woken_is_watched(f, watch);
    let woken = f.waits_woken();
    assert(woken.has_retired(session_id, stream_id)) by {
        reveal(Serving::waits_woken);
        let start = Serving { desk: DeskState { waits: Seq::empty(), ..f.desk }, ..f };
        lemma_waits_tried_has_retired(start, f.desk.waits, 0, session_id, stream_id);
    }
    lemma_advanced_bears_out(woken, watch);
    let begun = woken.openings_advanced();
    assert(begun.has_retired(session_id, stream_id)) by {
        reveal(Serving::openings_advanced);
        let start = Serving { desk: DeskState { openings: Seq::empty(), ..woken.desk }, ..woken };
        lemma_openings_pumped_has_retired(start, woken.desk.openings, 0, session_id, stream_id);
    }
    assert(begun == state.turn_begun());
    lemma_requests_handled_has_retired(begun, list, capacity, 0, session_id, stream_id);
    lemma_requests_handled_is_watched(begun, list, capacity, 0, watch);
    let handled = begun.requests_handled(list, capacity, 0);
    let advanced = handled.begun_advanced();
    assert(advanced.has_retired(session_id, stream_id)) by {
        reveal(Serving::begun_advanced);
        let start = Serving { desk: DeskState { begun: Seq::empty(), ..handled.desk }, ..handled };
        lemma_openings_pumped_has_retired(start, handled.desk.begun, 0, session_id, stream_id);
    }
    let after = state.served(list, capacity);
    assert(advanced.steady_to(after));
    lemma_steady_has_retired(advanced, after, session_id, stream_id);
}

impl DriverState {
    /// The state in a turn when the commands were carried out and what they decided was
    /// not answered yet.
    pub open spec fn mid_turn(self) -> Serving {
        let read = self.with_core(self.core.read());
        Serving {
            core: read.core.caught_up().commanded_from(read.commands.items, 0),
            ..read.serving()
        }
    }

    /// The state in a turn when everything was written and the requests of the
    /// application have not had their share.
    pub open spec fn late_turn(self) -> Serving {
        let commanded = self.with_core(self.core.read()).commands_processed();
        commanded.with_core(commanded.core.written()).serving()
    }

    /// Whether a session can be used throughout the next turn.
    pub open spec fn session_lasts(self, session_id: u64) -> bool {
        &&& self.mid_turn().selection(session_id) is None
        &&& self.late_turn().selection(session_id) is None
    }

    /// Whether a stream is retired for good: the application wants to hear no more of its
    /// direction of it, the stream was opened and whoever asked for it has the answer,
    /// and the requests that are served are for its session.
    pub open spec fn retired_for_good(self, session_id: u64, stream_id: u64) -> bool {
        &&& self.orderly()
        &&& self.serving().is_tidy()
        &&& self.core.transport.has_opened(stream_id) || stream_id % 2
            != self.core.transport.side()
        &&& self.serving().bears_out(not_opening(self, stream_id))
        &&& self.serving().is_retired(stream_id)
        &&& self.desk.serving matches Some(id) ==> id == session_id
    }

    /// Whether a session can be used throughout `turns` turns, and a stream of it is
    /// known after each of them.
    pub open spec fn stream_lasts(self, session_id: u64, stream_id: u64, turns: nat) -> bool
        decreases turns,
    {
        turns > 0 ==> {
            &&& self.session_lasts(session_id)
            &&& knows_stream(self.turned().core.session, stream_id)
            &&& self.turned().stream_lasts(session_id, stream_id, (turns - 1) as nat)
        }
    }
}

proof fn lemma_turn_has_retired(state: DriverState, session_id: u64, stream_id: u64)
    requires
        state.retired_for_good(session_id, stream_id),
        state.session_lasts(session_id),
        knows_stream(state.turned().core.session, stream_id),
    ensures
        state.turned().retired_for_good(session_id, stream_id),
{
    broadcast use {
        lemma_datagrams_settled_is_calm,
        lemma_sessions_settled_is_calm,
        lemma_ready_settled_is_calm,
        lemma_datagrams_settled_is_steady,
        lemma_sessions_settled_is_steady,
        lemma_ready_settled_is_steady,
    };

    let watch = not_opening(state, stream_id);
    assert(state.watched(watch));
    lemma_turn_keeps_order(state);
    lemma_turn_is_watched(state, watch);
    reveal(DriverState::turned);
    reveal(DriverState::commands_processed);
    reveal(DriverState::served);
    reveal(Serving::streams_settled);
    let read = state.with_core(state.core.read());
    lemma_reading_grows(state.core);
    lemma_reading_is_tidy(state.core);
    lemma_core_is_watched(state.serving(), read.serving(), watch);
    if read.core.failed is None {
        let commands = read.commands.items;
        lemma_commanding_grows(read.core, commands);
        lemma_commanding_is_tidy(read.core, commands);
        let a = state.mid_turn();
        lemma_core_is_watched(read.serving(), a, watch);
        assert(a.streams_settled() == a);
        let b = a.datagrams_settled();
        lemma_calm_bears_out(a, b, watch);
        lemma_steady_has_retired(a, b, session_id, stream_id);
        let c = b.sessions_settled();
        lemma_calm_bears_out(b, c, watch);
        lemma_steady_has_retired(b, c, session_id, stream_id);
        let d = c.ready_settled();
        lemma_calm_bears_out(c, d, watch);
        lemma_steady_has_retired(c, d, session_id, stream_id);
        lemma_settling_keeps_endings(a);
        let commanded = read.commands_processed();
        assert(commanded.serving() == d);
        lemma_writing_grows(commanded.core);
        lemma_writing_is_tidy(commanded.core);
        let written = commanded.with_core(commanded.core.written());
        assert(written.serving() == state.late_turn());
        lemma_core_is_watched(d, written.serving(), watch);
        lemma_served_has_retired(
            written.serving(),
            written.requests.items,
            written.requests.capacity,
            session_id,
            stream_id,
            watch,
        );
    }
    let after = state.turned();
    assert(after.serving().bears_out(watch));
    assert(after.serving().bears_out(not_opening(after, stream_id)));
}

/// The settling of a session that is not over leaves the ends of its streams alone.
proof fn lemma_settling_keeps_endings(state: Serving)
    ensures
        state.datagrams_settled().sessions_settled().ready_settled().desk.endings
            == state.desk.endings,
{
    reveal(Serving::datagrams_settled);
    reveal(Serving::sessions_settled);
    reveal(Serving::ready_settled);
    let a = state.datagrams_settled();
    let start = Serving {
        desk: DeskState {
            session_waits: WaitState { list: Seq::empty(), ..a.desk.session_waits },
            ..a.desk
        },
        ..a
    };
    lemma_session_waits_keep_endings(start, a.desk.session_waits.list, 0);
    let b = a.sessions_settled();
    let none = Serving { desk: DeskState { ready_waits: Seq::empty(), ..b.desk }, ..b };
    lemma_ready_waits_keep_endings(none, b.desk.ready_waits, 0);
}

proof fn lemma_session_waits_keep_endings(
    state: Serving,
    list: Seq<Waiter>,
    from: int,
)
    ensures
        state.session_waits_tried(list, from).desk.endings == state.desk.endings,
    decreases list.len() - from,
{
    if from < list.len() {
        let kept = Serving {
            desk: DeskState {
                session_waits: WaitState {
                    list: state.desk.session_waits.list.push(list[from]),
                    ..state.desk.session_waits
                },
                ..state.desk
            },
            ..state
        };
        lemma_session_waits_keep_endings(kept, list, from + 1);
        let told = state.answered(
            list[from].op,
            Answer::SessionEnd(state.session_end(list[from].key)),
        );
        lemma_session_waits_keep_endings(told, list, from + 1);
    }
}

proof fn lemma_ready_waits_keep_endings(
    state: Serving,
    list: Seq<ReadyWait>,
    from: int,
)
    ensures
        state.all_ready_tried(list, from).desk.endings == state.desk.endings,
    decreases list.len() - from,
{
    if from < list.len() {
        lemma_ready_waits_keep_endings(state.ready_tried(list[from]), list, from + 1);
    }
}

/// Retiring a direction of a stream that can be used is answered with `Retired`, and the
/// direction is retired from then on, as long as the stream is known.
pub proof fn lemma_retiring_retires(state: Serving, op: u64, session_id: u64, stream_id: u64)
    requires
        state.is_tidy(),
        state.stream_selection(session_id, stream_id, true) is None,
    ensures
        ({
            let after = state.send_retirement_requested(op, session_id, stream_id);
            &&& after.desk.answers.last() == (
                op,
                Answer::SendEnd(
                    WebTransportStreamSendTerminalOutcome::Retired { session_id, stream_id },
                ),
            )
            &&& knows_stream(after.core.session, stream_id) ==> after.is_retired(stream_id)
        }),
{
    broadcast use {lemma_stream_checked_is_steady, lemma_put_row, lemma_put_is_distinct};

    reveal(Serving::send_retirement_requested);
    let outcome = WebTransportStreamSendTerminalOutcome::Retired { session_id, stream_id };
    let ops = ops_under(state.desk.endings.waiters.list, stream_id);
    let told = state.send_waiters_told(ops, outcome).with_endings(
        state.desk.endings.send_retired(stream_id),
    );
    assert(told.is_retired(stream_id));
    assert(told.is_tidy());
    assert(told.steady_to(told.stream_checked(stream_id)));
    let after = state.send_retirement_requested(op, session_id, stream_id);
    assert(after.core == told.stream_checked(stream_id).core);
}

/// A direction that the application retired stays retired, whatever the peer does and
/// however many turns go by, as long as the session lasts and the stream is known.
pub proof fn lemma_retirement_lasts(
    state: DriverState,
    session_id: u64,
    stream_id: u64,
    turns: nat,
)
    requires
        state.retired_for_good(session_id, stream_id),
        state.stream_lasts(session_id, stream_id, turns),
    ensures
        state.turned_times(turns).retired_for_good(session_id, stream_id),
    decreases turns,
{
    if turns > 0 {
        lemma_turn_has_retired(state, session_id, stream_id);
        lemma_retirement_lasts(state.turned(), session_id, stream_id, (turns - 1) as nat);
    }
}

/// What happens on the transport changes nothing.
proof fn lemma_moved_is_retired(
    state: DriverState,
    transport: TransportState,
    session_id: u64,
    stream_id: u64,
)
    requires
        state.retired_for_good(session_id, stream_id),
        transport.role == state.core.transport.role,
        transport.bidi_opened == state.core.transport.bidi_opened,
        transport.uni_opened == state.core.transport.uni_opened,
    ensures
        state.with_core(state.core.with_transport(transport)).retired_for_good(
            session_id,
            stream_id,
        ),
{
    let moved = state.with_core(state.core.with_transport(transport));
    assert(moved.watched(moved.order_watch()));
    assert(moved.serving().bears_out(not_opening(moved, stream_id)));
}

/// Nor does anything else that leaves the desk and the session alone.
proof fn lemma_calm_core_is_retired(
    a: DriverState,
    b: DriverState,
    session_id: u64,
    stream_id: u64,
)
    requires
        a.retired_for_good(session_id, stream_id),
        b.orderly(),
        b.desk == a.desk,
        b.core.session == a.core.session,
        b.core.transport.role == a.core.transport.role,
        b.core.transport.bidi_opened == a.core.transport.bidi_opened,
        b.core.transport.uni_opened == a.core.transport.uni_opened,
    ensures
        b.retired_for_good(session_id, stream_id),
{
    assert(b.serving().bears_out(not_opening(b, stream_id)));
}

proof fn lemma_asked_is_retired(
    state: DriverState,
    request: WebTransportRequest,
    session_id: u64,
    stream_id: u64,
)
    requires
        state.retired_for_good(session_id, stream_id),
        state.requested(request).orderly(),
    ensures
        state.requested(request).retired_for_good(session_id, stream_id),
{
    let asked = state.requested(request);
    assert(asked.serving().bears_out(not_opening(asked, stream_id)));
}

proof fn lemma_taken_answer_is_retired(
    state: DriverState,
    op: u64,
    session_id: u64,
    stream_id: u64,
)
    requires
        state.retired_for_good(session_id, stream_id),
        state.answer_taken(op).orderly(),
    ensures
        state.answer_taken(op).retired_for_good(session_id, stream_id),
{
    let watch = not_opening(state, stream_id);
    let answers = state.desk.answers;
    let at = answer_position(answers, op);
    lemma_position_is_not_negative(answers, op);
    let after = state.answer_taken(op);
    assert forall|i: int| 0 <= i < after.desk.answers.len() implies (opened_as(
        (#[trigger] after.desk.answers[i]).1,
    ) matches Some(id) ==> (watch.good)(after.desk.answers[i].0, id)
        && after.core.transport.has_opened(id)) by {
        if at < answers.len() {
            if i < at {
                assert(after.desk.answers[i] == answers[i]);
            } else {
                assert(after.desk.answers[i] == answers[i + 1]);
            }
        }
    }
    assert(after.serving().bears_out(not_opening(after, stream_id)));
}

/// Nor does anything between the turns change it: what happens on the transport, a refusal
/// by the peer among it, catching up, the taking of events and answers, and requests, as
/// long as there are numbers for them.
pub proof fn lemma_steps_keep_retirement(
    state: HelperState,
    transport: TransportState,
    op: u64,
    request: WebTransportRequest,
    session_id: u64,
    stream_id: u64,
)
    requires
        state.driver.retired_for_good(session_id, stream_id),
        state.driver.desk.next_op < u64::MAX,
        transport.role == state.driver.core.transport.role,
        transport.bidi_opened == state.driver.core.transport.bidi_opened,
        transport.uni_opened == state.driver.core.transport.uni_opened,
    ensures
        state.with_core(state.driver.core.with_transport(transport)).driver.retired_for_good(
            session_id,
            stream_id,
        ),
        state.handshaken().driver.retired_for_good(session_id, stream_id),
        state.advanced().driver.retired_for_good(session_id, stream_id),
        state.event_taken().driver.retired_for_good(session_id, stream_id),
        state.answer_taken(op).driver.retired_for_good(session_id, stream_id),
        state.asked(request).driver.retired_for_good(session_id, stream_id),
{
    lemma_steps_keep_order(state, op, request);
    lemma_moved_is_retired(state.driver, transport, session_id, stream_id);
    assert(state.handshaken().driver.retired_for_good(session_id, stream_id)) by {
        reveal(HelperState::handshaken);
        lemma_calm_core_is_retired(state.driver, state.handshaken().driver, session_id, stream_id);
    }
    assert(state.event_taken().driver.retired_for_good(session_id, stream_id)) by {
        reveal(HelperState::event_taken);
        lemma_calm_core_is_retired(state.driver, state.event_taken().driver, session_id, stream_id);
    }
    assert(state.advanced().driver.retired_for_good(session_id, stream_id)) by {
        reveal(CoreState::advanced);
        lemma_calm_core_is_retired(state.driver, state.advanced().driver, session_id, stream_id);
    }
    lemma_taken_answer_is_retired(state.driver, op, session_id, stream_id);
    lemma_asked_is_retired(state.driver, request, session_id, stream_id);
}

/// Whoever asks about a retired direction, or retires it again, is told that it is
/// retired, and a later refusal by the peer is told to nobody.
pub proof fn lemma_retired_is_the_answer(
    state: Serving,
    op: u64,
    session_id: u64,
    stream_id: u64,
    error_code: u64,
)
    requires
        state.stream_selection(session_id, stream_id, true) is None,
        state.is_retired(stream_id),
    ensures
        ({
            let answer = (
                op,
                Answer::SendEnd(
                    WebTransportStreamSendTerminalOutcome::Retired { session_id, stream_id },
                ),
            );
            let stopped = state.notice_taken(Notice::Stopped { stream_id, error_code });
            &&& state.send_end_requested(op, session_id, stream_id).desk.answers
                == state.desk.answers.push(answer)
            &&& state.send_retirement_requested(op, session_id, stream_id).desk.answers.last()
                == answer
            &&& stopped.desk.answers == state.desk.answers
            &&& stopped.is_retired(stream_id)
        }),
{
    reveal(Serving::send_end_requested);
    reveal(Serving::send_retirement_requested);
    reveal(Serving::notice_taken);
    assert(state.desk.endings.send_fact(stream_id) == SendFact::Retired);
    let stopped = state.notice_taken(Notice::Stopped { stream_id, error_code });
    assert(stopped.desk.answers =~= state.desk.answers);
}

} // verus!
