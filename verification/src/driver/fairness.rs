//! Nobody overtakes: of two requests that wait for a stream of the same direction, the
//! earlier one gets it first, over any number of turns.

use vstd::prelude::*;

use crate::conn_close::bumped;
use crate::driver::calm::{
    lemma_datagrams_settled_is_calm, lemma_notices_seen_is_calm, lemma_opening_abandoned_is_calm,
    lemma_opening_dropped_is_calm, lemma_opening_failed_is_calm, lemma_ready_settled_is_calm,
    lemma_sessions_settled_is_calm, lemma_streams_left_is_calm,
};
use crate::driver::commands::DriverState;
use crate::driver::counts::{lemma_commanding_grows, lemma_reading_grows, lemma_writing_grows};
use crate::driver::desk::{DeskState, OpenWait, Opening, Serving};
use crate::driver::openings::{awaited, waits_but};
use crate::driver::order::{
    lemma_advanced_bears_out, lemma_calm_bears_out, lemma_op_cancelled_bears_out,
    lemma_opening_begun_bears_out, lemma_other_request_is_calm, lemma_streams_settled_bears_out,
    lemma_waits_but_are_waits, Watch,
};
use crate::driver::readiness::ready_but;
use crate::driver::session_ends::refusals;
use crate::wire::stream_prefix::WebTransportStreamDirection;
use crate::wt::requests::{
    answer_taken, Answer, Queued, WebTransportOpenStreamOutcome, WebTransportRequest,
};
use crate::wt::types::WebTransportSelectionError;
use crate::wt::waiters::{without_op, WaitState};

verus! {

/// Whether a request waits for a stream.
pub open spec fn is_waiting(waits: Seq<OpenWait>, op: u64) -> bool {
    exists|i: int| 0 <= i < waits.len() && (#[trigger] waits[i]).op == op
}

/// Whether the request `first` waits at most once, and before the request `second`, which
/// waits for a stream of the same direction.
pub open spec fn waits_before(waits: Seq<OpenWait>, first: u64, second: u64) -> bool {
    &&& forall|i: int, j: int|
        0 <= i < waits.len() && 0 <= j < waits.len() && (#[trigger] waits[i]).op == first && (
        #[trigger] waits[j]).op == first ==> i == j
    &&& forall|i: int, j: int|
        0 <= i < waits.len() && 0 <= j < waits.len() && (#[trigger] waits[i]).op == first && (
        #[trigger] waits[j]).op == second ==> i < j && waits[i].direction == waits[j].direction
}

/// Two requests of which the first waited before the second for a stream of the same
/// direction.
pub ghost struct Pair {
    pub first: u64,
    pub second: u64,
    /// The claim that the second has no stream.
    pub watch: Watch,
}

impl Pair {
    /// Whether the claim is that the second has no stream.
    pub open spec fn fits(self) -> bool {
        let second = self.second;
        self.first != second && self.watch.good == (|op: u64, id: u64| op != second)
    }
}

impl Serving {
    /// Whether the second of two requests has no stream as long as the first waits.
    pub open spec fn is_fair(self, pair: Pair) -> bool {
        &&& pair.fits()
        &&& waits_before(self.desk.waits, pair.first, pair.second)
        &&& is_waiting(self.desk.waits, pair.first) ==> self.bears_out(pair.watch)
    }
}

proof fn lemma_calm_is_fair(a: Serving, b: Serving, pair: Pair)
    requires
        a.is_fair(pair),
        a.calm_to(b),
    ensures
        b.is_fair(pair),
{
    if is_waiting(a.desk.waits, pair.first) {
        lemma_calm_bears_out(a, b, pair.watch);
    }
}

proof fn lemma_fewer_waits_are_in_order(waits: Seq<OpenWait>, op: u64, first: u64, second: u64)
    requires
        waits_before(waits, first, second),
    ensures
        waits_before(waits_but(waits, op), first, second),
        is_waiting(waits_but(waits, op), first) ==> is_waiting(waits, first),
    decreases waits.len(),
{
    lemma_waits_but_are_waits(waits, op);
    if waits.len() > 0 {
        let front = waits.drop_last();
        let kept = waits_but(front, op);
        assert(forall|i: int| 0 <= i < front.len() ==> #[trigger] front[i] == waits[i]);
        lemma_fewer_waits_are_in_order(front, op, first, second);
        lemma_waits_but_are_waits(front, op);
        let all = waits_but(waits, op);
        if waits.last().op != op {
            assert(all == kept.push(waits.last()));
            assert forall|i: int| 0 <= i < kept.len() implies exists|k: int|
                0 <= k < waits.len() - 1 && #[trigger] waits[k] == #[trigger] all[i] by {
                assert(all[i] == kept[i]);
                let k = choose|k: int| 0 <= k < front.len() && front[k] == kept[i];
                assert(waits[k] == all[i]);
            }
            let end = waits.len() - 1;
            assert(waits[end] == waits.last());
            assert forall|i: int, j: int|
                0 <= i < all.len() && 0 <= j < all.len() && (#[trigger] all[i]).op == first && (
                #[trigger] all[j]).op == first implies i == j by {
                assert(i < kept.len() ==> all[i] == kept[i]);
                assert(j < kept.len() ==> all[j] == kept[j]);
            }
            assert forall|i: int, j: int|
                0 <= i < all.len() && 0 <= j < all.len() && (#[trigger] all[i]).op == first && (
                #[trigger] all[j]).op == second implies i < j && all[i].direction
                == all[j].direction by {
                assert(i < kept.len() ==> all[i] == kept[i]);
                assert(j < kept.len() ==> all[j] == kept[j]);
                if i < kept.len() && j == kept.len() {
                    let k = choose|k: int| 0 <= k < waits.len() - 1 && waits[k] == all[i];
                    assert(waits[k].op == first && waits[end].op == second);
                } else if i == kept.len() && j < kept.len() {
                    let k = choose|k: int| 0 <= k < waits.len() - 1 && waits[k] == all[j];
                    assert(waits[end].op == first && waits[k].op == second);
                }
            }
        }
    }
}

proof fn lemma_ops_cancelled_is_fair(state: Serving, ops: Seq<u64>, from: int, pair: Pair)
    requires
        0 <= from,
        state.is_fair(pair),
    ensures
        state.ops_cancelled(ops, from).is_fair(pair),
    decreases ops.len() - from,
{
    if from < ops.len() {
        let next = state.op_cancelled(ops[from]);
        lemma_fewer_waits_are_in_order(state.desk.waits, ops[from], pair.first, pair.second);
        if is_waiting(state.desk.waits, pair.first) {
            lemma_op_cancelled_bears_out(state, ops[from], pair.watch);
        } else {
            lemma_cancelled_waits(state, ops[from]);
        }
        lemma_ops_cancelled_is_fair(next, ops, from + 1, pair);
    }
}

/// What a cancelled request leaves of those that wait.
proof fn lemma_cancelled_waits(state: Serving, op: u64)
    ensures
        state.op_cancelled(op).desk.waits == waits_but(state.desk.waits, op),
{
    reveal(Serving::op_cancelled);
    let start = Serving {
        desk: DeskState {
            endings: state.desk.endings.cancelled(op),
            session_waits: WaitState {
                list: without_op(state.desk.session_waits.list, op),
                ..state.desk.session_waits
            },
            ready_waits: ready_but(state.desk.ready_waits, op),
            answers: answer_taken(state.desk.answers, op),
            waits: waits_but(state.desk.waits, op),
            openings: Seq::empty(),
            ..state.desk
        },
        ..state
    };
    lemma_abandoned_keep_waits(start, state.desk.openings, op, 0);
}

proof fn lemma_abandoned_keep_waits(state: Serving, list: Seq<Opening>, op: u64, from: int)
    ensures
        state.openings_abandoned(list, op, from).desk.waits == state.desk.waits,
    decreases list.len() - from,
{
    broadcast use lemma_opening_abandoned_is_calm;

    if from < list.len() {
        lemma_abandoned_keep_waits(state.opening_abandoned(list[from]), list, op, from + 1);
        lemma_abandoned_keep_waits(state.opening_kept(list[from]), list, op, from + 1);
    }
}

proof fn lemma_pumped_keep_waits(state: Serving, list: Seq<Opening>, from: int)
    ensures
        state.openings_pumped(list, from).desk.waits == state.desk.waits,
    decreases list.len() - from,
{
    broadcast use lemma_opening_failed_is_calm;

    if from < list.len() && state.desk.left > 0 {
        reveal(Serving::opening_tried);
        reveal(Serving::opening_committed);
        reveal(Serving::opening_done);
        lemma_pumped_keep_waits(state.worked().opening_tried(list[from]), list, from + 1);
    }
}

proof fn lemma_advanced_is_fair(state: Serving, pair: Pair)
    requires
        state.is_fair(pair),
    ensures
        state.openings_advanced().is_fair(pair),
        state.begun_advanced().is_fair(pair),
{
    if is_waiting(state.desk.waits, pair.first) {
        lemma_advanced_bears_out(state, pair.watch);
    } else {
        reveal(Serving::openings_advanced);
        reveal(Serving::begun_advanced);
        let without_openings = Serving {
            desk: DeskState { openings: Seq::empty(), ..state.desk },
            ..state
        };
        lemma_pumped_keep_waits(without_openings, state.desk.openings, 0);
        let without_begun = Serving {
            desk: DeskState { begun: Seq::empty(), ..state.desk },
            ..state
        };
        lemma_pumped_keep_waits(without_begun, state.desk.begun, 0);
    }
}

proof fn lemma_settled_is_fair(state: Serving, pair: Pair)
    requires
        state.is_fair(pair),
    ensures
        state.streams_settled().is_fair(pair),
{
    if is_waiting(state.desk.waits, pair.first) {
        lemma_streams_settled_bears_out(state, pair.watch);
    } else {
        reveal(Serving::streams_settled);
        reveal(Serving::opens_refused);
        if state.desk.serving is Some && state.selection(state.desk.serving->Some_0) is Some {
            lemma_settled_waits(state);
        }
    }
}

/// When the session is over, nobody waits for a stream.
proof fn lemma_settled_waits(state: Serving)
    requires
        state.desk.serving is Some,
        state.selection(state.desk.serving->Some_0) is Some,
    ensures
        state.streams_settled().desk.waits.len() == 0,
{
    broadcast use lemma_streams_left_is_calm;

    reveal(Serving::streams_settled);
    reveal(Serving::opens_refused);
    let session_id = state.desk.serving->Some_0;
    let error = if state.closed_here(session_id) {
        WebTransportSelectionError::ClosingSession
    } else {
        state.selection(session_id)->Some_0
    };
    let start = Serving {
        desk: DeskState {
            waits: Seq::empty(),
            openings: Seq::empty(),
            begun: Seq::empty(),
            answers: refusals(
                state.desk.answers,
                state.desk.waits,
                error,
            ),
            ..state.desk
        },
        ..state
    };
    lemma_refused_keep_waits(start, state.desk.openings + state.desk.begun, error, 0);
}

proof fn lemma_refused_keep_waits(
    state: Serving,
    list: Seq<Opening>,
    error: WebTransportSelectionError,
    from: int,
)
    ensures
        state.openings_refused(list, error, from).desk.waits == state.desk.waits,
    decreases list.len() - from,
{
    broadcast use lemma_opening_dropped_is_calm;

    if from < list.len() {
        let next = state.opening_dropped(list[from]).answered(
            list[from].op,
            Answer::Open(
                WebTransportOpenStreamOutcome::Rejected(error),
            ),
        );
        lemma_refused_keep_waits(next, list, error, from + 1);
    }
}

/// The waits of a list without the one at `at` are in order if all are.
proof fn lemma_one_wait_less(waits: Seq<OpenWait>, at: int, first: u64, second: u64)
    requires
        0 <= at < waits.len(),
        waits_before(waits, first, second),
    ensures
        waits_before(waits.remove(at), first, second),
        is_waiting(waits.remove(at), first) ==> is_waiting(waits, first),
{
    let less = waits.remove(at);
    assert forall|i: int| 0 <= i < less.len() implies #[trigger] less[i] == waits[if i < at {
        i
    } else {
        i + 1
    }] by {}
}

proof fn lemma_waits_tried_is_fair(
    state: Serving,
    list: Seq<OpenWait>,
    from: int,
    pair: Pair,
)
    requires
        0 <= from <= list.len(),
        pair.fits(),
        waits_before(state.desk.waits + list.skip(from), pair.first, pair.second),
        is_waiting(state.desk.waits + list.skip(from), pair.first) ==> state.bears_out(pair.watch),
        forall|i: int|
            0 <= i < state.desk.waits.len() ==> state.desk.left == 0
                || !state.core.transport.may_open((#[trigger] state.desk.waits[i]).direction),
    ensures
        state.waits_tried(list, from).is_fair(pair),
    decreases list.len() - from,
{
    let kept = state.desk.waits;
    let all = kept + list.skip(from);
    if from < list.len() {
        let wait = list[from];
        assert(all[kept.len() as int] == wait);
        assert(list.skip(from).skip(1) =~= list.skip(from + 1));
        if state.desk.left > 0 && state.core.transport.may_open(wait.direction) {
            let worked = state.worked();
            let begun = worked.opening_begun(wait.op, wait.session_id, wait.direction);
            let next = Serving {
                desk: DeskState {
                    open_work_total: bumped(begun.desk.open_work_total),
                    ..begun.desk
                },
                ..begun
            };
            assert(next.desk.waits == kept && next.desk.left == state.desk.left - 1
                && next.core.transport == state.core.transport.opened(wait.direction)) by {
                reveal(Serving::opening_begun);
            }
            assert(kept + list.skip(from + 1) =~= all.remove(kept.len() as int));
            lemma_one_wait_less(all, kept.len() as int, pair.first, pair.second);
            let rest = kept + list.skip(from + 1);
            if is_waiting(rest, pair.first) {
                lemma_calm_bears_out(state, worked, pair.watch);
                if wait.op == pair.second {
                    let i = choose|i: int|
                        0 <= i < rest.len() && (#[trigger] rest[i]).op == pair.first;
                    let k = if i < kept.len() {
                        i
                    } else {
                        i + 1
                    };
                    assert(all[k] == rest[i]);
                    assert(all[kept.len() as int].op == pair.second);
                    assert(k < kept.len());
                    assert(kept[k] == all[k]);
                    assert(false);
                }
                lemma_opening_begun_bears_out(
                    worked,
                    wait.op,
                    wait.session_id,
                    wait.direction,
                    pair.watch,
                );
                lemma_calm_bears_out(begun, next, pair.watch);
            }
            lemma_waits_tried_is_fair(next, list, from + 1, pair);
        } else {
            let next = Serving {
                desk: DeskState { waits: kept.push(wait), ..state.desk },
                ..state
            };
            assert(next.desk.waits + list.skip(from + 1) =~= all);
            if is_waiting(all, pair.first) {
                assert(next.bears_out(pair.watch));
            }
            lemma_waits_tried_is_fair(next, list, from + 1, pair);
        }
    } else {
        assert(all =~= kept);
    }
}

proof fn lemma_waits_woken_is_fair(state: Serving, pair: Pair)
    requires
        state.is_fair(pair),
    ensures
        state.waits_woken().is_fair(pair),
{
    reveal(Serving::waits_woken);
    let start = Serving { desk: DeskState { waits: Seq::empty(), ..state.desk }, ..state };
    assert(start.desk.waits + state.desk.waits.skip(0) =~= state.desk.waits);
    if is_waiting(state.desk.waits, pair.first) {
        assert(start.bears_out(pair.watch));
    }
    lemma_waits_tried_is_fair(start, state.desk.waits, 0, pair);
}

proof fn lemma_open_requested_is_fair(
    state: Serving,
    op: u64,
    session_id: u64,
    direction: WebTransportStreamDirection,
    pair: Pair,
)
    requires
        state.is_fair(pair),
        op != pair.first,
        op != pair.second,
    ensures
        state.open_requested(op, session_id, direction).is_fair(pair),
{
    reveal(Serving::open_requested);
    let after = state.open_requested(op, session_id, direction);
    let served = state.serving_for(session_id);
    lemma_calm_is_fair(state, served, pair);
    if state.selection(session_id) is Some || !state.has_opening_room(session_id) {
        assert(state.calm_to(after));
        lemma_calm_is_fair(state, after, pair);
    } else if state.core.transport.may_open(direction) && !awaited(state.desk.waits, direction) {
        assert(after == served.opening_begun(op, session_id, direction));
        assert(after.desk.waits == state.desk.waits) by {
            reveal(Serving::opening_begun);
        }
        if is_waiting(state.desk.waits, pair.first) {
            lemma_opening_begun_bears_out(served, op, session_id, direction, pair.watch);
        }
    } else {
        let wait = OpenWait { op, session_id, direction };
        assert(after.desk.waits == state.desk.waits.push(wait));
        if is_waiting(after.desk.waits, pair.first) {
            let i = choose|i: int|
                0 <= i < after.desk.waits.len() && (#[trigger] after.desk.waits[i]).op
                    == pair.first;
            assert(after.desk.waits[i] == state.desk.waits[i]);
            assert(is_waiting(state.desk.waits, pair.first));
        }
    }
}

proof fn lemma_requests_handled_is_fair(
    state: Serving,
    list: Seq<Queued>,
    capacity: nat,
    from: int,
    pair: Pair,
)
    requires
        0 <= from,
        state.is_fair(pair),
        others_ask(list, pair),
    ensures
        state.requests_handled(list, capacity, from).is_fair(pair),
    decreases list.len() - from,
{
    if from < list.len() && state.desk.left > 0 {
        let worked = state.worked();
        lemma_calm_is_fair(state, worked, pair);
        let item = list[from];
        let queued = (list.len() - from - 1) as nat;
        let next = worked.request_handled(item, queued, capacity);
        if !worked.desk.cancelled.contains(item.op) && item.request is Open {
            if let WebTransportRequest::Open { session_id, direction } = item.request {
                reveal(Serving::request_handled);
                lemma_open_requested_is_fair(worked, item.op, session_id, direction, pair);
            }
        } else {
            lemma_other_request_is_calm(worked, item, queued, capacity);
            lemma_calm_is_fair(worked, next, pair);
        }
        lemma_requests_handled_is_fair(next, list, capacity, from + 1, pair);
    }
}

/// Whether neither of the two requests is still in the lane.
pub open spec fn others_ask(list: Seq<Queued>, pair: Pair) -> bool {
    forall|i: int|
        0 <= i < list.len() ==> (#[trigger] list[i]).op != pair.first && list[i].op != pair.second
}

proof fn lemma_served_is_fair(state: Serving, list: Seq<Queued>, capacity: nat, pair: Pair)
    requires
        state.is_fair(pair),
        others_ask(list, pair),
    ensures
        state.served(list, capacity).is_fair(pair),
{
    broadcast use {
        lemma_notices_seen_is_calm,
        lemma_datagrams_settled_is_calm,
        lemma_sessions_settled_is_calm,
        lemma_ready_settled_is_calm,
    };

    reveal(Serving::served);
    reveal(Serving::turn_begun);
    let fresh = Serving {
        desk: DeskState { left: state.desk.work_per_turn, ..state.desk },
        ..state
    };
    if is_waiting(state.desk.waits, pair.first) {
        assert(fresh.bears_out(pair.watch));
    }
    lemma_ops_cancelled_is_fair(fresh, fresh.desk.cancelled, 0, pair);
    let a = fresh.ops_cancelled(fresh.desk.cancelled, 0);
    let b = a.notices_seen();
    lemma_calm_is_fair(a, b, pair);
    lemma_settled_is_fair(b, pair);
    let c = b.streams_settled();
    let d = c.datagrams_settled();
    lemma_calm_is_fair(c, d, pair);
    let e = d.sessions_settled();
    lemma_calm_is_fair(d, e, pair);
    let f = e.ready_settled();
    lemma_calm_is_fair(e, f, pair);
    lemma_waits_woken_is_fair(f, pair);
    lemma_advanced_is_fair(f.waits_woken(), pair);
    let begun = state.turn_begun();
    lemma_requests_handled_is_fair(begun, list, capacity, 0, pair);
    let handled = begun.requests_handled(list, capacity, 0);
    lemma_advanced_is_fair(handled, pair);
    let after = state.served(list, capacity);
    assert(handled.begun_advanced().calm_to(after));
    lemma_calm_is_fair(handled.begun_advanced(), after, pair);
}

proof fn lemma_turn_is_fair(state: DriverState, pair: Pair)
    requires
        state.serving().is_fair(pair),
        others_ask(state.requests.items, pair),
    ensures
        state.turned().serving().is_fair(pair),
        others_ask(state.turned().requests.items, pair),
{
    broadcast use {
        lemma_datagrams_settled_is_calm,
        lemma_sessions_settled_is_calm,
        lemma_ready_settled_is_calm,
    };

    reveal(DriverState::turned);
    reveal(DriverState::commands_processed);
    reveal(DriverState::served);
    let read = state.with_core(state.core.read());
    lemma_reading_grows(state.core);
    assert(state.serving().calm_to(read.serving()));
    lemma_calm_is_fair(state.serving(), read.serving(), pair);
    if read.core.failed is None {
        let commands = read.commands.items;
        lemma_commanding_grows(read.core, commands);
        let ordered = Serving {
            core: read.core.caught_up().commanded_from(commands, 0),
            ..read.serving()
        };
        assert(read.serving().calm_to(ordered));
        lemma_calm_is_fair(read.serving(), ordered, pair);
        lemma_settled_is_fair(ordered, pair);
        let a = ordered.streams_settled();
        let b = a.datagrams_settled();
        lemma_calm_is_fair(a, b, pair);
        let c = b.sessions_settled();
        lemma_calm_is_fair(b, c, pair);
        let d = c.ready_settled();
        lemma_calm_is_fair(c, d, pair);
        let commanded = read.commands_processed();
        assert(commanded.serving() == d);
        lemma_writing_grows(commanded.core);
        let written = commanded.with_core(commanded.core.written());
        assert(d.calm_to(written.serving()));
        lemma_calm_is_fair(d, written.serving(), pair);
        let list = written.requests.items;
        lemma_served_is_fair(written.serving(), list, written.requests.capacity, pair);
        let count = written.serving().turn_begun().share(list.len()) as int;
        assert(forall|i: int|
            0 <= i < list.skip(count).len() ==> #[trigger] list.skip(count)[i] == list[i + count]);
    }
}

proof fn lemma_turns_are_fair(state: DriverState, turns: nat, pair: Pair)
    requires
        state.serving().is_fair(pair),
        others_ask(state.requests.items, pair),
    ensures
        state.turned_times(turns).serving().is_fair(pair),
    decreases turns,
{
    if turns > 0 {
        lemma_turn_is_fair(state, pair);
        lemma_turns_are_fair(state.turned(), (turns - 1) as nat, pair);
    }
}

/// Streams are given out first come, first served in each direction: of two requests
/// that wait for a stream of the same direction, the later one has none as long as the
/// earlier one waits, however many turns go by.
pub proof fn lemma_nobody_overtakes(state: DriverState, first: u64, second: u64, turns: nat)
    requires
        state.orderly(),
        first != second,
        waits_before(state.desk.waits, first, second),
        state.serving().has_no_stream(second),
        forall|i: int|
            0 <= i < state.requests.items.len() ==> (#[trigger] state.requests.items[i]).op != first
                && state.requests.items[i].op != second,
    ensures
        ({
            let after = state.turned_times(turns);
            is_waiting(after.desk.waits, first) ==> after.serving().has_no_stream(second)
        }),
{
    let watch = Watch {
        start: state.core.transport,
        op: second,
        direction: WebTransportStreamDirection::Bidi,
        known: |op: u64| true,
        good: |op: u64, id: u64| op != second,
        next_op: state.desk.next_op,
    };
    let pair = Pair { first, second, watch };
    assert(state.serving().bears_out(watch));
    lemma_turns_are_fair(state, turns, pair);
}

} // verus!
