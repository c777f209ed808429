//! What is claimed of the streams that requests get, followed through all the steps of a
//! turn.

use vstd::prelude::*;

use crate::conn_close::bumped;
use crate::driver::calm::{
    lemma_datagram_read_requested_is_calm, lemma_datagram_send_requested_is_calm,
    lemma_datagrams_settled_is_calm, lemma_lease_write_requested_is_calm,
    lemma_max_datagram_requested_is_calm, lemma_notices_seen_is_calm,
    lemma_opening_abandoned_is_calm, lemma_opening_dropped_is_calm, lemma_opening_failed_is_calm,
    lemma_read_requested_is_calm, lemma_ready_requested_is_calm, lemma_ready_settled_is_calm,
    lemma_receive_retirement_requested_is_calm, lemma_request_dropped_is_calm,
    lemma_reset_requested_is_calm, lemma_retry_wait_requested_is_calm,
    lemma_send_end_requested_is_calm, lemma_send_retirement_requested_is_calm,
    lemma_session_end_requested_is_calm, lemma_sessions_settled_is_calm,
    lemma_stats_requested_is_calm, lemma_stop_requested_is_calm, lemma_streams_left_is_calm,
    lemma_write_requested_is_calm, opened_as,
};
use crate::driver::commands::DriverState;
use crate::driver::counts::{
    lemma_commanding_grows, lemma_raw_sent_grows, lemma_reading_grows, lemma_writing_grows,
};
use crate::driver::desk::{DeskState, OpenWait, Opening, Serving};
use crate::driver::openings::{opening_prefix, waits_but};
use crate::driver::readiness::ready_but;
use crate::driver::session_ends::{refusals, Teardown};
use crate::peer_log::{direction_of, is_bidi};
use crate::transport::{Role, TransportState};
use crate::wire::stream_prefix::WebTransportStreamDirection;
use crate::wt::requests::{
    answer_position, answer_taken, Answer, Queued, WebTransportOpenStreamOutcome,
    WebTransportRequest,
};
use crate::wt::types::WebTransportSelectionError;
use crate::wt::waiters::{without_op, WaitState};

verus! {

impl TransportState {
    /// What the numbers of this end's streams leave when divided by two.
    pub open spec fn side(self) -> int {
        match self.role {
            Role::Client => 0,
            Role::Server => 1,
        }
    }

    /// Whether this end has opened the stream `id`.
    pub open spec fn has_opened(self, id: u64) -> bool {
        &&& id % 2 == self.side()
        &&& if is_bidi(id) {
            id < 4 * self.bidi_opened + self.side()
        } else {
            id < 4 * self.uni_opened + 2 + self.side()
        }
    }

    /// Whether this end has not opened the stream `id`, but the peer allows it.
    pub open spec fn can_open(self, id: u64) -> bool {
        &&& id % 2 == self.side()
        &&& if is_bidi(id) {
            4 * self.bidi_opened + self.side() <= id < 4 * self.bidi_limit + self.side()
        } else {
            4 * self.uni_opened + 2 + self.side() <= id < 4 * self.uni_limit + 2 + self.side()
        }
    }
}

/// What is claimed of the streams that requests get from some moment on.
pub ghost struct Watch {
    /// The transport at that moment.
    pub start: TransportState,
    /// A request that asks for a stream of one direction.
    pub op: u64,
    pub direction: WebTransportStreamDirection,
    /// The requests that there can be.
    pub known: spec_fn(u64) -> bool,
    /// The claim about a request and its stream.
    pub good: spec_fn(u64, u64) -> bool,
    /// The number of the next request.
    pub next_op: u64,
}

impl Watch {
    /// Whether the claim holds of every stream that can be opened.
    pub open spec fn allows_new(self) -> bool {
        forall|op: u64, id: u64|
            (self.known)(op) && self.start.can_open(id) && (op == self.op ==> direction_of(id)
                == self.direction) ==> #[trigger] (self.good)(op, id)
    }

    /// Whether the claim holds of a stream that is on its way, and the stream was
    /// opened.
    pub open spec fn holds_of(self, opening: Opening, transport: TransportState) -> bool {
        (self.good)(opening.op, opening.stream_id) && transport.has_opened(opening.stream_id)
    }

    /// Whether this is so of every stream of a list.
    pub open spec fn holds_of_all(self, list: Seq<Opening>, transport: TransportState) -> bool {
        forall|i: int| 0 <= i < list.len() ==> self.holds_of(#[trigger] list[i], transport)
    }

    /// Whether a request can be there that waits for a stream of a direction.
    pub open spec fn waits_well(self, wait: OpenWait) -> bool {
        (self.known)(wait.op) && (wait.op == self.op ==> wait.direction == self.direction)
    }

    /// Whether the requests of a list can be there that wait for a stream.
    pub open spec fn all_wait_well(self, waits: Seq<OpenWait>) -> bool {
        forall|i: int| 0 <= i < waits.len() ==> self.waits_well(#[trigger] waits[i])
    }

    /// Whether a request can be in the lane.
    pub open spec fn asks_well(self, item: Queued) -> bool {
        &&& (self.known)(item.op)
        &&& item.op == self.op ==> (item.request matches WebTransportRequest::Open {
            direction,
            ..
        } ==> direction == self.direction)
    }

    /// Whether the requests of a list can be in the lane.
    pub open spec fn all_ask_well(self, list: Seq<Queued>) -> bool {
        forall|i: int| 0 <= i < list.len() ==> self.asks_well(#[trigger] list[i])
    }
}

impl Serving {
    /// Whether the claim holds of every stream that a request has.
    pub open spec fn bears_out(self, watch: Watch) -> bool {
        &&& watch.start.grows_to(self.core.transport)
        &&& self.desk.next_op == watch.next_op
        &&& watch.holds_of_all(self.desk.openings, self.core.transport)
        &&& watch.holds_of_all(self.desk.begun, self.core.transport)
        &&& forall|i: int|
            0 <= i < self.desk.answers.len() ==> (opened_as(
                (#[trigger] self.desk.answers[i]).1,
            ) matches Some(id) ==> (watch.good)(self.desk.answers[i].0, id)
                && self.core.transport.has_opened(id))
    }
}

pub proof fn lemma_calm_bears_out(a: Serving, b: Serving, watch: Watch)
    requires
        a.bears_out(watch),
        a.calm_to(b),
    ensures
        b.bears_out(watch),
        b.desk.waits == a.desk.waits,
{
    assert forall|i: int| 0 <= i < b.desk.answers.len() implies (opened_as(
        (#[trigger] b.desk.answers[i]).1,
    ) matches Some(id) ==> (watch.good)(b.desk.answers[i].0, id) && b.core.transport.has_opened(
        id,
    )) by {
        if i < a.desk.answers.len() {
            assert(b.desk.answers[i] == a.desk.answers[i]);
        }
    }
}

proof fn lemma_opening_done_bears_out(state: Serving, opening: Opening, watch: Watch)
    requires
        state.bears_out(watch),
        watch.holds_of(opening, state.core.transport),
    ensures
        state.opening_done(opening).bears_out(watch),
        state.opening_done(opening).desk.waits == state.desk.waits,
{
    broadcast use lemma_opening_failed_is_calm;

    reveal(Serving::opening_done);
    if state.core.session is None {
        lemma_calm_bears_out(state, state.opening_failed(opening), watch);
    }
}

pub proof fn lemma_opening_kept_bears_out(state: Serving, opening: Opening, watch: Watch)
    requires
        state.bears_out(watch),
        watch.holds_of(opening, state.core.transport),
    ensures
        state.opening_kept(opening).bears_out(watch),
        state.opening_kept(opening).desk.waits == state.desk.waits,
{
}

pub proof fn lemma_opening_tried_bears_out(state: Serving, opening: Opening, watch: Watch)
    requires
        state.bears_out(watch),
        watch.holds_of(opening, state.core.transport),
    ensures
        state.opening_tried(opening).bears_out(watch),
        state.opening_tried(opening).desk.waits == state.desk.waits,
{
    broadcast use {lemma_raw_sent_grows, lemma_opening_failed_is_calm};

    reveal(Serving::opening_tried);
    reveal(Serving::opening_committed);
    lemma_calm_bears_out(state, state.opening_failed(opening), watch);
    lemma_opening_kept_bears_out(state, opening, watch);
    let rest = opening_prefix(opening).skip(opening.written as int);
    let sent = Serving { core: state.core.raw_sent(opening.stream_id, rest, false), ..state };
    lemma_calm_bears_out(state, sent, watch);
    let tried = Serving { desk: DeskState { commit_fault: None, ..sent.desk }, ..sent };
    lemma_calm_bears_out(sent, tried, watch);
    lemma_opening_done_bears_out(sent, opening, watch);
    lemma_calm_bears_out(tried, tried.opening_failed(opening), watch);
}

pub proof fn lemma_openings_pumped_bears_out(
    state: Serving,
    list: Seq<Opening>,
    from: int,
    watch: Watch,
)
    requires
        0 <= from,
        state.bears_out(watch),
        watch.holds_of_all(list, state.core.transport),
    ensures
        state.openings_pumped(list, from).bears_out(watch),
        state.openings_pumped(list, from).desk.waits == state.desk.waits,
    decreases list.len() - from,
{
    if from < list.len() {
        if state.desk.left == 0 {
            let all = list.skip(from) + state.desk.openings;
            assert forall|i: int| 0 <= i < all.len() implies watch.holds_of(
                #[trigger] all[i],
                state.core.transport,
            ) by {
                if i < list.len() - from {
                    assert(all[i] == list[from + i]);
                } else {
                    assert(all[i] == state.desk.openings[i - (list.len() - from)]);
                }
            }
        } else {
            let worked = state.worked();
            lemma_calm_bears_out(state, worked, watch);
            lemma_opening_tried_bears_out(worked, list[from], watch);
            let next = worked.opening_tried(list[from]);
            lemma_opening_tried_grows(worked, list[from]);
            lemma_later_holds(list, state.core.transport, next.core.transport, watch);
            lemma_openings_pumped_bears_out(next, list, from + 1, watch);
        }
    }
}

pub proof fn lemma_later_holds(
    list: Seq<Opening>,
    a: TransportState,
    b: TransportState,
    watch: Watch,
)
    requires
        watch.holds_of_all(list, a),
        a.grows_to(b),
    ensures
        watch.holds_of_all(list, b),
{
}

pub proof fn lemma_opening_tried_grows(state: Serving, opening: Opening)
    ensures
        state.core.transport.grows_to(state.opening_tried(opening).core.transport),
{
    broadcast use {lemma_raw_sent_grows, lemma_opening_failed_is_calm};

    reveal(Serving::opening_tried);
    reveal(Serving::opening_committed);
    reveal(Serving::opening_done);
}

pub proof fn lemma_advanced_bears_out(state: Serving, watch: Watch)
    requires
        state.bears_out(watch),
    ensures
        state.openings_advanced().bears_out(watch),
        state.openings_advanced().desk.waits == state.desk.waits,
        state.begun_advanced().bears_out(watch),
        state.begun_advanced().desk.waits == state.desk.waits,
{
    reveal(Serving::openings_advanced);
    reveal(Serving::begun_advanced);
    let without_openings = Serving {
        desk: DeskState { openings: Seq::empty(), ..state.desk },
        ..state
    };
    lemma_openings_pumped_bears_out(without_openings, state.desk.openings, 0, watch);
    let without_begun = Serving { desk: DeskState { begun: Seq::empty(), ..state.desk }, ..state };
    lemma_openings_pumped_bears_out(without_begun, state.desk.begun, 0, watch);
}

proof fn lemma_openings_abandoned_bears_out(
    state: Serving,
    list: Seq<Opening>,
    op: u64,
    from: int,
    watch: Watch,
)
    requires
        0 <= from,
        state.bears_out(watch),
        watch.holds_of_all(list, state.core.transport),
    ensures
        state.openings_abandoned(list, op, from).bears_out(watch),
        state.openings_abandoned(list, op, from).desk.waits == state.desk.waits,
    decreases list.len() - from,
{
    broadcast use lemma_opening_abandoned_is_calm;

    if from < list.len() {
        if list[from].op == op {
            let next = state.opening_abandoned(list[from]);
            lemma_calm_bears_out(state, next, watch);
            lemma_later_holds(list, state.core.transport, next.core.transport, watch);
            lemma_openings_abandoned_bears_out(next, list, op, from + 1, watch);
        } else {
            lemma_opening_kept_bears_out(state, list[from], watch);
            lemma_openings_abandoned_bears_out(
                state.opening_kept(list[from]),
                list,
                op,
                from + 1,
                watch,
            );
        }
    }
}

pub proof fn lemma_op_cancelled_bears_out(state: Serving, op: u64, watch: Watch)
    requires
        state.bears_out(watch),
    ensures
        state.op_cancelled(op).bears_out(watch),
        state.op_cancelled(op).desk.waits == waits_but(state.desk.waits, op),
{
    reveal(Serving::op_cancelled);
    let start = Serving {
        desk: DeskState {
            endings: state.desk.endings.cancelled(op),
            session_waits: WaitState {
                list: without_op(state.desk.session_waits.list, op),
                ..state.desk.session_waits
            },
            ready_waits: ready_but(state.desk.ready_waits, op),
            answers: answer_taken(state.desk.answers, op),
            waits: waits_but(state.desk.waits, op),
            openings: Seq::empty(),
            ..state.desk
        },
        ..state
    };
    let at = answer_position(state.desk.answers, op);
    assert forall|i: int| 0 <= i < start.desk.answers.len() implies (opened_as(
        (#[trigger] start.desk.answers[i]).1,
    ) matches Some(id) ==> (watch.good)(start.desk.answers[i].0, id)
        && start.core.transport.has_opened(id)) by {
        lemma_position_is_not_negative(state.desk.answers, op);
        if at < state.desk.answers.len() {
            if i < at {
                assert(start.desk.answers[i] == state.desk.answers[i]);
            } else {
                assert(start.desk.answers[i] == state.desk.answers[i + 1]);
            }
        } else {
            assert(start.desk.answers[i] == state.desk.answers[i]);
        }
    }
    lemma_openings_abandoned_bears_out(start, state.desk.openings, op, 0, watch);
}

pub proof fn lemma_position_is_not_negative(answers: Seq<(u64, Answer)>, op: u64)
    ensures
        0 <= answer_position(answers, op),
    decreases answers.len(),
{
    if answers.len() > 0 {
        lemma_position_is_not_negative(answers.drop_last(), op);
    }
}

proof fn lemma_openings_refused_bears_out(
    state: Serving,
    list: Seq<Opening>,
    error: WebTransportSelectionError,
    from: int,
    watch: Watch,
)
    requires
        state.bears_out(watch),
    ensures
        state.openings_refused(list, error, from).bears_out(watch),
        state.openings_refused(list, error, from).desk.waits == state.desk.waits,
    decreases list.len() - from,
{
    broadcast use lemma_opening_dropped_is_calm;

    if from < list.len() {
        let next = state.opening_dropped(list[from]).answered(
            list[from].op,
            Answer::Open(WebTransportOpenStreamOutcome::Rejected(error)),
        );
        lemma_calm_bears_out(state, next, watch);
        lemma_openings_refused_bears_out(next, list, error, from + 1, watch);
    }
}

/// The state after it was seen whether the session is over bears a claim out that the
/// state before does. Then nobody waits for a stream any more, or all do that did.
pub proof fn lemma_streams_settled_bears_out(state: Serving, watch: Watch)
    requires
        state.bears_out(watch),
    ensures
        state.streams_settled().bears_out(watch),
        state.streams_settled().desk.waits == state.desk.waits
            || state.streams_settled().desk.waits.len() == 0,
{
    broadcast use lemma_streams_left_is_calm;

    reveal(Serving::streams_settled);
    reveal(Serving::opens_refused);
    if state.desk.serving is Some && state.selection(state.desk.serving->Some_0) is Some {
        let session_id = state.desk.serving->Some_0;
        let error = state.selection(session_id)->Some_0;
        let told = if state.closed_here(session_id) {
            WebTransportSelectionError::ClosingSession
        } else {
            error
        };
        let start = Serving {
            desk: DeskState {
                waits: Seq::empty(),
                openings: Seq::empty(),
                begun: Seq::empty(),
                answers: refusals(state.desk.answers, state.desk.waits, told),
                ..state.desk
            },
            ..state
        };
        lemma_openings_refused_bears_out(
            start,
            state.desk.openings + state.desk.begun,
            told,
            0,
            watch,
        );
        let refused = state.opens_refused(told);
        lemma_calm_bears_out(
            refused,
            refused.streams_left(session_id, Teardown::Session),
            watch,
        );
    }
}

pub proof fn lemma_opening_begun_bears_out(
    state: Serving,
    op: u64,
    session_id: u64,
    direction: WebTransportStreamDirection,
    watch: Watch,
)
    requires
        state.bears_out(watch),
        state.core.transport.may_open(direction),
        (watch.good)(op, state.core.transport.next_stream(direction)),
    ensures
        state.opening_begun(op, session_id, direction).bears_out(watch),
        state.opening_begun(op, session_id, direction).desk.waits == state.desk.waits,
{
    reveal(Serving::opening_begun);
    lemma_next_stream_is_opened(state.core.transport, state.core.transport, direction);
    let after = state.opening_begun(op, session_id, direction);
    lemma_later_holds(
        state.desk.openings,
        state.core.transport,
        after.core.transport,
        watch,
    );
    lemma_later_holds(state.desk.begun, state.core.transport, after.core.transport, watch);
}

/// The next stream could be opened all along, and is opened then.
pub proof fn lemma_next_stream_is_opened(
    start: TransportState,
    now: TransportState,
    direction: WebTransportStreamDirection,
)
    requires
        start.grows_to(now),
        now.may_open(direction),
    ensures
        start.can_open(now.next_stream(direction)),
        direction_of(now.next_stream(direction)) == direction,
        now.opened(direction).has_opened(now.next_stream(direction)),
        !now.has_opened(now.next_stream(direction)),
        now.grows_to(now.opened(direction)),
{
    let side = now.side();
    match direction {
        WebTransportStreamDirection::Bidi => {
            lemma_stream_number(now.bidi_opened as int, side);
            assert(now.next_stream(direction) == 4 * now.bidi_opened + side);
        },
        WebTransportStreamDirection::Uni => {
            lemma_stream_number(now.uni_opened as int, side);
            assert(now.next_stream(direction) == 4 * now.uni_opened + 2 + side);
        },
    }
}

/// What a stream's number tells of its end and its direction.
proof fn lemma_stream_number(index: int, side: int)
    requires
        0 <= index,
        0 <= side < 2,
    ensures
        (4 * index + side) % 2 == side,
        (4 * index + side) % 4 == side,
        (4 * index + 2 + side) % 2 == side,
        (4 * index + 2 + side) % 4 == 2 + side,
{
}

/// A state bears a claim out and goes on doing so, whatever streams are opened.
pub open spec fn watched(state: Serving, watch: Watch) -> bool {
    state.bears_out(watch) && watch.allows_new() && watch.all_wait_well(state.desk.waits)
}

proof fn lemma_waits_tried_is_watched(
    state: Serving,
    list: Seq<OpenWait>,
    from: int,
    watch: Watch,
)
    requires
        0 <= from,
        watched(state, watch),
        watch.all_wait_well(list),
    ensures
        watched(state.waits_tried(list, from), watch),
    decreases list.len() - from,
{
    if from < list.len() {
        let wait = list[from];
        if state.desk.left > 0 && state.core.transport.may_open(wait.direction) {
            let worked = state.worked();
            lemma_calm_bears_out(state, worked, watch);
            lemma_next_stream_is_opened(watch.start, worked.core.transport, wait.direction);
            lemma_opening_begun_bears_out(
                worked,
                wait.op,
                wait.session_id,
                wait.direction,
                watch,
            );
            let begun = worked.opening_begun(wait.op, wait.session_id, wait.direction);
            let next = Serving {
                desk: DeskState {
                    open_work_total: bumped(begun.desk.open_work_total),
                    ..begun.desk
                },
                ..begun
            };
            lemma_calm_bears_out(begun, next, watch);
            lemma_waits_tried_is_watched(next, list, from + 1, watch);
        } else {
            let next = Serving {
                desk: DeskState { waits: state.desk.waits.push(wait), ..state.desk },
                ..state
            };
            assert(next.bears_out(watch));
            lemma_waits_tried_is_watched(next, list, from + 1, watch);
        }
    }
}

pub proof fn lemma_waits_woken_is_watched(state: Serving, watch: Watch)
    requires
        watched(state, watch),
    ensures
        watched(state.waits_woken(), watch),
{
    reveal(Serving::waits_woken);
    let start = Serving { desk: DeskState { waits: Seq::empty(), ..state.desk }, ..state };
    assert(start.bears_out(watch));
    lemma_waits_tried_is_watched(start, state.desk.waits, 0, watch);
}

pub proof fn lemma_waits_but_are_waits(waits: Seq<OpenWait>, op: u64)
    ensures
        forall|i: int|
            0 <= i < waits_but(waits, op).len() ==> waits.contains(
                #[trigger] waits_but(waits, op)[i],
            ),
    decreases waits.len(),
{
    if waits.len() > 0 {
        lemma_waits_but_are_waits(waits.drop_last(), op);
        let front = waits_but(waits.drop_last(), op);
        assert forall|i: int| 0 <= i < waits_but(waits, op).len() implies waits.contains(
            #[trigger] waits_but(waits, op)[i],
        ) by {
            if i < front.len() {
                assert(waits_but(waits, op)[i] == front[i]);
                let at = choose|k: int|
                    0 <= k < waits.drop_last().len() && waits.drop_last()[k] == front[i];
                assert(waits[at] == front[i]);
            } else {
                assert(waits_but(waits, op)[i] == waits[waits.len() - 1]);
            }
        }
    }
}

pub proof fn lemma_ops_cancelled_is_watched(state: Serving, ops: Seq<u64>, from: int, watch: Watch)
    requires
        0 <= from,
        watched(state, watch),
    ensures
        watched(state.ops_cancelled(ops, from), watch),
    decreases ops.len() - from,
{
    if from < ops.len() {
        lemma_op_cancelled_bears_out(state, ops[from], watch);
        lemma_waits_but_are_waits(state.desk.waits, ops[from]);
        lemma_ops_cancelled_is_watched(state.op_cancelled(ops[from]), ops, from + 1, watch);
    }
}

proof fn lemma_open_requested_is_watched(
    state: Serving,
    op: u64,
    session_id: u64,
    direction: WebTransportStreamDirection,
    watch: Watch,
)
    requires
        watched(state, watch),
        watch.waits_well(OpenWait { op, session_id, direction }),
    ensures
        watched(state.open_requested(op, session_id, direction), watch),
{
    reveal(Serving::open_requested);
    let served = state.serving_for(session_id);
    lemma_calm_bears_out(state, served, watch);
    if state.core.transport.may_open(direction) {
        lemma_next_stream_is_opened(watch.start, served.core.transport, direction);
        lemma_opening_begun_bears_out(served, op, session_id, direction, watch);
    }
    let after = state.open_requested(op, session_id, direction);
    if state.selection(session_id) is Some || !state.has_opening_room(session_id) {
        assert(state.calm_to(after));
        lemma_calm_bears_out(state, after, watch);
    }
}

pub proof fn lemma_request_handled_is_watched(
    state: Serving,
    item: Queued,
    queued: nat,
    capacity: nat,
    watch: Watch,
)
    requires
        watched(state, watch),
        watch.asks_well(item),
    ensures
        watched(state.request_handled(item, queued, capacity), watch),
{
    reveal(Serving::request_handled);
    let after = state.request_handled(item, queued, capacity);
    if !state.desk.cancelled.contains(item.op) && item.request is Open {
        if let WebTransportRequest::Open { session_id, direction } = item.request {
            lemma_open_requested_is_watched(state, item.op, session_id, direction, watch);
        }
    } else {
        lemma_other_request_is_calm(state, item, queued, capacity);
        lemma_calm_bears_out(state, after, watch);
    }
}

/// A request that does not ask for a stream, or that nobody waits for, has nothing to do
/// with the streams that others wait for.
pub proof fn lemma_other_request_is_calm(state: Serving, item: Queued, queued: nat, capacity: nat)
    requires
        state.desk.cancelled.contains(item.op) || !(item.request is Open),
    ensures
        state.calm_to(state.request_handled(item, queued, capacity)),
{
    broadcast use {
        lemma_datagram_read_requested_is_calm,
        lemma_datagram_send_requested_is_calm,
        lemma_lease_write_requested_is_calm,
        lemma_max_datagram_requested_is_calm,
        lemma_read_requested_is_calm,
        lemma_ready_requested_is_calm,
        lemma_receive_retirement_requested_is_calm,
        lemma_request_dropped_is_calm,
        lemma_reset_requested_is_calm,
        lemma_retry_wait_requested_is_calm,
        lemma_send_end_requested_is_calm,
        lemma_send_retirement_requested_is_calm,
        lemma_session_end_requested_is_calm,
        lemma_stats_requested_is_calm,
        lemma_stop_requested_is_calm,
        lemma_write_requested_is_calm,
    };

    reveal(Serving::request_handled);
}

pub proof fn lemma_requests_handled_is_watched(
    state: Serving,
    list: Seq<Queued>,
    capacity: nat,
    from: int,
    watch: Watch,
)
    requires
        0 <= from,
        watched(state, watch),
        watch.all_ask_well(list),
    ensures
        watched(state.requests_handled(list, capacity, from), watch),
    decreases list.len() - from,
{
    if from < list.len() && state.desk.left > 0 {
        let worked = state.worked();
        lemma_calm_bears_out(state, worked, watch);
        let queued = (list.len() - from - 1) as nat;
        lemma_request_handled_is_watched(worked, list[from], queued, capacity, watch);
        lemma_requests_handled_is_watched(
            worked.request_handled(list[from], queued, capacity),
            list,
            capacity,
            from + 1,
            watch,
        );
    }
}

pub proof fn lemma_turn_begun_is_watched(state: Serving, watch: Watch)
    requires
        watched(state, watch),
    ensures
        watched(state.turn_begun(), watch),
{
    broadcast use {
        lemma_notices_seen_is_calm,
        lemma_datagrams_settled_is_calm,
        lemma_sessions_settled_is_calm,
        lemma_ready_settled_is_calm,
    };

    reveal(Serving::turn_begun);
    let fresh = Serving {
        desk: DeskState { left: state.desk.work_per_turn, ..state.desk },
        ..state
    };
    assert(fresh.bears_out(watch));
    lemma_ops_cancelled_is_watched(fresh, fresh.desk.cancelled, 0, watch);
    let a = fresh.ops_cancelled(fresh.desk.cancelled, 0);
    let b = a.notices_seen();
    lemma_calm_bears_out(a, b, watch);
    lemma_streams_settled_bears_out(b, watch);
    let c = b.streams_settled();
    let d = c.datagrams_settled();
    lemma_calm_bears_out(c, d, watch);
    let e = d.sessions_settled();
    lemma_calm_bears_out(d, e, watch);
    let f = e.ready_settled();
    lemma_calm_bears_out(e, f, watch);
    lemma_waits_woken_is_watched(f, watch);
    lemma_advanced_bears_out(f.waits_woken(), watch);
}

proof fn lemma_served_is_watched(
    state: Serving,
    list: Seq<Queued>,
    capacity: nat,
    watch: Watch,
)
    requires
        watched(state, watch),
        watch.all_ask_well(list),
    ensures
        watched(state.served(list, capacity), watch),
{
    reveal(Serving::served);
    lemma_turn_begun_is_watched(state, watch);
    let begun = state.turn_begun();
    lemma_requests_handled_is_watched(begun, list, capacity, 0, watch);
    let handled = begun.requests_handled(list, capacity, 0);
    lemma_advanced_bears_out(handled, watch);
    let after = state.served(list, capacity);
    let advanced = handled.begun_advanced();
    assert(advanced.calm_to(after));
    lemma_calm_bears_out(advanced, after, watch);
}

impl DriverState {
    /// Whether a claim about streams holds now and after every turn.
    pub open spec fn watched(self, watch: Watch) -> bool {
        watched(self.serving(), watch) && watch.all_ask_well(self.requests.items)
    }
}

/// A claim about streams that holds now, and of every stream that can be opened, holds
/// after a turn.
pub proof fn lemma_turn_is_watched(state: DriverState, watch: Watch)
    requires
        state.watched(watch),
    ensures
        state.turned().watched(watch),
{
    broadcast use {
        lemma_datagrams_settled_is_calm,
        lemma_sessions_settled_is_calm,
        lemma_ready_settled_is_calm,
    };

    reveal(DriverState::turned);
    reveal(DriverState::commands_processed);
    reveal(DriverState::served);
    let read = state.with_core(state.core.read());
    lemma_reading_grows(state.core);
    lemma_core_is_watched(state.serving(), read.serving(), watch);
    if read.core.failed is None {
        let commands = read.commands.items;
        lemma_commanding_grows(read.core, commands);
        let ordered = Serving {
            core: read.core.caught_up().commanded_from(commands, 0),
            ..read.serving()
        };
        lemma_core_is_watched(read.serving(), ordered, watch);
        lemma_streams_settled_bears_out(ordered, watch);
        let a = ordered.streams_settled();
        let b = a.datagrams_settled();
        lemma_calm_bears_out(a, b, watch);
        let c = b.sessions_settled();
        lemma_calm_bears_out(b, c, watch);
        let d = c.ready_settled();
        lemma_calm_bears_out(c, d, watch);
        let commanded = read.commands_processed();
        assert(commanded.serving() == d);
        lemma_writing_grows(commanded.core);
        let written = commanded.with_core(commanded.core.written());
        lemma_core_is_watched(d, written.serving(), watch);
        let list = written.requests.items;
        assert(watch.all_ask_well(list));
        lemma_served_is_watched(written.serving(), list, written.requests.capacity, watch);
        let count = written.serving().turn_begun().share(list.len()) as int;
        assert(forall|i: int|
            0 <= i < list.skip(count).len() ==> #[trigger] list.skip(count)[i] == list[i + count]);
    }
}

pub proof fn lemma_core_is_watched(a: Serving, b: Serving, watch: Watch)
    requires
        watched(a, watch),
        b.desk == a.desk,
        a.core.transport.grows_to(b.core.transport),
    ensures
        watched(b, watch),
{
    assert(a.calm_to(b));
    lemma_calm_bears_out(a, b, watch);
}

} // verus!
