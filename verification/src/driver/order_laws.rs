//! What holds of the streams that this end opens, over any number of turns.

use vstd::prelude::*;

use crate::driver::calm::opened_as;
use crate::driver::commands::{DriverState, H3Driver};
use crate::driver::desk::Serving;
use crate::driver::helper::HelperState;
use crate::driver::order::{lemma_position_is_not_negative, lemma_turn_is_watched, watched, Watch};
use crate::driver::state::CoreState;
use crate::peer_log::direction_of;
use crate::pipe_config::DriverPipe;
use crate::request_stream::capped_sum;
use crate::server_requests::{opened_stream, stream_awaited, OPENING_TURNS};
use crate::settings::Http3Settings;
use crate::transport::{Role, TransportState};
use crate::wire::stream_prefix::WebTransportStreamDirection;
use crate::wt::requests::{answer_position, answer_taken, Answer, WebTransportRequest};

verus! {

impl DriverState {
    /// What holds of the streams of every request: the request is one that was made.
    pub open spec fn order_watch(self) -> Watch {
        let next = self.desk.next_op;
        Watch {
            start: self.core.transport,
            op: next,
            direction: WebTransportStreamDirection::Bidi,
            known: |op: u64| op < next,
            good: |op: u64, id: u64| op < next,
            next_op: next,
        }
    }

    /// Whether the books about streams are in order: every stream that a request has
    /// was opened, and every request was made.
    pub open spec fn orderly(self) -> bool {
        self.core.transport.within_range() && self.watched(self.order_watch())
    }

    /// The state after `count` turns.
    pub open spec fn turned_times(self, count: nat) -> DriverState
        decreases count,
    {
        if count == 0 {
            self
        } else {
            self.turned().turned_times((count - 1) as nat)
        }
    }
}

/// A driver begins with its books in order.
pub proof fn lemma_fresh_driver_is_orderly(role: Role, pipe: DriverPipe, settings: Http3Settings)
    ensures
        H3Driver::fresh(role, pipe, settings).orderly(),
{
}

/// A turn leaves the books in order. The number of the next stream never goes back, so
/// that no number is given twice, and a turn opens no more streams of a direction than
/// the peer allows.
pub proof fn lemma_turn_keeps_order(state: DriverState)
    requires
        state.orderly(),
    ensures
        state.turned().orderly(),
        state.core.transport.grows_to(state.turned().core.transport),
        forall|direction: WebTransportStreamDirection|
            state.core.transport.next_stream(direction)
                <= #[trigger] state.turned().core.transport.next_stream(direction),
{
    lemma_turn_is_watched(state, state.order_watch());
}

/// Nor do the other steps of a connection disturb the books: catching up, the taking of
/// events and answers, and requests, as long as there are numbers for them.
pub proof fn lemma_steps_keep_order(state: HelperState, op: u64, request: WebTransportRequest)
    requires
        state.driver.orderly(),
        state.driver.desk.next_op < u64::MAX,
    ensures
        state.handshaken().driver.orderly(),
        state.advanced().driver.orderly(),
        state.ran().driver.orderly(),
        state.event_taken().driver.orderly(),
        state.answer_taken(op).driver.orderly(),
        state.asked(request).driver.orderly(),
        forall|direction: WebTransportStreamDirection|
            state.driver.core.transport.next_stream(direction)
                <= #[trigger] state.ran().driver.core.transport.next_stream(direction),
{
    lemma_catching_up_keeps_order(state);
    lemma_turn_keeps_order(state.advanced().driver);
    lemma_catching_up_keeps_order(state.advanced().turned());
    lemma_taken_answer_keeps_order(state.driver, op);
    reveal(HelperState::ran);
    reveal(HelperState::handshaken);
    reveal(HelperState::event_taken);
    assert(state.driver.serving().calm_to(state.handshaken().driver.serving()));
    assert(state.driver.serving().calm_to(state.event_taken().driver.serving()));
    let asked = state.asked(request).driver;
    assert(asked.watched(asked.order_watch()));
}

proof fn lemma_catching_up_keeps_order(state: HelperState)
    requires
        state.driver.orderly(),
    ensures
        state.advanced().driver.orderly(),
        forall|direction: WebTransportStreamDirection|
            state.driver.core.transport.next_stream(direction)
                == #[trigger] state.advanced().driver.core.transport.next_stream(direction),
{
    reveal(CoreState::advanced);
}

proof fn lemma_taken_answer_keeps_order(state: DriverState, op: u64)
    requires
        state.orderly(),
    ensures
        state.answer_taken(op).orderly(),
{
    let answers = state.desk.answers;
    let at = answer_position(answers, op);
    lemma_position_is_not_negative(answers, op);
    let after = state.answer_taken(op);
    let watch = after.order_watch();
    if at < answers.len() {
        assert forall|i: int| 0 <= i < after.desk.answers.len() implies (opened_as(
            (#[trigger] after.desk.answers[i]).1,
        ) matches Some(id) ==> (watch.good)(after.desk.answers[i].0, id)
            && after.core.transport.has_opened(id)) by {
            if i < at {
                assert(after.desk.answers[i] == answers[i]);
            } else {
                assert(after.desk.answers[i] == answers[i + 1]);
            }
        }
    }
}

proof fn lemma_answer_has_its_number(answers: Seq<(u64, Answer)>, op: u64)
    ensures
        ({
            let at = answer_position(answers, op);
            0 <= at <= answers.len() && (at < answers.len() ==> answers[at].0 == op)
        }),
    decreases answers.len(),
{
    if answers.len() > 0 {
        lemma_answer_has_its_number(answers.drop_last(), op);
    }
}

proof fn lemma_awaited_is_watched(state: HelperState, op: u64, turns: nat, watch: Watch)
    requires
        state.driver.watched(watch),
    ensures
        state.awaited(op, turns).driver.watched(watch),
    decreases turns,
{
    if turns > 0 {
        lemma_turn_is_watched(state.driver, watch);
        lemma_awaited_is_watched(state.turned(), op, (turns - 1) as nat, watch);
    }
}

/// A stream that the application gets has the direction that it asked for, and a number
/// that no stream of that direction had before: at least that of the next stream when it
/// asked, and below that of the next stream afterwards. So the numbers grow from one
/// request to the next.
pub proof fn lemma_opened_stream_is_new(
    state: HelperState,
    session_id: u64,
    direction: WebTransportStreamDirection,
)
    requires
        state.driver.orderly(),
        state.driver.desk.next_op < u64::MAX,
        state.driver.requests.admits(),
    ensures
        ({
            let after = stream_awaited(state, session_id, direction);
            let before = state.driver.core.transport;
            let now = after.driver.core.transport;
            &&& after.driver.orderly()
            &&& opened_stream(after.answer(state.driver.desk.next_op)) matches Some(id) ==> {
                &&& direction_of(id) == direction
                &&& id % 2 == before.side()
                &&& before.next_stream(direction) <= id < now.next_stream(direction)
            }
        }),
{
    let op = state.driver.desk.next_op;
    let start = state.driver.core.transport;
    let watch = Watch {
        start,
        op,
        direction,
        known: |other: u64| other <= op,
        good: |other: u64, id: u64|
            other <= op && (other == op ==> direction_of(id) == direction && start.can_open(id)),
        next_op: (op + 1) as u64,
    };
    let asked = state.asked(WebTransportRequest::Open { session_id, direction });
    assert(asked.driver.watched(watch));
    lemma_awaited_is_watched(asked, op, OPENING_TURNS as nat, watch);
    let after = stream_awaited(state, session_id, direction);
    assert(after.driver.watched(after.driver.order_watch()));
    lemma_answer_has_its_number(after.driver.desk.answers, op);
    let at = answer_position(after.driver.desk.answers, op);
    if at < after.driver.desk.answers.len() {
        assert(opened_as(after.driver.desk.answers[at].1) == opened_stream(after.answer(op)));
    }
}

impl Serving {
    /// Whether a request has no stream, not even one that is still being opened.
    pub open spec fn has_no_stream(self, op: u64) -> bool {
        &&& forall|i: int|
            0 <= i < self.desk.openings.len() ==> (#[trigger] self.desk.openings[i]).op != op
        &&& forall|i: int|
            0 <= i < self.desk.begun.len() ==> (#[trigger] self.desk.begun[i]).op != op
        &&& forall|i: int|
            0 <= i < self.desk.answers.len() && (#[trigger] self.desk.answers[i]).0 == op
                ==> opened_as(self.desk.answers[i].1) is None
    }
}

/// Credit counts in its own direction: while the peer allows no more streams of one
/// direction, a request that waits for one gets none, whatever the peer allows in the
/// other and however many turns go by.
pub proof fn lemma_no_credit_no_stream(
    state: DriverState,
    op: u64,
    direction: WebTransportStreamDirection,
    turns: nat,
)
    requires
        state.orderly(),
        state.serving().has_no_stream(op),
        !state.core.transport.may_open(direction),
        match direction {
            WebTransportStreamDirection::Bidi => state.core.transport.bidi_limit
                <= state.core.transport.bidi_opened,
            WebTransportStreamDirection::Uni => state.core.transport.uni_limit
                <= state.core.transport.uni_opened,
        },
        forall|i: int|
            0 <= i < state.desk.waits.len() && (#[trigger] state.desk.waits[i]).op == op
                ==> state.desk.waits[i].direction == direction,
        forall|i: int|
            0 <= i < state.requests.items.len() && (#[trigger] state.requests.items[i]).op == op
                ==> (state.requests.items[i].request matches WebTransportRequest::Open {
                direction: asked,
                ..
            } ==> asked == direction),
    ensures
        state.turned_times(turns).serving().has_no_stream(op),
{
    let watch = Watch {
        start: state.core.transport,
        op,
        direction,
        known: |other: u64| true,
        good: |other: u64, id: u64| other != op,
        next_op: state.desk.next_op,
    };
    assert(state.watched(watch));
    lemma_turns_are_watched(state, turns, watch);
}

proof fn lemma_turns_are_watched(state: DriverState, turns: nat, watch: Watch)
    requires
        state.watched(watch),
    ensures
        state.turned_times(turns).watched(watch),
    decreases turns,
{
    if turns > 0 {
        lemma_turn_is_watched(state, watch);
        lemma_turns_are_watched(state.turned(), (turns - 1) as nat, watch);
    }
}

/// What is given back in one direction is allowed in that direction, once both ends have
/// caught up with each other, and in no other.
pub proof fn lemma_credit_returns_to_its_direction(transport: TransportState)
    requires
        transport.bidi_released == 0,
        transport.uni_released == 0,
    ensures
        ({
            let bidi = transport.released(WebTransportStreamDirection::Bidi).advanced();
            let uni = transport.released(WebTransportStreamDirection::Uni).advanced();
            &&& bidi.bidi_limit == capped_sum(transport.bidi_limit, 1)
            &&& bidi.uni_limit == transport.uni_limit
            &&& uni.uni_limit == capped_sum(transport.uni_limit, 1)
            &&& uni.bidi_limit == transport.bidi_limit
        }),
{
}

} // verus!
