//! Scenarios in which the application at the server's end asks something about a
//! session.

use vstd::prelude::*;

use crate::driver::helper::{DriverTestHelper, HelperState};
use crate::peer_log::{reset_code, RawRead};
use crate::table::lookup;
use crate::wire::error_code::{webtransport_error_to_http3, wire_code};
use crate::wire::stream_prefix::WebTransportStreamDirection;
use crate::wt::requests::{
    Answer, WebTransportOpenStreamOutcome, WebTransportOutcome, WebTransportRequest,
    WebTransportStreamControlOutcome,
};
use crate::wt::retention::WebTransportRetentionStats;

verus! {

/// How many turns a stream can take to be opened.
pub const OPENING_TURNS: usize = 4;

/// How many turns the ends of a stream can take to be applied.
pub const RELEASE_TURNS: usize = 8;

impl HelperState {
    /// Whether there is nothing more to wait for: a turn has failed, or a request has
    /// its answer.
    pub open spec fn settles(self, op: u64) -> bool {
        self.driver.core.failed is Some || self.answer(op) is Some
    }

    /// The state after turns of the driver, at most `turns` of them, until one fails
    /// or a request has its answer.
    pub open spec fn awaited(self, op: u64, turns: nat) -> HelperState
        decreases turns,
    {
        if turns == 0 {
            self
        } else if self.turned().settles(op) {
            self.turned()
        } else {
            self.turned().awaited(op, (turns - 1) as nat)
        }
    }

    /// The state after turns of the driver, at most `turns` of them, until one fails
    /// or two requests have their answers.
    pub open spec fn both_awaited(self, first: u64, second: u64, turns: nat) -> HelperState
        decreases turns,
    {
        if turns == 0 {
            self
        } else if self.turned().settles(first) && self.turned().settles(second) {
            self.turned()
        } else {
            self.turned().both_awaited(first, second, (turns - 1) as nat)
        }
    }
}

impl DriverTestHelper {
    /// Runs turns, at most `turns` of them, until one fails or a request has its
    /// answer. Returns whether none failed.
    pub fn await_answer(&mut self, op: u64, turns: usize) -> (well: bool)
        requires
            old(self).wf(),
        ensures
            final(self).wf(),
            final(self)@ == old(self)@.awaited(op, turns as nat),
            turns > 0 ==> well == (final(self)@.driver.core.failed is None),
            turns == 0 ==> well,
    {
        let mut left: usize = turns;
        while left > 0
            invariant
                self.wf(),
                left <= turns,
                left < turns ==> self@.driver.core.failed is None,
                self@.awaited(op, left as nat) == old(self)@.awaited(op, turns as nat),
            decreases left,
        {
            if self.work_loop_iter().is_err() {
                return false;
            }
            if self.is_answered(op) {
                return true;
            }
            left -= 1;
        }
        true
    }

    fn await_both(&mut self, first: u64, second: u64, turns: usize) -> (well: bool)
        requires
            old(self).wf(),
        ensures
            final(self).wf(),
            final(self)@ == old(self)@.both_awaited(first, second, turns as nat),
            turns > 0 ==> well == (final(self)@.driver.core.failed is None),
            turns == 0 ==> well,
    {
        let mut left: usize = turns;
        while left > 0
            invariant
                self.wf(),
                left <= turns,
                left < turns ==> self@.driver.core.failed is None,
                self@.both_awaited(first, second, left as nat) == old(self)@.both_awaited(
                    first,
                    second,
                    turns as nat,
                ),
            decreases left,
        {
            if self.work_loop_iter().is_err() {
                return false;
            }
            if self.is_answered(first) && self.is_answered(second) {
                return true;
            }
            left -= 1;
        }
        true
    }
}

/// The stream that an answer tells of.
pub open spec fn opened_stream(answer: Option<Answer>) -> Option<u64> {
    match answer {
        Some(Answer::Open(WebTransportOpenStreamOutcome::Opened { stream_id })) => Some(stream_id),
        _ => None,
    }
}

/// The state after the application asked for a stream and waited for it.
pub open spec fn stream_awaited(
    state: HelperState,
    session_id: u64,
    direction: WebTransportStreamDirection,
) -> HelperState {
    state.asked(WebTransportRequest::Open { session_id, direction }).awaited(
        state.driver.desk.next_op,
        OPENING_TURNS as nat,
    )
}

fn open_server_webtransport_stream(
    helper: &mut DriverTestHelper,
    session_id: u64,
    direction: WebTransportStreamDirection,
) -> (stream_id: Option<u64>)
    requires
        old(helper).wf(),
    ensures
        final(helper).wf(),
        ({
            let op = old(helper)@.driver.desk.next_op;
            let after = stream_awaited(old(helper)@, session_id, direction);
            if !old(helper)@.driver.requests.admits() {
                stream_id is None && final(helper)@ == old(helper)@
            } else if after.driver.core.failed is Some {
                stream_id is None && final(helper)@ == after
            } else {
                &&& stream_id == opened_stream(after.answer(op))
                &&& final(helper)@ == after.answer_taken(op)
            }
        }),
{
    let op: u64 = match helper.ask(WebTransportRequest::Open { session_id, direction }) {
        Some(op) => op,
        None => {
            return None;
        },
    };
    if !helper.await_answer(op, OPENING_TURNS) {
        return None;
    }
    match helper.take_answer(op) {
        Some(WebTransportOutcome::Open(WebTransportOpenStreamOutcome::Opened { stream_id })) =>
            Some(stream_id),
        _ => None,
    }
}

/// Opens a bidirectional stream of a session, within a few turns of the driver.
/// Returns the stream, if no turn failed and the driver opened it.
pub fn open_server_webtransport_bidi(helper: &mut DriverTestHelper, session_id: u64) -> (stream_id:
    Option<u64>)
    requires
        old(helper).wf(),
    ensures
        final(helper).wf(),
        ({
            let op = old(helper)@.driver.desk.next_op;
            let after = stream_awaited(
                old(helper)@,
                session_id,
                WebTransportStreamDirection::Bidi,
            );
            if !old(helper)@.driver.requests.admits() {
                stream_id is None && final(helper)@ == old(helper)@
            } else if after.driver.core.failed is Some {
                stream_id is None && final(helper)@ == after
            } else {
                &&& stream_id == opened_stream(after.answer(op))
                &&& final(helper)@ == after.answer_taken(op)
            }
        }),
{
    open_server_webtransport_stream(helper, session_id, WebTransportStreamDirection::Bidi)
}

/// Opens a unidirectional stream of a session, within a few turns of the driver.
/// Returns the stream, if no turn failed and the driver opened it.
pub fn open_server_webtransport_uni(helper: &mut DriverTestHelper, session_id: u64) -> (stream_id:
    Option<u64>)
    requires
        old(helper).wf(),
    ensures
        final(helper).wf(),
        ({
            let op = old(helper)@.driver.desk.next_op;
            let after = stream_awaited(old(helper)@, session_id, WebTransportStreamDirection::Uni);
            if !old(helper)@.driver.requests.admits() {
                stream_id is None && final(helper)@ == old(helper)@
            } else if after.driver.core.failed is Some {
                stream_id is None && final(helper)@ == after
            } else {
                &&& stream_id == opened_stream(after.answer(op))
                &&& final(helper)@ == after.answer_taken(op)
            }
        }),
{
    open_server_webtransport_stream(helper, session_id, WebTransportStreamDirection::Uni)
}

/// Asks how the sending direction of a stream ends. Returns the number of the
/// request.
pub fn wait_for_send_terminal(helper: &mut DriverTestHelper, session_id: u64, stream_id: u64) -> (
op: Option<u64>)
    requires
        old(helper).wf(),
    ensures
        final(helper).wf(),
        final(helper)@ == old(helper)@.asked(
            WebTransportRequest::AwaitSendEnd { session_id, stream_id },
        ),
        op == (if old(helper)@.driver.requests.admits() {
            Some(old(helper)@.driver.desk.next_op)
        } else {
            None
        }),
{
    helper.ask(WebTransportRequest::AwaitSendEnd { session_id, stream_id })
}

/// Asks how a session ends. Returns the number of the request.
pub fn wait_for_session_terminal(helper: &mut DriverTestHelper, session_id: u64) -> (op: Option<
    u64,
>)
    requires
        old(helper).wf(),
    ensures
        final(helper).wf(),
        final(helper)@ == old(helper)@.asked(WebTransportRequest::AwaitSessionEnd { session_id }),
        op == (if old(helper)@.driver.requests.admits() {
            Some(old(helper)@.driver.desk.next_op)
        } else {
            None
        }),
{
    helper.ask(WebTransportRequest::AwaitSessionEnd { session_id })
}

/// Wants to hear no more of the sending direction of a stream. Returns the number
/// of the request.
pub fn retire_send_terminal(helper: &mut DriverTestHelper, session_id: u64, stream_id: u64) -> (op:
    Option<u64>)
    requires
        old(helper).wf(),
    ensures
        final(helper).wf(),
        final(helper)@ == old(helper)@.asked(
            WebTransportRequest::RetireSend { session_id, stream_id },
        ),
        op == (if old(helper)@.driver.requests.admits() {
            Some(old(helper)@.driver.desk.next_op)
        } else {
            None
        }),
{
    helper.ask(WebTransportRequest::RetireSend { session_id, stream_id })
}

/// Wants to hear no more of the receiving direction of a stream. Returns the
/// number of the request.
pub fn retire_receive_terminal(helper: &mut DriverTestHelper, session_id: u64, stream_id: u64) -> (
op: Option<u64>)
    requires
        old(helper).wf(),
    ensures
        final(helper).wf(),
        final(helper)@ == old(helper)@.asked(
            WebTransportRequest::RetireReceive { session_id, stream_id },
        ),
        op == (if old(helper)@.driver.requests.admits() {
            Some(old(helper)@.driver.desk.next_op)
        } else {
            None
        }),
{
    helper.ask(WebTransportRequest::RetireReceive { session_id, stream_id })
}

/// Asks what the driver keeps alive, and runs one turn of it. Returns the answer, if
/// the turn goes well.
pub fn webtransport_retention_stats(helper: &mut DriverTestHelper) -> (stats: Option<
    WebTransportRetentionStats,
>)
    requires
        old(helper).wf(),
    ensures
        final(helper).wf(),
        ({
            let op = old(helper)@.driver.desk.next_op;
            let after = old(helper)@.asked(WebTransportRequest::RetentionStats).turned();
            if !old(helper)@.driver.requests.admits() {
                stats is None && final(helper)@ == old(helper)@
            } else if after.driver.core.failed is Some {
                stats is None && final(helper)@ == after
            } else {
                &&& stats == (match after.answer(op) {
                    Some(Answer::Stats(value)) => Some(value),
                    _ => None,
                })
                &&& final(helper)@ == after.answer_taken(op)
            }
        }),
{
    let op: u64 = match helper.ask(WebTransportRequest::RetentionStats) {
        Some(op) => op,
        None => {
            return None;
        },
    };
    if helper.work_loop_iter().is_err() {
        return None;
    }
    match helper.take_answer(op) {
        Some(WebTransportOutcome::Stats(stats)) => Some(stats),
        _ => None,
    }
}

/// Whether an answer says that the end of a direction was applied.
pub open spec fn is_applied(answer: Option<Answer>) -> bool {
    answer == Some(Answer::Control(WebTransportStreamControlOutcome::Applied))
}

/// What it comes to when the peer catches up and looks at a stream that was ended with
/// the given code: it may not write where it could, and it reads a reset.
pub open spec fn end_seen(
    state: HelperState,
    stream_id: u64,
    direction: WebTransportStreamDirection,
    wire_error: u64,
    after: HelperState,
    met: bool,
) -> bool {
    let seen = state.advanced();
    let transport = seen.driver.core.transport;
    if direction == WebTransportStreamDirection::Bidi && lookup(transport.stops_sent, stream_id)
        != Some(wire_error) {
        !met && after == seen
    } else {
        &&& met == (reset_code(transport.log.sent, stream_id) == Some(wire_error))
        &&& after == seen.with_core(seen.driver.core.peer_raw_read(stream_id))
    }
}

/// What it comes to when the application ends both directions of a stream and the
/// peer looks at it. Everything ends where a request is not taken, a turn fails, or
/// an end is not applied.
pub open spec fn releasing(
    state: HelperState,
    session_id: u64,
    stream_id: u64,
    direction: WebTransportStreamDirection,
    application_error: u32,
    after: HelperState,
    met: bool,
) -> bool {
    let wire_error = wire_code(application_error) as u64;
    let reset = state.driver.desk.next_op;
    let asked = state.asked(
        WebTransportRequest::Reset { session_id, stream_id, application_error },
    );
    if !state.driver.requests.admits() {
        !met && after == state
    } else if direction == WebTransportStreamDirection::Bidi {
        let stop = asked.driver.desk.next_op;
        let answered = asked.asked(
            WebTransportRequest::Stop { session_id, stream_id, application_error },
        ).both_awaited(reset, stop, RELEASE_TURNS as nat);
        let taken = answered.answer_taken(reset);
        if !asked.driver.requests.admits() {
            !met && after == asked
        } else if answered.driver.core.failed is Some {
            !met && after == answered
        } else if !is_applied(answered.answer(reset)) {
            !met && after == taken
        } else if !is_applied(taken.answer(stop)) {
            !met && after == taken.answer_taken(stop)
        } else {
            end_seen(taken.answer_taken(stop), stream_id, direction, wire_error, after, met)
        }
    } else {
        let answered = asked.awaited(reset, RELEASE_TURNS as nat);
        let taken = answered.answer_taken(reset);
        if answered.driver.core.failed is Some {
            !met && after == answered
        } else if !is_applied(answered.answer(reset)) {
            !met && after == taken
        } else {
            end_seen(taken, stream_id, direction, wire_error, after, met)
        }
    }
}

fn take_applied(helper: &mut DriverTestHelper, op: u64) -> (applied: bool)
    requires
        old(helper).wf(),
    ensures
        final(helper).wf(),
        final(helper)@ == old(helper)@.answer_taken(op),
        applied == is_applied(old(helper)@.answer(op)),
{
    match helper.take_answer(op) {
        Some(WebTransportOutcome::Control(WebTransportStreamControlOutcome::Applied)) => true,
        _ => false,
    }
}

fn peer_meets_end(
    helper: &mut DriverTestHelper,
    stream_id: u64,
    direction: WebTransportStreamDirection,
    wire_error: u64,
) -> (met: bool)
    requires
        old(helper).wf(),
    ensures
        final(helper).wf(),
        end_seen(old(helper)@, stream_id, direction, wire_error, final(helper)@, met),
{
    helper.advance();
    if direction == WebTransportStreamDirection::Bidi {
        match helper.peer_stream_stopped(stream_id) {
            Some(code) => if code != wire_error {
                return false;
            },
            None => {
                return false;
            },
        }
    }
    match helper.peer_stream_recv(stream_id) {
        RawRead::Reset { error_code } => error_code == wire_error,
        _ => false,
    }
}

/// Ends both directions of a stream of this end, so that the peer allows another
/// one in its place. Returns whether no turn failed, the driver applied that and the
/// peer learns of it.
pub fn release_server_webtransport_stream_credit(
    helper: &mut DriverTestHelper,
    session_id: u64,
    stream_id: u64,
    direction: WebTransportStreamDirection,
    application_error: u32,
) -> (met: bool)
    requires
        old(helper).wf(),
    ensures
        final(helper).wf(),
        releasing(
            old(helper)@,
            session_id,
            stream_id,
            direction,
            application_error,
            final(helper)@,
            met,
        ),
{
    let reset: u64 = match helper.ask(
        WebTransportRequest::Reset { session_id, stream_id, application_error },
    ) {
        Some(op) => op,
        None => {
            return false;
        },
    };
    let wire_error: u64 = webtransport_error_to_http3(application_error);
    if direction == WebTransportStreamDirection::Bidi {
        let stop: u64 = match helper.ask(
            WebTransportRequest::Stop { session_id, stream_id, application_error },
        ) {
            Some(op) => op,
            None => {
                return false;
            },
        };
        if !helper.await_both(reset, stop, RELEASE_TURNS) {
            return false;
        }
        if !take_applied(helper, reset) {
            return false;
        }
        if !take_applied(helper, stop) {
            return false;
        }
    } else {
        if !helper.await_answer(reset, RELEASE_TURNS) {
            return false;
        }
        if !take_applied(helper, reset) {
            return false;
        }
    }
    peer_meets_end(helper, stream_id, direction, wire_error)
}

} // verus!
