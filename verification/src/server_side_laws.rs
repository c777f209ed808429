//! What it means that a step of the two ends of a connection went as it should.

use vstd::prelude::*;

use crate::driver::core_laws::heard;
use crate::driver::events::Told;
use crate::driver::helper::HelperState;
use crate::driver::transfer_laws::{code_of, lemma_codes_tell_their_errors};
use crate::headers::Header;
use crate::peer_log::{poll_from, reset_code, PeerEvent};
use crate::server_requests::{end_seen, is_applied, opened_stream, releasing};
use crate::server_side_driver::{
    accepting, dgram_taken, events_drained, flow_opening, is_first_session_event, next_dgram_is,
    response_waiting, session_opening,
};
use crate::table::lookup;
use crate::transport::TransportState;
use crate::wire::datagram::{datagram_bytes, lemma_datagram_round_trip};
use crate::wire::stream_prefix::WebTransportStreamDirection;
use crate::wire::varint::varint_bytes;
use crate::wt::requests::{
    Answer, WebTransportOpenStreamOutcome, WebTransportStreamControlOutcome,
};
use crate::wt::types::SessionEvent;

verus! {

/// The events that wait for the application.
pub open spec fn waiting_events(state: HelperState) -> Seq<Told> {
    heard(state.driver.core)
}

/// The next datagram of the peer is the one of a flow with a payload exactly if that is what
/// was sent: the number of the flow and the payload behind it, in at most 128 bytes. Taking it
/// takes just that one.
pub proof fn lemma_next_datagram_is_what_was_sent(
    state: HelperState,
    flow_id: u64,
    payload: Seq<u8>,
    sent_flow_id: u64,
    sent: Seq<u8>,
)
    requires
        sent_flow_id <= 4_611_686_018_427_387_903,
        state.driver.core.transport.dgrams_arrived.len() > 0,
        state.driver.core.transport.dgrams_arrived[0] == varint_bytes(sent_flow_id) + sent,
    ensures
        next_dgram_is(state, flow_id, payload) <==> flow_id == sent_flow_id && payload == sent
            && (varint_bytes(sent_flow_id) + sent).len() <= 128,
        dgram_taken(state).driver.core.transport.dgrams_arrived
            == state.driver.core.transport.dgrams_arrived.drop_first(),
{
    lemma_datagram_round_trip(sent_flow_id, sent);
    assert(datagram_bytes(sent_flow_id, sent) == varint_bytes(sent_flow_id) + sent);
    let arrived = state.driver.core.transport.dgrams_arrived;
    assert(arrived.skip(1) =~= arrived.drop_first());
}

/// Taking events takes the oldest, as many as there are to take.
pub proof fn lemma_events_are_drained_in_order(state: HelperState, count: nat)
    requires
        count <= waiting_events(state).len(),
    ensures
        waiting_events(events_drained(state, count)) == waiting_events(state).skip(count as int),
    decreases count,
{
    reveal(HelperState::event_taken);
    if count > 0 {
        lemma_events_are_drained_in_order(state.event_taken(), (count - 1) as nat);
        assert(waiting_events(state).skip(1).skip(count - 1) =~= waiting_events(state).skip(
            count as int,
        ));
    } else {
        assert(waiting_events(state).skip(0) =~= waiting_events(state));
    }
}

/// The first event about a session is one, and none before it is.
pub proof fn lemma_first_session_event_is_one(events: Seq<Told>, index: int, other: int)
    requires
        is_first_session_event(events, index),
        is_first_session_event(events, other),
    ensures
        index == other,
        events[index] is Session,
{
}

/// So many turns of the driver.
pub open spec fn after_turns(state: HelperState, turns: nat) -> HelperState
    decreases turns,
{
    if turns == 0 {
        state
    } else {
        after_turns(state, (turns - 1) as nat).turned()
    }
}

proof fn lemma_turns_add_up(state: HelperState, turns: nat)
    ensures
        after_turns(state.turned(), turns) == after_turns(state, turns + 1),
    decreases turns,
{
    reveal_with_fuel(after_turns, 2);
    if turns > 0 {
        lemma_turns_add_up(state, (turns - 1) as nat);
    }
}

/// Whether waiting for an answer is over after so many turns: the last of them failed or
/// gave the answer.
#[verifier::opaque]
pub open spec fn is_over_after(state: HelperState, op: u64, turns: nat) -> bool {
    after_turns(state, turns).settles(op)
}

/// Whether waiting took just so many turns: it ended with the first turn that failed or gave
/// the answer, or with the last that was allowed.
pub open spec fn waited_for(
    state: HelperState,
    op: u64,
    turns: nat,
    taken: nat,
    after: HelperState,
) -> bool {
    &&& taken <= turns
    &&& after == after_turns(state, taken)
    &&& taken < turns ==> taken > 0 && is_over_after(state, op, taken)
    &&& forall|n: nat| 0 < n < taken ==> !(#[trigger] is_over_after(state, op, n))
}

proof fn lemma_waiting_goes_on(state: HelperState, op: u64, turns: nat)
    ensures
        is_over_after(state.turned(), op, turns) == is_over_after(state, op, turns + 1),
        after_turns(state.turned(), turns) == after_turns(state, turns + 1),
{
    reveal(is_over_after);
    lemma_turns_add_up(state, turns);
}

proof fn lemma_first_turn(state: HelperState, op: u64)
    ensures
        is_over_after(state, op, 1) == state.turned().settles(op),
        after_turns(state, 1) == state.turned(),
{
    reveal(is_over_after);
    reveal_with_fuel(after_turns, 2);
}

proof fn lemma_waiting_step(state: HelperState, op: u64, turns: nat)
    ensures
        turns == 0 ==> state.awaited(op, turns) == state,
        turns > 0 && is_over_after(state, op, 1) ==> state.awaited(op, turns) == state.turned(),
        turns > 0 && !is_over_after(state, op, 1) ==> state.awaited(op, turns)
            == state.turned().awaited(op, (turns - 1) as nat),
{
    lemma_first_turn(state, op);
}

/// Waiting for an answer goes on turn by turn until it is there, a turn fails, or there are
/// no turns left.
pub proof fn lemma_waiting_ends_with_the_answer(state: HelperState, op: u64, turns: nat)
    ensures
        exists|taken: nat| #[trigger] waited_for(
            state,
            op,
            turns,
            taken,
            state.awaited(op, turns),
        ),
    decreases turns,
{
    let after = state.awaited(op, turns);
    lemma_waiting_step(state, op, turns);
    lemma_first_turn(state, op);
    if turns == 0 {
        assert(waited_for(state, op, turns, 0, after));
    } else if is_over_after(state, op, 1) {
        assert(waited_for(state, op, turns, 1, after));
    } else {
        let less = (turns - 1) as nat;
        lemma_waiting_ends_with_the_answer(state.turned(), op, less);
        let taken = choose|taken: nat| #[trigger] waited_for(
            state.turned(),
            op,
            less,
            taken,
            state.turned().awaited(op, less),
        );
        lemma_waiting_goes_on(state, op, taken);
        assert forall|n: nat| 0 < n < taken + 1 implies !(#[trigger] is_over_after(
            state,
            op,
            n,
        )) by {
            if n > 1 {
                lemma_waiting_goes_on(state, op, (n - 1) as nat);
            }
        }
        assert(waited_for(state, op, turns, taken + 1, after));
    }
}

/// An answer tells of an opened stream exactly if it says so, and of an end that was applied
/// exactly if it says so.
pub proof fn lemma_answers_are_taken_at_their_word(answer: Option<Answer>)
    ensures
        opened_stream(answer) is Some <==> (answer matches Some(
            Answer::Open(WebTransportOpenStreamOutcome::Opened { .. }),
        )),
        opened_stream(answer) matches Some(stream_id) ==> answer == Some(
            Answer::Open(WebTransportOpenStreamOutcome::Opened { stream_id }),
        ),
        is_applied(answer) <==> (answer matches Some(Answer::Control(outcome)) && outcome
            == WebTransportStreamControlOutcome::Applied),
{
}

/// The peer has seen the end of a stream exactly if it finds the reset with its code, and on a
/// stream with two directions the refusal with its code too.
pub proof fn lemma_end_is_seen_with_its_code(
    state: HelperState,
    stream_id: u64,
    direction: WebTransportStreamDirection,
    wire_error: u64,
    after: HelperState,
    met: bool,
)
    requires
        end_seen(state, stream_id, direction, wire_error, after, met),
    ensures
        ({
            let transport = state.advanced().driver.core.transport;
            met <==> reset_code(transport.log.sent, stream_id) == Some(wire_error) && (direction
                is Bidi ==> lookup(transport.stops_sent, stream_id) == Some(wire_error))
        }),
{
}

/// A stream that was released was reset with the code of the given error, and the peer can
/// see that; on a stream with two directions it was refused with that code too.
pub proof fn lemma_released_stream_carries_the_error(
    state: HelperState,
    session_id: u64,
    stream_id: u64,
    direction: WebTransportStreamDirection,
    application_error: u32,
    after: HelperState,
)
    requires
        releasing(state, session_id, stream_id, direction, application_error, after, true),
    ensures
        ({
            let transport = after.driver.core.transport;
            let code = code_of(application_error) as u64;
            &&& reset_code(transport.log.sent, stream_id) == Some(code)
            &&& direction is Bidi ==> lookup(transport.stops_sent, stream_id) == Some(code)
        }),
{
    reveal(TransportState::peer_raw_read);
    lemma_codes_tell_their_errors(0);
}

/// A session that the peer has opened is the one of its next request stream, and the
/// application learned of the session first and of the request next.
pub proof fn lemma_opened_session_was_told(
    state: HelperState,
    headers: Vec<Header>,
    after: HelperState,
    stream_id: u64,
)
    requires
        session_opening(state, headers, after, Some(stream_id)),
        state.peer_requests < 1_152_921_504_606_846_975,
    ensures
        ({
            let told = waiting_events(state.peer_requested(headers, false).ran());
            &&& stream_id == 4 * state.peer_requests
            &&& told.len() >= 2
            &&& told[0] == Told::Session(SessionEvent::Pending { session_id: stream_id })
            &&& told[1] matches Told::Headers { stream_id: id, .. } && id == stream_id
            &&& waiting_events(after) == told.skip(2)
        }),
{
    reveal(session_opening);
    reveal(HelperState::next_event);
    reveal(HelperState::event_taken);
    let told = waiting_events(state.peer_requested(headers, false).ran());
    assert(told.skip(1).skip(1) =~= told.skip(2));
}

/// A session that was accepted was told so first, and the peer got the response.
pub proof fn lemma_accepted_session_was_told(
    state: HelperState,
    stream_id: u64,
    headers: Vec<Header>,
    after: HelperState,
)
    requires
        accepting(state, stream_id, headers, after, true),
    ensures
        lookup(state.driver.core.streams, stream_id) matches Some(stream) && stream.outbound_open
            && stream.outbound is None,
        ({
            let stream = lookup(state.driver.core.streams, stream_id)->Some_0;
            let ran = response_waiting(state, stream_id, stream, headers).ran();
            let log = ran.driver.core.transport.log;
            &&& waiting_events(ran).len() >= 1
            &&& waiting_events(ran)[0] == Told::Session(
                SessionEvent::Accepted { session_id: stream_id },
            )
            &&& poll_from(log.sent, log.announced, 0).event == Some(
                (stream_id, PeerEvent::Headers),
            )
            &&& waiting_events(after) == waiting_events(ran).skip(1)
        }),
{
    reveal(accepting);
    reveal(HelperState::next_event);
    reveal(HelperState::event_taken);
}

/// A flow that the peer has opened is the one that the application learned of first, with the
/// request next.
pub proof fn lemma_opened_flow_was_told(
    state: HelperState,
    headers: Vec<Header>,
    after: HelperState,
    flow_id: u64,
)
    requires
        flow_opening(state, headers, after, Some(flow_id)),
    ensures
        ({
            let started = state.handshaken().ran();
            let told = waiting_events(started.peer_requested(headers, false).ran());
            &&& told.len() >= 2
            &&& told[0] == (Told::NewFlow { flow_id })
            &&& told[1] is Headers
            &&& waiting_events(after) == told.skip(2)
        }),
{
    reveal(flow_opening);
    reveal(HelperState::next_event);
    reveal(HelperState::event_taken);
    let started = state.handshaken().ran();
    let told = waiting_events(started.peer_requested(headers, false).ran());
    assert(told.skip(1).skip(1) =~= told.skip(2));
}

} // verus!
