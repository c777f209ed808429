//! What the driver tells the application and sends to the peer for the session, told by the
//! events that wait, the request streams and what was sent.

use vstd::prelude::*;

use crate::body_buf::BodyRecvBuf;
use crate::conn_close::H3ConnectionError;
use crate::driver::events::Told;
use crate::driver::reads::lemma_flush_keeps_session;
use crate::driver::state::{flows_of_others, CoreState, Flow};
use crate::driver::transfer_laws::lemma_taken_bytes_are_gone;
use crate::peer_log::{raw_bytes, raw_fin, Sent};
use crate::request_stream::{RequestStream, StreamClosureKind};
use crate::request_stream_laws::{is_noted, sending_is_over};
use crate::table::{lemma_lookup_after_put, lookup, put};
use crate::wt::runtime::RuntimeState;
use crate::wt::types::{SessionEvent, StreamAction};

verus! {

/// The events that wait for the application, oldest first.
pub open spec fn heard(state: CoreState) -> Seq<Told> {
    state.events.lane.items
}

/// Whether the application listens and `n` more events can wait for it.
pub open spec fn hears(state: CoreState, n: int) -> bool {
    &&& !state.controller_gone
    &&& state.failed is None
    &&& state.events.lane.open
    &&& heard(state).len() + n <= state.events.lane.capacity
}

/// An event waits behind the others while the application listens and there is room. Without
/// room the driver fails, and so it does where the application does not listen any more.
/// Nothing is told after that.
pub proof fn lemma_event_waits_or_ends_the_driver(state: CoreState, event: Told)
    ensures
        ({
            let after = state.told(event);
            let silent = state.controller_gone || state.failed is Some;
            &&& silent ==> after == state
            &&& hears(state, 1) ==> heard(after) == heard(state).push(event) && after.failed
                is None
            &&& !hears(state, 1) ==> heard(after) == heard(state)
            &&& !silent && !state.events.lane.open ==> after.failed == Some(
                H3ConnectionError::ControllerWentAway,
            )
            &&& !silent && state.events.lane.open && !hears(state, 1) ==> after.failed == Some(
                H3ConnectionError::EventQueueOverloaded,
            ) && after.events.stats.overloaded
            &&& after.events.lane.open == state.events.lane.open
            &&& after.events.lane.capacity == state.events.lane.capacity
            &&& after == (CoreState { events: after.events, failed: after.failed, ..state })
        }),
{
}

/// The flows that do not belong to a stream.
pub open spec fn of_other_streams(stream_id: u64) -> spec_fn((u64, Flow)) -> bool {
    |row: (u64, Flow)| row.1.stream_id != Some(stream_id)
}

proof fn lemma_flows_of_others(rows: Seq<(u64, Flow)>, stream_id: u64)
    ensures
        flows_of_others(rows, stream_id) == rows.filter(
            of_other_streams(stream_id),
        ),
    decreases rows.len(),
{
    reveal(Seq::filter);
    if rows.len() > 0 {
        lemma_flows_of_others(rows.drop_last(), stream_id);
    }
}

/// A stream that is stored is found again, and no other stream changes. When the driver
/// gives a stream up, the application is told once, and the flows of the stream go with it.
/// Until then nothing else changes.
pub proof fn lemma_stream_is_given_up_once(
    state: CoreState,
    stream_id: u64,
    stream: RequestStream,
    other: u64,
)
    ensures
        ({
            let after = state.with_stream(stream_id, stream);
            let gone = lookup(state.streams, stream_id) matches Some(s) && s.live && !stream.live;
            &&& lookup(after.streams, stream_id) == Some(stream)
            &&& other != stream_id ==> lookup(after.streams, other) == lookup(
                state.streams,
                other,
            )
            &&& gone && hears(state, 1) ==> heard(after) == heard(state).push(
                Told::StreamClosed { stream_id },
            )
            &&& gone ==> after.flows == state.flows.filter(of_other_streams(stream_id))
            &&& gone ==> after.body_buf == (if exists|i: int|
                0 <= i < after.streams.len() && (#[trigger] after.streams[i]).1.live {
                state.body_buf
            } else {
                BodyRecvBuf { room: None }
            })
            &&& !gone ==> after == (CoreState { streams: after.streams, ..state })
            &&& after.transport == state.transport && after.session == state.session
            &&& after.datagrams == state.datagrams && after.raw == state.raw
        }),
{
    reveal(CoreState::with_stream);
    lemma_lookup_after_put(state.streams, stream_id, stream, other);
    lemma_flows_of_others(state.flows, stream_id);
}

/// What an action of the session sends.
pub open spec fn sent_by(action: StreamAction) -> Seq<Sent> {
    match action {
        StreamAction::Reset { stream_id, error_code } => seq![
            Sent::Reset { stream_id, error_code },
        ],
        StreamAction::Stop { .. } => Seq::empty(),
        StreamAction::Finish { stream_id } => seq![
            Sent::Body { stream_id, data: Seq::empty() },
            Sent::Fin { stream_id },
        ],
    }
}

/// What actions of the session send, one after the other.
pub open spec fn sent_by_all(actions: Seq<StreamAction>) -> Seq<Sent>
    decreases actions.len(),
{
    if actions.len() == 0 {
        Seq::empty()
    } else {
        sent_by_all(actions.drop_last()) + sent_by(actions.last())
    }
}

/// Whether `after` tells what `before` does, and behind it at most that streams were given
/// up.
pub open spec fn only_closings(before: Seq<Told>, after: Seq<Told>) -> bool {
    &&& before.len() <= after.len()
    &&& after.take(before.len() as int) == before
    &&& forall|i: int| before.len() <= i < after.len() ==> #[trigger] after[i] is StreamClosed
}

/// An action of the session reaches the peer with its code: a reset and an end are sent, and
/// a refusal is noted unless the stream was refused before. The direction of a request
/// stream that it is about is over, with the code in its statistics.
pub proof fn lemma_action_reaches_the_peer(state: CoreState, action: StreamAction)
    ensures
        ({
            let after = state.performed(action);
            &&& after.transport.log.sent == state.transport.log.sent + sent_by(action)
            &&& after.transport.log.announced == state.transport.log.announced
            &&& only_closings(heard(state), heard(after))
            &&& after.session == state.session
            &&& after.events.lane.open == state.events.lane.open
            &&& after.events.lane.capacity == state.events.lane.capacity
            &&& !(action is Stop) ==> after.transport.stops_sent == state.transport.stops_sent
                && after.raw == state.raw
            &&& action matches StreamAction::Stop { stream_id, error_code } ==> {
                let before = lookup(state.transport.stops_sent, stream_id);
                &&& before is Some ==> after.transport.stops_sent == state.transport.stops_sent
                &&& before is None ==> lookup(after.transport.stops_sent, stream_id) == Some(
                    error_code,
                )
                &&& forall|other: u64|
                    other != stream_id ==> #[trigger] lookup(after.transport.stops_sent, other)
                        == lookup(state.transport.stops_sent, other)
                &&& lookup(state.streams, stream_id) is None ==> raw_bytes(
                    after.raw.sent,
                    stream_id,
                ).len() == 0 && !raw_fin(after.raw.sent, stream_id)
                &&& lookup(state.streams, stream_id) matches Some(stream) ==> (!stream.recv_done
                    ==> {
                    let row = lookup(after.streams, stream_id);
                    &&& row is Some && row->Some_0.recv_done && !row->Some_0.inbound_open
                    &&& is_noted(row->Some_0.audit.sent_stop_sending_error_code, error_code)
                })
            }
            &&& action matches StreamAction::Reset { stream_id, error_code } ==> {
                lookup(state.streams, stream_id) matches Some(stream) ==> (!stream.send_done ==> {
                    let row = lookup(after.streams, stream_id);
                    &&& row is Some && sending_is_over(row->Some_0)
                    &&& is_noted(row->Some_0.audit.sent_reset_stream_error_code, error_code)
                })
            }
            &&& action matches StreamAction::Finish { stream_id } ==> {
                lookup(state.streams, stream_id) matches Some(stream) ==> (!stream.send_done ==> {
                    let row = lookup(after.streams, stream_id);
                    &&& row is Some && sending_is_over(row->Some_0)
                    &&& row->Some_0.audit.sent_stream_fin == StreamClosureKind::Explicit
                })
            }
        }),
{
    reveal(CoreState::performed);
    reveal(CoreState::with_stream);
    let (id, code) = match action {
        StreamAction::Reset { stream_id, error_code } => (stream_id, error_code),
        StreamAction::Stop { stream_id, error_code } => (stream_id, error_code),
        StreamAction::Finish { stream_id } => (stream_id, 0u64),
    };
    assert forall|stream: RequestStream| lookup(
        #[trigger] put(state.streams, id, stream),
        id,
    ) == Some(stream) by {
        lemma_lookup_after_put(state.streams, id, stream, id);
    }
    assert forall|other: u64| other != id implies lookup(
        put(state.transport.stops_sent, id, code),
        other,
    ) == #[trigger] lookup(state.transport.stops_sent, other) by {
        lemma_lookup_after_put(state.transport.stops_sent, id, code, other);
    }
    lemma_lookup_after_put(state.transport.stops_sent, id, code, id);
    lemma_taken_bytes_are_gone(state.raw.sent, id, id);
    let after = state.performed(action);
    assert(after.transport.log.sent =~= state.transport.log.sent + sent_by(action));
    assert(heard(after).take(heard(state).len() as int) =~= heard(state));
}

/// The actions of the session reach the peer one after the other, and a refused stream stays
/// refused with the code that came first.
pub proof fn lemma_actions_reach_the_peer_in_order(
    state: CoreState,
    actions: Seq<StreamAction>,
)
    ensures
        ({
            let after = state.performed_all(actions);
            &&& after.transport.log.sent == state.transport.log.sent + sent_by_all(actions)
            &&& after.transport.log.announced == state.transport.log.announced
            &&& only_closings(heard(state), heard(after))
            &&& forall|id: u64|
                (#[trigger] lookup(state.transport.stops_sent, id)) is Some ==> lookup(
                    after.transport.stops_sent,
                    id,
                ) == lookup(state.transport.stops_sent, id)
            &&& forall|i: int|
                0 <= i < actions.len() && (#[trigger] actions[i]) is Stop ==> lookup(
                    after.transport.stops_sent,
                    actions[i]->Stop_stream_id,
                ) is Some
        }),
    decreases actions.len(),
{
    let after = state.performed_all(actions);
    if actions.len() > 0 {
        let front = actions.drop_last();
        let middle = state.performed_all(front);
        lemma_actions_reach_the_peer_in_order(state, front);
        lemma_action_reaches_the_peer(middle, actions.last());
        assert(after.transport.log.sent =~= state.transport.log.sent + sent_by_all(actions));
        assert(heard(after).take(heard(state).len() as int) =~= heard(middle).take(
            heard(state).len() as int,
        ));
        assert forall|i: int| heard(state).len() <= i < heard(after).len() implies
            #[trigger] heard(after)[i] is StreamClosed by {
            if i < heard(middle).len() {
                assert(heard(after).take(heard(middle).len() as int)[i] == heard(middle)[i]);
            }
        }
        assert forall|id: u64| (#[trigger] lookup(state.transport.stops_sent, id)) is Some implies
            lookup(after.transport.stops_sent, id) == lookup(
            state.transport.stops_sent,
            id,
        ) by {
            assert(lookup(middle.transport.stops_sent, id) is Some);
        }
        assert forall|i: int|
            0 <= i < actions.len() && (#[trigger] actions[i]) is Stop implies lookup(
            after.transport.stops_sent,
            actions[i]->Stop_stream_id,
        ) is Some by {
            if i < front.len() {
                assert(front[i] == actions[i]);
            }
        }
    } else {
        assert(after.transport.log.sent =~= state.transport.log.sent + sent_by_all(actions));
        assert(heard(after).take(heard(state).len() as int) =~= heard(state));
    }
}

/// What the application is told of an event of the session.
pub open spec fn as_told() -> spec_fn(SessionEvent) -> Told {
    |event: SessionEvent| Told::Session(event)
}

proof fn lemma_session_events_are_told(state: CoreState, events: Seq<SessionEvent>)
    requires
        hears(state, events.len() as int),
    ensures
        ({
            let after = state.told_all(events);
            &&& heard(after) == heard(state) + events.map_values(as_told())
            &&& after == (CoreState { events: after.events, ..state })
            &&& after.events.lane.open && after.events.lane.capacity
                == state.events.lane.capacity
        }),
    decreases events.len(),
{
    if events.len() > 0 {
        lemma_session_events_are_told(state, events.drop_last());
    }
    assert(heard(state.told_all(events)) =~= heard(state) + events.map_values(as_told()));
}

/// Whether `after` tells what `before` does, then `list`, and behind it at most that streams
/// were given up.
pub open spec fn tells(before: CoreState, after: CoreState, list: Seq<Told>) -> bool {
    only_closings(heard(before) + list, heard(after))
}

/// What the session has to say is told in its order, what it asked for is done in its order,
/// and neither is said or done again.
pub proof fn lemma_session_is_heard_once(state: CoreState)
    requires
        state.session matches Some(s) && hears(state, s.events.len() as int),
    ensures
        ({
            let s = state.session->Some_0;
            let after = state.flushed();
            &&& after.session == Some(
                RuntimeState { events: Seq::empty(), actions: Seq::empty(), ..s },
            )
            &&& tells(state, after, s.events.map_values(as_told()))
            &&& after.transport.log.sent == state.transport.log.sent + sent_by_all(s.actions)
            &&& forall|i: int|
                0 <= i < s.actions.len() && (#[trigger] s.actions[i]) is Stop ==> lookup(
                    after.transport.stops_sent,
                    s.actions[i]->Stop_stream_id,
                ) is Some
            &&& s.actions.len() == 0 ==> after == (CoreState {
                events: after.events,
                session: after.session,
                ..state
            }) && heard(after) == heard(state) + s.events.map_values(as_told()) && hears(
                after,
                state.events.lane.capacity - heard(state).len() - s.events.len(),
            ) && after.events.lane.capacity == state.events.lane.capacity
        }),
{
    reveal(CoreState::flushed);
    let s = state.session->Some_0;
    let start = state.with_session(
        RuntimeState { events: Seq::empty(), actions: Seq::empty(), ..s },
    );
    lemma_flush_keeps_session(state);
    lemma_session_events_are_told(start, s.events);
    lemma_actions_reach_the_peer_in_order(start.told_all(s.events), s.actions);
}

} // verus!
