//! Which datagrams belong to a session, and what becomes of them.

use vstd::prelude::*;

use crate::driver::desk::{ReadyKind, Serving};
use crate::driver::state::CoreState;
use crate::driver::transfer_laws::is_active;
use crate::request_stream::capped_sum;
use crate::table::{distinct, lemma_lookup_after_put, lemma_lookup_after_without, lookup};
use crate::transport::TransportState;
use crate::wire::datagram::{lemma_datagram_round_trip, session_flow_id, split_bytes};
use crate::wire::varint::{lemma_varint_round_trip, varint_bytes};
use crate::wt::datagrams::{
    bytes_of, count_of, first_of, of_others, total_bytes, DatagramState, Overflow, Received,
};
use crate::wt::requests::{Answer, DatagramReadAnswer, DatagramSendAnswer, WebTransportReadyOutcome};
use crate::wt::runtime::SessionPhase;
use crate::wt::types::WebTransportSelectionError;

verus! {

/// Which datagrams came on a flow.
pub open spec fn on_flow(flow_id: u64) -> spec_fn(Received) -> bool {
    |datagram: Received| datagram.flow_id == flow_id
}

/// Which datagrams came on another flow.
pub open spec fn off_flow(flow_id: u64) -> spec_fn(Received) -> bool {
    |datagram: Received| datagram.flow_id != flow_id
}

/// A number of bytes and those of one more datagram.
pub open spec fn and_its_bytes() -> spec_fn(int, Received) -> int {
    |sum: int, datagram: Received| sum + datagram.payload.len()
}

/// The datagrams of a session have the flow that is a fourth of its identifier: that of the
/// session 4 * `flow_id` is `flow_id`.
pub proof fn lemma_session_has_a_fourth_as_its_flow(session_id: u64, flow_id: u64)
    ensures
        session_flow_id(session_id) as int == session_id as int / 4,
        session_id % 4 == 0 ==> 4 * session_flow_id(session_id) == session_id,
        4 * flow_id <= u64::MAX ==> session_flow_id((4 * flow_id) as u64) == flow_id,
{
}

proof fn lemma_counts(queue: Seq<Received>, flow_id: u64)
    ensures
        count_of(queue, flow_id) == queue.filter(on_flow(flow_id)).len(),
        total_bytes(queue) == queue.fold_left(0, and_its_bytes()),
        bytes_of(queue, flow_id) == queue.filter(on_flow(flow_id)).fold_left(0, and_its_bytes()),
        of_others(queue, flow_id) == queue.filter(off_flow(flow_id)),
    decreases queue.len(),
{
    reveal(Seq::filter);
    if queue.len() > 0 {
        let front = queue.drop_last();
        lemma_counts(front, flow_id);
        let kept = front.filter(on_flow(flow_id));
        assert(kept.push(queue.last()).drop_last() =~= kept);
    }
}

proof fn lemma_first(queue: Seq<Received>, flow_id: u64)
    ensures
        0 <= first_of(queue, flow_id) <= queue.len(),
        first_of(queue, flow_id) < queue.len() <==> queue.filter(on_flow(flow_id)).len() > 0,
        first_of(queue, flow_id) < queue.len() ==> {
            &&& queue.filter(on_flow(flow_id))[0] == queue[first_of(queue, flow_id)]
            &&& queue[first_of(queue, flow_id)].flow_id == flow_id
        },
    decreases queue.len(),
{
    reveal(Seq::filter);
    if queue.len() > 0 {
        lemma_first(queue.drop_last(), flow_id);
    }
}

proof fn lemma_removed(queue: Seq<Received>, flow_id: u64, other: u64)
    requires
        first_of(queue, flow_id) < queue.len(),
    ensures
        queue.remove(first_of(queue, flow_id)).filter(on_flow(flow_id)) == queue.filter(
            on_flow(flow_id),
        ).drop_first(),
        other != flow_id ==> queue.remove(first_of(queue, flow_id)).filter(on_flow(other))
            == queue.filter(on_flow(other)),
    decreases queue.len(),
{
    reveal(Seq::filter);
    lemma_first(queue, flow_id);
    let at = first_of(queue, flow_id);
    let front = queue.drop_last();
    let all = queue.filter(on_flow(flow_id));
    lemma_first(front, flow_id);
    if at == queue.len() - 1 {
        assert(queue.remove(at) =~= front);
        assert(front.filter(on_flow(flow_id)).len() == 0);
        assert(front.filter(on_flow(flow_id)) =~= all.drop_first());
    } else {
        lemma_removed(front, flow_id, other);
        assert(queue.remove(at).drop_last() =~= front.remove(at));
        assert(queue.remove(at).last() == queue.last());
        let kept = front.filter(on_flow(flow_id));
        if queue.last().flow_id == flow_id {
            assert(all.drop_first() =~= kept.drop_first().push(queue.last()));
        }
    }
}

/// A received datagram is kept behind those of its flow that wait already, as long as there
/// is room: for one more of all flows and of its own, and for its bytes. One without room
/// is counted as lost with its bytes, and what waits stays as it is.
pub proof fn lemma_arriving_datagram_is_kept_or_counted(
    state: DatagramState,
    datagram: Received,
    other: u64,
)
    ensures
        ({
            let after = state.arrived(datagram);
            let flow_id = datagram.flow_id;
            let mine = state.queue.filter(on_flow(flow_id));
            let len = datagram.payload.len();
            let room = state.queue.len() < state.limits.max_count && mine.len()
                < state.limits.max_count_per_flow && state.queue.fold_left(0, and_its_bytes())
                + len <= state.limits.max_bytes && mine.fold_left(0, and_its_bytes()) + len
                <= state.limits.max_bytes_per_flow;
            let before = match lookup(state.lost, flow_id) {
                Some(lost) => lost,
                None => Overflow { datagrams: 0, bytes: 0 },
            };
            let lost = lookup(after.lost, flow_id);
            &&& room ==> after == (DatagramState { queue: state.queue.push(datagram), ..state })
            &&& !room ==> {
                &&& after.queue == state.queue
                &&& after.limits == state.limits
                &&& lost is Some
                &&& before.datagrams < u64::MAX ==> lost->Some_0.datagrams == before.datagrams + 1
                &&& before.bytes + len <= u64::MAX ==> lost->Some_0.bytes == before.bytes + len
                &&& other != flow_id ==> lookup(after.lost, other) == lookup(state.lost, other)
            }
        }),
{
    lemma_counts(state.queue, datagram.flow_id);
    let lost = state.lost_of(datagram.flow_id);
    let more = Overflow {
        datagrams: capped_sum(lost.datagrams, 1),
        bytes: capped_sum(lost.bytes, datagram.payload.len() as int),
    };
    lemma_lookup_after_put(state.lost, datagram.flow_id, more, datagram.flow_id);
    lemma_lookup_after_put(state.lost, datagram.flow_id, more, other);
}

/// Sending a datagram on the active session. It leaves on the flow that is a fourth of the
/// session's identifier: what the peer gets begins with that number, and the datagram
/// follows. Together they have at most 1200 bytes; a longer one is refused with the length
/// that there is room for. One that finds the queue full is blocked. Either comes back, and
/// nothing is sent.
pub proof fn lemma_datagram_leaves_on_the_flow_of_its_session(
    state: Serving,
    op: u64,
    session_id: u64,
    datagram: Seq<u8>,
)
    requires
        is_active(state, session_id),
        datagram.len() <= usize::MAX,
    ensures
        ({
            let after = state.datagram_send_requested(op, session_id, datagram);
            let (number, answer) = after.desk.answers.last();
            let told = answer->DatagramSent_0;
            let queued = state.core.transport.dgrams_queued;
            let front = varint_bytes((session_id as int / 4) as u64);
            let role = state.core.transport.role;
            let bound = if role is Client {
                state.core.transport.pipe.client.dgram_send_queue_len
            } else {
                state.core.transport.pipe.server.dgram_send_queue_len
            };
            let max = 1200 - front.len();
            &&& number == op
            &&& answer is DatagramSent
            &&& datagram.len() > max ==> told == (DatagramSendAnswer::TooLarge {
                max: max as usize,
                datagram,
            })
            &&& datagram.len() <= max && queued.len() >= bound ==> told
                == DatagramSendAnswer::Blocked(datagram)
            &&& datagram.len() > max || queued.len() >= bound ==> after.core == state.core
            &&& datagram.len() <= max && queued.len() < bound ==> {
                &&& told == DatagramSendAnswer::Accepted
                &&& after.core.transport == (TransportState {
                    dgrams_queued: queued.push(front + datagram),
                    ..state.core.transport
                })
                &&& after.core == (CoreState { transport: after.core.transport, ..state.core })
                &&& split_bytes(after.core.transport.dgrams_queued.last()) == Some(
                    ((session_id as int / 4) as u64, datagram),
                )
            }
            &&& state.max_datagram_requested(op, session_id).desk.answers.last().1
                == Answer::MaxDatagram(Ok(max as usize))
        }),
{
    reveal(Serving::datagram_send_requested);
    lemma_session_has_a_fourth_as_its_flow(session_id, 0);
    let flow_id = session_flow_id(session_id);
    lemma_datagram_round_trip(flow_id, datagram);
    lemma_varint_round_trip(flow_id, datagram);
}

/// Reading the datagrams of the active session: those that came on the flow that is a fourth
/// of its identifier, oldest first, and no others. What was lost of them is told before, once.
/// What waits on other flows stays as it is.
pub proof fn lemma_session_reads_its_own_flow(
    state: Serving,
    op: u64,
    session_id: u64,
    other: u64,
)
    requires
        is_active(state, session_id),
        distinct(state.core.datagrams.lost),
    ensures
        ({
            let after = state.datagram_read_requested(op, session_id);
            let (number, answer) = after.desk.answers.last();
            let told = answer->DatagramRead_0;
            let flow_id = (session_id as int / 4) as u64;
            let before = state.core.datagrams;
            let now = after.core.datagrams;
            let mine = before.queue.filter(on_flow(flow_id));
            let lost = lookup(before.lost, flow_id);
            &&& number == op
            &&& answer is DatagramRead
            &&& lost is Some ==> {
                &&& told == (DatagramReadAnswer::Overflow {
                    datagrams: lost->Some_0.datagrams,
                    bytes: lost->Some_0.bytes,
                })
                &&& lookup(now.lost, flow_id) is None
                &&& now.queue == before.queue
            }
            &&& lost is None && mine.len() > 0 ==> {
                &&& told == DatagramReadAnswer::Datagram(mine[0].payload)
                &&& now.queue.filter(on_flow(flow_id)) == mine.drop_first()
            }
            &&& lost is None && mine.len() == 0 ==> told == DatagramReadAnswer::Empty && now
                == before
            &&& other != flow_id ==> {
                &&& now.queue.filter(on_flow(other)) == before.queue.filter(on_flow(other))
                &&& lookup(now.lost, other) == lookup(before.lost, other)
            }
            &&& after.core == (CoreState { datagrams: now, ..state.core })
        }),
{
    reveal(Serving::datagram_read_requested);
    lemma_session_has_a_fourth_as_its_flow(session_id, 0);
    let flow_id = session_flow_id(session_id);
    let before = state.core.datagrams;
    lemma_first(before.queue, flow_id);
    if first_of(before.queue, flow_id) < before.queue.len() {
        lemma_removed(before.queue, flow_id, other);
    }
    lemma_lookup_after_without(before.lost, flow_id, flow_id);
    lemma_lookup_after_without(before.lost, flow_id, other);
}

/// What the peer sends on a flow reaches the session that has four times its number, as long
/// as that can still use it: it waits with the datagrams of that flow, with just the bytes
/// behind the number.
pub proof fn lemma_datagram_of_the_peer_reaches_its_session(
    state: CoreState,
    flow_id: u64,
    payload: Seq<u8>,
)
    requires
        state.session is Some,
        flow_id <= 0x0fff_ffff_ffff_ffff,
    ensures
        ({
            let after = state.datagram_arrived(varint_bytes(flow_id) + payload);
            let named = Received { flow_id, payload, allocation: payload.len() };
            let error = state.session->Some_0.selection((4 * flow_id) as u64);
            let over = error == Some(WebTransportSelectionError::TerminalSession) || error == Some(
                WebTransportSelectionError::StaleSession,
            );
            &&& !over || lookup(state.flows, flow_id) is Some ==> after == (CoreState {
                datagrams: state.datagrams.arrived(named),
                ..state
            })
            &&& over && lookup(state.flows, flow_id) is None ==> after == state
        }),
{
    reveal(CoreState::datagram_arrived);
    lemma_datagram_round_trip(flow_id, payload);
    assert((flow_id * 4) as u64 == (4 * flow_id) as u64);
}

/// A datagram that the peer sends to the active session while nothing of its flow waits is
/// what the next read of the session gives.
pub proof fn lemma_sent_datagram_is_read_back(
    state: Serving,
    op: u64,
    flow_id: u64,
    payload: Seq<u8>,
)
    requires
        flow_id <= 0x0fff_ffff_ffff_ffff,
        is_active(state, (4 * flow_id) as u64),
        state.core.datagrams.queue.filter(on_flow(flow_id)).len() == 0,
        lookup(state.core.datagrams.lost, flow_id) is None,
        distinct(state.core.datagrams.lost),
        state.core.datagrams.fits(flow_id, payload.len() as int),
    ensures
        ({
            let arrived = state.core.datagram_arrived(varint_bytes(flow_id) + payload);
            let after = (Serving { core: arrived, ..state }).datagram_read_requested(
                op,
                (4 * flow_id) as u64,
            );
            after.desk.answers.last() == (
                op,
                Answer::DatagramRead(DatagramReadAnswer::Datagram(payload)),
            )
        }),
{
    reveal(Seq::filter);
    lemma_datagram_of_the_peer_reaches_its_session(state.core, flow_id, payload);
    let arrived = state.core.datagram_arrived(varint_bytes(flow_id) + payload);
    let next = Serving { core: arrived, ..state };
    let named = Received { flow_id, payload, allocation: payload.len() };
    let queue = state.core.datagrams.queue;
    assert(arrived.datagrams.queue == queue.push(named));
    assert(queue.push(named).drop_last() =~= queue);
    assert(queue.push(named).filter(on_flow(flow_id)) == queue.filter(on_flow(flow_id)).push(
        named,
    ));
    lemma_session_reads_its_own_flow(next, op, (4 * flow_id) as u64, flow_id);
}

/// Who waits for a datagram of the active session is told as soon as one of its flow waits
/// or was lost, and who waits for room as soon as one more can be sent.
pub proof fn lemma_datagram_waits_end_in_time(state: Serving, session_id: u64)
    requires
        is_active(state, session_id),
    ensures
        ({
            let flow_id = (session_id as int / 4) as u64;
            let waiting = state.core.datagrams;
            let readable = lookup(waiting.lost, flow_id) is Some || waiting.queue.filter(
                on_flow(flow_id),
            ).len() > 0;
            let bound = if state.core.transport.role is Client {
                state.core.transport.pipe.client.dgram_send_queue_len
            } else {
                state.core.transport.pipe.server.dgram_send_queue_len
            };
            &&& state.readiness(session_id, ReadyKind::Datagram) == if readable {
                Some(WebTransportReadyOutcome::Ready)
            } else {
                None
            }
            &&& state.readiness(session_id, ReadyKind::DatagramRoom) == if
            state.core.transport.dgrams_queued.len() < bound {
                Some(WebTransportReadyOutcome::Ready)
            } else {
                None
            }
        }),
{
    lemma_session_has_a_fourth_as_its_flow(session_id, 0);
    lemma_first(state.core.datagrams.queue, session_flow_id(session_id));
}

/// Once a session is over, no datagram of it is kept, unless its flow is in use otherwise,
/// and those of other flows stay.
pub proof fn lemma_datagrams_go_with_their_session(state: Serving, other: u64)
    requires
        state.core.session matches Some(s) && (s.session matches Some(session) && session.phase
            == SessionPhase::Terminal),
        distinct(state.core.datagrams.lost),
    ensures
        ({
            let after = state.datagrams_settled();
            let id = state.core.session->Some_0.session->Some_0.id;
            let flow_id = (id as int / 4) as u64;
            if lookup(state.core.flows, flow_id) is Some {
                after == state
            } else {
                &&& after.core.datagrams.queue == state.core.datagrams.queue.filter(
                    off_flow(flow_id),
                )
                &&& lookup(after.core.datagrams.lost, flow_id) is None
                &&& other != flow_id ==> lookup(after.core.datagrams.lost, other) == lookup(
                    state.core.datagrams.lost,
                    other,
                )
                &&& after == (Serving {
                    core: CoreState { datagrams: after.core.datagrams, ..state.core },
                    ..state
                })
            }
        }),
{
    reveal(Serving::datagrams_settled);
    let id = state.core.session->Some_0.session->Some_0.id;
    lemma_session_has_a_fourth_as_its_flow(id, 0);
    let flow_id = session_flow_id(id);
    lemma_counts(state.core.datagrams.queue, flow_id);
    lemma_lookup_after_without(state.core.datagrams.lost, flow_id, flow_id);
    lemma_lookup_after_without(state.core.datagrams.lost, flow_id, other);
}

} // verus!
