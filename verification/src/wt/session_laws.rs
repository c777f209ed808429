//! What holds of a session whatever happens to it, and in whatever order.

use vstd::prelude::*;

use crate::table::{
    distinct, lemma_distinct_is_kept, lemma_position, lookup, position, put, without,
};
use crate::wt::runtime::{
    associations, handed_over, is_session_id, other_streams, waiting_count, CloseState,
    RuntimeState, SessionPhase, SessionState, SessionStream,
};
use crate::wt::types::{CloseReason, SessionEvent};

verus! {

/// Something that happens to the session of a connection or to its streams.
pub ghost enum Step {
    Ask { id: u64 },
    Announce { id: u64 },
    Withdraw,
    Answer { status: u16 },
    AdmitStreams,
    Receive { bytes: Seq<u8> },
    ReadCapsules,
    PeerClose { reason: CloseReason, rest: Seq<u8> },
    PeerEnd { reason: CloseReason },
    LocalEnd,
    PeerStop { error_code: u64 },
    StreamArrives { stream_id: u64, session_id: u64, prefix_len: usize, others: nat },
    StreamOpens { stream_id: u64, session_id: u64, prefix_len: usize },
    StreamIsForgotten { stream_id: u64 },
    BeginClose { close: CloseState },
    CommitClose,
    Disconnect,
}

/// The state after one step.
pub open spec fn after(state: RuntimeState, step: Step) -> RuntimeState {
    match step {
        Step::Ask { id } => state.asked(id),
        Step::Announce { id } => state.saying(
            SessionEvent::Pending { session_id: id },
        ),
        Step::Withdraw => match state.session {
            Some(s) => RuntimeState {
                session: None,
                retired: state.retired_with(s.id),
                held: Seq::empty(),
                ..state.without_streams(s.id)
            },
            None => state,
        },
        Step::Answer { status } => state.answered(status),
        Step::AdmitStreams => state.admitted(),
        Step::Receive { bytes } => state.received(bytes),
        Step::ReadCapsules => state.capsules_read(),
        Step::PeerClose { reason, rest } => if state.session matches Some(s)
            && s.carries_streams() {
            (RuntimeState { held: rest, ..state }).closed_by_peer(reason, rest.len())
        } else {
            state
        },
        Step::PeerEnd { reason } => state.peer_ended(reason),
        Step::LocalEnd => state.locally_ended(),
        Step::PeerStop { error_code } => state.stopped(error_code),
        Step::StreamArrives { stream_id, session_id, prefix_len, others } => state.stream_arrived(
            stream_id,
            session_id,
            prefix_len,
            others,
        ),
        Step::StreamOpens { stream_id, session_id, prefix_len } => if state.selection(
            session_id,
        ) is None {
            state.stream_opened(stream_id, session_id, prefix_len)
        } else {
            state
        },
        Step::StreamIsForgotten { stream_id } => RuntimeState {
            streams: without(state.streams, stream_id),
            ..state
        },
        Step::BeginClose { close } => if state.session matches Some(s) && s.phase
            == SessionPhase::Active {
            RuntimeState {
                session: Some(
                    SessionState {
                        phase: SessionPhase::Closing,
                        close: Some(close),
                        ..state.session->Some_0
                    },
                ),
                ..state
            }
        } else {
            state
        },
        Step::CommitClose => state.close_committed(),
        Step::Disconnect => state.disconnected(),
    }
}

/// What holds of every state: no stream has two rows, a stream is handed over
/// only while its session is accepted and not over, the streams that wait stay
/// within the bound, and bytes are held only for a session that is not over.
pub open spec fn sound(state: RuntimeState) -> bool {
    &&& distinct(state.streams)
    &&& forall|i: int|
        0 <= i < state.streams.len() && (#[trigger] state.streams[i]).1.owned ==> (
        state.session matches Some(s) && s.id == state.streams[i].1.session_id
            && s.carries_streams())
    &&& waiting_count(state.streams) <= state.max_pending
    &&& state.held.len() > 0 ==> (state.session matches Some(s) && (s.is_live() || s.peer_closed))
    &&& state.session matches Some(s) ==> is_session_id(s.id)
}

proof fn lemma_other_streams(rows: Seq<(u64, SessionStream)>, id: u64)
    ensures
        other_streams(rows, id).len() <= rows.len(),
        waiting_count(other_streams(rows, id)) <= waiting_count(rows),
        forall|i: int|
            0 <= i < other_streams(rows, id).len() ==> {
                &&& (#[trigger] other_streams(rows, id)[i]).1.session_id != id
                &&& rows.contains(other_streams(rows, id)[i])
            },
        distinct(rows) ==> distinct(other_streams(rows, id)),
    decreases rows.len(),
{
    if rows.len() > 0 {
        let front = rows.drop_last();
        lemma_other_streams(front, id);
        let kept = other_streams(front, id);
        let all = other_streams(rows, id);
        assert forall|i: int| 0 <= i < all.len() implies all[i].1.session_id != id
            && rows.contains(all[i]) by {
            if i < kept.len() {
                assert(front.contains(kept[i]));
                let j = choose|j: int| 0 <= j < front.len() && front[j] == kept[i];
                assert(rows[j] == all[i]);
            } else {
                assert(rows[rows.len() - 1] == all[i]);
            }
        }
        if rows.last().1.session_id != id {
            assert(all.drop_last() =~= kept);
            if distinct(rows) {
                assert forall|i: int, j: int| 0 <= i < j < all.len() implies all[i].0
                    != all[j].0 by {
                    if j == all.len() - 1 {
                        assert(front.contains(kept[i]));
                        let k = choose|k: int| 0 <= k < front.len() && front[k] == kept[i];
                        assert(rows[k].0 != rows[rows.len() - 1].0);
                    } else {
                        assert(kept[i].0 != kept[j].0);
                    }
                }
            }
        }
    }
}

proof fn lemma_waiting_count_push(rows: Seq<(u64, SessionStream)>, row: (u64, SessionStream))
    ensures
        waiting_count(rows.push(row)) == waiting_count(rows) + if row.1.owned {
            0nat
        } else {
            1nat
        },
{
    assert(rows.push(row).drop_last() =~= rows);
}

proof fn lemma_waiting_count_update(
    rows: Seq<(u64, SessionStream)>,
    at: int,
    row: (u64, SessionStream),
)
    requires
        0 <= at < rows.len(),
        row.1.owned,
    ensures
        waiting_count(rows.update(at, row)) <= waiting_count(rows),
    decreases rows.len(),
{
    let new = rows.update(at, row);
    if at == rows.len() - 1 {
        assert(new.drop_last() =~= rows.drop_last());
    } else {
        assert(new.drop_last() =~= rows.drop_last().update(at, row));
        lemma_waiting_count_update(rows.drop_last(), at, row);
    }
}

proof fn lemma_waiting_count_remove(rows: Seq<(u64, SessionStream)>, at: int)
    requires
        0 <= at < rows.len(),
    ensures
        waiting_count(rows.remove(at)) <= waiting_count(rows),
    decreases rows.len(),
{
    let new = rows.remove(at);
    if at == rows.len() - 1 {
        assert(new =~= rows.drop_last());
    } else {
        assert(new.drop_last() =~= rows.drop_last().remove(at));
        lemma_waiting_count_remove(rows.drop_last(), at);
    }
}

proof fn lemma_handed_over(rows: Seq<(u64, SessionStream)>, id: u64)
    ensures
        waiting_count(handed_over(rows, id)) <= waiting_count(rows),
        distinct(rows) ==> distinct(handed_over(rows, id)),
    decreases rows.len(),
{
    if rows.len() > 0 {
        lemma_handed_over(rows.drop_last(), id);
        assert(handed_over(rows, id).drop_last() =~= handed_over(rows.drop_last(), id));
    }
}

proof fn lemma_put_keeps_bound(
    rows: Seq<(u64, SessionStream)>,
    stream_id: u64,
    stream: SessionStream,
)
    ensures
        stream.owned ==> waiting_count(put(rows, stream_id, stream)) <= waiting_count(rows),
        lookup(rows, stream_id) is None && !stream.owned ==> waiting_count(
            put(rows, stream_id, stream),
        ) == waiting_count(rows) + 1,
{
    lemma_position(rows, stream_id);
    let at = position(rows, stream_id);
    if at < rows.len() {
        if stream.owned {
            lemma_waiting_count_update(rows, at, (stream_id, stream));
        }
    } else {
        lemma_waiting_count_push(rows, (stream_id, stream));
    }
}

proof fn lemma_without_streams_keeps_invariant(state: RuntimeState, id: u64)
    requires
        distinct(state.streams),
        waiting_count(state.streams) <= state.max_pending,
        forall|i: int|
            0 <= i < state.streams.len() && (#[trigger] state.streams[i]).1.owned ==>
            state.streams[i].1.session_id == id || (state.session matches Some(s) && s.id
                == state.streams[i].1.session_id && s.carries_streams()),
    ensures
        ({
            let next = state.without_streams(id);
            &&& distinct(next.streams)
            &&& waiting_count(next.streams) <= next.max_pending
            &&& forall|i: int|
                0 <= i < next.streams.len() && (#[trigger] next.streams[i]).1.owned ==> (
                next.session matches Some(s) && s.id == next.streams[i].1.session_id
                    && s.carries_streams())
        }),
{
    lemma_other_streams(state.streams, id);
    let next = state.without_streams(id);
    assert forall|i: int|
        0 <= i < next.streams.len() && (#[trigger] next.streams[i]).1.owned implies (
    next.session matches Some(s) && s.id == next.streams[i].1.session_id
        && s.carries_streams()) by {
        assert(state.streams.contains(next.streams[i]));
        let j = choose|j: int| 0 <= j < state.streams.len() && state.streams[j] == next.streams[i];
        assert(state.streams[j].1.owned);
    }
}

proof fn lemma_ended_keeps_invariant(
    state: RuntimeState,
    reason: CloseReason,
)
    requires
        sound(state),
    ensures
        sound(state.ended(reason)),
{
    if let Some(s) = state.session {
        if s.is_live() {
            let over = RuntimeState {
                session: Some(
                    SessionState { phase: SessionPhase::Terminal, reason: Some(reason), close: None, ..s },
                ),
                held: Seq::empty(),
                ..state
            };
            lemma_without_streams_keeps_invariant(over, s.id);
        }
    }
}

proof fn lemma_ask_keeps_invariant(state: RuntimeState, id: u64)
    requires
        sound(state),
    ensures
        sound(state.asked(id)),
{
    if !state.takes_session(id) {
        lemma_without_streams_keeps_invariant(state, id);
        assert(state.asked(id).streams == state.without_streams(id).streams);
    }
}

/// Every step keeps the invariant.
pub proof fn lemma_step_keeps_invariant(state: RuntimeState, step: Step)
    requires
        sound(state),
    ensures
        sound(after(state, step)),
{
    match step {
        Step::Ask { id } => {
            lemma_ask_keeps_invariant(state, id);
        },
        Step::Withdraw => {
            if let Some(s) = state.session {
                lemma_other_streams(state.streams, s.id);
                let gone = RuntimeState { session: None, ..state };
                lemma_without_streams_keeps_invariant(gone, s.id);
                assert(after(state, step).streams == gone.without_streams(s.id).streams);
                assert forall|i: int|
                    0 <= i < after(state, step).streams.len() implies !(#[trigger] after(
                    state,
                    step,
                ).streams[i]).1.owned by {}
            }
        },
        Step::Answer { status } => {
            if let Some(s) = state.session {
                if s.phase == SessionPhase::Pending && status >= 300 {
                    let over = RuntimeState {
                        session: Some(SessionState { phase: SessionPhase::Terminal, ..s }),
                        held: Seq::empty(),
                        ..state
                    };
                    lemma_without_streams_keeps_invariant(over, s.id);
                }
            }
        },
        Step::AdmitStreams => {
            if let Some(s) = state.session {
                lemma_handed_over(state.streams, s.id);
            }
        },
        Step::ReadCapsules => {
            lemma_ended_keeps_invariant(state, CloseReason::ProtocolError);
        },
        Step::PeerClose { reason, rest } => {
            if let Some(s) = state.session {
                let marked = RuntimeState {
                    session: Some(SessionState { peer_closed: true, send_done: true, ..s }),
                    held: rest,
                    ..state
                };
                if s.carries_streams() {
                    lemma_ended_keeps_invariant(marked, reason);
                }
            }
        },
        Step::PeerEnd { reason } => {
            if let Some(s) = state.session {
                let marked = RuntimeState {
                    session: Some(SessionState { receive_done: true, ..s }),
                    ..state
                };
                lemma_ended_keeps_invariant(marked, reason);
            }
        },
        Step::PeerStop { error_code } => {
            if let Some(s) = state.session {
                let marked = RuntimeState {
                    session: Some(SessionState { send_done: true, ..s }),
                    ..state
                };
                lemma_ended_keeps_invariant(
                    marked,
                    CloseReason::ConnectStopped { error_code },
                );
            }
        },
        Step::StreamArrives { stream_id, session_id, prefix_len, others } => {
            let stream = SessionStream {
                session_id,
                direction: crate::peer_log::direction_of(stream_id),
                local: false,
                owned: false,
                prefix_len,
            };
            let owned = SessionStream { owned: true, ..stream };
            lemma_put_keeps_bound(state.streams, stream_id, stream);
            lemma_put_keeps_bound(state.streams, stream_id, owned);
            lemma_distinct_is_kept(state.streams, stream_id, stream);
            lemma_distinct_is_kept(state.streams, stream_id, owned);
            lemma_position(state.streams, stream_id);
        },
        Step::StreamOpens { stream_id, session_id, prefix_len } => {
            let stream = SessionStream {
                session_id,
                direction: crate::peer_log::direction_of(stream_id),
                local: true,
                owned: true,
                prefix_len,
            };
            lemma_put_keeps_bound(state.streams, stream_id, stream);
            lemma_distinct_is_kept(state.streams, stream_id, stream);
            lemma_position(state.streams, stream_id);
        },
        Step::StreamIsForgotten { stream_id } => {
            lemma_position(state.streams, stream_id);
            if position(state.streams, stream_id) < state.streams.len() {
                lemma_waiting_count_remove(state.streams, position(state.streams, stream_id));
            }
        },
        Step::CommitClose => {
            if let Some(s) = state.session {
                if let Some(close) = s.close {
                    let marked = RuntimeState {
                        session: Some(SessionState { send_done: true, ..s }),
                        ..state
                    };
                    lemma_ended_keeps_invariant(
                        marked,
                        CloseReason::Local {
                            error_code: close.error_code,
                            message: close.message,
                        },
                    );
                }
            }
        },
        _ => {},
    }
}

/// Whether an event says that the session `id` was accepted, was rejected or
/// ended, or that a stream belongs to it.
pub open spec fn is_progress_of(event: SessionEvent, id: u64) -> bool {
    match event {
        SessionEvent::Pending { .. } => false,
        SessionEvent::Accepted { session_id } => session_id == id,
        SessionEvent::Rejected { session_id, .. } => session_id == id,
        SessionEvent::Terminated { session_id, .. } => session_id == id,
        SessionEvent::AssociatedStream { session_id, .. } => session_id == id,
    }
}

/// Whether a session that ended or never was is named by no new event.
pub open spec fn silent_about(
    old_events: Seq<SessionEvent>,
    new_events: Seq<SessionEvent>,
    id: u64,
) -> bool {
    &&& old_events.len() <= new_events.len()
    &&& forall|i: int|
        old_events.len() <= i < new_events.len() ==> !is_progress_of(
            #[trigger] new_events[i],
            id,
        )
}

proof fn lemma_associations_name_one_session(
    events: Seq<SessionEvent>,
    rows: Seq<(u64, SessionStream)>,
    id: u64,
)
    ensures
        events.len() <= associations(events, rows, id).len(),
        forall|i: int|
            0 <= i < events.len() ==> associations(events, rows, id)[i] == events[i],
        forall|i: int, other: u64|
            events.len() <= i < associations(events, rows, id).len() && other != id
                ==> !(#[trigger] is_progress_of(associations(events, rows, id)[i], other)),
    decreases rows.len(),
{
    if rows.len() > 0 {
        lemma_associations_name_one_session(events, rows.drop_last(), id);
    }
}

/// A session has one terminal winner: once it is over, no step says anything
/// more about it, its reason never changes, and it never comes back.
pub proof fn lemma_session_ends_once(state: RuntimeState, step: Step)
    requires
        state.session matches Some(s) && !s.is_live(),
    ensures
        ({
            let s = state.session->Some_0;
            let next = after(state, step);
            &&& silent_about(state.events, next.events, s.id)
            &&& (next.session matches Some(t) ==> t.id == s.id && t.reason == s.reason
                && !t.is_live())
            &&& next.session is None ==> (next.retired matches Some(highest) && s.id <= highest)
        }),
{
}

/// A session that is over and forgotten stays over: no step revives it or says
/// anything more about it.
pub proof fn lemma_stale_session_stays_stale(state: RuntimeState, step: Step, id: u64)
    requires
        sound(state),
        state.is_stale(id),
    ensures
        after(state, step).is_stale(id),
        silent_about(state.events, after(state, step).events, id),
{
    if let Some(s) = state.session {
        lemma_associations_name_one_session(state.events, state.streams, s.id);
    }
}

/// A session is handed its first stream, or ends, only after it was asked for:
/// nothing is said of a session that was never asked for.
pub proof fn lemma_unknown_session_is_not_mentioned(state: RuntimeState, step: Step, id: u64)
    requires
        sound(state),
        !(state.session matches Some(s) && s.id == id),
    ensures
        silent_about(state.events, after(state, step).events, id),
{
    if let Some(s) = state.session {
        lemma_associations_name_one_session(state.events, state.streams, s.id);
    }
}

/// An informational response admits nothing: whatever its status, the session
/// stays as it is.
pub proof fn lemma_informational_response_changes_nothing(state: RuntimeState, status: u16)
    requires
        100 <= status < 200,
    ensures
        state.answered(status) == state,
{
}

/// Capsules that arrive before the session is accepted are held, and what they
/// come to after it is accepted is what they would have come to then.
pub proof fn lemma_early_capsules_are_deferred(state: RuntimeState, bytes: Seq<u8>, status: u16)
    requires
        state.session matches Some(s) && s.phase == SessionPhase::Pending,
        200 <= status < 300,
    ensures
        state.received(bytes).capsules_read() == state.received(bytes),
        state.received(bytes).answered(status) == state.answered(status).received(bytes),
        state.received(bytes).events == state.events,
{
}

/// Capsules that arrive before the session is rejected are discarded.
pub proof fn lemma_early_capsules_are_discarded(state: RuntimeState, bytes: Seq<u8>, status: u16)
    requires
        state.session matches Some(s) && s.phase == SessionPhase::Pending,
        300 <= status,
    ensures
        state.received(bytes).answered(status) == state.answered(status),
        state.received(bytes).answered(status).held.len() == 0,
{
}

/// Whoever closes first wins: after the peer's close this end's close writes
/// nothing, and after this end's close is committed the peer's close is not
/// reported.
pub proof fn lemma_crossed_close_has_one_winner(
    state: RuntimeState,
    close: CloseState,
    reason: CloseReason,
    rest: Seq<u8>,
)
    requires
        state.session matches Some(s) && s.phase == SessionPhase::Active,
    ensures
        ({
            let peer_first = after(state, Step::PeerClose { reason, rest });
            after(peer_first, Step::BeginClose { close }) == peer_first
        }),
        ({
            let local_first = after(
                after(state, Step::BeginClose { close }),
                Step::CommitClose,
            );
            after(local_first, Step::PeerClose { reason, rest }) == local_first
        }),
{
}

} // verus!
