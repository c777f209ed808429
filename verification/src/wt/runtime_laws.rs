//! What happens to a session and its streams, told by what there is before and after.

use vstd::prelude::*;
use vstd::utf8::encode_utf8;

use crate::peer_log::direction_of;
use crate::table::{lemma_lookup_after_put, lemma_position, lookup};
use crate::wire::capsule::{
    close_capsule, lemma_close_capsule_round_trip, scan_capsules, CapsuleScan,
};
use crate::wire::stream_prefix::WebTransportStreamDirection;
use crate::wt::runtime::{
    associations, other_streams, turn_all_away, waiting_count, waiting_for, CloseState,
    RuntimeState, SessionPhase, SessionState, SessionStream,
};
use crate::wt::types::{CloseReason, SessionEvent, StreamAction, WebTransportSelectionError};

verus! {

/// Which rows do not name a session.
pub open spec fn of_others(id: u64) -> spec_fn((u64, SessionStream)) -> bool {
    |row: (u64, SessionStream)| row.1.session_id != id
}

/// Which rows name a session that they still wait for.
pub open spec fn waiting_on(id: u64) -> spec_fn((u64, SessionStream)) -> bool {
    |row: (u64, SessionStream)| row.1.session_id == id && !row.1.owned
}

/// Which rows wait for some session.
pub open spec fn unowned() -> spec_fn((u64, SessionStream)) -> bool {
    |row: (u64, SessionStream)| !row.1.owned
}

/// How the application learns that it was given the stream of a row.
pub open spec fn as_given() -> spec_fn((u64, SessionStream)) -> SessionEvent {
    |row: (u64, SessionStream)|
        SessionEvent::AssociatedStream {
            session_id: row.1.session_id,
            stream_id: row.0,
            direction: row.1.direction,
            prefix_len: row.1.prefix_len,
        }
}

/// Whether the peer sends on a stream: it does on those with two directions, and on those
/// that it opened.
pub open spec fn peer_sends(stream: SessionStream) -> bool {
    stream.direction is Bidi || !stream.local
}

/// Whether this end sends on a stream: it does on those with two directions, and on those
/// that it opened.
pub open spec fn this_end_sends(stream: SessionStream) -> bool {
    stream.direction is Bidi || stream.local
}

/// The code that the stream of an ended session is turned away with: the session is gone,
/// or the stream was still waiting for it.
pub open spec fn code_of_end(stream: SessionStream) -> u64 {
    if stream.owned {
        0x170d_7b68
    } else {
        0x3994_bd84
    }
}

/// Whether an action is among those of a list from `from` on.
pub open spec fn is_done(actions: Seq<StreamAction>, from: nat, action: StreamAction) -> bool {
    exists|k: int| from <= k < actions.len() && #[trigger] actions[k] == action
}

/// Whether the end of the session `id` is why an action is taken on a stream.
pub open spec fn is_due(rows: Seq<(u64, SessionStream)>, id: u64, action: StreamAction) -> bool {
    exists|i: int|
        0 <= i < rows.len() && (#[trigger] rows[i]).1.session_id == id && match action {
            StreamAction::Stop { stream_id, error_code } => {
                stream_id == rows[i].0 && peer_sends(rows[i].1) && error_code == code_of_end(
                    rows[i].1,
                )
            },
            StreamAction::Reset { stream_id, error_code } => {
                stream_id == rows[i].0 && this_end_sends(rows[i].1) && error_code == code_of_end(
                    rows[i].1,
                )
            },
            StreamAction::Finish { .. } => false,
        }
}

/// Whether every stream of the session `id` is turned away, in each direction that it has,
/// and nothing else is done.
pub open spec fn all_turned_away(
    before: Seq<StreamAction>,
    after: Seq<StreamAction>,
    rows: Seq<(u64, SessionStream)>,
    id: u64,
) -> bool {
    &&& before.len() <= after.len()
    &&& after.take(before.len() as int) == before
    &&& forall|i: int|
        0 <= i < rows.len() && (#[trigger] rows[i]).1.session_id == id ==> {
            &&& peer_sends(rows[i].1) ==> is_done(
                after,
                before.len(),
                StreamAction::Stop { stream_id: rows[i].0, error_code: code_of_end(rows[i].1) },
            )
            &&& this_end_sends(rows[i].1) ==> is_done(
                after,
                before.len(),
                StreamAction::Reset { stream_id: rows[i].0, error_code: code_of_end(rows[i].1) },
            )
        }
    &&& forall|k: int| before.len() <= k < after.len() ==> is_due(rows, id, #[trigger] after[k])
}

proof fn lemma_done_stays_done(a: Seq<StreamAction>, b: Seq<StreamAction>, from: nat)
    requires
        a.len() <= b.len(),
        b.take(a.len() as int) == a,
    ensures
        forall|action: StreamAction| is_done(a, from, action) ==> #[trigger] is_done(
            b,
            from,
            action,
        ),
{
    assert forall|action: StreamAction| is_done(a, from, action) implies #[trigger] is_done(
        b,
        from,
        action,
    ) by {
        let k = choose|k: int| from <= k < a.len() && #[trigger] a[k] == action;
        assert(b.take(a.len() as int)[k] == b[k]);
    }
}

proof fn lemma_due_stays_due(rows: Seq<(u64, SessionStream)>, id: u64)
    requires
        rows.len() > 0,
    ensures
        forall|action: StreamAction| is_due(rows.drop_last(), id, action) ==> #[trigger] is_due(
            rows,
            id,
            action,
        ),
{
    let front = rows.drop_last();
    assert forall|action: StreamAction| is_due(front, id, action) implies #[trigger] is_due(
        rows,
        id,
        action,
    ) by {
        let i = choose|i: int|
            0 <= i < front.len() && (#[trigger] front[i]).1.session_id == id && match action {
                StreamAction::Stop { stream_id, error_code } => {
                    stream_id == front[i].0 && peer_sends(front[i].1) && error_code
                        == code_of_end(front[i].1)
                },
                StreamAction::Reset { stream_id, error_code } => {
                    stream_id == front[i].0 && this_end_sends(front[i].1) && error_code
                        == code_of_end(front[i].1)
                },
                StreamAction::Finish { .. } => false,
            };
        assert(rows[i] == front[i]);
    }
}

proof fn lemma_all_are_turned_away(
    actions: Seq<StreamAction>,
    rows: Seq<(u64, SessionStream)>,
    id: u64,
)
    ensures
        all_turned_away(actions, turn_all_away(actions, rows, id), rows, id),
    decreases rows.len(),
{
    let after = turn_all_away(actions, rows, id);
    if rows.len() == 0 {
        assert(after.take(actions.len() as int) =~= actions);
    } else {
        let rest = rows.drop_last();
        let front = turn_all_away(actions, rest, id);
        lemma_all_are_turned_away(actions, rest, id);
        lemma_due_stays_due(rows, id);
        let (stream_id, stream) = rows.last();
        assert(after.take(front.len() as int) =~= front);
        assert(after.take(actions.len() as int) =~= front.take(actions.len() as int));
        lemma_done_stays_done(front, after, actions.len());
        assert(rows[rows.len() - 1] == rows.last());
        let code = code_of_end(stream);
        if stream.session_id == id {
            if peer_sends(stream) {
                assert(after[front.len() as int] == StreamAction::Stop {
                    stream_id,
                    error_code: code,
                });
            }
            if this_end_sends(stream) {
                assert(after[after.len() - 1] == StreamAction::Reset {
                    stream_id,
                    error_code: code,
                });
            }
        }
        assert forall|i: int|
            0 <= i < rows.len() && (#[trigger] rows[i]).1.session_id == id implies {
            &&& peer_sends(rows[i].1) ==> is_done(
                after,
                actions.len(),
                StreamAction::Stop { stream_id: rows[i].0, error_code: code_of_end(rows[i].1) },
            )
            &&& this_end_sends(rows[i].1) ==> is_done(
                after,
                actions.len(),
                StreamAction::Reset { stream_id: rows[i].0, error_code: code_of_end(rows[i].1) },
            )
        } by {
            if i < rest.len() {
                assert(rest[i] == rows[i]);
            }
        }
        assert forall|k: int| actions.len() <= k < after.len() implies is_due(
            rows,
            id,
            #[trigger] after[k],
        ) by {
            if k < front.len() {
                assert(after[k] == front[k]);
                assert(is_due(rest, id, front[k]));
            }
        }
    }
}

proof fn lemma_others_are_left(rows: Seq<(u64, SessionStream)>, id: u64)
    ensures
        other_streams(rows, id) == rows.filter(of_others(id)),
        forall|i: int|
            0 <= i < other_streams(rows, id).len() ==> (#[trigger] other_streams(
                rows,
                id,
            )[i]).1.session_id != id,
    decreases rows.len(),
{
    reveal(Seq::filter);
    if rows.len() > 0 {
        lemma_others_are_left(rows.drop_last(), id);
    }
}

/// The streams that wait, for any session and for one, are counted.
pub proof fn lemma_counts(rows: Seq<(u64, SessionStream)>, id: u64)
    ensures
        waiting_count(rows) == rows.filter(unowned()).len(),
        waiting_for(rows, id) == rows.filter(waiting_on(id)).len(),
    decreases rows.len(),
{
    reveal(Seq::filter);
    if rows.len() > 0 {
        lemma_counts(rows.drop_last(), id);
    }
}

proof fn lemma_given_in_order(
    events: Seq<SessionEvent>,
    rows: Seq<(u64, SessionStream)>,
    id: u64,
)
    ensures
        associations(events, rows, id) == events + rows.filter(waiting_on(id)).map_values(
            as_given(),
        ),
    decreases rows.len(),
{
    reveal(Seq::filter);
    if rows.len() == 0 {
        assert(events + rows.filter(waiting_on(id)).map_values(as_given()) =~= events);
    } else {
        let front = rows.drop_last();
        lemma_given_in_order(events, front, id);
        let a = front.filter(waiting_on(id));
        let b = rows.filter(waiting_on(id));
        if waiting_on(id)(rows.last()) {
            assert(b.map_values(as_given()) =~= a.map_values(as_given()).push(
                as_given()(rows.last()),
            ));
            assert(events + b.map_values(as_given()) =~= (events + a.map_values(
                as_given(),
            )).push(as_given()(rows.last())));
        }
    }
}

/// What a response does to a session that waits for one. An informational response does
/// nothing. A successful one, and no other, makes the session active, which is all that
/// is said and done. Any other ends it: just the status is told, its streams are turned
/// away and none of them is left, and those of other sessions stay.
pub proof fn lemma_final_response_decides(state: RuntimeState, status: u16)
    requires
        state.session matches Some(s) && s.phase == SessionPhase::Pending,
    ensures
        ({
            let s = state.session->Some_0;
            let after = state.answered(status);
            let t = after.session->Some_0;
            &&& after.session is Some
            &&& t.phase == SessionPhase::Active <==> 200 <= status < 300
            &&& status < 200 ==> after == state
            &&& 200 <= status < 300 ==> after == (RuntimeState {
                session: Some(SessionState { phase: SessionPhase::Active, ..s }),
                events: state.events.push(SessionEvent::Accepted { session_id: s.id }),
                ..state
            })
            &&& 300 <= status ==> {
                &&& after == (RuntimeState {
                    session: Some(SessionState { phase: SessionPhase::Terminal, ..s }),
                    events: state.events.push(
                        SessionEvent::Rejected { session_id: s.id, status },
                    ),
                    held: Seq::empty(),
                    streams: state.streams.filter(of_others(s.id)),
                    actions: after.actions,
                    ..state
                })
                &&& all_turned_away(state.actions, after.actions, state.streams, s.id)
                &&& forall|i: int|
                    0 <= i < after.streams.len() ==> (#[trigger] after.streams[i]).1.session_id
                        != s.id
            }
        }),
{
    let s = state.session->Some_0;
    lemma_others_are_left(state.streams, s.id);
    lemma_all_are_turned_away(state.actions, state.streams, s.id);
}

/// Only the first final response counts: a session that does not wait for one stays as it
/// is, whatever the status.
pub proof fn lemma_later_response_changes_nothing(state: RuntimeState, status: u16)
    requires
        state.session matches Some(s) ==> s.phase != SessionPhase::Pending,
    ensures
        state.answered(status) == state,
{
}

/// An active session is handed every stream that waits for it, of either direction. The
/// application learns of each of them, in the order in which they came, and of no other
/// stream. All of them belong to the session from then on, and nothing else changes.
pub proof fn lemma_waiting_streams_are_handed_over(state: RuntimeState)
    ensures
        ({
            let after = state.admitted();
            match state.session {
                Some(s) => if s.phase == SessionPhase::Active {
                    &&& after.events == state.events + state.streams.filter(
                        waiting_on(s.id),
                    ).map_values(as_given())
                    &&& after.streams.len() == state.streams.len()
                    &&& forall|i: int|
                        0 <= i < state.streams.len() ==> (#[trigger] after.streams[i]) == (
                            state.streams[i].0,
                            SessionStream {
                                owned: state.streams[i].1.owned || state.streams[i].1.session_id
                                    == s.id,
                                ..state.streams[i].1
                            },
                        )
                    &&& after == (RuntimeState {
                        events: after.events,
                        streams: after.streams,
                        ..state
                    })
                } else {
                    after == state
                },
                None => after == state,
            }
        }),
{
    if let Some(s) = state.session {
        lemma_given_in_order(state.events, state.streams, s.id);
    }
}

/// Every stream that becomes the session's has its own event, and every such event is
/// about a stream that was waiting.
pub proof fn lemma_every_waiting_stream_is_told_of(state: RuntimeState, i: int)
    requires
        state.session matches Some(s) && s.phase == SessionPhase::Active,
        0 <= i < state.streams.len(),
        state.streams[i].1.session_id == state.session->Some_0.id,
        !state.streams[i].1.owned,
    ensures
        exists|k: int|
            state.events.len() <= k < state.admitted().events.len()
                && #[trigger] state.admitted().events[k] == (SessionEvent::AssociatedStream {
                session_id: state.session->Some_0.id,
                stream_id: state.streams[i].0,
                direction: state.streams[i].1.direction,
                prefix_len: state.streams[i].1.prefix_len,
            }),
        state.admitted().streams[i].1.owned,
{
    let id = state.session->Some_0.id;
    lemma_waiting_streams_are_handed_over(state);
    let given = state.streams.filter(waiting_on(id));
    lemma_filtered(state.streams, waiting_on(id), i);
    let j = choose|j: int| 0 <= j < given.len() && #[trigger] given[j] == state.streams[i];
    assert(state.admitted().events[state.events.len() + j] == as_given()(given[j]));
}

proof fn lemma_filtered(
    rows: Seq<(u64, SessionStream)>,
    pred: spec_fn((u64, SessionStream)) -> bool,
    i: int,
)
    requires
        0 <= i < rows.len(),
        pred(rows[i]),
    ensures
        exists|j: int|
            0 <= j < rows.filter(pred).len() && #[trigger] rows.filter(pred)[j] == rows[i],
    decreases rows.len(),
{
    reveal(Seq::filter);
    let front = rows.drop_last();
    let all = rows.filter(pred);
    if i == rows.len() - 1 {
        assert(all[all.len() - 1] == rows[i]);
    } else {
        lemma_filtered(front, pred, i);
        let j = choose|j: int|
            0 <= j < front.filter(pred).len() && #[trigger] front.filter(pred)[j] == front[i];
        assert(all[j] == rows[i]);
    }
}

/// What the end of a session comes to: the application learns why, once, the streams of
/// the session are turned away in each direction that they have and none is left, those
/// of other sessions stay, and nothing that came for the session is kept. A session that
/// is over does not end again.
pub proof fn lemma_session_end_is_complete(state: RuntimeState, reason: CloseReason)
    ensures
        ({
            let after = state.ended(reason);
            match state.session {
                Some(s) => if s.phase != SessionPhase::Terminal {
                    &&& after == (RuntimeState {
                        session: Some(
                            SessionState {
                                phase: SessionPhase::Terminal,
                                reason: Some(reason),
                                close: None,
                                ..s
                            },
                        ),
                        last_end: Some((s.id, reason)),
                        held: Seq::empty(),
                        events: state.events.push(
                            SessionEvent::Terminated { session_id: s.id, reason },
                        ),
                        streams: state.streams.filter(of_others(s.id)),
                        actions: after.actions,
                        ..state
                    })
                    &&& all_turned_away(state.actions, after.actions, state.streams, s.id)
                } else {
                    after == state
                },
                None => after == state,
            }
        }),
{
    if let Some(s) = state.session {
        lemma_others_are_left(state.streams, s.id);
        lemma_all_are_turned_away(state.actions, state.streams, s.id);
    }
}

/// Whether a session is over for good: it is not the session that there is now, and it or
/// a later one is over.
pub open spec fn is_history(state: RuntimeState, id: u64) -> bool {
    &&& id % 4 == 0
    &&& state.retired matches Some(highest) && id <= highest
    &&& state.session matches Some(s) ==> s.id != id
}

/// Which requests for a session can be carried out: those for the session that there is,
/// while it is active. The others are told how far the session has come, that it is over
/// for good, or that there never was one.
pub proof fn lemma_only_the_active_session_can_be_used(state: RuntimeState, id: u64)
    ensures
        state.selection(id) is None <==> (state.session matches Some(s) && s.id == id && s.phase
            == SessionPhase::Active),
        (state.session matches Some(s) ==> (s.id == id ==> {
            &&& s.phase == SessionPhase::Pending ==> state.selection(id) == Some(
                WebTransportSelectionError::PendingSession,
            )
            &&& s.phase == SessionPhase::Closing ==> state.selection(id) == Some(
                WebTransportSelectionError::ClosingSession,
            )
            &&& s.phase == SessionPhase::Terminal ==> state.selection(id) == Some(
                WebTransportSelectionError::TerminalSession,
            )
        })),
        is_history(state, id) ==> state.selection(id) == Some(
            WebTransportSelectionError::StaleSession,
        ),
        !is_history(state, id) && !(state.session matches Some(s) && s.id == id)
            ==> state.selection(id) == Some(WebTransportSelectionError::UnknownSession),
{
}

/// A request for a session is taken up if there is no session now and its stream can
/// carry one that was not asked for before. Then there is a session that waits for its
/// answer, and nothing else happens. Any other request is turned away in both directions
/// with the code 0x10b, together with the streams that wait for it, and the session that
/// there is stays as it is.
pub proof fn lemma_one_session_at_a_time(state: RuntimeState, id: u64)
    ensures
        ({
            let after = state.asked(id);
            if state.session is None && id % 4 == 0 && !is_history(state, id) {
                after == (RuntimeState {
                    session: Some(
                        SessionState {
                            id,
                            phase: SessionPhase::Pending,
                            peer_closed: false,
                            receive_done: false,
                            send_done: false,
                            reason: None,
                            close: None,
                        },
                    ),
                    held: Seq::empty(),
                    ..state
                })
            } else {
                &&& after.session == state.session
                &&& after.events == state.events
                &&& after.held == state.held
                &&& after.last_end == state.last_end
                &&& after.streams == state.streams.filter(of_others(id))
                &&& all_turned_away(
                    state.actions.push(
                        StreamAction::Reset { stream_id: id, error_code: 0x10b },
                    ).push(StreamAction::Stop { stream_id: id, error_code: 0x10b }),
                    after.actions,
                    state.streams,
                    id,
                )
                &&& after.retired matches Some(highest) && id <= highest && (
                state.retired matches Some(before) ==> before <= highest) && (highest == id
                    || state.retired == Some(highest))
            }
        }),
{
    lemma_others_are_left(state.streams, id);
    lemma_all_are_turned_away(
        state.actions.push(StreamAction::Reset { stream_id: id, error_code: 0x10b }).push(
            StreamAction::Stop { stream_id: id, error_code: 0x10b },
        ),
        state.streams,
        id,
    );
}

/// The actions that turn away a stream of the peer that arrived just now.
pub open spec fn turning_away(stream_id: u64, error_code: u64) -> Seq<StreamAction> {
    let stop = StreamAction::Stop { stream_id, error_code };
    if stream_id % 4 < 2 {
        seq![stop, StreamAction::Reset { stream_id, error_code }]
    } else {
        seq![stop]
    }
}

/// What becomes of a stream of the peer that names a session. The active session gets it
/// at once, and the application learns of it. It waits for a session that may still come
/// or is not accepted yet, while few enough streams wait, of all sessions and of this
/// one. Otherwise it is turned away in each direction that it has, as one of a session
/// that is gone if that is being closed or over, and as one that cannot wait if not. A
/// stream that is known already is left alone.
pub proof fn lemma_arriving_stream_finds_its_session(
    state: RuntimeState,
    stream_id: u64,
    session_id: u64,
    prefix_len: usize,
    others: nat,
)
    ensures
        ({
            let after = state.stream_arrived(stream_id, session_id, prefix_len, others);
            let row = |owned: bool|
                (
                    stream_id,
                    SessionStream {
                        session_id,
                        direction: if stream_id % 4 < 2 {
                            WebTransportStreamDirection::Bidi
                        } else {
                            WebTransportStreamDirection::Uni
                        },
                        local: false,
                        owned,
                        prefix_len,
                    },
                );
            let named = state.session matches Some(s) && s.id == session_id;
            let phase = state.session->Some_0.phase;
            let room = state.streams.filter(unowned()).len() + others < state.max_pending
                && state.streams.filter(waiting_on(session_id)).len()
                < state.max_pending_per_session;
            if lookup(state.streams, stream_id) is Some {
                after == state
            } else if named && phase == SessionPhase::Active {
                after == (RuntimeState {
                    streams: state.streams.push(row(true)),
                    events: state.events.push(as_given()(row(true))),
                    ..state
                })
            } else if named && phase != SessionPhase::Pending {
                after == (RuntimeState {
                    actions: state.actions + turning_away(stream_id, 0x170d_7b68),
                    ..state
                })
            } else if session_id % 4 == 0 && !is_history(state, session_id) && room {
                after == (RuntimeState { streams: state.streams.push(row(false)), ..state })
            } else {
                after == (RuntimeState {
                    actions: state.actions + turning_away(stream_id, 0x3994_bd84),
                    ..state
                })
            }
        }),
{
    lemma_counts(state.streams, session_id);
    lemma_position(state.streams, stream_id);
    let a = state.actions;
    assert forall|code: u64| #[trigger]
        (a + turning_away(stream_id, code)) == (if stream_id % 4 < 2 {
            a.push(StreamAction::Stop { stream_id, error_code: code }).push(
                StreamAction::Reset { stream_id, error_code: code },
            )
        } else {
            a.push(StreamAction::Stop { stream_id, error_code: code })
        }) by {
        assert((a + turning_away(stream_id, code)) =~= (if stream_id % 4 < 2 {
            a.push(StreamAction::Stop { stream_id, error_code: code }).push(
                StreamAction::Reset { stream_id, error_code: code },
            )
        } else {
            a.push(StreamAction::Stop { stream_id, error_code: code })
        }));
    }
}

/// A stream that this end opened belongs to its session at once, and to no other.
pub proof fn lemma_opened_stream_belongs_to_its_session(
    state: RuntimeState,
    stream_id: u64,
    session_id: u64,
    prefix_len: usize,
    other: u64,
)
    ensures
        ({
            let after = state.stream_opened(stream_id, session_id, prefix_len);
            &&& lookup(after.streams, stream_id) == Some(
                SessionStream {
                    session_id,
                    direction: if stream_id % 4 < 2 {
                        WebTransportStreamDirection::Bidi
                    } else {
                        WebTransportStreamDirection::Uni
                    },
                    local: true,
                    owned: true,
                    prefix_len,
                },
            )
            &&& other != stream_id ==> lookup(after.streams, other) == lookup(
                state.streams,
                other,
            )
            &&& after == (RuntimeState { streams: after.streams, ..state })
        }),
{
    let stream = lookup(
        state.stream_opened(stream_id, session_id, prefix_len).streams,
        stream_id,
    );
    let row = SessionStream {
        session_id,
        direction: direction_of(stream_id),
        local: true,
        owned: true,
        prefix_len,
    };
    lemma_lookup_after_put(state.streams, stream_id, row, other);
    lemma_lookup_after_put(state.streams, stream_id, row, stream_id);
}

/// The close of the peer ends the session with the code and the text that the peer gave,
/// whatever bytes follow it. This end answers with the end of the CONNECT stream. Bytes
/// behind a close are an error of the peer: the stream is reset with the code 0x10e.
pub proof fn lemma_close_of_the_peer_ends_the_session(
    state: RuntimeState,
    error_code: u32,
    message: Seq<char>,
    rest: Seq<u8>,
)
    requires
        state.session matches Some(s) && (s.phase == SessionPhase::Active || s.phase
            == SessionPhase::Closing),
        state.held == close_capsule(error_code, encode_utf8(message)) + rest,
        encode_utf8(message).len() <= 1024,
    ensures
        ({
            let s = state.session->Some_0;
            let reason = CloseReason::Peer { error_code, message };
            let after = state.capsules_read();
            let finish = StreamAction::Finish { stream_id: s.id };
            let reset = StreamAction::Reset { stream_id: s.id, error_code: 0x10e };
            let told = after.actions.len() - if rest.len() > 0 {
                2int
            } else {
                1int
            };
            &&& after.events == state.events.push(
                SessionEvent::Terminated { session_id: s.id, reason },
            )
            &&& after.session == Some(
                SessionState {
                    phase: SessionPhase::Terminal,
                    reason: Some(reason),
                    close: None,
                    peer_closed: true,
                    send_done: true,
                    ..s
                },
            )
            &&& after.last_end == Some((s.id, reason))
            &&& after.streams == state.streams.filter(of_others(s.id))
            &&& after.held.len() == 0
            &&& told >= 0
            &&& all_turned_away(state.actions, after.actions.take(told), state.streams, s.id)
            &&& after.actions == after.actions.take(told) + if rest.len() > 0 {
                seq![finish, reset]
            } else {
                seq![finish]
            }
        }),
{
    let s = state.session->Some_0;
    let reason = CloseReason::Peer { error_code, message };
    lemma_close_capsule_round_trip(error_code, message, rest);
    let marked = RuntimeState {
        held: rest,
        session: Some(SessionState { peer_closed: true, send_done: true, ..s }),
        ..state
    };
    lemma_session_end_is_complete(marked, reason);
    let after = state.capsules_read();
    let ended = marked.ended(reason);
    let told = after.actions.len() - if rest.len() > 0 {
        2int
    } else {
        1int
    };
    assert(after.actions.take(told) =~= ended.actions);
    assert(after.actions =~= after.actions.take(told) + if rest.len() > 0 {
        seq![
            StreamAction::Finish { stream_id: s.id },
            StreamAction::Reset { stream_id: s.id, error_code: 0x10e },
        ]
    } else {
        seq![StreamAction::Finish { stream_id: s.id }]
    });
}

/// Capsules that break the format end the session as an error of the peer, and the CONNECT
/// stream is given up in both directions with the code 0x10e. As long as no close is whole
/// and none is broken, nothing ends.
pub proof fn lemma_broken_capsules_end_the_session(state: RuntimeState)
    requires
        state.session matches Some(s) && (s.phase == SessionPhase::Active || s.phase
            == SessionPhase::Closing),
    ensures
        ({
            let s = state.session->Some_0;
            let after = state.capsules_read();
            let told = after.actions.len() - 2;
            &&& scan_capsules(state.held) is Malformed ==> {
                &&& after.events == state.events.push(
                    SessionEvent::Terminated {
                        session_id: s.id,
                        reason: CloseReason::ProtocolError,
                    },
                )
                &&& after.session == Some(
                    SessionState {
                        phase: SessionPhase::Terminal,
                        reason: Some(CloseReason::ProtocolError),
                        close: None,
                        ..s
                    },
                )
                &&& after.streams == state.streams.filter(of_others(s.id))
                &&& told >= 0
                &&& all_turned_away(state.actions, after.actions.take(told), state.streams, s.id)
                &&& after.actions[told] == (StreamAction::Reset {
                    stream_id: s.id,
                    error_code: 0x10e,
                })
                &&& after.actions[told + 1] == (StreamAction::Stop {
                    stream_id: s.id,
                    error_code: 0x10e,
                })
            }
            &&& scan_capsules(state.held) is Waiting ==> after == (RuntimeState {
                held: after.held,
                ..state
            })
        }),
{
    lemma_session_end_is_complete(state, CloseReason::ProtocolError);
    let ended = state.ended(CloseReason::ProtocolError);
    let after = state.capsules_read();
    assert(scan_capsules(state.held) is Malformed ==> after.actions.take(
        after.actions.len() - 2,
    ) =~= ended.actions);
}

/// What arrives on the CONNECT stream is read only while the session is accepted and not
/// over. Before, it waits, behind what waits already; after the close of the peer it is an
/// error with the code 0x10e; after any other end it is ignored.
pub proof fn lemma_bytes_wait_for_the_session(state: RuntimeState, bytes: Seq<u8>)
    ensures
        ({
            let after = state.received(bytes);
            match state.session {
                Some(s) => if s.phase != SessionPhase::Terminal {
                    after == (RuntimeState { held: state.held + bytes, ..state })
                } else if s.peer_closed && bytes.len() > 0 {
                    after == (RuntimeState {
                        actions: state.actions.push(
                            StreamAction::Reset { stream_id: s.id, error_code: 0x10e },
                        ),
                        ..state
                    })
                } else {
                    after == state
                },
                None => after == state,
            }
        }),
        (state.session matches Some(s) ==> s.phase == SessionPhase::Pending || s.phase
            == SessionPhase::Terminal) ==> state.capsules_read() == state,
{
}

/// A session is forgotten when it is over and its CONNECT stream has ended in both
/// directions, and not before. From then on it is history.
pub open spec fn forgotten_if_done(before: RuntimeState, after: RuntimeState) -> bool {
    match before.session {
        Some(s) => if s.phase == SessionPhase::Terminal && s.receive_done && s.send_done {
            &&& after.session is None
            &&& after.retired matches Some(highest) && s.id <= highest
            &&& s.id % 4 == 0 ==> is_history(after, s.id)
            &&& after == (RuntimeState {
                session: None,
                retired: after.retired,
                held: Seq::empty(),
                ..before
            })
        } else {
            after == before
        },
        None => after == before,
    }
}

/// How the ends of the CONNECT stream reach the session. The end of the peer's direction
/// ends the session for the given reason; that this end's direction is over alone ends
/// nothing; a refusal by the peer ends the session with its code. Once both directions
/// are over, so that nothing is left to happen, the session is forgotten.
pub proof fn lemma_ends_of_the_connect_stream(
    state: RuntimeState,
    reason: CloseReason,
    error_code: u64,
)
    requires
        state.session is Some,
    ensures
        ({
            let s = state.session->Some_0;
            let received = RuntimeState {
                session: Some(SessionState { receive_done: true, ..s }),
                ..state
            };
            let sent = RuntimeState {
                session: Some(SessionState { send_done: true, ..s }),
                ..state
            };
            let refused = CloseReason::ConnectStopped { error_code };
            &&& forgotten_if_done(received.ended(reason), state.peer_ended(reason))
            &&& forgotten_if_done(sent, state.locally_ended())
            &&& forgotten_if_done(sent.ended(refused), state.stopped(error_code))
        }),
{
}

/// Closing the active session from this end begins with a capsule that says the code and
/// the text, of which nothing is written yet. Nothing is said, and no stream is touched.
/// No other session can be closed.
pub proof fn lemma_close_begins_once(
    state: RuntimeState,
    id: u64,
    error_code: u32,
    message: Seq<char>,
)
    ensures
        ({
            let after = state.close_begun(id, error_code, message);
            if state.session matches Some(s) && s.id == id && s.phase == SessionPhase::Active {
                let t = after.session->Some_0;
                let close = t.close->Some_0;
                &&& after.session is Some
                &&& t.phase == SessionPhase::Closing
                &&& t.id == id
                &&& t.reason == state.session->Some_0.reason
                &&& t.close is Some
                &&& close.error_code == error_code
                &&& close.message == message
                &&& close.written == 0
                &&& close.capsule == close_capsule(error_code, encode_utf8(message))
                &&& encode_utf8(message).len() <= 1024 ==> scan_capsules(
                    close.capsule,
                ) == (CapsuleScan::Closed { error_code, message, rest: Seq::empty() })
                &&& after == (RuntimeState { session: after.session, ..state })
            } else {
                after == state
            }
        }),
{
    if encode_utf8(message).len() <= 1024 {
        lemma_close_capsule_round_trip(error_code, message, Seq::empty());
        let capsule = close_capsule(error_code, encode_utf8(message));
        assert(capsule + Seq::<u8>::empty() =~= capsule);
    }
}

/// A close that was written to its end ends the session as one of this end, with the code
/// and the text that it said. Before, what was written counts up and nothing ends.
pub proof fn lemma_written_close_ends_the_session(state: RuntimeState, count: nat)
    requires
        state.session matches Some(s) && s.phase == SessionPhase::Closing && s.close is Some,
    ensures
        ({
            let s = state.session->Some_0;
            let close = s.close->Some_0;
            let reason = CloseReason::Local {
                error_code: close.error_code,
                message: close.message,
            };
            let sent = RuntimeState {
                session: Some(SessionState { send_done: true, ..s }),
                ..state
            };
            let progressed = state.close_progressed(count);
            &&& progressed == (RuntimeState { session: progressed.session, ..state })
            &&& progressed.session == Some(
                SessionState {
                    close: Some(CloseState { written: close.written + count, ..close }),
                    ..s
                },
            )
            &&& forgotten_if_done(sent.ended(reason), state.close_committed())
        }),
{
}

/// The end of the connection is the end of the session, if that was not over, and nothing
/// of it is left.
pub proof fn lemma_connection_end_ends_the_session(state: RuntimeState)
    ensures
        ({
            let after = state.disconnected();
            &&& after.session is None
            &&& after.streams.len() == 0
            &&& after.held.len() == 0
            &&& after.actions == state.actions
            &&& match state.session {
                Some(s) => {
                    &&& after.events == if s.phase != SessionPhase::Terminal {
                        state.events.push(
                            SessionEvent::Terminated {
                                session_id: s.id,
                                reason: CloseReason::ConnectionClosed,
                            },
                        )
                    } else {
                        state.events
                    }
                    &&& after.retired matches Some(highest) && s.id <= highest
                },
                None => after.events == state.events && after.retired == state.retired,
            }
        }),
{
}

} // verus!
