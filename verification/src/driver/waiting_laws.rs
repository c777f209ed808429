//! When whoever waits is answered, with what, and what is left behind when nobody waits.

use vstd::prelude::*;

use crate::driver::desk::{DeskState, OpenWait, Opening, ReadyKind, ReadyWait, Serving};
use crate::driver::lease_laws::is_given_back;
use crate::driver::openings::waits_but;
use crate::driver::readiness::{ready_but, same_goal};
use crate::driver::session_ends::{refusals, teardown_answers, Teardown};
use crate::driver::state::CoreState;
use crate::driver::transfer_laws::row_of;
use crate::peer_log::{direction_of, ids_but};
use crate::table::{distinct, lemma_lookup_after_without, lookup};
use crate::wire::stream_prefix::WebTransportStreamDirection;
use crate::wt::requests::{
    answer_taken, Answer, DatagramReadAnswer, DatagramSendAnswer, Queued, ReadAnswer,
    SessionEndAnswer,
    WebTransportOpenStreamOutcome, WebTransportReadyOutcome, WebTransportRequest,
    WebTransportStreamControlOutcome, WriteAnswer,
};
use crate::wt::runtime::SessionPhase;
use crate::wt::runtime_laws::is_history;
use crate::wt::stream_ends::WebTransportStreamSendTerminalOutcome;
use crate::wt::types::WebTransportSelectionError;
use crate::wt::waiters::{others, without_op, WaitState, Waiter};
use crate::wt::write_lease::{
    LeaseAnswer, LeaseState, LeaseVerdict, WebTransportStreamWriteLeaseProgress,
};

verus! {

/// Whether two requests of a session wait for the same thing: something of the same stream,
/// or its datagrams.
pub open spec fn wants_the_same(a: ReadyKind, b: ReadyKind) -> bool {
    match a {
        ReadyKind::Readable { stream_id } => b == (ReadyKind::Readable { stream_id }),
        ReadyKind::Writable { stream_id, .. } => b matches ReadyKind::Writable {
            stream_id: other,
            ..
        } && other == stream_id,
        ReadyKind::Datagram => b == ReadyKind::Datagram,
        ReadyKind::DatagramRoom => b == ReadyKind::DatagramRoom,
    }
}

/// A request to be told when something can be done is answered at once if it can be done, or
/// never can. Otherwise it waits behind the others, unless another one of the session waits
/// for the same: then it is told that there is no room.
pub proof fn lemma_request_to_be_told_is_answered_or_waits(
    state: Serving,
    op: u64,
    session_id: u64,
    kind: ReadyKind,
)
    ensures
        ({
            let after = state.ready_requested(op, session_id, kind);
            let now = state.readiness(session_id, kind);
            let waits = state.desk.ready_waits;
            let taken = exists|i: int|
                0 <= i < waits.len() && (#[trigger] waits[i]).session_id == session_id
                    && wants_the_same(waits[i].kind, kind);
            let limit = match kind {
                ReadyKind::Datagram => WebTransportReadyOutcome::ResourceLimit,
                ReadyKind::DatagramRoom => WebTransportReadyOutcome::ResourceLimit,
                _ => WebTransportReadyOutcome::Rejected(
                    WebTransportSelectionError::ResourceLimit,
                ),
            };
            &&& after.core == state.core
            &&& now is Some ==> after.desk.answers == state.desk.answers.push(
                (op, Answer::Ready(now->Some_0)),
            ) && after.desk.ready_waits == waits
            &&& now is None && taken ==> after.desk.answers == state.desk.answers.push(
                (op, Answer::Ready(limit)),
            ) && after.desk.ready_waits == waits
            &&& now is None && !taken ==> after.desk.answers == state.desk.answers
                && after.desk.ready_waits == waits.push(ReadyWait { op, session_id, kind })
        }),
{
    reveal(Serving::ready_requested);
    let waits = state.desk.ready_waits;
    assert forall|i: int| 0 <= i < waits.len() implies wants_the_same(
        (#[trigger] waits[i]).kind,
        kind,
    ) == same_goal(waits[i].kind, kind) by {}
}

/// What a wait is told when it ends: what is ready now; but where the session is over because
/// this end closed it, that it is being closed.
pub open spec fn told_at_the_end(state: Serving, wait: ReadyWait) -> Option<
    WebTransportReadyOutcome,
> {
    let now = state.readiness(wait.session_id, wait.kind);
    if now == Some(
        WebTransportReadyOutcome::Rejected(WebTransportSelectionError::TerminalSession),
    ) && state.closed_here(wait.session_id) {
        Some(WebTransportReadyOutcome::Rejected(WebTransportSelectionError::ClosingSession))
    } else {
        now
    }
}

/// The waits that need not go on.
pub open spec fn wait_is_over(state: Serving) -> spec_fn(ReadyWait) -> bool {
    |wait: ReadyWait| told_at_the_end(state, wait) is Some
}

/// The waits that go on.
pub open spec fn wait_goes_on(state: Serving) -> spec_fn(ReadyWait) -> bool {
    |wait: ReadyWait| told_at_the_end(state, wait) is None
}

/// What a wait is answered.
pub open spec fn as_answered(state: Serving) -> spec_fn(ReadyWait) -> (u64, Answer) {
    |wait: ReadyWait| (wait.op, Answer::Ready(told_at_the_end(state, wait)->Some_0))
}

proof fn lemma_readiness_is_of_the_core(a: Serving, b: Serving, wait: ReadyWait)
    requires
        a.core == b.core,
        a.desk.endings == b.desk.endings,
        a.desk.forgotten == b.desk.forgotten,
    ensures
        a.wait_outcome(wait) == b.wait_outcome(wait),
        told_at_the_end(a, wait) == a.wait_outcome(wait),
        told_at_the_end(a, wait) == told_at_the_end(b, wait),
{
}

proof fn lemma_waits_are_tried(
    start: Serving,
    state: Serving,
    list: Seq<ReadyWait>,
    from: int,
)
    requires
        0 <= from <= list.len(),
        state.core == start.core,
        state.desk.endings == start.desk.endings,
        state.desk.forgotten == start.desk.forgotten,
    ensures
        ({
            let after = state.all_ready_tried(list, from);
            let rest = list.skip(from);
            &&& after.core == state.core
            &&& after.desk.answers == state.desk.answers + rest.filter(
                wait_is_over(start),
            ).map_values(as_answered(start))
            &&& after.desk.ready_waits == state.desk.ready_waits + rest.filter(
                wait_goes_on(start),
            )
        }),
    decreases list.len() - from,
{
    let rest = list.skip(from);
    if from < list.len() {
        let wait = list[from];
        let next = state.ready_tried(wait);
        lemma_readiness_is_of_the_core(state, start, wait);
        lemma_waits_are_tried(start, next, list, from + 1);
        let tail = list.skip(from + 1);
        assert(rest =~= seq![wait] + tail);
        lemma_filter_of_a_front(wait, tail, wait_is_over(start));
        lemma_filter_of_a_front(wait, tail, wait_goes_on(start));
        let told = tail.filter(wait_is_over(start)).map_values(as_answered(start));
        if told_at_the_end(start, wait) is Some {
            assert((seq![wait] + tail.filter(wait_is_over(start))).map_values(
                as_answered(start),
            ) =~= seq![as_answered(start)(wait)] + told);
            assert(state.desk.answers.push(as_answered(start)(wait)) + told
                =~= state.desk.answers + (seq![as_answered(start)(wait)] + told));
        } else {
            let kept = tail.filter(wait_goes_on(start));
            assert(state.desk.ready_waits.push(wait) + kept =~= state.desk.ready_waits + (
            seq![wait] + kept));
        }
    } else {
        assert(rest =~= Seq::empty());
        reveal(Seq::filter);
        assert(state.desk.answers + Seq::<(u64, Answer)>::empty() =~= state.desk.answers);
        assert(rest.filter(wait_is_over(start)).map_values(as_answered(start)) =~= Seq::empty());
        assert(state.desk.ready_waits + Seq::<ReadyWait>::empty() =~= state.desk.ready_waits);
    }
}

proof fn lemma_filter_of_a_front<A>(first: A, rest: Seq<A>, keep: spec_fn(A) -> bool)
    ensures
        (seq![first] + rest).filter(keep) == if keep(first) {
            seq![first] + rest.filter(keep)
        } else {
            rest.filter(keep)
        },
    decreases rest.len(),
{
    reveal(Seq::filter);
    let all = seq![first] + rest;
    if rest.len() == 0 {
        let none = Seq::<A>::empty();
        assert(rest =~= none);
        assert(all.drop_last() =~= none);
        assert(all.last() == first);
        assert(none.filter(keep) =~= none);
        assert(seq![first] + none =~= none.push(first));
    } else {
        lemma_filter_of_a_front(first, rest.drop_last(), keep);
        assert(all.drop_last() =~= seq![first] + rest.drop_last());
        assert(all.last() == rest.last());
        let kept = rest.drop_last().filter(keep);
        assert((seq![first] + kept).push(rest.last()) =~= seq![first] + kept.push(rest.last()));
    }
}

/// Every request that waits until something can be done is answered in the turn in which it
/// can, or never can, in the order in which they came. The others go on waiting, in order,
/// and nothing else happens.
pub proof fn lemma_waits_end_in_the_turn_in_which_they_can(state: Serving)
    ensures
        ({
            let after = state.ready_settled();
            let waits = state.desk.ready_waits;
            &&& after.core == state.core
            &&& after.desk.answers == state.desk.answers + waits.filter(
                wait_is_over(state),
            ).map_values(as_answered(state))
            &&& after.desk.ready_waits == waits.filter(wait_goes_on(state))
        }),
{
    reveal(Serving::ready_settled);
    let start = Serving {
        desk: DeskState { ready_waits: Seq::empty(), ..state.desk },
        ..state
    };
    lemma_waits_are_tried(state, start, state.desk.ready_waits, 0);
    assert(state.desk.ready_waits.skip(0) =~= state.desk.ready_waits);
    assert(Seq::<ReadyWait>::empty() + state.desk.ready_waits.filter(wait_goes_on(state))
        =~= state.desk.ready_waits.filter(wait_goes_on(state)));
}

/// Whether a session has not ended.
pub open spec fn lasts(state: Serving, session_id: u64) -> bool {
    state.core.session matches Some(s) && (s.session matches Some(session) && session.id
        == session_id && session.phase != SessionPhase::Terminal)
}

/// What whoever waits for the end of a session is told: why it ended, if that is known. A
/// session without a known end is one that was, or one that never was.
pub open spec fn told_of_the_end(state: Serving, session_id: u64) -> SessionEndAnswer {
    let s = state.core.session->Some_0;
    if state.core.session is None {
        SessionEndAnswer::UnknownSession { session_id }
    } else if s.last_end is Some && s.last_end->Some_0.0 == session_id {
        SessionEndAnswer::Terminated { session_id, reason: s.last_end->Some_0.1 }
    } else if is_history(s, session_id) || (s.session is Some && s.session->Some_0.id
        == session_id) {
        SessionEndAnswer::StaleSession { session_id }
    } else {
        SessionEndAnswer::UnknownSession { session_id }
    }
}

/// Those who wait for a session that lasts.
pub open spec fn awaits_more(state: Serving) -> spec_fn(Waiter) -> bool {
    |waiter: Waiter| lasts(state, waiter.key)
}

/// Those who wait for a session that is over.
pub open spec fn awaits_no_more(state: Serving) -> spec_fn(Waiter) -> bool {
    |waiter: Waiter| !lasts(state, waiter.key)
}

/// What whoever waited for the end of a session is answered.
pub open spec fn as_told_of_the_end(state: Serving) -> spec_fn(Waiter) -> (u64, Answer) {
    |waiter: Waiter|
        (waiter.op, Answer::SessionEnd(told_of_the_end(state, waiter.key)))
}

proof fn lemma_session_waits_are_tried(
    start: Serving,
    state: Serving,
    list: Seq<Waiter>,
    from: int,
)
    requires
        0 <= from <= list.len(),
        state.core == start.core,
    ensures
        ({
            let after = state.session_waits_tried(list, from);
            let rest = list.skip(from);
            &&& after.core == state.core
            &&& after.desk.answers == state.desk.answers + rest.filter(
                awaits_no_more(start),
            ).map_values(as_told_of_the_end(start))
            &&& after.desk.session_waits.list == state.desk.session_waits.list + rest.filter(
                awaits_more(start),
            )
        }),
    decreases list.len() - from,
{
    let rest = list.skip(from);
    if from < list.len() {
        let waiter = list[from];
        let tail = list.skip(from + 1);
        assert(rest =~= seq![waiter] + tail);
        lemma_filter_of_a_front(waiter, tail, awaits_no_more(start));
        lemma_filter_of_a_front(waiter, tail, awaits_more(start));
        let told = tail.filter(awaits_no_more(start)).map_values(as_told_of_the_end(start));
        if lasts(start, waiter.key) {
            let next = Serving {
                desk: DeskState {
                    session_waits: WaitState {
                        list: state.desk.session_waits.list.push(waiter),
                        ..state.desk.session_waits
                    },
                    ..state.desk
                },
                ..state
            };
            lemma_session_waits_are_tried(start, next, list, from + 1);
            let kept = tail.filter(awaits_more(start));
            assert(state.desk.session_waits.list.push(waiter) + kept
                =~= state.desk.session_waits.list + (seq![waiter] + kept));
        } else {
            let answer = as_told_of_the_end(start)(waiter);
            lemma_session_waits_are_tried(
                start,
                state.answered(waiter.op, answer.1),
                list,
                from + 1,
            );
            assert((seq![waiter] + tail.filter(awaits_no_more(start))).map_values(
                as_told_of_the_end(start),
            ) =~= seq![answer] + told);
            assert(state.desk.answers.push(answer) + told =~= state.desk.answers + (seq![answer]
                + told));
        }
    } else {
        assert(rest =~= Seq::empty());
        reveal(Seq::filter);
        assert(rest.filter(awaits_no_more(start)).map_values(as_told_of_the_end(start))
            =~= Seq::empty());
        assert(state.desk.answers + Seq::<(u64, Answer)>::empty() =~= state.desk.answers);
        assert(state.desk.session_waits.list + Seq::<Waiter>::empty()
            =~= state.desk.session_waits.list);
    }
}

/// Whoever waits for the end of a session is told why it ended as soon as it has, in the
/// order in which they came, and nobody before.
pub proof fn lemma_end_of_a_session_is_told_to_everybody(state: Serving)
    ensures
        ({
            let after = state.sessions_settled();
            let list = state.desk.session_waits.list;
            &&& after.core == state.core
            &&& after.desk.answers == state.desk.answers + list.filter(
                awaits_no_more(state),
            ).map_values(as_told_of_the_end(state))
            &&& after.desk.session_waits.list == list.filter(awaits_more(state))
        }),
{
    reveal(Serving::sessions_settled);
    let list = state.desk.session_waits.list;
    let start = Serving {
        desk: DeskState {
            session_waits: WaitState {
                list: Seq::empty(),
                ..state.desk.session_waits
            },
            ..state.desk
        },
        ..state
    };
    lemma_session_waits_are_tried(state, start, list, 0);
    assert(list.skip(0) =~= list);
    assert(Seq::<Waiter>::empty() + list.filter(awaits_more(state)) =~= list.filter(
        awaits_more(state),
    ));
}

/// What whoever waits for the end of this end's direction of a stream is told when the
/// session or the connection ends first.
pub open spec fn as_torn_down(session_id: u64, connection: bool) -> spec_fn(Waiter) -> (
    u64,
    Answer,
) {
    |waiter: Waiter|
        (
            waiter.op,
            Answer::SendEnd(
                if connection {
                    WebTransportStreamSendTerminalOutcome::ConnectionTerminated {
                        session_id,
                        stream_id: waiter.key,
                    }
                } else {
                    WebTransportStreamSendTerminalOutcome::SessionTerminated {
                        session_id,
                        stream_id: waiter.key,
                    }
                },
            ),
        )
}

proof fn lemma_released_streams_are_counted(state: Serving, list: Seq<u64>, from: int)
    requires
        0 <= from <= list.len(),
    ensures
        ({
            let after = state.locals_released(list, from);
            let before = state.core.transport;
            &&& after.desk == state.desk
            &&& before.bidi_released + before.uni_released + list.len() - from <= u64::MAX
                ==> after.core.transport.bidi_released + after.core.transport.uni_released
                == before.bidi_released + before.uni_released + list.len() - from
            &&& after.core == (CoreState {
                transport: after.core.transport,
                ..state.core
            })
        }),
    decreases list.len() - from,
{
    if from < list.len() {
        let next = Serving {
            core: state.core.stream_released(direction_of(list[from])),
            ..state
        };
        lemma_released_streams_are_counted(next, list, from + 1);
    }
}

/// When a session ends, or the connection does, everybody who waits for the end of a stream
/// of this end is told which of the two, in order. Nothing of the streams is remembered, and
/// each stream of this end that counted against the limit of the peer is given back.
pub proof fn lemma_end_of_a_session_is_told_for_its_streams(
    state: Serving,
    session_id: u64,
    connection: bool,
)
    ensures
        ({
            let teardown = if connection {
                Teardown::Connection
            } else {
                Teardown::Session
            };
            let after = state.streams_left(session_id, teardown);
            let before = state.core.transport;
            let now = after.core.transport;
            &&& after.desk.answers == state.desk.answers
                + state.desk.endings.waiters.list.map_values(
                as_torn_down(session_id, connection),
            )
            &&& after.desk.endings.rows.len() == 0 && after.desk.endings.waiters.list.len() == 0
            &&& after.desk.locals.len() == 0 && after.desk.forgotten.len() == 0
            &&& after.desk.serving is None
            &&& before.bidi_released + before.uni_released + state.desk.locals.len()
                <= u64::MAX ==> now.bidi_released + now.uni_released == before.bidi_released
                + before.uni_released + state.desk.locals.len()
        }),
{
    reveal(Serving::streams_left);
    let teardown = if connection {
        Teardown::Connection
    } else {
        Teardown::Session
    };
    let told = Serving {
        desk: DeskState {
            answers: teardown_answers(
                state.desk.answers,
                state.desk.endings.waiters.list,
                teardown,
                session_id,
            ),
            endings: state.desk.endings.cleared(),
            forgotten: Seq::empty(),
            locals: Seq::empty(),
            serving: None,
            ..state.desk
        },
        ..state
    };
    lemma_released_streams_are_counted(told, state.desk.locals, 0);
    assert(told.desk.answers =~= state.desk.answers
        + state.desk.endings.waiters.list.map_values(as_torn_down(session_id, connection)));
}

/// A request that nobody waits for and that the driver has not carried out is dropped: it
/// changes nothing at the peer, what it kept alive is given back, and the owner of a lease is
/// told that it was never shown.
pub proof fn lemma_dropped_request_leaves_no_trace(state: Serving, item: Queued)
    requires
        distinct(state.desk.writes),
        distinct(state.desk.retries),
    ensures
        ({
            let after = state.request_dropped(item);
            &&& after.core == state.core
            &&& after.desk.answers == state.desk.answers
            &&& is_given_back(state.desk, after.desk, item.op)
            &&& match item.request {
                WebTransportRequest::WriteLease { lease, .. } => after.desk.dropped
                    == state.desk.dropped.push(
                    LeaseState {
                        abandonments: lease@.abandonments.push(
                            WebTransportStreamWriteLeaseProgress::NeverExposed,
                        ),
                        ..lease@
                    },
                ),
                _ => after.desk.dropped == state.desk.dropped,
            }
        }),
{
    lemma_lookup_after_without(state.desk.writes, item.op, item.op);
    lemma_lookup_after_without(state.desk.retries, item.op, item.op);
}

/// The waits of other requests.
pub open spec fn opens_for_others(op: u64) -> spec_fn(OpenWait) -> bool {
    |wait: OpenWait| wait.op != op
}

/// The waits of other requests.
pub open spec fn ready_for_others(op: u64) -> spec_fn(ReadyWait) -> bool {
    |wait: ReadyWait| wait.op != op
}

/// The waits of other requests.
pub open spec fn of_other_requests(op: u64) -> spec_fn(Waiter) -> bool {
    |waiter: Waiter| waiter.op != op
}

/// The waits under other keys.
pub open spec fn under_other_keys(key: u64) -> spec_fn(Waiter) -> bool {
    |waiter: Waiter| waiter.key != key
}

/// A request that nobody waits for any more is taken from where it waits, and what others
/// wait for stays in its order.
pub proof fn lemma_nobody_else_stops_waiting(
    waits: Seq<OpenWait>,
    ready: Seq<ReadyWait>,
    list: Seq<Waiter>,
    op: u64,
)
    ensures
        waits_but(waits, op) == waits.filter(opens_for_others(op)),
        ready_but(ready, op) == ready.filter(ready_for_others(op)),
        without_op(list, op) == list.filter(of_other_requests(op)),
        others(list, op) == list.filter(under_other_keys(op)),
    decreases waits.len() + ready.len() + list.len(),
{
    reveal(Seq::filter);
    if waits.len() > 0 {
        lemma_nobody_else_stops_waiting(waits.drop_last(), ready, list, op);
    } else if ready.len() > 0 {
        lemma_nobody_else_stops_waiting(waits, ready.drop_last(), list, op);
    } else if list.len() > 0 {
        lemma_nobody_else_stops_waiting(waits, ready, list.drop_last(), op);
    }
}

/// What a request is answered when the connection has ended before it was carried out: that
/// it has, with everything that was handed over for it.
pub proof fn lemma_end_of_the_connection_gives_everything_back(
    state: Serving,
    item: Queued,
)
    requires
        !state.desk.cancelled.contains(item.op),
        !(item.request is LiveSnapshot),
    ensures
        ({
            let after = state.request_closed(item);
            let error = WebTransportSelectionError::ConnectionClosed;
            &&& after.core == state.core
            &&& after.desk.answers.len() == state.desk.answers.len() + 1
            &&& after.desk.answers.drop_last() == state.desk.answers
            &&& after.desk.answers.last().0 == item.op
            &&& match item.request {
                WebTransportRequest::Open { .. } => after.desk.answers.last().1 == Answer::Open(
                    WebTransportOpenStreamOutcome::Rejected(error),
                ),
                WebTransportRequest::Write { data, fin, .. } => after.desk.answers.last().1
                    == Answer::Write(WriteAnswer::Rejected { error, data: data@, fin }),
                WebTransportRequest::WriteLease { lease, fin, .. } => after.desk.answers.last().1
                    == Answer::Lease(
                    LeaseAnswer { lease: lease@, fin, verdict: LeaseVerdict::Rejected(error) },
                ),
                WebTransportRequest::Read { .. } => after.desk.answers.last().1 == Answer::Read(
                    ReadAnswer::Rejected(error),
                ),
                WebTransportRequest::Reset { .. } | WebTransportRequest::Stop { .. } =>
                    after.desk.answers.last().1 == Answer::Control(
                    WebTransportStreamControlOutcome::Rejected(error),
                ),
                WebTransportRequest::AwaitSendEnd { session_id, stream_id } =>
                    after.desk.answers.last() == as_torn_down(session_id, true)(
                    Waiter { op: item.op, key: stream_id },
                ),
                WebTransportRequest::AwaitSessionEnd { session_id } =>
                    after.desk.answers.last().1 == Answer::SessionEnd(
                    told_of_the_end(state, session_id),
                ),
                WebTransportRequest::SendDatagram { datagram, .. } => after.desk.answers.last().1
                    == Answer::DatagramSent(
                    DatagramSendAnswer::Rejected { error, datagram: datagram@ },
                ),
                WebTransportRequest::ReceiveDatagram { .. } => after.desk.answers.last().1
                    == Answer::DatagramRead(DatagramReadAnswer::Rejected(error)),
                WebTransportRequest::MaxDatagram { .. } => after.desk.answers.last().1
                    == Answer::MaxDatagram(Err(error)),
                WebTransportRequest::AwaitReadable { .. }
                | WebTransportRequest::AwaitWritable { .. }
                | WebTransportRequest::AwaitDatagram { .. }
                | WebTransportRequest::AwaitDatagramRoom { .. } => after.desk.answers.last().1
                    == Answer::Ready(WebTransportReadyOutcome::Rejected(error)),
                WebTransportRequest::RetentionStats => after.desk.answers.last().1 is Closed,
                _ => true,
            }
        }),
{
    assert(state.desk.answers.push(
        (item.op, state.closing_answer(item.request)),
    ).drop_last() =~= state.desk.answers);
}

/// The largest datagram of the active session is what fits into 1200 bytes behind the number
/// of its flow. Of another session there is none.
pub proof fn lemma_largest_datagram_leaves_room_for_the_flow(
    state: Serving,
    op: u64,
    session_id: u64,
)
    ensures
        ({
            let after = state.max_datagram_requested(op, session_id);
            let flow_id = session_id as int / 4;
            let size = if flow_id < 0x40 {
                1
            } else if flow_id < 0x4000 {
                2
            } else if flow_id < 0x4000_0000 {
                4
            } else {
                8int
            };
            &&& after.core == state.core
            &&& state.selection(session_id) is None ==> exists|max: usize|
                max == 1200 - size && #[trigger] after.desk.answers == state.desk.answers.push(
                    (op, Answer::MaxDatagram(Ok(max))),
                )
            &&& state.selection(session_id) matches Some(error) ==> after.desk.answers
                == state.desk.answers.push((op, Answer::MaxDatagram(Err(error))))
        }),
{
}

/// Whether a stream has the direction to the peer.
pub open spec fn is_written(state: Serving, stream_id: u64) -> bool {
    row_of(state, stream_id) matches Some(row) && (row.local || row.direction
        == WebTransportStreamDirection::Bidi)
}

/// Whether a stream has the direction from the peer.
pub open spec fn is_read(state: Serving, stream_id: u64) -> bool {
    row_of(state, stream_id) matches Some(row) && (!row.local || row.direction
        == WebTransportStreamDirection::Bidi)
}

/// Other streams.
pub open spec fn other_ids(stream_id: u64) -> spec_fn(u64) -> bool {
    |id: u64| id != stream_id
}

proof fn lemma_other_ids_stay(ids: Seq<u64>, stream_id: u64)
    ensures
        ids_but(ids, stream_id) == ids.filter(other_ids(stream_id)),
    decreases ids.len(),
{
    reveal(Seq::filter);
    if ids.len() > 0 {
        lemma_other_ids_stay(ids.drop_last(), stream_id);
    }
}

/// A stream is forgotten exactly when it is over in each direction that it has and the
/// application wants to hear no more of it: of what it writes because it said so, and of what
/// it reads because it said so or refused it. A stream of this end counts against the limit
/// of the peer until it is over in each direction, and no longer.
pub proof fn lemma_stream_is_forgotten_when_all_is_over(state: Serving, stream_id: u64)
    requires
        row_of(state, stream_id) is Some,
        distinct(state.core.session->Some_0.streams),
    ensures
        ({
            let after = state.stream_checked(stream_id);
            let known = lookup(state.desk.endings.rows, stream_id);
            let ends = known->Some_0;
            let sent = known is Some && ends.send_closed;
            let received = known is Some && (ends.stop_sent || ends.received is Some);
            let quit_sent = known is Some && ends.send_closed && ends.send_retired;
            let quit_received = known is Some && (ends.stop_sent || (ends.received is Some
                && ends.receive_retired));
            let over = (is_written(state, stream_id) ==> sent) && (is_read(state, stream_id)
                ==> received);
            let done = (is_written(state, stream_id) ==> quit_sent) && (is_read(state, stream_id)
                ==> quit_received);
            &&& row_of(after, stream_id) is None <==> done
            &&& done ==> after.desk.forgotten == state.desk.forgotten.push(stream_id)
            &&& !done ==> after.desk.forgotten == state.desk.forgotten && row_of(after, stream_id)
                == row_of(state, stream_id)
            &&& after.desk.locals == (if over {
                state.desk.locals.filter(other_ids(stream_id))
            } else {
                state.desk.locals
            })
            &&& !(over && state.desk.locals.contains(stream_id)) ==> after.core.transport
                == state.core.transport
            &&& after.desk.answers == state.desk.answers
        }),
{
    reveal(Serving::stream_checked);
    reveal(Serving::stream_forgotten);
    lemma_other_ids_stay(state.desk.locals, stream_id);
    lemma_lookup_after_without(state.core.session->Some_0.streams, stream_id, stream_id);
    if !state.desk.locals.contains(stream_id) {
        lemma_nothing_to_filter(state.desk.locals, stream_id);
    }
}

proof fn lemma_nothing_to_filter(ids: Seq<u64>, stream_id: u64)
    requires
        !ids.contains(stream_id),
    ensures
        ids.filter(other_ids(stream_id)) == ids,
    decreases ids.len(),
{
    reveal(Seq::filter);
    if ids.len() > 0 {
        let front = ids.drop_last();
        assert(!front.contains(stream_id)) by {
            if front.contains(stream_id) {
                let k = choose|k: int| 0 <= k < front.len() && front[k] == stream_id;
                assert(ids[k] == stream_id);
            }
        }
        lemma_nothing_to_filter(front, stream_id);
        assert(ids[ids.len() - 1] != stream_id);
        assert(front.push(ids.last()) =~= ids);
    } else {
        assert(ids.filter(other_ids(stream_id)) =~= ids);
    }
}

proof fn lemma_abandoning_keeps_the_lists(
    state: Serving,
    list: Seq<Opening>,
    op: u64,
    from: int,
)
    requires
        0 <= from,
    ensures
        ({
            let after = state.openings_abandoned(list, op, from);
            &&& after.desk.endings == state.desk.endings
            &&& after.desk.session_waits == state.desk.session_waits
            &&& after.desk.ready_waits == state.desk.ready_waits
            &&& after.desk.waits == state.desk.waits
            &&& after.desk.answers == state.desk.answers
        }),
    decreases list.len() - from,
{
    if from < list.len() {
        if list[from].op == op {
            reveal(Serving::opening_abandoned);
            reveal(Serving::opening_dropped);
            lemma_abandoning_keeps_the_lists(
                state.opening_abandoned(list[from]),
                list,
                op,
                from + 1,
            );
        } else {
            lemma_abandoning_keeps_the_lists(state.opening_kept(list[from]), list, op, from + 1);
        }
    }
}

/// A request that nobody waits for any more waits nowhere: not for a stream, not for the end
/// of one or of a session, and not until something can be done. Everybody else goes on
/// waiting, in order.
pub proof fn lemma_cancelled_request_waits_nowhere(state: Serving, op: u64)
    ensures
        ({
            let after = state.op_cancelled(op);
            &&& after.desk.waits == state.desk.waits.filter(opens_for_others(op))
            &&& after.desk.ready_waits == state.desk.ready_waits.filter(ready_for_others(op))
            &&& after.desk.session_waits.list == state.desk.session_waits.list.filter(
                of_other_requests(op),
            )
            &&& after.desk.endings.waiters.list == state.desk.endings.waiters.list.filter(
                of_other_requests(op),
            )
            &&& after.desk.endings.rows == state.desk.endings.rows
        }),
{
    reveal(Serving::op_cancelled);
    lemma_nobody_else_stops_waiting(
        state.desk.waits,
        state.desk.ready_waits,
        state.desk.session_waits.list,
        op,
    );
    lemma_nobody_else_stops_waiting(
        state.desk.waits,
        state.desk.ready_waits,
        state.desk.endings.waiters.list,
        op,
    );
    let start = Serving {
        desk: DeskState {
            endings: state.desk.endings.cancelled(op),
            session_waits: WaitState {
                list: without_op(state.desk.session_waits.list, op),
                ..state.desk.session_waits
            },
            ready_waits: ready_but(state.desk.ready_waits, op),
            answers: answer_taken(state.desk.answers, op),
            waits: waits_but(state.desk.waits, op),
            openings: Seq::empty(),
            ..state.desk
        },
        ..state
    };
    lemma_abandoning_keeps_the_lists(start, state.desk.openings, op, 0);
}

/// What a request for a stream is told when there will be none.
pub open spec fn as_refused(error: WebTransportSelectionError) -> spec_fn(OpenWait) -> (
    u64,
    Answer,
) {
    |wait: OpenWait| (wait.op, Answer::Open(WebTransportOpenStreamOutcome::Rejected(error)))
}

/// What a request whose stream was being opened is told when there will be none.
pub open spec fn as_given_up(error: WebTransportSelectionError) -> spec_fn(Opening) -> (
    u64,
    Answer,
) {
    |opening: Opening|
        (opening.op, Answer::Open(WebTransportOpenStreamOutcome::Rejected(error)))
}

proof fn lemma_openings_are_given_up(
    state: Serving,
    list: Seq<Opening>,
    error: WebTransportSelectionError,
    from: int,
)
    requires
        0 <= from <= list.len(),
    ensures
        ({
            let after = state.openings_refused(list, error, from);
            &&& after.desk.answers == state.desk.answers + list.skip(from).map_values(
                as_given_up(error),
            )
            &&& after.desk.waits == state.desk.waits && after.desk.openings
                == state.desk.openings && after.desk.begun == state.desk.begun
        }),
    decreases list.len() - from,
{
    if from < list.len() {
        reveal(Serving::opening_dropped);
        let answer = as_given_up(error)(list[from]);
        let next = state.opening_dropped(list[from]).answered(answer.0, answer.1);
        lemma_openings_are_given_up(next, list, error, from + 1);
        assert(list.skip(from).map_values(as_given_up(error)) =~= seq![answer] + list.skip(
            from + 1,
        ).map_values(as_given_up(error)));
        assert(state.desk.answers.push(answer) + list.skip(from + 1).map_values(
            as_given_up(error),
        ) =~= state.desk.answers + (seq![answer] + list.skip(from + 1).map_values(
            as_given_up(error),
        )));
    } else {
        assert(list.skip(from).map_values(as_given_up(error)) =~= Seq::empty());
        assert(state.desk.answers + Seq::<(u64, Answer)>::empty() =~= state.desk.answers);
    }
}

/// When no more streams are opened, everybody who waits for one is told so with the reason:
/// first those who wait, then those whose stream was being opened, in order. None is left.
pub proof fn lemma_nobody_waits_for_a_stream_in_vain(
    state: Serving,
    error: WebTransportSelectionError,
)
    ensures
        ({
            let after = state.opens_refused(error);
            &&& after.desk.answers == state.desk.answers + state.desk.waits.map_values(
                as_refused(error),
            ) + (state.desk.openings + state.desk.begun).map_values(as_given_up(error))
            &&& after.desk.waits.len() == 0 && after.desk.openings.len() == 0
                && after.desk.begun.len() == 0
        }),
{
    reveal(Serving::opens_refused);
    let all = state.desk.openings + state.desk.begun;
    let start = Serving {
        desk: DeskState {
            waits: Seq::empty(),
            openings: Seq::empty(),
            begun: Seq::empty(),
            answers: refusals(state.desk.answers, state.desk.waits, error),
            ..state.desk
        },
        ..state
    };
    lemma_openings_are_given_up(start, all, error, 0);
    assert(all.skip(0) =~= all);
    assert(start.desk.answers =~= state.desk.answers + state.desk.waits.map_values(
        as_refused(error),
    ));
}

/// A session is closed from this end while its close is on the way, and from then on if that
/// is how it ended.
pub proof fn lemma_closing_from_this_end_is_known(state: Serving, session_id: u64)
    requires
        state.core.session is Some,
    ensures
        ({
            let s = state.core.session->Some_0;
            let closing = s.session is Some && s.session->Some_0.id == session_id
                && s.session->Some_0.phase == SessionPhase::Closing;
            let closed = s.last_end is Some && s.last_end->Some_0.0 == session_id
                && s.last_end->Some_0.1 is Local;
            state.closed_here(session_id) <==> closing || closed
        }),
{
}

/// When the session that streams are opened for cannot be used any more, nobody waits for a
/// stream of it: they are told that this end is closing it, if it is, or why it cannot be
/// used. Once it is over, everybody who waits for the end of a stream is told that it ended
/// with the session. While it is active nothing changes.
pub proof fn lemma_streams_end_with_their_session(state: Serving, session_id: u64)
    requires
        state.desk.serving == Some(session_id),
    ensures
        ({
            let after = state.streams_settled();
            let error = state.selection(session_id);
            let told = if state.closed_here(session_id) {
                WebTransportSelectionError::ClosingSession
            } else {
                error->Some_0
            };
            let refused = state.desk.answers + state.desk.waits.map_values(as_refused(told)) + (
            state.desk.openings + state.desk.begun).map_values(as_given_up(told));
            let closing = error == Some(WebTransportSelectionError::ClosingSession);
            &&& error is None ==> after == state
            &&& error is Some ==> after.desk.waits.len() == 0 && after.desk.openings.len() == 0
                && after.desk.begun.len() == 0
            &&& closing ==> after.desk.answers == refused && after.desk.serving
                == state.desk.serving
            &&& error is Some && !closing ==> {
                &&& after.desk.answers == refused + state.desk.endings.waiters.list.map_values(
                    as_torn_down(session_id, false),
                )
                &&& after.desk.serving is None && after.desk.locals.len() == 0
            }
        }),
{
    reveal(Serving::streams_settled);
    if let Some(error) = state.selection(session_id) {
        let told = if state.closed_here(session_id) {
            WebTransportSelectionError::ClosingSession
        } else {
            error
        };
        lemma_nobody_waits_for_a_stream_in_vain(state, told);
        let refused = state.opens_refused(told);
        lemma_refusing_keeps_the_rest(state, told);
        lemma_end_of_a_session_is_told_for_its_streams(refused, session_id, false);
        reveal(Serving::streams_left);
        lemma_released_streams_are_counted(
            Serving {
                desk: DeskState {
                    answers: teardown_answers(
                        refused.desk.answers,
                        refused.desk.endings.waiters.list,
                        Teardown::Session,
                        session_id,
                    ),
                    endings: refused.desk.endings.cleared(),
                    forgotten: Seq::empty(),
                    locals: Seq::empty(),
                    serving: None,
                    ..refused.desk
                },
                ..refused
            },
            refused.desk.locals,
            0,
        );
    }
}

proof fn lemma_refusing_keeps_the_rest(state: Serving, error: WebTransportSelectionError)
    ensures
        state.opens_refused(error).desk.endings == state.desk.endings,
        state.opens_refused(error).desk.serving == state.desk.serving,
        state.opens_refused(error).desk.locals == state.desk.locals,
{
    reveal(Serving::opens_refused);
    let start = Serving {
        desk: DeskState {
            waits: Seq::empty(),
            openings: Seq::empty(),
            begun: Seq::empty(),
            answers: refusals(state.desk.answers, state.desk.waits, error),
            ..state.desk
        },
        ..state
    };
    lemma_refused_openings_keep_the_rest(
        start,
        state.desk.openings + state.desk.begun,
        error,
        0,
    );
}

proof fn lemma_refused_openings_keep_the_rest(
    state: Serving,
    list: Seq<Opening>,
    error: WebTransportSelectionError,
    from: int,
)
    requires
        0 <= from,
    ensures
        ({
            let after = state.openings_refused(list, error, from);
            &&& after.desk.endings == state.desk.endings
            &&& after.desk.serving == state.desk.serving
            &&& after.desk.locals == state.desk.locals
        }),
    decreases list.len() - from,
{
    if from < list.len() {
        reveal(Serving::opening_dropped);
        let answer = as_given_up(error)(list[from]);
        lemma_refused_openings_keep_the_rest(
            state.opening_dropped(list[from]).answered(answer.0, answer.1),
            list,
            error,
            from + 1,
        );
    }
}

} // verus!
