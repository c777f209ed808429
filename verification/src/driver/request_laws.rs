//! Laws of the application's requests about sessions.

use vstd::prelude::*;

use crate::conn_close::bumped;
use crate::driver::desk::{DeskState, OpenWait, Opening, Serving};
use crate::driver::openings::awaited;
use crate::driver::service::lemma_requests_use_up_work;
use crate::driver::session_ends::{refusals, teardown_answers, torn_down, Teardown};
use crate::peer_log::{direction_of, ids_but, raw_bytes, raw_fin, without_raw, Sent};
use crate::transport::{SendResult, TransportState};
use crate::wire::stream_prefix::WebTransportStreamDirection;
use crate::wt::requests::{
    Answer, Queued, ReadAnswer, WebTransportOpenStreamOutcome, WebTransportReadyOutcome,
    WebTransportStreamControlOutcome, WriteAnswer,
};
use crate::wt::types::WebTransportSelectionError;
use crate::wt::waiters::{WaitState, Waiter};

verus! {

/// Whether a list begins with another one.
pub open spec fn begins_with<A>(list: Seq<A>, front: Seq<A>) -> bool {
    front.len() <= list.len() && list.take(front.len() as int) == front
}

proof fn lemma_begins_with_transitive<A>(a: Seq<A>, b: Seq<A>, c: Seq<A>)
    requires
        begins_with(b, a),
        begins_with(c, b),
    ensures
        begins_with(c, a),
{
    assert(c.take(a.len() as int) =~= b.take(a.len() as int));
}

proof fn lemma_begins_with_sum<A>(a: Seq<A>, b: Seq<A>)
    ensures
        begins_with(a + b, a),
        forall|x: A| begins_with(#[trigger] a.push(x), a),
{
    assert((a + b).take(a.len() as int) =~= a);
    assert forall|x: A| begins_with(#[trigger] a.push(x), a) by {
        assert(a.push(x).take(a.len() as int) =~= a);
    }
}

/// A request about a stream that the application cannot use is refused and does
/// nothing else: no byte is sent or taken, and what was to be written comes back.
pub proof fn lemma_refused_stream_request_does_nothing(
    state: Serving,
    op: u64,
    session_id: u64,
    stream_id: u64,
    data: Seq<u8>,
    fin: bool,
    max: usize,
    code: u32,
)
    ensures
        state.stream_selection(session_id, stream_id, true) matches Some(error) ==> {
            &&& state.write_requested(op, session_id, stream_id, data, fin) == state.answered(
                op,
                Answer::Write(WriteAnswer::Rejected { error, data, fin }),
            )
            &&& state.reset_requested(op, session_id, stream_id, code) == state.answered(
                op,
                Answer::Control(WebTransportStreamControlOutcome::Rejected(error)),
            )
        },
        state.stream_selection(session_id, stream_id, false) matches Some(error) ==> {
            &&& state.read_requested(op, session_id, stream_id, max) == state.answered(
                op,
                Answer::Read(ReadAnswer::Rejected(error)),
            )
            &&& state.stop_requested(op, session_id, stream_id, code) == state.answered(
                op,
                Answer::Control(WebTransportStreamControlOutcome::Rejected(error)),
            )
        },
{
    reveal(Serving::write_requested);
    reveal(Serving::reset_requested);
    reveal(Serving::read_requested);
    reveal(Serving::stop_requested);
}

/// Once a session is closing or over, every request about its streams is refused
/// with the same error, in whatever state the streams are.
pub proof fn lemma_session_error_comes_first(
    state: Serving,
    session_id: u64,
    stream_id: u64,
    sent: bool,
)
    requires
        state.selection(session_id) is Some,
    ensures
        state.stream_selection(session_id, stream_id, sent) == state.selection(session_id),
{
}

/// A write loses no byte and sends none twice: what the transport took goes to the
/// peer in order, and the rest comes back.
pub proof fn lemma_write_accounts_for_every_byte(
    state: Serving,
    op: u64,
    session_id: u64,
    stream_id: u64,
    data: Seq<u8>,
    fin: bool,
)
    requires
        state.stream_selection(session_id, stream_id, true) is None,
        !state.desk.endings.ends(stream_id).send_closed,
        data.len() <= usize::MAX,
    ensures
        ({
            let after = state.write_requested(op, session_id, stream_id, data, fin);
            let answer = after.desk.answers.last();
            &&& answer.0 == op
            &&& match answer.1 {
                Answer::Write(WriteAnswer::Accepted { accepted, remaining, fin_accepted }) => {
                    &&& accepted <= data.len()
                    &&& data == data.take(accepted as int) + match remaining {
                        Some(rest) => rest,
                        None => Seq::empty(),
                    }
                    &&& state.core.transport.raw_sent(
                        stream_id,
                        data,
                        fin,
                    ).log.sent == state.core.transport.log.sent.push(
                        Sent::Raw {
                            stream_id,
                            data: data.take(accepted as int),
                            fin: fin_accepted,
                        },
                    )
                    &&& fin_accepted ==> fin && remaining is None
                },
                Answer::Write(WriteAnswer::Blocked { data: back, fin: end }) => back == data && end
                    == fin && after.core == state.core,
                Answer::Write(WriteAnswer::ResetRequired { data: back, fin: end, .. }) => back
                    == data && end == fin && after.core == state.core,
                _ => false,
            }
        }),
{
    reveal(Serving::write_requested);
    reveal(Serving::write_tried);
    reveal(TransportState::raw_result);
    reveal(TransportState::raw_sent);
    match state.core.transport.raw_result(stream_id, data.len() as int, fin) {
        SendResult::Accepted { count, fin: ended } => {
            assert(data.subrange(0, count as int) =~= data.take(count as int));
            if count < data.len() {
                assert(data =~= data.take(count as int) + data.skip(count as int));
            } else {
                assert(data =~= data.take(count as int) + Seq::<u8>::empty());
            }
        },
        _ => {},
    }
}

proof fn lemma_nothing_waits_after_taking(log: Seq<Sent>, stream_id: u64)
    ensures
        raw_bytes(without_raw(log, stream_id), stream_id) == Seq::<u8>::empty(),
    decreases log.len(),
{
    if log.len() > 0 {
        lemma_nothing_waits_after_taking(log.drop_last(), stream_id);
        let front = without_raw(log.drop_last(), stream_id);
        assert(front.push(log.last()).drop_last() =~= front);
    }
}

proof fn lemma_taking_leaves_the_rest(state: Serving, stream_id: u64, rest: Seq<u8>, fin: bool)
    ensures
        raw_bytes(state.raw_taken(stream_id, rest, fin).core.raw.sent, stream_id) == rest,
{
    let taken = without_raw(state.core.raw.sent, stream_id);
    lemma_nothing_waits_after_taking(state.core.raw.sent, stream_id);
    if rest.len() > 0 {
        let entry = Sent::Raw { stream_id, data: rest, fin };
        assert(taken.push(entry).drop_last() =~= taken);
        assert(raw_bytes(taken, stream_id) + rest =~= rest);
    } else {
        assert(rest =~= Seq::<u8>::empty());
    }
}

/// A read that leaves bytes behind gives the application the first of those that
/// wait and keeps the others in order.
pub proof fn lemma_partial_read_keeps_the_rest(
    state: Serving,
    op: u64,
    session_id: u64,
    stream_id: u64,
    max: usize,
)
    requires
        state.stream_selection(session_id, stream_id, false) is None,
        raw_bytes(state.core.raw.sent, stream_id).len() > max,
    ensures
        ({
            let before = raw_bytes(state.core.raw.sent, stream_id);
            let after = state.read_requested(op, session_id, stream_id, max);
            &&& after.desk.answers.last().0 == op
            &&& after.desk.answers.last().1 matches Answer::Read(
                ReadAnswer::Data { data, fin },
            ) && !fin && data.len() == max && before == data + raw_bytes(
                after.core.raw.sent,
                stream_id,
            )
        }),
{
    reveal(Serving::read_requested);
    let before = raw_bytes(state.core.raw.sent, stream_id);
    lemma_taking_leaves_the_rest(
        state,
        stream_id,
        before.skip(max as int),
        raw_fin(state.core.raw.sent, stream_id),
    );
    assert(before =~= before.subrange(0, max as int) + before.skip(max as int));
}

/// A stream counts against the peer's limit until it is over, and is given back
/// once: seeing again that it is over changes nothing.
pub proof fn lemma_stream_is_given_back_once(state: Serving, stream_id: u64)
    ensures
        state.stream_checked(stream_id).stream_checked(stream_id).core.transport
            == state.stream_checked(stream_id).core.transport,
        state.stream_checked(stream_id).core.transport != state.core.transport
            ==> !state.stream_checked(stream_id).desk.locals.contains(stream_id),
{
    reveal(Serving::stream_checked);
    reveal(Serving::stream_forgotten);
    lemma_taken_out(state.desk.locals, stream_id);
    lemma_lookup_gone(state, stream_id);
}

proof fn lemma_taken_out(list: Seq<u64>, id: u64)
    ensures
        !ids_but(list, id).contains(id),
    decreases list.len(),
{
    if list.len() > 0 {
        lemma_taken_out(list.drop_last(), id);
        let front = ids_but(list.drop_last(), id);
        if list.last() != id {
            assert forall|i: int| 0 <= i < front.push(list.last()).len() implies front.push(
                list.last(),
            )[i] != id by {
                if i < front.len() {
                    assert(front.contains(front[i]));
                }
            }
        }
    }
}

proof fn lemma_lookup_gone(state: Serving, stream_id: u64)
    ensures
        state.stream_forgotten(stream_id).core.transport == state.core.transport,
        state.stream_forgotten(stream_id).desk.locals == state.desk.locals,
{
    reveal(Serving::stream_forgotten);
}

/// Nobody overtakes: a request for a stream waits behind the requests for streams
/// of the same direction that wait already, whatever the peer allows meanwhile.
pub proof fn lemma_open_requests_queue_up(
    state: Serving,
    op: u64,
    session_id: u64,
    direction: WebTransportStreamDirection,
)
    requires
        state.selection(session_id) is None,
        state.has_opening_room(session_id),
        awaited(state.desk.waits, direction),
    ensures
        state.open_requested(op, session_id, direction).desk.waits == state.desk.waits.push(
            OpenWait { op, session_id, direction },
        ),
        state.open_requested(op, session_id, direction).core == state.core,
{
    reveal(Serving::open_requested);
}

/// The oldest waiting request is the first that gets a stream.
pub proof fn lemma_oldest_wait_is_served_first(state: Serving, list: Seq<OpenWait>)
    requires
        list.len() > 0,
        state.desk.left > 0,
        state.core.transport.may_open(list[0].direction),
    ensures
        state.waits_tried(list, 0).desk.begun.len() > state.desk.begun.len(),
        state.waits_tried(list, 0).desk.begun[state.desk.begun.len() as int] == (Opening {
            op: list[0].op,
            session_id: list[0].session_id,
            stream_id: state.core.transport.next_stream(list[0].direction),
            written: 0,
        }),
{
    reveal(Serving::opening_begun);
    let begun = state.worked().opening_begun(list[0].op, list[0].session_id, list[0].direction);
    let next = Serving {
        desk: DeskState {
            open_work_total: bumped(begun.desk.open_work_total),
            ..begun.desk
        },
        ..begun
    };
    assert(state.waits_tried(list, 0) == next.waits_tried(list, 1));
    lemma_begun_grows(next, list, 1);
    let first = state.desk.begun.len() as int;
    let all = next.waits_tried(list, 1).desk.begun;
    assert(all.take(next.desk.begun.len() as int)[first] == next.desk.begun[first]);
}

/// The oldest request that waits for a stream of some direction gets the next one of
/// that direction as soon as the peer allows it, whatever the requests before it wait
/// for, as long as there is work left for it in the turn.
pub proof fn lemma_oldest_of_its_direction_is_served(
    state: Serving,
    list: Seq<OpenWait>,
    from: int,
    at: int,
)
    requires
        0 <= from <= at < list.len(),
        state.desk.left > at - from,
        state.core.transport.may_open(list[at].direction),
        forall|i: int|
            from <= i < at ==> (#[trigger] list[i]).direction != list[at].direction,
    ensures
        state.waits_tried(list, from).desk.begun.contains(
            Opening {
                op: list[at].op,
                session_id: list[at].session_id,
                stream_id: state.core.transport.next_stream(list[at].direction),
                written: 0,
            },
        ),
    decreases at - from,
{
    reveal(Serving::opening_begun);
    let wait = list[from];
    let begun = state.worked().opening_begun(wait.op, wait.session_id, wait.direction);
    let taken = Serving {
        desk: DeskState {
            open_work_total: bumped(begun.desk.open_work_total),
            ..begun.desk
        },
        ..begun
    };
    let kept = Serving {
        desk: DeskState { waits: state.desk.waits.push(wait), ..state.desk },
        ..state
    };
    if from == at {
        assert(state.waits_tried(list, from) == taken.waits_tried(list, from + 1));
        lemma_begun_grows(taken, list, from + 1);
        let first = state.desk.begun.len() as int;
        let all = taken.waits_tried(list, from + 1).desk.begun;
        assert(all.take(taken.desk.begun.len() as int)[first] == taken.desk.begun[first]);
        assert(all[first] == taken.desk.begun[first]);
    } else if state.core.transport.may_open(wait.direction) {
        lemma_oldest_of_its_direction_is_served(taken, list, from + 1, at);
    } else {
        lemma_oldest_of_its_direction_is_served(kept, list, from + 1, at);
    }
}

proof fn lemma_begun_grows(state: Serving, list: Seq<OpenWait>, from: int)
    ensures
        begins_with(state.waits_tried(list, from).desk.begun, state.desk.begun),
    decreases list.len() - from,
{
    reveal(Serving::opening_begun);
    if from >= list.len() {
        assert(state.desk.begun.take(state.desk.begun.len() as int) =~= state.desk.begun);
    } else {
        let wait = list[from];
        let next = if state.desk.left > 0 && state.core.transport.may_open(wait.direction) {
            let begun = state.worked().opening_begun(wait.op, wait.session_id, wait.direction);
            Serving {
                desk: DeskState {
                    open_work_total: bumped(begun.desk.open_work_total),
                    ..begun.desk
                },
                ..begun
            }
        } else {
            Serving {
                desk: DeskState {
                    waits: state.desk.waits.push(wait),
                    ..state.desk
                },
                ..state
            }
        };
        lemma_begun_grows(next, list, from + 1);
        lemma_begins_with_sum(state.desk.begun, Seq::empty());
        assert(state.desk.begun + Seq::<Opening>::empty() =~= state.desk.begun);
        assert(begins_with(next.desk.begun, state.desk.begun));
        lemma_begins_with_transitive(
            state.desk.begun,
            next.desk.begun,
            next.waits_tried(list, from + 1).desk.begun,
        );
    }
}

/// A request that nobody waits for is not answered.
pub proof fn lemma_cancelled_request_is_not_answered(
    state: Serving,
    item: Queued,
    queued: nat,
    capacity: nat,
)
    requires
        state.desk.cancelled.contains(item.op),
    ensures
        state.request_handled(item, queued, capacity).desk.answers == state.desk.answers,
        state.request_handled(item, queued, capacity).core == state.core,
        state.request_closed(item).desk.answers == state.desk.answers,
{
    reveal(Serving::request_handled);
}

/// What becomes of the answers while the requests in the lane are closed.
pub proof fn lemma_requests_closed_answers(state: Serving, list: Seq<Queued>, from: int, at: int)
    requires
        0 <= from,
    ensures
        begins_with(state.requests_closed(list, from).desk.answers, state.desk.answers),
        state.requests_closed(list, from).desk.cancelled == state.desk.cancelled,
        state.requests_closed(list, from).core == state.core,
        from <= at < list.len() && !state.desk.cancelled.contains(list[at].op) && !(
        list[at].request is LiveSnapshot) ==> state.requests_closed(
            list,
            from,
        ).desk.answers.contains((list[at].op, state.closing_answer(list[at].request))),
    decreases list.len() - from,
{
    let answers = state.desk.answers;
    if from >= list.len() {
        assert(answers.take(answers.len() as int) =~= answers);
    } else {
        let next = state.request_closed(list[from]);
        lemma_requests_closed_answers(next, list, from + 1, at);
        lemma_begins_with_sum(answers, Seq::empty());
        assert(answers + Seq::<(u64, Answer)>::empty() =~= answers);
        assert(begins_with(next.desk.answers, answers));
        let last = next.requests_closed(list, from + 1).desk.answers;
        lemma_begins_with_transitive(answers, next.desk.answers, last);
        if at == from && !state.desk.cancelled.contains(list[at].op) && !(
        list[at].request is LiveSnapshot) {
            let entry = (list[at].op, state.closing_answer(list[at].request));
            assert(next.desk.answers == answers.push(entry));
            assert(last.take(next.desk.answers.len() as int)[answers.len() as int] == entry);
            assert(last[answers.len() as int] == entry);
        }
        assert(next.closing_answer(list[at].request) == state.closing_answer(list[at].request));
    }
}

proof fn lemma_openings_refused_keeps_answers(
    state: Serving,
    list: Seq<Opening>,
    error: WebTransportSelectionError,
    from: int,
)
    ensures
        begins_with(state.openings_refused(list, error, from).desk.answers, state.desk.answers),
    decreases list.len() - from,
{
    let answers = state.desk.answers;
    if from >= list.len() {
        assert(answers.take(answers.len() as int) =~= answers);
    } else {
        reveal(Serving::opening_dropped);
        let next = state.opening_dropped(list[from]).answered(
            list[from].op,
            Answer::Open(WebTransportOpenStreamOutcome::Rejected(error)),
        );
        lemma_openings_refused_keeps_answers(next, list, error, from + 1);
        lemma_begins_with_sum(answers, Seq::empty());
        lemma_begins_with_transitive(
            answers,
            next.desk.answers,
            next.openings_refused(list, error, from + 1).desk.answers,
        );
    }
}

proof fn lemma_locals_released_keeps_answers(state: Serving, list: Seq<u64>, from: int)
    ensures
        state.locals_released(list, from).desk == state.desk,
    decreases list.len() - from,
{
    if from < list.len() {
        let next = Serving {
            core: state.core.stream_released(direction_of(list[from])),
            ..state
        };
        lemma_locals_released_keeps_answers(next, list, from + 1);
    }
}

proof fn lemma_session_waits_keep_answers(state: Serving, list: Seq<Waiter>, from: int)
    ensures
        begins_with(state.session_waits_tried(list, from).desk.answers, state.desk.answers),
    decreases list.len() - from,
{
    let answers = state.desk.answers;
    lemma_begins_with_sum(answers, Seq::empty());
    assert(answers + Seq::<(u64, Answer)>::empty() =~= answers);
    if from < list.len() {
        if state.is_live(list[from].key) {
            let next = Serving {
                desk: DeskState {
                    session_waits: WaitState {
                        list: state.desk.session_waits.list.push(list[from]),
                        ..state.desk.session_waits
                    },
                    ..state.desk
                },
                ..state
            };
            lemma_session_waits_keep_answers(next, list, from + 1);
        } else {
            let next = state.answered(
                list[from].op,
                Answer::SessionEnd(state.session_end(list[from].key)),
            );
            lemma_session_waits_keep_answers(next, list, from + 1);
            lemma_begins_with_transitive(
                answers,
                next.desk.answers,
                next.session_waits_tried(list, from + 1).desk.answers,
            );
        }
    }
}

/// When the connection ends, every request in the lane that somebody waits for is
/// answered, and no answer that was given before is lost.
pub proof fn lemma_connection_end_answers_every_request(
    state: Serving,
    list: Seq<Queued>,
    at: int,
)
    requires
        0 <= at < list.len(),
        !state.desk.cancelled.contains(list[at].op),
        !(list[at].request is LiveSnapshot),
    ensures
        state.all_closed(list).desk.answers.contains(
            (list[at].op, state.closing_answer(list[at].request)),
        ),
        begins_with(state.all_closed(list).desk.answers, state.desk.answers),
        state.all_closed(list).desk.terminal.runtime_settled,
{
    reveal(Serving::all_closed);
    reveal(Serving::opens_refused);
    reveal(Serving::streams_left);
    reveal(Serving::sessions_settled);
    let error = WebTransportSelectionError::ConnectionClosed;
    let closed = state.requests_closed(list, 0);
    lemma_requests_closed_answers(state, list, 0, at);
    let entry = (list[at].op, state.closing_answer(list[at].request));
    let ready = closed.ready_refused();
    lemma_begins_with_sum(
        closed.desk.answers,
        Seq::new(
            closed.desk.ready_waits.len(),
            |i: int|
                (
                    closed.desk.ready_waits[i].op,
                    Answer::Ready(
                        WebTransportReadyOutcome::Rejected(error),
                    ),
                ),
        ),
    );
    assert(begins_with(ready.desk.answers, closed.desk.answers));
    let told = refusals(ready.desk.answers, ready.desk.waits, error);
    lemma_begins_with_sum(
        ready.desk.answers,
        Seq::new(
            ready.desk.waits.len(),
            |i: int|
                (
                    ready.desk.waits[i].op,
                    Answer::Open(
                        WebTransportOpenStreamOutcome::Rejected(error),
                    ),
                ),
        ),
    );
    assert(begins_with(told, ready.desk.answers));
    let emptied = Serving {
        desk: DeskState {
            waits: Seq::empty(),
            openings: Seq::empty(),
            begun: Seq::empty(),
            answers: told,
            ..ready.desk
        },
        ..ready
    };
    lemma_openings_refused_keeps_answers(
        emptied,
        ready.desk.openings + ready.desk.begun,
        error,
        0,
    );
    let refused = ready.opens_refused(error);
    assert(begins_with(refused.desk.answers, told));
    let left = match refused.desk.serving {
        Some(session_id) => refused.streams_left(session_id, Teardown::Connection),
        None => refused.with_endings(refused.desk.endings.cleared()),
    };
    lemma_streams_left_keeps_answers(refused);
    let settled = left.sessions_settled();
    lemma_session_waits_keep_answers(
        Serving {
            desk: DeskState {
                session_waits: WaitState {
                    list: Seq::empty(),
                    ..left.desk.session_waits
                },
                ..left.desk
            },
            ..left
        },
        left.desk.session_waits.list,
        0,
    );
    assert(begins_with(settled.desk.answers, left.desk.answers));
    let first = closed.desk.answers;
    let last = settled.desk.answers;
    lemma_begins_with_transitive(first, ready.desk.answers, told);
    lemma_begins_with_transitive(first, told, refused.desk.answers);
    lemma_begins_with_transitive(first, refused.desk.answers, left.desk.answers);
    lemma_begins_with_transitive(first, left.desk.answers, last);
    lemma_begins_with_transitive(state.desk.answers, first, last);
    let index = choose|i: int| 0 <= i < first.len() && first[i] == entry;
    assert(last.take(first.len() as int)[index] == entry);
    assert(last[index] == entry);
    assert(state.all_closed(list).desk.answers == last);
}

proof fn lemma_streams_left_keeps_answers(state: Serving)
    ensures
        state.desk.serving matches Some(session_id) ==> begins_with(
            state.streams_left(session_id, Teardown::Connection).desk.answers,
            state.desk.answers,
        ),
        begins_with(state.desk.answers, state.desk.answers),
{
    reveal(Serving::streams_left);
    let answers = state.desk.answers;
    assert(answers.take(answers.len() as int) =~= answers);
    if let Some(session_id) = state.desk.serving {
        let waiters = state.desk.endings.waiters.list;
        let told = teardown_answers(
            answers,
            waiters,
            Teardown::Connection,
            session_id,
        );
        lemma_begins_with_sum(
            answers,
            Seq::new(
                waiters.len(),
                |i: int|
                    (
                        waiters[i].op,
                        Answer::SendEnd(
                            torn_down(
                                Teardown::Connection,
                                session_id,
                                waiters[i].key,
                            ),
                        ),
                    ),
            ),
        );
        let cleared = Serving {
            desk: DeskState {
                answers: told,
                endings: state.desk.endings.cleared(),
                forgotten: Seq::empty(),
                locals: Seq::empty(),
                serving: None,
                ..state.desk
            },
            ..state
        };
        lemma_locals_released_keeps_answers(cleared, state.desk.locals, 0);
    }
}

/// One turn carries out as many requests as there is work left for, and uses up
/// that much of it: whatever is asked, a turn does no more.
pub proof fn lemma_turn_does_bounded_work(state: Serving, list: Seq<Queued>, capacity: nat)
    ensures
        state.requests_handled(list, capacity, 0).desk.left == state.desk.left - state.share(
            list.len(),
        ),
        state.share(list.len()) <= state.desk.left,
        state.share(list.len()) <= list.len(),
{
    lemma_requests_use_up_work(state, list, capacity, 0);
}

} // verus!
