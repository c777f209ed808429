//! How streams of a session are opened, and what the application learns of their ends.

use vstd::prelude::*;

use crate::driver::desk::{OpenWait, Opening, ReadyKind, Serving};
use crate::driver::openings::opening_prefix;
use crate::driver::state::Notice;
use crate::driver::transfer_laws::{
    is_active, is_blocked, lemma_codes_tell_their_errors, row_of, tells_the_error,
};
use crate::peer_log::{direction_of, raw_bytes, raw_fin, Sent};
use crate::table::{lemma_lookup_after_put, lookup};
use crate::transport::{Role, TransportState, MAX_STREAM_INDEX};
use crate::transport_laws::{is_held_back, lemma_write_goes_as_far_as_the_credit, smaller};
use crate::wire::stream_prefix::WebTransportStreamDirection;
use crate::wire::varint::varint_bytes;
use crate::wt::block_reasons::StreamSendBlockReasons;
use crate::wt::requests::{
    Answer, SessionEndAnswer, WebTransportOpenStreamOutcome, WebTransportReadyOutcome,
};
use crate::wt::runtime::{SessionPhase, SessionStream};
use crate::wt::runtime_laws::{is_history, lemma_counts, unowned, waiting_on};
use crate::wt::stream_ends::{
    EndingsState, StreamEnds, WebTransportStreamReceiveTerminal,
    WebTransportStreamSendTerminalOutcome,
};
use crate::wt::types::WebTransportSelectionError;
use crate::wt::waiters::{ops_under, Waiter};

verus! {

/// The number that the next stream of a direction has: this end's streams have every second
/// number, and of those each direction has every second one.
pub open spec fn number_of(index: u64, role: Role, direction: WebTransportStreamDirection) -> int {
    4 * index + if role is Client {
        0int
    } else {
        1int
    } + if direction is Bidi {
        0int
    } else {
        2int
    }
}

/// A request for a stream of the active session. It is refused where too many streams are
/// on their way: those of the peer that wait for their session, those that are being opened
/// and those that are waited for, of all sessions or of this one. It gets the next stream of
/// its direction if the peer allows one and nobody waits for one already, and waits behind
/// the others otherwise.
pub proof fn lemma_open_request_gets_a_stream_or_waits(
    state: Serving,
    op: u64,
    session_id: u64,
    direction: WebTransportStreamDirection,
)
    requires
        is_active(state, session_id),
    ensures
        ({
            let after = state.open_requested(op, session_id, direction);
            let desk = state.desk;
            let rows = state.core.session->Some_0.streams;
            let on_the_way = desk.waits.len() + desk.openings.len() + desk.begun.len();
            let room = rows.filter(unowned()).len() + on_the_way < desk.max_openings
                && rows.filter(waiting_on(session_id)).len() + on_the_way
                < desk.max_openings_per_session;
            let transport = state.core.transport;
            let (opened, limit) = if direction is Bidi {
                (transport.bidi_opened, transport.bidi_limit)
            } else {
                (transport.uni_opened, transport.uni_limit)
            };
            let allowed = opened < limit && opened < MAX_STREAM_INDEX;
            let queued = exists|i: int|
                0 <= i < desk.waits.len() && (#[trigger] desk.waits[i]).direction == direction;
            &&& !room ==> {
                &&& after.desk.answers == desk.answers.push(
                    (
                        op,
                        Answer::Open(
                            WebTransportOpenStreamOutcome::Rejected(
                                WebTransportSelectionError::ResourceLimit,
                            ),
                        ),
                    ),
                )
                &&& after.core == state.core
                &&& after.desk.waits == desk.waits && after.desk.begun == desk.begun
            }
            &&& room && allowed && !queued ==> {
                &&& after.desk.begun == desk.begun.push(
                    Opening {
                        op,
                        session_id,
                        stream_id: number_of(opened, transport.role, direction) as u64,
                        written: 0,
                    },
                )
                &&& after.core.transport == if direction is Bidi {
                    TransportState { bidi_opened: (opened + 1) as u64, ..transport }
                } else {
                    TransportState { uni_opened: (opened + 1) as u64, ..transport }
                }
                &&& after.desk.waits == desk.waits && after.desk.answers == desk.answers
            }
            &&& room && (!allowed || queued) ==> {
                &&& after.desk.waits == desk.waits.push(OpenWait { op, session_id, direction })
                &&& after.core == state.core
                &&& after.desk.begun == desk.begun && after.desk.answers == desk.answers
            }
        }),
{
    reveal(Serving::open_requested);
    reveal(Serving::opening_begun);
    lemma_counts(state.core.session->Some_0.streams, session_id);
}

/// The bytes that bind a stream to its session.
pub open spec fn binding(stream_id: u64, session_id: u64) -> Seq<u8> {
    varint_bytes(
        if stream_id % 4 < 2 {
            0x41
        } else {
            0x54
        },
    ) + varint_bytes(session_id)
}

/// Before anything else on a stream goes what binds it to its session, as far as the credit
/// allows. The application gets the stream when all of it was sent, and the session owns it
/// then; before, the rest is sent when there is credit. A stream that the peer refuses
/// first is given up.
pub proof fn lemma_stream_is_bound_before_it_is_handed_out(state: Serving, opening: Opening)
    requires
        opening.session_id <= 0x3fff_ffff_ffff_ffff,
        opening.written <= binding(opening.stream_id, opening.session_id).len(),
        state.core.session is Some,
        state.desk.commit_fault is None,
    ensures
        ({
            let after = state.opening_tried(opening);
            let id = opening.stream_id;
            let rest = binding(id, opening.session_id).skip(opening.written as int);
            let credit = state.core.transport.credit_of(id);
            let count = smaller(rest.len() as int, credit as int);
            let stopped = lookup(state.core.transport.stops_received, id);
            let blocked = is_blocked(state, id, rest);
            let sent = raw_bytes(state.core.transport.log.sent, id);
            &&& stopped is None && !blocked ==> {
                &&& raw_bytes(after.core.transport.log.sent, id) == sent + rest.take(count)
                &&& !raw_fin(state.core.transport.log.sent, id) ==> !raw_fin(
                    after.core.transport.log.sent,
                    id,
                )
                &&& count < rest.len() ==> {
                    &&& after.desk.openings == state.desk.openings.push(
                        Opening { written: (opening.written + count) as usize, ..opening },
                    )
                    &&& after.desk.answers == state.desk.answers
                    &&& after.core.session == state.core.session
                }
                &&& count == rest.len() ==> {
                    &&& after.desk.answers == state.desk.answers.push(
                        (
                            opening.op,
                            Answer::Open(WebTransportOpenStreamOutcome::Opened { stream_id: id }),
                        ),
                    )
                    &&& after.desk.openings == state.desk.openings
                    &&& row_of(after, id) == Some(
                        SessionStream {
                            session_id: opening.session_id,
                            direction: if id % 4 < 2 {
                                WebTransportStreamDirection::Bidi
                            } else {
                                WebTransportStreamDirection::Uni
                            },
                            local: true,
                            owned: true,
                            prefix_len: binding(id, opening.session_id).len() as usize,
                        },
                    )
                    &&& after.desk.locals == state.desk.locals.push(id)
                }
            }
            &&& stopped is None && blocked ==> {
                &&& after.core == state.core
                &&& after.desk.openings == state.desk.openings.push(opening)
                &&& after.desk.answers == state.desk.answers
            }
            &&& stopped is Some ==> after == state.opening_dropped(opening).answered(
                opening.op,
                Answer::Open(
                    WebTransportOpenStreamOutcome::Rejected(
                        WebTransportSelectionError::InternalFailure,
                    ),
                ),
            )
        }),
{
    reveal(Serving::opening_tried);
    reveal(Serving::opening_committed);
    reveal(Serving::opening_done);
    let prefix = opening_prefix(opening);
    assert(prefix == binding(opening.stream_id, opening.session_id));
    let rest = prefix.skip(opening.written as int);
    lemma_write_goes_as_far_as_the_credit(
        state.core.transport,
        opening.stream_id,
        rest,
        false,
        opening.stream_id,
    );
    if let Some(s) = state.core.session {
        let opened = s.stream_opened(
            opening.stream_id,
            opening.session_id,
            prefix.len() as usize,
        );
        lemma_lookup_after_put(
            s.streams,
            opening.stream_id,
            SessionStream {
                session_id: opening.session_id,
                direction: direction_of(opening.stream_id),
                local: true,
                owned: true,
                prefix_len: prefix.len() as usize,
            },
            opening.stream_id,
        );
    }
}

/// A stream that is given up before it was handed out is ended in each direction that it has,
/// as one of a session that is gone, and counts against the limit of its direction no more.
pub proof fn lemma_unopened_stream_is_given_back(state: Serving, opening: Opening)
    ensures
        ({
            let after = state.opening_dropped(opening);
            let id = opening.stream_id;
            let before = state.core.transport;
            let now = after.core.transport;
            &&& after.desk == state.desk
            &&& now.log.sent == before.log.sent.push(
                Sent::Reset { stream_id: id, error_code: 0x170d_7b68 },
            )
            &&& id % 4 < 2 ==> {
                &&& lookup(now.stops_sent, id) == if lookup(before.stops_sent, id) is Some {
                    lookup(before.stops_sent, id)
                } else {
                    Some(0x170d_7b68)
                }
                &&& before.bidi_released < u64::MAX ==> now.bidi_released == before.bidi_released
                    + 1
                &&& now.uni_released == before.uni_released
            }
            &&& id % 4 >= 2 ==> {
                &&& now.stops_sent == before.stops_sent
                &&& before.uni_released < u64::MAX ==> now.uni_released == before.uni_released + 1
                &&& now.bidi_released == before.bidi_released
            }
        }),
{
    reveal(Serving::opening_dropped);
    lemma_lookup_after_put(
        state.core.transport.stops_sent,
        opening.stream_id,
        0x170d_7b68,
        opening.stream_id,
    );
}

/// How this end's direction of a stream ended, as it is told: that the application wants to
/// hear no more of it comes first, then that the peer refused it, with its code, then that
/// this end ended it. Where nothing has ended the request waits, if there is room for it.
pub proof fn lemma_send_end_is_told_as_it_was(
    state: Serving,
    op: u64,
    session_id: u64,
    stream_id: u64,
)
    requires
        state.stream_selection(session_id, stream_id, true) is None,
    ensures
        ({
            let after = state.send_end_requested(op, session_id, stream_id);
            let known = lookup(state.desk.endings.rows, stream_id);
            let ends = known->Some_0;
            let answers = state.desk.answers;
            let waiters = state.desk.endings.waiters;
            let told = |outcome: WebTransportStreamSendTerminalOutcome|
                after.desk.answers == answers.push((op, Answer::SendEnd(outcome)))
                    && after.desk.endings.rows == state.desk.endings.rows;
            let retired = known is Some && ends.send_retired;
            let stopped = known is Some && ends.stopped is Some;
            let closed = known is Some && ends.send_closed;
            let lost = known is Some && ends.stop_lost;
            let full = WebTransportStreamSendTerminalOutcome::Rejected(
                WebTransportSelectionError::ResourceLimit,
            );
            &&& after.core == state.core
            &&& retired ==> told(
                WebTransportStreamSendTerminalOutcome::Retired { session_id, stream_id },
            )
            &&& !retired && stopped ==> {
                &&& after.desk.answers.len() == answers.len() + 1
                &&& after.desk.answers.last().0 == op
                &&& after.desk.answers.last().1 matches Answer::SendEnd(
                    WebTransportStreamSendTerminalOutcome::Stopped {
                        stream_id: id,
                        wire_error_code,
                        application_error_code,
                    },
                ) && id == stream_id && Some(wire_error_code) == ends.stopped && tells_the_error(
                    wire_error_code,
                    application_error_code,
                )
            }
            &&& !retired && !stopped && closed ==> told(
                WebTransportStreamSendTerminalOutcome::Closed { stream_id },
            )
            &&& !retired && !stopped && !closed && lost ==> told(full)
            &&& !retired && !stopped && !closed && !lost ==> if waiters.list.len()
                < waiters.bound {
                &&& after.desk.answers == answers
                &&& after.desk.endings.waiters.list == waiters.list.push(
                    Waiter { op, key: stream_id },
                )
            } else {
                &&& told(full)
                &&& after.desk.endings.waiters.list == waiters.list
            }
        }),
{
    reveal(Serving::send_end_requested);
    if let Some(ends) = lookup(state.desk.endings.rows, stream_id) {
        if let Some(code) = ends.stopped {
            lemma_codes_tell_their_errors(code);
        }
    }
}

proof fn lemma_everybody_under_a_key(list: Seq<Waiter>, key: u64, i: int)
    requires
        0 <= i < list.len(),
        list[i].key == key,
    ensures
        ops_under(list, key).contains(list[i].op),
    decreases list.len(),
{
    let front = ops_under(list.drop_last(), key);
    if i == list.len() - 1 {
        assert(ops_under(list, key)[front.len() as int] == list[i].op);
    } else {
        lemma_everybody_under_a_key(list.drop_last(), key, i);
        let k = choose|k: int| 0 <= k < front.len() && front[k] == list[i].op;
        assert(ops_under(list, key)[k] == list[i].op);
    }
}

/// Whoever waits for the end of this end's direction of a stream is told when the peer
/// refuses it, with the code of the refusal, unless the application wanted to hear no more
/// of it or an earlier refusal was told. The refusal is remembered for whoever asks later,
/// while there is room.
pub proof fn lemma_refusal_is_told_to_everybody_who_waits(
    state: Serving,
    stream_id: u64,
    error_code: u64,
    i: int,
)
    requires
        row_of(state, stream_id) matches Some(row) && row.owned,
        0 <= i < state.desk.endings.waiters.list.len(),
        state.desk.endings.waiters.list[i].key == stream_id,
        lookup(state.desk.endings.rows, stream_id) matches Some(ends) ==> !ends.send_retired
            && ends.stopped is None && !ends.stop_lost,
    ensures
        ({
            let after = state.notice_taken(Notice::Stopped { stream_id, error_code });
            let op = state.desk.endings.waiters.list[i].op;
            let ends = lookup(after.desk.endings.rows, stream_id);
            &&& exists|k: int|
                state.desk.answers.len() <= k < after.desk.answers.len() && (
                #[trigger] after.desk.answers[k]).0 == op && (
                after.desk.answers[k].1 matches Answer::SendEnd(
                    WebTransportStreamSendTerminalOutcome::Stopped {
                        stream_id: id,
                        wire_error_code,
                        application_error_code,
                    },
                ) && id == stream_id && wire_error_code == error_code && tells_the_error(
                    wire_error_code,
                    application_error_code,
                ))
            &&& ends is Some && (ends->Some_0.stopped == Some(error_code)
                || ends->Some_0.stop_lost)
            &&& after.core == state.core
        }),
{
    reveal(Serving::notice_taken);
    lemma_codes_tell_their_errors(error_code);
    let list = state.desk.endings.waiters.list;
    lemma_everybody_under_a_key(list, stream_id, i);
    let ops = ops_under(list, stream_id);
    let k = choose|k: int| 0 <= k < ops.len() && ops[k] == list[i].op;
    let after = state.notice_taken(Notice::Stopped { stream_id, error_code });
    assert(after.desk.answers[state.desk.answers.len() + k].0 == list[i].op);
    let ends = state.desk.endings.ends(stream_id);
    lemma_lookup_after_put(
        state.desk.endings.rows,
        stream_id,
        StreamEnds { stopped: Some(error_code), ..ends },
        stream_id,
    );
    lemma_lookup_after_put(
        state.desk.endings.rows,
        stream_id,
        StreamEnds { stop_lost: true, ..ends },
        stream_id,
    );
}

/// How the peer's direction of a stream ended is remembered as it was: its end, or a reset
/// with its code. The first one counts.
pub proof fn lemma_end_of_the_peer_is_remembered(
    state: EndingsState,
    stream_id: u64,
    terminal: WebTransportStreamReceiveTerminal,
    other: u64,
)
    ensures
        ({
            let after = state.receive_ended(stream_id, terminal);
            let before = lookup(state.rows, stream_id);
            let now = lookup(after.rows, stream_id);
            &&& before is Some && before->Some_0.received is Some ==> after == state
            &&& !(before is Some && before->Some_0.received is Some) ==> now is Some
                && now->Some_0.received == Some(terminal)
            &&& other != stream_id ==> lookup(after.rows, other) == lookup(state.rows, other)
        }),
{
    let ends = StreamEnds { received: Some(terminal), ..state.ends(stream_id) };
    lemma_lookup_after_put(state.rows, stream_id, ends, stream_id);
    lemma_lookup_after_put(state.rows, stream_id, ends, other);
}

/// When a stream can be read and when it can be written, for who waits for it. It can be
/// read if bytes wait, or its end is known. A blocked write need not wait if this end ended
/// the stream or the peer refuses it, with the code; if something keeps this end from
/// writing of whose end the transport does not tell, which is then named; or if the
/// transport takes bytes again.
pub proof fn lemma_stream_waits_end_in_time(
    state: Serving,
    session_id: u64,
    stream_id: u64,
    reasons: StreamSendBlockReasons,
)
    ensures
        ({
            let readable = state.readiness(session_id, ReadyKind::Readable { stream_id });
            let writable = state.readiness(
                session_id,
                ReadyKind::Writable { stream_id, reasons },
            );
            let known = lookup(state.desk.endings.rows, stream_id);
            let bytes = raw_bytes(state.core.raw.sent, stream_id).len() > 0;
            let ended = raw_fin(state.core.raw.sent, stream_id) || (known is Some
                && known->Some_0.received is Some);
            let receive_error = state.stream_selection(session_id, stream_id, false);
            let send_error = state.stream_selection(session_id, stream_id, true);
            let closed = known is Some && known->Some_0.send_closed;
            let stopped = lookup(state.core.transport.stops_received, stream_id);
            let silent = reasons.active_path_unavailable || reasons.send_capacity_factor
                || reasons.stream_send_retention;
            let open = state.core.transport.credit_of(stream_id) > 0 && !is_held_back(
                state.core.transport.held,
            );
            &&& receive_error is Some ==> readable == Some(
                WebTransportReadyOutcome::Rejected(receive_error->Some_0),
            )
            &&& receive_error is None ==> readable == if bytes || ended {
                Some(WebTransportReadyOutcome::Ready)
            } else {
                None
            }
            &&& send_error is Some ==> writable == Some(
                WebTransportReadyOutcome::Rejected(send_error->Some_0),
            )
            &&& send_error is None && closed ==> writable == Some(WebTransportReadyOutcome::Ready)
            &&& send_error is None && !closed && stopped is Some ==> {
                &&& writable matches Some(
                    WebTransportReadyOutcome::ResetRequired {
                        wire_error_code,
                        application_error_code,
                    },
                ) && Some(wire_error_code) == stopped && tells_the_error(
                    wire_error_code,
                    application_error_code,
                )
            }
            &&& send_error is None && !closed && stopped is None && silent ==> {
                &&& writable matches Some(
                    WebTransportReadyOutcome::WriteStateChangeRequired {
                        blocked_reasons,
                        state_change_reasons,
                    },
                ) && blocked_reasons == reasons && !state_change_reasons.stream_flow_control
                    && !state_change_reasons.connection_flow_control
                    && !state_change_reasons.congestion_control
                    && state_change_reasons.active_path_unavailable
                    == reasons.active_path_unavailable
                    && state_change_reasons.send_capacity_factor == reasons.send_capacity_factor
                    && state_change_reasons.stream_send_retention
                    == reasons.stream_send_retention
            }
            &&& send_error is None && !closed && stopped is None && !silent ==> writable == if
            open {
                Some(WebTransportReadyOutcome::WriteTransportWake { reasons })
            } else {
                None
            }
        }),
{
    reveal(TransportState::raw_result);
    if let Some(code) = lookup(state.core.transport.stops_received, stream_id) {
        lemma_codes_tell_their_errors(code);
    }
}

/// Asking how a session ends. While it lasts the request waits, if there is room. After, it
/// is told why the session ended, as long as no other one has ended since and it is not
/// forgotten.
pub proof fn lemma_session_end_is_told(state: Serving, op: u64, session_id: u64)
    requires
        state.core.session is Some,
    ensures
        ({
            let after = state.session_end_requested(op, session_id);
            let s = state.core.session->Some_0;
            let here = s.session is Some && s.session->Some_0.id == session_id;
            let lasts = here && s.session->Some_0.phase != SessionPhase::Terminal;
            let waits = state.desk.session_waits;
            let told = |answer: SessionEndAnswer|
                after.desk.answers == state.desk.answers.push((op, Answer::SessionEnd(answer)));
            let reason = s.last_end->Some_0.1;
            let known = s.last_end is Some && s.last_end->Some_0.0 == session_id;
            &&& after.core == state.core
            &&& lasts && waits.list.len() < waits.bound ==> {
                &&& after.desk.answers == state.desk.answers
                &&& after.desk.session_waits.list == waits.list.push(
                    Waiter { op, key: session_id },
                )
            }
            &&& lasts && waits.list.len() >= waits.bound ==> told(
                SessionEndAnswer::ResourceLimit { session_id },
            )
            &&& !lasts && is_history(s, session_id) ==> told(
                SessionEndAnswer::StaleSession { session_id },
            )
            &&& !lasts && !is_history(s, session_id) && known ==> told(
                SessionEndAnswer::Terminated { session_id, reason },
            )
            &&& !lasts && !is_history(s, session_id) && !known && here ==> told(
                SessionEndAnswer::StaleSession { session_id },
            )
            &&& !lasts && !is_history(s, session_id) && !known && !here ==> told(
                SessionEndAnswer::UnknownSession { session_id },
            )
        }),
{
    reveal(Serving::session_end_requested);
}

} // verus!
