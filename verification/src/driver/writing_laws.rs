//! What the driver writes, and what the session learns of it, told by what was sent, the
//! credit that is left, the request streams and the events that wait.

use vstd::prelude::*;

use crate::driver::arrival_laws::{is_quiet, lemma_nothing_to_read, lemma_quiet_flush};
use crate::driver::core_laws::{
    as_told, heard, hears, lemma_session_is_heard_once, sent_by_all, tells,
};
use crate::driver::events::Told;
use crate::driver::state::CoreState;
use crate::headers::{fields, status_of};
use crate::peer_log::Sent;
use crate::request_stream::{InboundFrame, OutboundFrame, RequestStream, WriteStep};
use crate::request_stream_laws::{
    is_noted, lemma_body_leaves_as_far_as_the_credit, lemma_field_section_leaves_whole,
    sending_is_over,
};
use crate::table::{lemma_lookup_after_put, lookup};
use crate::transport::{StreamCredit, TransportState};
use crate::transport_laws::smaller;
use crate::wt::runtime::{RuntimeState, SessionPhase, SessionState};
use crate::wt::runtime_laws::{
    as_given, lemma_ends_of_the_connect_stream, lemma_final_response_decides,
    lemma_session_end_is_complete, lemma_waiting_streams_are_handed_over,
    lemma_written_close_ends_the_session, waiting_on,
};
use crate::wt::types::{CloseReason, SessionEvent};

verus! {

/// A stream that the application gave up before its end is reset with the code 0x10c. Any
/// other stream stays as it is.
pub proof fn lemma_abandoned_stream_is_cancelled(state: CoreState, stream_id: u64)
    requires
        lookup(state.streams, stream_id) matches Some(stream) ==> !stream.session,
    ensures
        ({
            let after = state.abandonment_handled(stream_id);
            let row = lookup(state.streams, stream_id);
            let stream = row->Some_0;
            let gone = row is Some && stream.live && !stream.sender && stream.outbound is None
                && !stream.send_done;
            &&& !gone ==> after == state
            &&& gone ==> {
                &&& after.transport.log.sent == state.transport.log.sent.push(
                    Sent::Reset { stream_id, error_code: 0x10c },
                )
                &&& lookup(after.streams, stream_id) matches Some(now) && sending_is_over(now)
                    && now.audit.sent_reset_stream_error_code == 0x10c && now.live
                    == !stream.recv_done
                &&& hears(state, 1) ==> heard(after) == (if stream.recv_done {
                    heard(state).push(Told::StreamClosed { stream_id })
                } else {
                    heard(state)
                })
                &&& after.session == state.session
            }
        }),
{
    reveal(CoreState::abandonment_handled);
    reveal(CoreState::with_stream);
    if let Some(stream) = lookup(state.streams, stream_id) {
        lemma_lookup_after_put(
            state.streams,
            stream_id,
            stream.with_local_reset(0x10c),
            stream_id,
        );
    }
}

/// The end of a body that waits is handed to the reader once there is room, and not before.
pub proof fn lemma_waiting_end_is_handed_over(state: CoreState, stream_id: u64)
    requires
        hears(state, 1),
    ensures
        ({
            let after = state.end_offered(stream_id);
            let row = lookup(state.streams, stream_id);
            let stream = row->Some_0;
            let due = row is Some && stream.live && stream.fin_undelivered;
            &&& !due ==> after == state
            &&& due ==> (lookup(after.streams, stream_id) matches Some(now) && (if stream.receiver {
                if stream.inbound is None {
                    now.inbound == Some(InboundFrame::Fin) && !now.fin_undelivered
                } else {
                    now == stream
                }
            } else {
                now.inbound == stream.inbound && !now.fin_undelivered
            }))
            &&& due ==> heard(after) == (if stream.send_done && stream.recv_done && !(
            stream.receiver && stream.inbound is Some) {
                heard(state).push(Told::StreamClosed { stream_id })
            } else {
                heard(state)
            })
            &&& after.transport == state.transport && after.session == state.session
        }),
{
    reveal(CoreState::end_offered);
    reveal(CoreState::with_stream);
    if let Some(stream) = lookup(state.streams, stream_id) {
        lemma_lookup_after_put(state.streams, stream_id, stream.upstream_ready(), stream_id);
    }
}

/// A write on a stream that the peer refuses finds the refusal: nothing is sent, what waits
/// to be written is dropped, and the code is in the statistics. A session ends with the
/// code.
pub proof fn lemma_write_finds_the_refusal(state: CoreState, stream_id: u64, error_code: u64)
    requires
        lookup(state.streams, stream_id) matches Some(stream) && stream.live && !stream.recv_done
            && (stream.queued is Some || stream.outbound is Some) && (stream.session ==> (
        state.session matches Some(s) && is_quiet(s) && (s.session matches Some(session)
            && session.id == stream_id && session.phase != SessionPhase::Terminal))),
        lookup(state.transport.stops_received, stream_id) == Some(error_code),
        hears(state, 1),
    ensures
        ({
            let after = state.frame_handled(stream_id);
            let stream = lookup(state.streams, stream_id)->Some_0;
            if stream.session {
                tells(
                    state,
                    after,
                    seq![
                        Told::Session(
                            SessionEvent::Terminated {
                                session_id: stream_id,
                                reason: CloseReason::ConnectStopped { error_code },
                            },
                        ),
                    ],
                )
            } else {
                &&& heard(after) == heard(state) && after.session == state.session
                &&& after.transport == state.transport
                &&& lookup(after.streams, stream_id) matches Some(now) && sending_is_over(now)
                    && now.live && is_noted(now.audit.recvd_stop_sending_error_code, error_code)
            }
        }),
{
    reveal(CoreState::frame_handled);
    reveal(CoreState::stop_found);
    reveal(CoreState::with_stream);
    let stream = lookup(state.streams, stream_id)->Some_0;
    lemma_lookup_after_put(state.streams, stream_id, stream.with_stop(error_code), stream_id);
    if stream.session {
        let s = state.session->Some_0;
        let reason = CloseReason::ConnectStopped { error_code };
        let sent = RuntimeState {
            session: Some(SessionState { send_done: true, ..s.session->Some_0 }),
            ..s
        };
        lemma_ends_of_the_connect_stream(s, reason, error_code);
        lemma_session_end_is_complete(sent, reason);
        let stopped = state.with_stream(stream_id, stream.with_stop(error_code)).with_session(
            s.stopped(error_code),
        );
        lemma_session_is_heard_once(stopped);
        assert(stopped.session->Some_0.events.map_values(as_told()) =~= seq![
            Told::Session(SessionEvent::Terminated { session_id: stream_id, reason }),
        ]);
    }
}

/// The body of an ordinary stream reaches the peer in order, as far as the credit of the
/// stream goes, and uses it up.
pub proof fn lemma_body_reaches_the_peer(state: CoreState, stream_id: u64, other: u64)
    requires
        lookup(state.streams, stream_id) matches Some(stream) && stream.live && !stream.session
            && stream.wf() && (stream.queued matches Some(OutboundFrame::Body(data, _))
            && stream.queued_sent < data@.len()),
        lookup(state.transport.stops_received, stream_id) is None,
    ensures
        ({
            let after = state.frame_handled(stream_id);
            let stream = lookup(state.streams, stream_id)->Some_0;
            let data = stream.queued->Some_0->Body_0@;
            let fin = stream.queued->Some_0->Body_1;
            let from = stream.queued_sent as int;
            let credit = state.transport.credit_of(stream_id);
            let room = if credit > 2 {
                credit - 2
            } else {
                0
            };
            let count = smaller(data.len() - from, room);
            let part = Sent::Body { stream_id, data: data.subrange(from, from + count) };
            &&& after.transport.log.sent == (if count == 0 {
                state.transport.log.sent
            } else if fin && from + count == data.len() {
                state.transport.log.sent.push(part).push(Sent::Fin { stream_id })
            } else {
                state.transport.log.sent.push(part)
            })
            &&& after.transport.credit_of(stream_id) == (if count == 0 {
                credit as int
            } else {
                credit - count - 2
            })
            &&& other != stream_id ==> after.transport.credit_of(other)
                == state.transport.credit_of(other)
            &&& lookup(after.streams, stream_id) matches Some(now) && (if from + count
                < data.len() {
                now.queued == stream.queued && now.queued_sent == from + count
            } else {
                now.queued is None && now.send_done == (stream.send_done || fin)
            })
            &&& after.session == state.session
        }),
{
    reveal(CoreState::frame_handled);
    reveal(CoreState::frame_written);
    reveal(CoreState::with_stream);
    let stream = lookup(state.streams, stream_id)->Some_0;
    let credit = state.transport.credit_of(stream_id);
    lemma_body_leaves_as_far_as_the_credit(stream, stream_id, credit, state.transport.log);
    let result = stream.write_result(stream_id, credit, state.transport.log);
    lemma_lookup_after_put(state.streams, stream_id, result.stream, stream_id);
    let row = StreamCredit {
        left: (credit - result.cost) as u64,
        ..state.transport.credit_row(stream_id)
    };
    lemma_lookup_after_put(state.transport.credit, stream_id, row, other);
    lemma_lookup_after_put(state.transport.credit, stream_id, row, stream_id);
}

/// A server accepts a session by writing a successful response: the session is active from
/// then on, the application is told so, and then of each stream that waited. Without credit
/// for the response nothing happens.
pub proof fn lemma_written_response_accepts_the_session(state: CoreState, stream_id: u64)
    requires
        lookup(state.streams, stream_id) matches Some(stream) && stream.live && stream.session
            && stream.wf() && stream.queued is None && (
        stream.outbound matches Some(OutboundFrame::Headers(list)) && (status_of(
            fields(list@),
        ) matches Some(n) && 200 <= n < 300)),
        lookup(state.transport.stops_received, stream_id) is None,
        state.session matches Some(s) && is_quiet(s) && s.held.len() == 0 && (
        s.session matches Some(session) && session.id == stream_id && session.phase
            == SessionPhase::Pending),
        hears(
            state,
            1 + state.session->Some_0.streams.filter(waiting_on(stream_id)).len() as int,
        ),
    ensures
        ({
            let after = state.frame_handled(stream_id);
            let s = state.session->Some_0;
            let credit = state.transport.credit_of(stream_id);
            &&& credit < 40 ==> {
                &&& after.transport.log == state.transport.log && heard(after) == heard(state)
                &&& after.session == state.session
            }
            &&& credit >= 40 ==> {
                &&& after.transport.log.sent == state.transport.log.sent.push(
                    Sent::Headers { stream_id, cost: 40 },
                )
                &&& after.transport.credit_of(stream_id) == credit - 40
                &&& heard(after) == heard(state).push(
                    Told::Session(SessionEvent::Accepted { session_id: stream_id }),
                ) + s.streams.filter(waiting_on(stream_id)).map_values(as_given()).map_values(
                    as_told(),
                )
                &&& after.session matches Some(r) && r.session == Some(
                    SessionState { phase: SessionPhase::Active, ..s.session->Some_0 },
                )
            }
        }),
{
    reveal(CoreState::frame_handled);
    reveal(CoreState::frame_written);
    reveal(CoreState::session_wrote);
    reveal(CoreState::with_stream);
    let s = state.session->Some_0;
    let stream = lookup(state.streams, stream_id)->Some_0;
    let credit = state.transport.credit_of(stream_id);
    lemma_field_section_leaves_whole(stream, stream_id, credit, state.transport.log);
    let result = stream.write_result(stream_id, credit, state.transport.log);
    let row = StreamCredit {
        left: (credit - result.cost) as u64,
        ..state.transport.credit_row(stream_id)
    };
    lemma_lookup_after_put(state.transport.credit, stream_id, row, stream_id);
    if credit >= 40 {
        let status = status_of(fields(stream.outbound->Some_0->Headers_0@))->Some_0 as u16;
        let written = state.frame_written(stream_id);
        assert(written.session == state.session);
        lemma_final_response_decides(s, status);
        let accepted = s.answered(status);
        lemma_waiting_streams_are_handed_over(accepted);
        lemma_nothing_to_read(accepted.admitted());
        let told = written.with_session(accepted.admitted());
        lemma_session_is_heard_once(told);
        let given = s.streams.filter(waiting_on(stream_id)).map_values(as_given());
        let event = SessionEvent::Accepted { session_id: stream_id };
        assert(accepted.admitted().events =~= seq![event] + given);
        assert((seq![event] + given).map_values(as_told()) =~= seq![Told::Session(event)]
            + given.map_values(as_told()));
        assert(heard(told.flushed()) =~= heard(state).push(Told::Session(event))
            + given.map_values(as_told()));
    }
}

/// A close of this end leaves in order, as far as the credit goes: the bytes of its capsule
/// that were not written yet, and behind the last of them the end of the stream. With that
/// the session is over, and the application is told so with the code and the text. The
/// close waits until the last frame of the application was written.
pub proof fn lemma_close_leaves_in_order(state: CoreState)
    requires
        state.session matches Some(s) && is_quiet(s) && (s.session matches Some(session)
            && session.phase == SessionPhase::Closing && (session.close matches Some(close)
            && close.written < close.capsule.len())),
        lookup(
            state.streams,
            state.session->Some_0.session->Some_0.id,
        ) matches Some(stream) && stream.live && stream.wf() && !stream.send_done
            && !stream.recv_done,
        lookup(
            state.transport.stops_received,
            state.session->Some_0.session->Some_0.id,
        ) is None,
        hears(state, 1),
    ensures
        ({
            let after = state.close_pumped();
            let session = state.session->Some_0.session->Some_0;
            let stream_id = session.id;
            let close = session.close->Some_0;
            let stream = lookup(state.streams, stream_id)->Some_0;
            let credit = state.transport.credit_of(stream_id);
            let room = if credit > 2 {
                credit - 2
            } else {
                0
            };
            let count = smaller(close.capsule.len() - close.written, room);
            let part = Sent::Body {
                stream_id,
                data: close.capsule.subrange(
                    close.written as int,
                    close.written as int + count,
                ),
            };
            let waits = stream.queued is Some || stream.outbound is Some || count == 0;
            &&& waits ==> after == state
            &&& !waits && close.written + count < close.capsule.len() ==> {
                &&& after.transport.log.sent == state.transport.log.sent.push(part)
                &&& after.transport.credit_of(stream_id) == credit - count - 2
                &&& after.session matches Some(r) && (r.session matches Some(now) && now.phase
                    == SessionPhase::Closing && (now.close matches Some(c) && c.capsule
                    == close.capsule && c.written == close.written + count))
                &&& heard(after) == heard(state)
            }
            &&& !waits && close.written + count == close.capsule.len() ==> {
                &&& state.transport.log.sent.len() + 2 <= after.transport.log.sent.len()
                &&& after.transport.log.sent.take(state.transport.log.sent.len() as int + 2)
                    == state.transport.log.sent.push(part).push(Sent::Fin { stream_id })
                &&& tells(
                    state,
                    after,
                    seq![
                        Told::Session(
                            SessionEvent::Terminated {
                                session_id: stream_id,
                                reason: CloseReason::Local {
                                    error_code: close.error_code,
                                    message: close.message,
                                },
                            },
                        ),
                    ],
                )
            }
        }),
{
    reveal(CoreState::close_pumped);
    reveal(CoreState::close_sent);
    reveal(CoreState::close_ended);
    let s = state.session->Some_0;
    let session = s.session->Some_0;
    let stream_id = session.id;
    let close = session.close->Some_0;
    let stream = lookup(state.streams, stream_id)->Some_0;
    let credit = state.transport.credit_of(stream_id);
    let rest = close.capsule.skip(close.written as int);
    let count = RequestStream::body_part(rest.len() as int, credit);
    if stream.queued is None && stream.outbound is None && count > 0 {
        assert(rest.subrange(0, count) =~= close.capsule.subrange(
            close.written as int,
            close.written as int + count,
        ));
        let part = Sent::Body { stream_id, data: rest.subrange(0, count) };
        let row = StreamCredit {
            left: (credit - count - 2) as u64,
            ..state.transport.credit_row(stream_id)
        };
        lemma_lookup_after_put(state.transport.credit, stream_id, row, stream_id);
        lemma_written_close_ends_the_session(s, count as nat);
        let progressed = s.close_progressed(count as nat);
        let sent = (CoreState {
            transport: state.transport.sending(part).spent(stream_id, (count + 2) as u64),
            ..state
        }).with_session(progressed);
        if count == rest.len() {
            reveal(CoreState::with_stream);
            lemma_written_close_ends_the_session(progressed, 0);
            let reason = CloseReason::Local {
                error_code: close.error_code,
                message: close.message,
            };
            lemma_session_end_is_complete(
                RuntimeState {
                    session: Some(
                        SessionState { send_done: true, ..progressed.session->Some_0 },
                    ),
                    ..progressed
                },
                reason,
            );
            let ended = sent.sending(Sent::Fin { stream_id }).with_session(
                progressed.close_committed(),
            ).with_stream(stream_id, stream.after_frame(true));
            lemma_session_is_heard_once(ended);
            assert(ended.session->Some_0.events.map_values(as_told()) =~= seq![
                Told::Session(SessionEvent::Terminated { session_id: stream_id, reason }),
            ]);
            let both = state.transport.log.sent.push(part).push(Sent::Fin { stream_id });
            assert((both + sent_by_all(ended.session->Some_0.actions)).take(both.len() as int)
                =~= both);
        }
    }
}

/// When the application ends its direction of the CONNECT stream, or gives it up, the peer
/// gets the end, or a reset with the code 0x10c. The session lasts until the peer ends it
/// too, and nothing is told.
pub proof fn lemma_session_outlasts_the_end_of_this_direction(
    state: CoreState,
    stream_id: u64,
)
    requires
        lookup(state.streams, stream_id) matches Some(stream) && stream.live && stream.session
            && stream.wf() && !stream.recv_done && !stream.send_done && stream.outbound is None,
        lookup(state.transport.stops_received, stream_id) is None,
        state.session matches Some(s) && is_quiet(s) && (s.session matches Some(session)
            && session.id == stream_id && !session.receive_done),
    ensures
        ({
            let stream = lookup(state.streams, stream_id)->Some_0;
            let before = state.session->Some_0;
            let session = SessionState { send_done: true, ..before.session->Some_0 };
            let still = Some(RuntimeState { session: Some(session), ..before });
            let given_up = state.abandonment_handled(stream_id);
            let ended = state.frame_handled(stream_id);
            &&& !stream.sender ==> {
                &&& given_up.transport.log.sent == state.transport.log.sent.push(
                    Sent::Reset { stream_id, error_code: 0x10c },
                )
                &&& given_up.session == still && heard(given_up) == heard(state)
            }
            &&& stream.queued matches Some(OutboundFrame::Body(data, fin)) ==> (fin
                && stream.queued_sent == data@.len() ==> {
                &&& ended.transport.log.sent == state.transport.log.sent.push(
                    Sent::Body { stream_id, data: Seq::empty() },
                ).push(Sent::Fin { stream_id })
                &&& ended.session == still && heard(ended) == heard(state)
            })
        }),
{
    reveal(CoreState::abandonment_handled);
    reveal(CoreState::frame_handled);
    reveal(CoreState::frame_written);
    reveal(CoreState::session_wrote);
    reveal(CoreState::with_stream);
    let s = state.session->Some_0;
    let stream = lookup(state.streams, stream_id)->Some_0;
    lemma_ends_of_the_connect_stream(s, CloseReason::Clean, 0);
    let reset = state.sending(Sent::Reset { stream_id, error_code: 0x10c }).with_stream(
        stream_id,
        stream.with_local_reset(0x10c),
    ).with_session(s.locally_ended());
    lemma_quiet_flush(reset);
    lemma_body_leaves_nothing(stream, stream_id, state.transport);
    let written = state.frame_written(stream_id).with_session(s.locally_ended());
    lemma_quiet_flush(written);
}

proof fn lemma_body_leaves_nothing(
    stream: RequestStream,
    stream_id: u64,
    transport: TransportState,
)
    requires
        stream.live,
        stream.wf(),
        !stream.recv_done,
    ensures
        stream.queued matches Some(OutboundFrame::Body(data, fin)) ==> (fin && stream.queued_sent
            == data@.len() ==> {
            let result = stream.write_result(
                stream_id,
                transport.credit_of(stream_id),
                transport.log,
            );
            &&& result.log.sent == transport.log.sent.push(
                Sent::Body { stream_id, data: Seq::empty() },
            ).push(Sent::Fin { stream_id })
            &&& result.step == WriteStep::Finished && result.stream.live
        }),
{
    if let Some(OutboundFrame::Body(data, fin)) = stream.queued {
        lemma_body_leaves_as_far_as_the_credit(
            stream,
            stream_id,
            transport.credit_of(stream_id),
            transport.log,
        );
        assert(data@.subrange(data@.len() as int, data@.len() as int) =~= Seq::<u8>::empty());
    }
}

} // verus!
