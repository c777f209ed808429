//! What the application's writes, reads and ends of streams come to, told by what the peer
//! and the application can read before and after.

use vstd::prelude::*;

use crate::driver::desk::{Retry, Serving};
use crate::driver::state::CoreState;
use crate::peer_log::{raw_bytes, raw_fin, without_raw, PeerLogState, Sent};
use crate::table::{lemma_lookup_after_put, lookup};
use crate::transport::{SendResult, TransportState};
use crate::transport_laws::{
    is_held_back, lemma_sent_bytes_add_up, lemma_write_goes_as_far_as_the_credit, smaller,
};
use crate::wire::error_code::{application_error, lemma_wire_codes_fill_the_range, wire_code};
use crate::wire::stream_prefix::WebTransportStreamDirection;
use crate::wt::requests::{Answer, ReadAnswer, WebTransportStreamControlOutcome, WriteAnswer};
use crate::wt::runtime::{SessionPhase, SessionStream};
use crate::wt::stream_ends::{
    WebTransportStreamReceiveTerminal, WebTransportStreamSendTerminalOutcome,
};
use crate::wt::types::WebTransportSelectionError;
use crate::wt::waiters::ops_under;
use crate::wt::write_lease::{
    LeaseAnswer, LeaseState, LeaseVerdict, MockWriteLeaseError,
    WebTransportStreamWriteLeaseProgress, WebTransportStreamWriteRetry,
};

verus! {

/// The row of a stream of the session that there is.
pub open spec fn row_of(state: Serving, stream_id: u64) -> Option<SessionStream> {
    match state.core.session {
        Some(s) => lookup(s.streams, stream_id),
        None => None,
    }
}

/// Whether the session `id` is the one that there is, and is active.
pub open spec fn is_active(state: Serving, id: u64) -> bool {
    state.core.session matches Some(s) && (s.session matches Some(session) && session.id == id
        && session.phase == SessionPhase::Active)
}

/// Which requests about a direction of a stream can be carried out: those about a stream
/// that the active session was given and that has this direction. A stream has the
/// direction to the peer if it has two or this end opened it, and the other one if it has
/// two or the peer opened it.
pub proof fn lemma_only_streams_of_the_session_can_be_used(
    state: Serving,
    session_id: u64,
    stream_id: u64,
    sent: bool,
)
    ensures
        ({
            let error = state.stream_selection(session_id, stream_id, sent);
            let row = row_of(state, stream_id);
            let stream = row->Some_0;
            let given = row is Some && stream.session_id == session_id && stream.owned;
            let fits = stream.direction == WebTransportStreamDirection::Bidi || stream.local
                == sent;
            &&& error is None <==> is_active(state, session_id) && given && fits
            &&& is_active(state, session_id) && given && !fits ==> error == Some(
                WebTransportSelectionError::WrongDirection,
            )
            &&& is_active(state, session_id) && row is Some && !given ==> error == Some(
                WebTransportSelectionError::UnknownStream,
            )
            &&& is_active(state, session_id) && row is None ==> error == Some(
                if state.desk.forgotten.contains(stream_id) {
                    WebTransportSelectionError::StaleStream
                } else {
                    WebTransportSelectionError::UnknownStream
                },
            )
            &&& !is_active(state, session_id) ==> error == state.selection(session_id) && error
                is Some
        }),
{
}

/// The HTTP/3 code of an application error: they count up, and one is left out after every
/// thirty.
pub open spec fn code_of(error: u32) -> int {
    0x52e4_a40f_a8db + error + error as int / 30
}

/// The application error of a code is the one whose code it is, if there is one.
pub open spec fn tells_the_error(wire_error_code: u64, told: Option<u32>) -> bool {
    match told {
        Some(error) => wire_error_code == code_of(error),
        None => forall|error: u32| wire_error_code != #[trigger] code_of(error),
    }
}

/// Every code tells its application error.
pub proof fn lemma_codes_tell_their_errors(wire_error_code: u64)
    ensures
        tells_the_error(wire_error_code, application_error(wire_error_code)),
        forall|error: u32| #[trigger] wire_code(error) == code_of(error),
{
    lemma_wire_codes_fill_the_range(wire_error_code);
    if application_error(wire_error_code) is None {
        assert forall|error: u32| wire_error_code != #[trigger] code_of(error) by {
            if wire_error_code == code_of(error) {
                assert(wire_code(error) == wire_error_code);
            }
        }
    }
}

/// Whether two states of a transport differ at most in how many streams were given back.
spec fn same_but_released(a: TransportState, b: TransportState) -> bool {
    b == (TransportState {
        bidi_released: b.bidi_released,
        uni_released: b.uni_released,
        ..a
    })
}

proof fn lemma_checking_keeps_bytes(state: Serving, stream_id: u64)
    ensures
        same_but_released(state.core.transport, state.stream_checked(stream_id).core.transport),
        state.stream_checked(stream_id).core.raw == state.core.raw,
        state.stream_checked(stream_id).desk.answers == state.desk.answers,
{
    reveal(Serving::stream_checked);
    reveal(Serving::stream_forgotten);
}

proof fn lemma_closing_keeps_bytes(state: Serving, stream_id: u64)
    ensures
        same_but_released(
            state.core.transport,
            state.send_direction_closed(stream_id).core.transport,
        ),
        state.send_direction_closed(stream_id).core.raw == state.core.raw,
{
    reveal(Serving::send_direction_closed);
    let told = state.send_waiters_told(
        ops_under(state.desk.endings.waiters.list, stream_id),
        WebTransportStreamSendTerminalOutcome::Closed { stream_id },
    ).with_endings(state.desk.endings.send_closed(stream_id));
    lemma_checking_keeps_bytes(told, stream_id);
}

/// What a write of `data` does at the peer if the transport takes `count` bytes of it, and
/// its end if `ended`: the peer can read just the first `count` bytes in addition, and they
/// use up as much credit. Nothing happens to what waits for the application.
pub open spec fn carries(
    before: Serving,
    after: Serving,
    stream_id: u64,
    data: Seq<u8>,
    count: int,
    ended: bool,
) -> bool {
    let old_log = before.core.transport.log.sent;
    let new_log = after.core.transport.log.sent;
    &&& 0 <= count <= data.len()
    &&& raw_bytes(new_log, stream_id) == raw_bytes(old_log, stream_id) + data.take(count)
    &&& raw_fin(new_log, stream_id) == (raw_fin(old_log, stream_id) || ended)
    &&& after.core.transport.credit_of(stream_id) == before.core.transport.credit_of(stream_id)
        - count
    &&& after.core.raw == before.core.raw
}

/// Whether the transport takes nothing of a write with bytes: there is no credit, or
/// something else keeps this end from writing.
pub open spec fn is_blocked(state: Serving, stream_id: u64, data: Seq<u8>) -> bool {
    data.len() > 0 && (state.core.transport.credit_of(stream_id) == 0 || is_held_back(
        state.core.transport.held,
    ))
}

/// A lent payload goes as far as the credit of its stream. The answer gives the lease back,
/// shown once more, and says exactly how far it got: it is complete if and only if all bytes
/// were taken, with or without the end, and the end is taken only with the last byte. What
/// was taken is what the peer can read in addition, the first bytes of the payload. A lease
/// that is blocked or refused sends nothing; the one leaves the right to try again, with
/// the reasons, and the other tells the code of the refusal.
pub proof fn lemma_lease_progress_is_exact(
    state: Serving,
    op: u64,
    session_id: u64,
    stream_id: u64,
    lease: LeaseState,
    fin: bool,
)
    requires
        state.stream_selection(session_id, stream_id, true) is None,
        !state.desk.endings.ends(stream_id).send_closed,
        !lease.fail_exposure,
        lease.payload.len() == lease.declared_len,
    ensures
        ({
            let after = state.lease_write_requested(op, session_id, stream_id, lease, fin);
            let (number, answer) = after.desk.answers.last();
            let told = answer->Lease_0;
            let verdict = told.verdict;
            let stopped = lookup(state.core.transport.stops_received, stream_id);
            let blocked = is_blocked(state, stream_id, lease.payload);
            let credit = state.core.transport.credit_of(stream_id);
            let reasons = state.core.transport.block_reasons(stream_id);
            &&& number == op
            &&& answer is Lease
            &&& told.fin == fin
            &&& told.lease == (LeaseState { exposures: told.lease.exposures, ..lease })
            &&& lease.exposures < usize::MAX ==> told.lease.exposures == lease.exposures + 1
            &&& stopped is Some ==> {
                &&& verdict matches LeaseVerdict::ResetRequired {
                    wire_error_code,
                    application_error_code,
                } && wire_error_code == stopped->Some_0 && tells_the_error(
                    wire_error_code,
                    application_error_code,
                )
                &&& after.core == state.core
                &&& verdict.made() == WebTransportStreamWriteLeaseProgress::ExposedKnownZero
            }
            &&& stopped is None && blocked ==> {
                &&& verdict == (LeaseVerdict::Blocked {
                    retry: WebTransportStreamWriteRetry { driver: state.desk.identity, op },
                    reasons,
                })
                &&& lookup(after.desk.retries, op) == Some(
                    Retry { session_id, stream_id, reasons },
                )
                &&& after.core == state.core
                &&& verdict.made() == WebTransportStreamWriteLeaseProgress::ExposedKnownZero
            }
            &&& stopped is None && !blocked ==> {
                &&& verdict is Accepted
                &&& verdict->accepted == smaller(lease.payload.len() as int, credit as int)
                &&& verdict->complete <==> verdict->accepted == lease.payload.len()
                &&& verdict->fin_accepted <==> fin && verdict->accepted == lease.payload.len()
                &&& carries(
                    state,
                    after,
                    stream_id,
                    lease.payload,
                    verdict->accepted as int,
                    verdict->fin_accepted,
                )
                &&& verdict.made() == if verdict->accepted == lease.payload.len() {
                    WebTransportStreamWriteLeaseProgress::AcceptedComplete {
                        accepted: verdict->accepted,
                        fin_accepted: verdict->fin_accepted,
                    }
                } else {
                    WebTransportStreamWriteLeaseProgress::AcceptedPartial {
                        accepted: verdict->accepted,
                    }
                }
            }
        }),
{
    reveal(Serving::lease_write_requested);
    reveal(Serving::lease_shown);
    let transport = state.core.transport;
    lemma_write_goes_as_far_as_the_credit(transport, stream_id, lease.payload, fin, stream_id);
    match transport.raw_result(stream_id, lease.payload.len() as int, fin) {
        SendResult::Stopped { error_code } => {
            lemma_codes_tell_their_errors(error_code);
        },
        SendResult::Blocked => {
            lemma_lookup_after_put(
                state.desk.retries,
                op,
                Retry { session_id, stream_id, reasons: transport.block_reasons(stream_id) },
                op,
            );
        },
        SendResult::Accepted { .. } => {
            let sent = Serving {
                core: state.core.raw_sent(stream_id, lease.payload, fin),
                ..state
            };
            lemma_closing_keeps_bytes(sent, stream_id);
        },
    }
}

/// A lease that cannot be shown to the transport sends nothing, and says why: what was lent
/// for a stream that cannot be used or has ended is not looked at, nor is one that its owner
/// does not show; one whose length is not what its owner says was looked at.
pub proof fn lemma_unusable_lease_sends_nothing(
    state: Serving,
    op: u64,
    session_id: u64,
    stream_id: u64,
    lease: LeaseState,
    fin: bool,
)
    ensures
        ({
            let after = state.lease_write_requested(op, session_id, stream_id, lease, fin);
            let error = state.stream_selection(session_id, stream_id, true);
            let closed = state.desk.endings.ends(stream_id).send_closed;
            let unchanged = |verdict: LeaseVerdict|
                after == state.answered(op, Answer::Lease(LeaseAnswer { lease, fin, verdict }));
            &&& error is Some ==> unchanged(LeaseVerdict::Rejected(error->Some_0))
            &&& error is None && closed ==> unchanged(LeaseVerdict::Closed)
            &&& error is None && !closed && lease.fail_exposure ==> unchanged(
                LeaseVerdict::LeaseError(MockWriteLeaseError::Unavailable),
            )
            &&& error is None && !closed && !lease.fail_exposure && lease.payload.len()
                != lease.declared_len && lease.payload.len() <= usize::MAX ==> {
                &&& after.core == state.core
                &&& after.desk.answers.len() == state.desk.answers.len() + 1
                &&& after.desk.answers.last().1 matches Answer::Lease(told) && told.verdict
                    == (LeaseVerdict::InvalidLength {
                    declared: lease.declared_len,
                    actual: lease.payload.len() as usize,
                }) && told.lease.payload == lease.payload
            }
        }),
{
    reveal(Serving::lease_write_requested);
}

/// A write goes as far as the credit of its stream. What was taken is what the peer can read
/// in addition, the first bytes of the data, and the others come back; the end is taken if
/// and only if nothing comes back. A write that is blocked or refused sends nothing, and all
/// of it comes back.
pub proof fn lemma_write_progress_is_exact(
    state: Serving,
    op: u64,
    session_id: u64,
    stream_id: u64,
    data: Seq<u8>,
    fin: bool,
)
    requires
        state.stream_selection(session_id, stream_id, true) is None,
        data.len() <= usize::MAX,
    ensures
        ({
            let after = state.write_requested(op, session_id, stream_id, data, fin);
            let (number, answer) = after.desk.answers.last();
            let told = answer->Write_0;
            let closed = state.desk.endings.ends(stream_id).send_closed;
            let stopped = lookup(state.core.transport.stops_received, stream_id);
            let blocked = is_blocked(state, stream_id, data);
            let credit = state.core.transport.credit_of(stream_id);
            let count = smaller(data.len() as int, credit as int);
            &&& number == op
            &&& answer is Write
            &&& closed ==> told == (WriteAnswer::Closed { data, fin })
            &&& !closed && stopped is Some ==> {
                &&& told matches WriteAnswer::ResetRequired {
                    wire_error_code,
                    application_error_code,
                    data: back,
                    fin: end,
                } && wire_error_code == stopped->Some_0 && tells_the_error(
                    wire_error_code,
                    application_error_code,
                ) && back == data && end == fin
            }
            &&& !closed && stopped is None && blocked ==> told == (WriteAnswer::Blocked {
                data,
                fin,
            })
            &&& closed || stopped is Some || blocked ==> after.core == state.core
            &&& !closed && stopped is None && !blocked ==> {
                &&& told == (WriteAnswer::Accepted {
                    accepted: count as usize,
                    remaining: if count == data.len() {
                        None
                    } else {
                        Some(data.skip(count))
                    },
                    fin_accepted: fin && count == data.len(),
                })
                &&& carries(state, after, stream_id, data, count, fin && count == data.len())
            }
        }),
{
    reveal(Serving::write_requested);
    reveal(Serving::write_tried);
    let transport = state.core.transport;
    lemma_write_goes_as_far_as_the_credit(transport, stream_id, data, fin, stream_id);
    match transport.raw_result(stream_id, data.len() as int, fin) {
        SendResult::Stopped { error_code } => {
            lemma_codes_tell_their_errors(error_code);
        },
        SendResult::Blocked => {},
        SendResult::Accepted { .. } => {
            let sent = Serving { core: state.core.raw_sent(stream_id, data, fin), ..state };
            lemma_closing_keeps_bytes(sent, stream_id);
        },
    }
}

/// Bytes that were taken do not wait any more, and those of other streams still do.
pub proof fn lemma_taken_bytes_are_gone(log: Seq<Sent>, stream_id: u64, other: u64)
    ensures
        raw_bytes(without_raw(log, stream_id), stream_id).len() == 0,
        !raw_fin(without_raw(log, stream_id), stream_id),
        other != stream_id ==> {
            &&& raw_bytes(without_raw(log, stream_id), other) == raw_bytes(log, other)
            &&& raw_fin(without_raw(log, stream_id), other) == raw_fin(log, other)
        },
    decreases log.len(),
{
    if log.len() > 0 {
        let front = log.drop_last();
        lemma_taken_bytes_are_gone(front, stream_id, other);
        let kept = without_raw(front, stream_id);
        lemma_sent_bytes_add_up(kept, log.last(), stream_id);
        lemma_sent_bytes_add_up(kept, log.last(), other);
        lemma_sent_bytes_add_up(front, log.last(), other);
        assert(front.push(log.last()) =~= log);
        assert(raw_bytes(front, other) + Seq::<u8>::empty() =~= raw_bytes(front, other));
        assert(raw_bytes(kept, stream_id) + Seq::<u8>::empty() =~= raw_bytes(kept, stream_id));
    }
}

/// A read gives the application the bytes that wait, in order, at most as many as it asks
/// for, and leaves the rest and what waits on other streams as it is. How the peer's
/// direction ended comes with the last byte, or alone where no byte is left, and never
/// before. Where nothing waits and nothing has ended the read is blocked.
pub proof fn lemma_read_gives_what_waits(
    state: Serving,
    op: u64,
    session_id: u64,
    stream_id: u64,
    max: usize,
    other: u64,
)
    requires
        state.stream_selection(session_id, stream_id, false) is None,
    ensures
        ({
            let after = state.read_requested(op, session_id, stream_id, max);
            let (number, answer) = after.desk.answers.last();
            let told = answer->Read_0;
            let waiting = raw_bytes(state.core.raw.sent, stream_id);
            let left = raw_bytes(after.core.raw.sent, stream_id);
            let ended = raw_fin(state.core.raw.sent, stream_id);
            let known = state.desk.endings.ends(stream_id).received;
            &&& number == op
            &&& answer is Read
            &&& waiting.len() > max ==> {
                &&& told == (ReadAnswer::Data { data: waiting.take(max as int), fin: false })
                &&& left == waiting.skip(max as int)
                &&& raw_fin(after.core.raw.sent, stream_id) == ended
            }
            &&& waiting.len() <= max ==> left.len() == 0
            &&& waiting.len() <= max && ended ==> told == (ReadAnswer::Terminal {
                data: waiting,
                terminal: WebTransportStreamReceiveTerminal::Fin,
            })
            &&& waiting.len() <= max && !ended && waiting.len() > 0 ==> told
                == (ReadAnswer::Data { data: waiting, fin: false })
            &&& waiting.len() == 0 && !ended && known is Some ==> told
                == (ReadAnswer::Terminal { data: waiting, terminal: known->Some_0 })
            &&& waiting.len() == 0 && !ended && known is None ==> told == ReadAnswer::Blocked
                && after.core == state.core
            &&& other != stream_id ==> {
                &&& raw_bytes(after.core.raw.sent, other) == raw_bytes(state.core.raw.sent, other)
                &&& raw_fin(after.core.raw.sent, other) == raw_fin(state.core.raw.sent, other)
            }
            &&& after.core.transport.log == state.core.transport.log
        }),
{
    reveal(Serving::read_requested);
    let log = state.core.raw.sent;
    let waiting = raw_bytes(log, stream_id);
    let fin = raw_fin(log, stream_id);
    let taken = without_raw(log, stream_id);
    lemma_taken_bytes_are_gone(log, stream_id, other);
    assert(waiting.subrange(0, max as int) =~= waiting.take(max as int)) by {
        if waiting.len() > max {
        }
    }
    let rest = waiting.skip(max as int);
    let entry = Sent::Raw { stream_id, data: rest, fin };
    lemma_sent_bytes_add_up(taken, entry, stream_id);
    lemma_sent_bytes_add_up(taken, entry, other);
    assert(raw_bytes(taken, stream_id) + rest =~= rest);
    assert(raw_bytes(taken, other) + Seq::<u8>::empty() =~= raw_bytes(taken, other));
    let terminal = WebTransportStreamReceiveTerminal::Fin;
    let ended = state.raw_taken(stream_id, Seq::empty(), false).with_endings(
        state.desk.endings.receive_ended(stream_id, terminal).receive_observed(stream_id),
    );
    lemma_checking_keeps_bytes(ended, stream_id);
}

/// Resetting this end's direction of a stream sends one reset, with the code of the given
/// error, unless the direction has ended already. It is answered as done either way.
pub proof fn lemma_reset_carries_its_error(
    state: Serving,
    op: u64,
    session_id: u64,
    stream_id: u64,
    error: u32,
)
    requires
        state.stream_selection(session_id, stream_id, true) is None,
    ensures
        ({
            let after = state.reset_requested(op, session_id, stream_id, error);
            let code = code_of(error) as u64;
            &&& after.desk.answers.last() == (
                op,
                Answer::Control(WebTransportStreamControlOutcome::Applied),
            )
            &&& state.desk.endings.ends(stream_id).send_closed ==> after.core == state.core
            &&& !state.desk.endings.ends(stream_id).send_closed
                ==> after.core.transport.log.sent == state.core.transport.log.sent.push(
                Sent::Reset { stream_id, error_code: code },
            )
        }),
{
    reveal(Serving::reset_requested);
    lemma_codes_tell_their_errors(0);
    assert(wire_code(error) == code_of(error));
    let reset = Sent::Reset { stream_id, error_code: wire_code(error) as u64 };
    lemma_closing_keeps_bytes(
        Serving { core: state.core.sending(reset), ..state },
        stream_id,
    );
}

/// Refusing the peer's direction of a stream tells the peer, once, with the code of the given
/// error. What waited to be read of the stream is gone, and what waits on others stays.
pub proof fn lemma_refusal_carries_its_error(
    state: Serving,
    op: u64,
    session_id: u64,
    stream_id: u64,
    error: u32,
    other: u64,
)
    requires
        state.stream_selection(session_id, stream_id, false) is None,
    ensures
        ({
            let after = state.stop_requested(op, session_id, stream_id, error);
            let code = code_of(error) as u64;
            let before = lookup(state.core.transport.stops_sent, stream_id);
            &&& after.desk.answers.last() == (
                op,
                Answer::Control(WebTransportStreamControlOutcome::Applied),
            )
            &&& after.core.transport.log == state.core.transport.log
            &&& state.desk.endings.ends(stream_id).stop_sent ==> after.core == state.core
            &&& !state.desk.endings.ends(stream_id).stop_sent ==> {
                &&& lookup(after.core.transport.stops_sent, stream_id) == if before is Some {
                    before
                } else {
                    Some(code)
                }
                &&& raw_bytes(after.core.raw.sent, stream_id).len() == 0
                &&& other != stream_id ==> {
                    &&& raw_bytes(after.core.raw.sent, other) == raw_bytes(
                        state.core.raw.sent,
                        other,
                    )
                    &&& lookup(after.core.transport.stops_sent, other) == lookup(
                        state.core.transport.stops_sent,
                        other,
                    )
                }
            }
        }),
{
    reveal(Serving::stop_requested);
    lemma_codes_tell_their_errors(0);
    let code = wire_code(error) as u64;
    assert(wire_code(error) == code_of(error));
    lemma_lookup_after_put(state.core.transport.stops_sent, stream_id, code, stream_id);
    lemma_lookup_after_put(state.core.transport.stops_sent, stream_id, code, other);
    lemma_taken_bytes_are_gone(state.core.raw.sent, stream_id, other);
    let refused = state.core.stopping(stream_id, code);
    let dropped = (Serving {
        core: CoreState {
            raw: PeerLogState {
                sent: without_raw(refused.raw.sent, stream_id),
                ..refused.raw
            },
            ..refused
        },
        ..state
    }).with_endings(state.desk.endings.receive_stopped(stream_id));
    lemma_checking_keeps_bytes(dropped, stream_id);
}

} // verus!
