//! What the writes of this end come to at the peer.

use vstd::prelude::*;

use crate::peer_log::{raw_bytes, raw_fin, Sent};
use crate::table::{lemma_lookup_after_put, lookup};
use crate::transport::{SendResult, StreamCredit, TransportState};
use crate::wt::block_reasons::{StreamSendBlockReasons, StreamSendRetryDisposition};

verus! {

/// Whether something besides the credit of a stream keeps this end from writing.
pub open spec fn is_held_back(held: StreamSendBlockReasons) -> bool {
    held.stream_flow_control || held.connection_flow_control || held.congestion_control
        || held.active_path_unavailable || held.send_capacity_factor || held.stream_send_retention
}

/// The smaller of two numbers.
pub open spec fn smaller(a: int, b: int) -> int {
    if a < b {
        a
    } else {
        b
    }
}

/// What the peer can read of a frameless stream is what was sent on it, in order: an entry
/// adds its bytes to its own stream and to no other.
pub proof fn lemma_sent_bytes_add_up(log: Seq<Sent>, entry: Sent, stream_id: u64)
    ensures
        raw_bytes(Seq::empty(), stream_id).len() == 0,
        !raw_fin(Seq::empty(), stream_id),
        raw_bytes(log.push(entry), stream_id) == raw_bytes(log, stream_id) + match entry {
            Sent::Raw { stream_id: id, data, .. } => if id == stream_id {
                data
            } else {
                Seq::empty()
            },
            _ => Seq::empty(),
        },
        raw_fin(log.push(entry), stream_id) == (raw_fin(log, stream_id) || match entry {
            Sent::Raw { stream_id: id, fin, .. } => id == stream_id && fin,
            _ => false,
        }),
{
    assert(log.push(entry).drop_last() =~= log);
    assert(raw_bytes(log, stream_id) + Seq::<u8>::empty() =~= raw_bytes(log, stream_id));
}

/// A write on a frameless stream. One that the peer refuses is answered with the code of
/// the refusal. One with bytes is blocked if there is no credit, or something else keeps
/// this end from writing. Otherwise as many bytes are taken as there is credit for: they
/// are the first of the data, the peer can read just them in addition, and they use up as
/// much of the credit of this stream and of no other. The end is taken with the last byte.
pub proof fn lemma_write_goes_as_far_as_the_credit(
    state: TransportState,
    stream_id: u64,
    data: Seq<u8>,
    fin: bool,
    other: u64,
)
    requires
        data.len() <= usize::MAX,
    ensures
        ({
            let result = state.raw_result(stream_id, data.len() as int, fin);
            let after = state.raw_sent(stream_id, data, fin);
            let credit = state.credit_of(stream_id);
            let stopped = lookup(state.stops_received, stream_id);
            let blocked = data.len() > 0 && (credit == 0 || is_held_back(state.held));
            &&& stopped is Some ==> result == (SendResult::Stopped {
                error_code: stopped->Some_0,
            })
            &&& stopped is None && blocked ==> result is Blocked
            &&& stopped is None && !blocked ==> {
                let count = smaller(data.len() as int, credit as int);
                let ended = fin && count == data.len();
                &&& result == (SendResult::Accepted { count: count as usize, fin: ended })
                &&& raw_bytes(after.log.sent, stream_id) == raw_bytes(state.log.sent, stream_id)
                    + data.take(count)
                &&& raw_fin(after.log.sent, stream_id) == (raw_fin(state.log.sent, stream_id)
                    || ended)
                &&& after.credit_of(stream_id) == credit - count
                &&& other != stream_id ==> {
                    &&& after.credit_of(other) == state.credit_of(other)
                    &&& raw_bytes(after.log.sent, other) == raw_bytes(state.log.sent, other)
                    &&& raw_fin(after.log.sent, other) == raw_fin(state.log.sent, other)
                }
                &&& after.log.announced == state.log.announced
                &&& after == (TransportState { log: after.log, credit: after.credit, ..state })
            }
            &&& stopped is Some || blocked ==> after == state
        }),
{
    reveal(TransportState::raw_result);
    reveal(TransportState::raw_sent);
    let credit = state.credit_of(stream_id);
    let count = smaller(data.len() as int, credit as int);
    let ended = fin && count == data.len();
    let entry = Sent::Raw { stream_id, data: data.subrange(0, count), fin: ended };
    lemma_sent_bytes_add_up(state.log.sent, entry, stream_id);
    lemma_sent_bytes_add_up(state.log.sent, entry, other);
    assert(data.subrange(0, count) =~= data.take(count));
    assert(raw_bytes(state.log.sent, other) + Seq::<u8>::empty() =~= raw_bytes(
        state.log.sent,
        other,
    ));
    let row = StreamCredit { left: (credit - count) as u64, ..state.credit_row(stream_id) };
    lemma_lookup_after_put(state.credit, stream_id, row, other);
    lemma_lookup_after_put(state.credit, stream_id, row, stream_id);
}

/// Why a stream is blocked: the reasons are those that hold this end back, and with no
/// credit left that of the stream. The transport tells of the end of those that are about
/// credit and congestion, and of no others.
pub proof fn lemma_block_reasons_are_all_there(state: TransportState, stream_id: u64)
    ensures
        ({
            let held = state.held;
            let reasons = state.block_reasons(stream_id);
            let silent = reasons.silent();
            &&& reasons.stream_flow_control == (held.stream_flow_control || state.credit_of(
                stream_id,
            ) == 0)
            &&& reasons.connection_flow_control == held.connection_flow_control
            &&& reasons.congestion_control == held.congestion_control
            &&& reasons.active_path_unavailable == held.active_path_unavailable
            &&& reasons.send_capacity_factor == held.send_capacity_factor
            &&& reasons.stream_send_retention == held.stream_send_retention
            &&& silent.active_path_unavailable == reasons.active_path_unavailable
            &&& silent.send_capacity_factor == reasons.send_capacity_factor
            &&& silent.stream_send_retention == reasons.stream_send_retention
            &&& !silent.stream_flow_control && !silent.connection_flow_control
                && !silent.congestion_control
            &&& reasons.remedy() == StreamSendRetryDisposition::StateChangeRequired <==> (
            reasons.active_path_unavailable || reasons.send_capacity_factor
                || reasons.stream_send_retention)
        }),
{
}

} // verus!
