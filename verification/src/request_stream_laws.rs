//! What happens to the two directions of a request stream, and what the peer gets of what
//! the application writes.

use vstd::prelude::*;

use crate::headers::{fields, status_of};
use crate::peer_log::{PeerLogState, Sent};
use crate::request_stream::{
    H3AuditStats, InboundFrame, OutboundFrame, RequestStream, StreamClosureKind, WriteStep,
};

verus! {

/// Whether the direction to the peer is the same in two states of a stream.
pub open spec fn same_sending(a: RequestStream, b: RequestStream) -> bool {
    &&& a.sender == b.sender
    &&& a.outbound == b.outbound
    &&& a.outbound_open == b.outbound_open
    &&& a.queued == b.queued
    &&& a.queued_sent == b.queued_sent
    &&& a.send_done == b.send_done
}

/// Whether the direction from the peer is the same in two states of a stream.
pub open spec fn same_receiving(a: RequestStream, b: RequestStream) -> bool {
    &&& a.receiver == b.receiver
    &&& a.inbound == b.inbound
    &&& a.inbound_open == b.inbound_open
    &&& a.fin_undelivered == b.fin_undelivered
    &&& a.recv_done == b.recv_done
}

/// Whether the direction to the peer is over: nothing waits to be written, and nothing more
/// is taken.
pub open spec fn sending_is_over(stream: RequestStream) -> bool {
    stream.send_done && !stream.outbound_open && stream.outbound is None && stream.queued is None
}

/// Whether a code stands in the statistics of a stream. Codes that are too large for them
/// stand there as the largest one.
pub open spec fn is_noted(noted: i64, error_code: u64) -> bool {
    noted >= 0 && (noted == error_code || (noted == 0x7fff_ffff_ffff_ffff && error_code > noted))
}

/// A reset of the peer ends the direction from it: nothing more comes, but what came and
/// was not read stays. The direction to the peer goes on.
pub proof fn lemma_reset_of_the_peer_ends_receiving(stream: RequestStream, error_code: u64)
    requires
        stream.live,
        stream.wf(),
    ensures
        ({
            let after = stream.with_reset(error_code);
            &&& after.recv_done && !after.inbound_open && !after.fin_undelivered
            &&& after.inbound == stream.inbound && after.receiver == stream.receiver
            &&& same_sending(stream, after)
            &&& after.live == !stream.send_done
            &&& after.session == stream.session
            &&& is_noted(after.audit.recvd_reset_stream_error_code, error_code)
            &&& after.audit == (H3AuditStats {
                recvd_reset_stream_error_code: after.audit.recvd_reset_stream_error_code,
                ..stream.audit
            })
        }),
{
}

/// A refusal of this end ends the direction from the peer in the same way.
pub proof fn lemma_refusal_of_this_end_ends_receiving(stream: RequestStream, error_code: u64)
    requires
        stream.live,
        stream.wf(),
    ensures
        ({
            let after = stream.with_local_stop(error_code);
            &&& after.recv_done && !after.inbound_open && !after.fin_undelivered
            &&& after.inbound == stream.inbound && after.receiver == stream.receiver
            &&& same_sending(stream, after)
            &&& after.live == !stream.send_done
            &&& after.session == stream.session
            &&& is_noted(after.audit.sent_stop_sending_error_code, error_code)
            &&& after.audit == (H3AuditStats {
                sent_stop_sending_error_code: after.audit.sent_stop_sending_error_code,
                ..stream.audit
            })
        }),
{
}

/// A refusal of the peer and a reset of this end both end the direction to the peer: what
/// waits to be written is dropped, and nothing more is taken. The direction from the peer
/// goes on. The statistics tell the two apart.
pub proof fn lemma_refusal_and_reset_end_sending(stream: RequestStream, error_code: u64)
    requires
        stream.live,
    ensures
        ({
            let refused = stream.with_stop(error_code);
            let reset = stream.with_local_reset(error_code);
            &&& sending_is_over(refused) && sending_is_over(reset)
            &&& !stream.recv_done ==> same_receiving(stream, refused) && same_receiving(
                stream,
                reset,
            )
            &&& refused.inbound == stream.inbound && reset.inbound == stream.inbound
            &&& refused.live == !stream.recv_done && reset.live == !stream.recv_done
            &&& refused.session == stream.session && reset.session == stream.session
            &&& is_noted(refused.audit.recvd_stop_sending_error_code, error_code)
            &&& is_noted(reset.audit.sent_reset_stream_error_code, error_code)
            &&& refused.audit == (H3AuditStats {
                recvd_stop_sending_error_code: refused.audit.recvd_stop_sending_error_code,
                ..stream.audit
            })
            &&& reset.audit == (H3AuditStats {
                sent_reset_stream_error_code: reset.audit.sent_reset_stream_error_code,
                ..stream.audit
            })
        }),
{
}

/// Bytes of a body reach an application that reads, and are counted. Where nobody reads,
/// they are dropped, the direction from the peer ends, and the peer is told so with the code
/// 0x10c. The end of a body is noted in either case, and a reader gets it behind what waits.
pub proof fn lemma_body_reaches_its_reader(stream: RequestStream, data: Vec<u8>)
    requires
        stream.live,
        stream.wf(),
        !stream.receiver || stream.inbound is None,
    ensures
        ({
            let after = stream.with_body(data);
            let sum = stream.audit.downstream_bytes_recvd + data@.len();
            if stream.receiver {
                &&& after.inbound == Some(InboundFrame::Body(data))
                &&& after.audit.downstream_bytes_recvd == (if sum <= u64::MAX {
                    sum
                } else {
                    u64::MAX as int
                })
                &&& after.recv_done == stream.recv_done && after.live && after.inbound_open
                    == stream.inbound_open
                &&& same_sending(stream, after)
            } else {
                &&& after.recv_done && !after.inbound_open && after.inbound == stream.inbound
                &&& after.audit.sent_stop_sending_error_code == 0x10c
                &&& after.audit.downstream_bytes_recvd == stream.audit.downstream_bytes_recvd
                &&& same_sending(stream, after)
                &&& after.live == !stream.send_done
            }
        }),
        ({
            let after = stream.with_fin();
            &&& after.recv_done && after.audit.recvd_stream_fin == StreamClosureKind::Explicit
            &&& same_sending(stream, after)
            &&& stream.receiver ==> after.inbound == Some(InboundFrame::Fin)
            &&& !stream.receiver ==> after.inbound == stream.inbound
        }),
{
}

/// The end of a body that could not reach the application waits until there is room for it,
/// and comes once.
pub proof fn lemma_waiting_end_comes_once(stream: RequestStream)
    requires
        stream.live,
        stream.wf(),
        stream.recv_done,
    ensures
        ({
            let after = stream.upstream_ready();
            &&& same_sending(stream, after)
            &&& stream.receiver && stream.fin_undelivered && stream.inbound is None
                ==> after.inbound == Some(InboundFrame::Fin) && !after.fin_undelivered
                && after.live == !stream.send_done
            &&& stream.receiver && stream.inbound is Some ==> after == stream
            &&& !stream.receiver && stream.fin_undelivered ==> after.inbound == stream.inbound
                && !after.fin_undelivered && after.live == !stream.send_done
            &&& !stream.fin_undelivered ==> after == stream
        }),
{
}

/// A field section leaves whole or not at all: it takes 40 bytes of credit. The status of a
/// response is told. The stream ends with a section that ends it.
pub proof fn lemma_field_section_leaves_whole(
    stream: RequestStream,
    stream_id: u64,
    credit: u64,
    log: PeerLogState,
)
    requires
        stream.live,
        stream.wf(),
        stream.queued is None,
        stream.outbound matches Some(frame) && !(frame is Body),
    ensures
        ({
            let result = stream.write_result(stream_id, credit, log);
            let frame = stream.outbound->Some_0;
            if credit < 40 {
                &&& result.step == WriteStep::Blocked && result.cost == 0 && result.log == log
                &&& result.stream.queued == Some(frame) && result.stream.outbound is None
                &&& result.stream.outbound_open == stream.outbound_open
                &&& result.stream.send_done == stream.send_done && result.stream.live
            } else {
                &&& result.cost == 40
                &&& result.log.announced == log.announced
                &&& frame matches OutboundFrame::Headers(list) ==> {
                    &&& result.log.sent == log.sent.push(Sent::Headers { stream_id, cost: 40 })
                    &&& result.step matches WriteStep::Headers { status: told } && (match status_of(
                        fields(list@),
                    ) {
                        Some(n) => told == Some(n as u16),
                        None => told is None,
                    })
                    &&& result.stream.send_done == stream.send_done && result.stream.live
                    &&& result.stream.queued is None && result.stream.outbound is None
                }
                &&& frame is Trailers ==> {
                    &&& result.log.sent == log.sent.push(
                        Sent::Headers { stream_id, cost: 40 },
                    ).push(Sent::Fin { stream_id })
                    &&& result.step == WriteStep::Finished
                    &&& sending_is_over(result.stream)
                    &&& result.stream.audit.sent_stream_fin == StreamClosureKind::Explicit
                    &&& result.stream.live == !stream.recv_done
                }
            }
        }),
{
}

/// A turn writes as many bytes of a body as the credit allows, two of which the frame takes,
/// and counts them. The stream ends behind the last byte of a body that ends it, and not
/// before. A body without bytes takes no credit.
pub proof fn lemma_body_leaves_as_far_as_the_credit(
    stream: RequestStream,
    stream_id: u64,
    credit: u64,
    log: PeerLogState,
)
    requires
        stream.live,
        stream.wf(),
        stream.queued matches Some(OutboundFrame::Body(data, _)),
    ensures
        ({
            let result = stream.write_result(stream_id, credit, log);
            let data = stream.queued->Some_0->Body_0@;
            let fin = stream.queued->Some_0->Body_1;
            let left = data.len() - stream.queued_sent;
            let room = if credit > 2 {
                credit - 2
            } else {
                0
            };
            let count = if left < room {
                left
            } else {
                room
            };
            let part = Sent::Body {
                stream_id,
                data: data.subrange(
                    stream.queued_sent as int,
                    stream.queued_sent as int + count,
                ),
            };
            let sum = stream.audit.downstream_bytes_sent + count;
            let ends = fin && count == left;
            &&& result.cost == (if count == 0 {
                0
            } else {
                count + 2
            })
            &&& result.log.sent == (if count == 0 && !ends {
                log.sent
            } else if ends {
                log.sent.push(part).push(Sent::Fin { stream_id })
            } else {
                log.sent.push(part)
            })
            &&& result.log.announced == log.announced
            &&& result.stream.audit.downstream_bytes_sent == (if sum <= u64::MAX {
                sum
            } else {
                u64::MAX as int
            })
            &&& result.stream.send_done == (stream.send_done || ends)
            &&& ends ==> sending_is_over(result.stream) && result.stream.live == !stream.recv_done
                && result.step == WriteStep::Finished && result.stream.audit.sent_stream_fin
                == StreamClosureKind::Explicit
            &&& count < left ==> result.stream.queued == stream.queued
                && result.stream.queued_sent == stream.queued_sent + count
            &&& count < left ==> result.step == (if count == 0 {
                WriteStep::Blocked
            } else {
                WriteStep::Partial
            })
            &&& count == left && !fin ==> result.stream.queued is None && result.step
                == WriteStep::Wrote
            &&& !ends ==> same_receiving(stream, result.stream) && result.stream.live
        }),
{
    let body = stream.queued->Some_0->Body_0;
    assert(body.len() == body@.len());
    assert(body@.subrange(body@.len() as int, body@.len() as int) =~= Seq::<u8>::empty());
}

/// The frames of the application are written in the order in which they were handed over:
/// the next one is taken up only when the one before was written.
pub proof fn lemma_frames_leave_in_order(
    stream: RequestStream,
    stream_id: u64,
    credit: u64,
    log: PeerLogState,
)
    requires
        stream.live,
        stream.wf(),
        stream.queued is Some,
    ensures
        ({
            let result = stream.write_result(stream_id, credit, log);
            !(result.step is Finished) ==> result.stream.outbound == stream.outbound
        }),
{
}

} // verus!
