//! The state of one request stream: what the application and the transport
//! have done to either direction of it.

use vstd::prelude::*;

use crate::conn_close::H3_REQUEST_CANCELLED;
use crate::headers::{fields, response_status, status_of, Header};
use crate::peer_log::{PeerLog, PeerLogState, Sent};

verus! {

/// What a field section costs of a stream's send credit.
pub const FIELD_SECTION_COST: u64 = 40;

/// What the header of a DATA frame costs of a stream's send credit.
pub const DATA_FRAME_OVERHEAD: u64 = 2;

/// How one direction of a stream was ended.
#[derive(Clone, Copy, Debug, PartialEq, Eq, Structural)]
pub enum StreamClosureKind {
    /// It was not ended by a FIN.
    NotClosed,
    /// A FIN ended it.
    Explicit,
}

/// What happened on a stream, for later inspection. Error codes are -1 where
/// none was sent or received.
#[derive(Clone, Copy, Debug, PartialEq, Eq, Structural)]
pub struct H3AuditStats {
    pub downstream_bytes_sent: u64,
    pub downstream_bytes_recvd: u64,
    pub recvd_stop_sending_error_code: i64,
    pub recvd_reset_stream_error_code: i64,
    pub sent_stop_sending_error_code: i64,
    pub sent_reset_stream_error_code: i64,
    pub recvd_stream_fin: StreamClosureKind,
    pub sent_stream_fin: StreamClosureKind,
}

/// An error code as it stands in the statistics.
pub open spec fn audit_code(error_code: u64) -> i64 {
    if error_code <= i64::MAX {
        error_code as i64
    } else {
        i64::MAX
    }
}

fn code_for_audit(error_code: u64) -> (code: i64)
    ensures
        code == audit_code(error_code),
{
    if error_code <= i64::MAX as u64 {
        error_code as i64
    } else {
        i64::MAX
    }
}

/// A sum that stops at the largest value.
pub open spec fn capped_sum(a: u64, b: int) -> u64 {
    if a + b <= u64::MAX {
        (a + b) as u64
    } else {
        u64::MAX
    }
}

/// A sum that stops at the largest value.
pub fn add_capped(a: u64, b: usize) -> (sum: u64)
    ensures
        sum == capped_sum(a, b as int),
{
    if b as u64 <= u64::MAX - a {
        a + b as u64
    } else {
        u64::MAX
    }
}

/// Statistics of a stream on which nothing has happened.
pub open spec fn no_audit() -> H3AuditStats {
    H3AuditStats {
        downstream_bytes_sent: 0,
        downstream_bytes_recvd: 0,
        recvd_stop_sending_error_code: -1i64 as i64,
        recvd_reset_stream_error_code: -1i64 as i64,
        sent_stop_sending_error_code: -1i64 as i64,
        sent_reset_stream_error_code: -1i64 as i64,
        recvd_stream_fin: StreamClosureKind::NotClosed,
        sent_stream_fin: StreamClosureKind::NotClosed,
    }
}

/// What the driver hands to the application.
#[derive(Debug)]
pub enum InboundFrame {
    /// Body bytes.
    Body(Vec<u8>),
    /// The end of the body.
    Fin,
}

/// What the application hands to the driver.
#[derive(Debug)]
pub enum OutboundFrame {
    /// A field section.
    Headers(Vec<Header>),
    /// Body bytes, and whether the stream ends behind them.
    Body(Vec<u8>, bool),
    /// A field section that ends the stream.
    Trailers(Vec<Header>),
}

/// What became of a frame that the application offered.
#[derive(Debug)]
pub enum FrameAdmission {
    Accepted,
    /// Another frame is still waiting.
    Full(OutboundFrame),
    /// The driver takes no more frames.
    Closed(OutboundFrame),
}

/// What the application gets when it reads.
#[derive(Debug)]
pub enum AppRecv {
    Frame(InboundFrame),
    /// Nothing is waiting.
    Empty,
    /// Nothing will come any more.
    Disconnected,
}

/// What one turn of writing came to.
#[derive(Clone, Copy, Debug, PartialEq, Eq, Structural)]
pub enum WriteStep {
    /// There was nothing to write.
    Idle,
    /// The transport takes nothing now; the frame waits.
    Blocked,
    /// A field section was written.
    Headers { status: Option<u16> },
    /// Part of a body was written; the rest waits.
    Partial,
    /// A whole frame was written.
    Wrote,
    /// A whole frame was written, and it ended the stream.
    Finished,
}

/// One request stream.
#[derive(Debug)]
pub struct RequestStream {
    /// Whether the driver still tracks the stream.
    pub live: bool,
    /// Whether the application can still read.
    pub receiver: bool,
    /// Whether the application can still write.
    pub sender: bool,
    /// The frame that waits for the application.
    pub inbound: Option<InboundFrame>,
    /// The frame that waits for the driver.
    pub outbound: Option<OutboundFrame>,
    /// Whether the driver will deliver more.
    pub inbound_open: bool,
    /// Whether the driver takes more frames.
    pub outbound_open: bool,
    /// The frame that is being written.
    pub queued: Option<OutboundFrame>,
    /// How much of its body was written.
    pub queued_sent: usize,
    /// Whether the end of the body still has to reach the application.
    pub fin_undelivered: bool,
    /// Whether the sending direction has ended.
    pub send_done: bool,
    /// Whether the receiving direction has ended.
    pub recv_done: bool,
    /// Whether the stream carries a WebTransport session.
    pub session: bool,
    /// What happened so far.
    pub audit: H3AuditStats,
}

/// What a turn of writing does.
pub ghost struct WriteResult {
    pub stream: RequestStream,
    pub log: PeerLogState,
    pub cost: u64,
    pub step: WriteStep,
}

impl RequestStream {
    /// A stream on which a request has just arrived or left.
    pub open spec fn opened(recv_done: bool, send_done: bool, session: bool) -> RequestStream {
        RequestStream {
            live: true,
            receiver: true,
            sender: true,
            inbound: None,
            outbound: None,
            inbound_open: true,
            outbound_open: !send_done,
            queued: None,
            queued_sent: 0,
            fin_undelivered: false,
            send_done,
            recv_done,
            session,
            audit: H3AuditStats {
                recvd_stream_fin: if recv_done {
                    StreamClosureKind::Explicit
                } else {
                    StreamClosureKind::NotClosed
                },
                sent_stream_fin: if send_done {
                    StreamClosureKind::Explicit
                } else {
                    StreamClosureKind::NotClosed
                },
                ..no_audit()
            },
        }
    }

    /// A stream on which a request has just arrived or left.
    pub fn open(recv_done: bool, send_done: bool, session: bool) -> (stream: Self)
        ensures
            stream == RequestStream::opened(recv_done, send_done, session),
            stream.wf(),
    {
        RequestStream {
            live: true,
            receiver: true,
            sender: true,
            inbound: None,
            outbound: None,
            inbound_open: true,
            outbound_open: !send_done,
            queued: None,
            queued_sent: 0,
            fin_undelivered: false,
            send_done,
            recv_done,
            session,
            audit: H3AuditStats {
                downstream_bytes_sent: 0,
                downstream_bytes_recvd: 0,
                recvd_stop_sending_error_code: -1,
                recvd_reset_stream_error_code: -1,
                sent_stop_sending_error_code: -1,
                sent_reset_stream_error_code: -1,
                recvd_stream_fin: if recv_done {
                    StreamClosureKind::Explicit
                } else {
                    StreamClosureKind::NotClosed
                },
                sent_stream_fin: if send_done {
                    StreamClosureKind::Explicit
                } else {
                    StreamClosureKind::NotClosed
                },
            },
        }
    }

    /// What was written of a body is part of it, and a stream that the driver
    /// gave up takes and delivers nothing.
    pub open spec fn wf(self) -> bool {
        &&& self.queued matches Some(OutboundFrame::Body(data, _)) ==> self.queued_sent
            <= data@.len()
        &&& !self.live ==> self.send_done && self.recv_done && !self.inbound_open
            && !self.outbound_open && self.queued is None
        &&& self.send_done ==> !self.outbound_open && self.queued is None && self.outbound is None
    }

    /// The stream, given up if both directions have ended.
    pub open spec fn closed_if_done(self) -> RequestStream {
        if self.send_done && self.recv_done {
            RequestStream {
                live: false,
                inbound_open: false,
                outbound_open: false,
                queued: None,
                fin_undelivered: false,
                ..self
            }
        } else {
            self
        }
    }

    fn close_if_done(&mut self)
        ensures
            *final(self) == old(self).closed_if_done(),
    {
        if self.send_done && self.recv_done {
            self.live = false;
            self.inbound_open = false;
            self.outbound_open = false;
            self.queued = None;
            self.fin_undelivered = false;
        }
    }

    /// Offers a frame to the driver.
    pub fn app_send(&mut self, frame: OutboundFrame) -> (admission: FrameAdmission)
        ensures
            !old(self).outbound_open ==> admission == FrameAdmission::Closed(frame)
                && *final(self) == *old(self),
            old(self).outbound_open && old(self).outbound is Some ==> admission
                == FrameAdmission::Full(frame) && *final(self) == *old(self),
            old(self).outbound_open && old(self).outbound is None ==> admission
                == FrameAdmission::Accepted && *final(self) == (RequestStream {
                outbound: Some(frame),
                ..*old(self)
            }),
            old(self).wf() ==> final(self).wf(),
    {
        if !self.outbound_open {
            FrameAdmission::Closed(frame)
        } else if self.outbound.is_some() {
            FrameAdmission::Full(frame)
        } else {
            self.outbound = Some(frame);
            FrameAdmission::Accepted
        }
    }

    /// Takes the frame that waits for the application.
    pub fn app_recv(&mut self) -> (read: AppRecv)
        ensures
            match old(self).inbound {
                Some(frame) => read == AppRecv::Frame(frame),
                None => read == (if old(self).inbound_open {
                    AppRecv::Empty
                } else {
                    AppRecv::Disconnected
                }),
            },
            *final(self) == (RequestStream { inbound: None, ..*old(self) }),
    {
        match self.inbound.take() {
            Some(frame) => AppRecv::Frame(frame),
            None => if self.inbound_open {
                AppRecv::Empty
            } else {
                AppRecv::Disconnected
            },
        }
    }

    /// The application gives its sending handle up.
    pub fn drop_sender(&mut self)
        ensures
            *final(self) == (RequestStream { sender: false, ..*old(self) }),
    {
        self.sender = false;
    }

    /// The application gives its receiving handle up.
    pub fn drop_receiver(&mut self)
        ensures
            *final(self) == (RequestStream { receiver: false, inbound: None, ..*old(self) }),
    {
        self.receiver = false;
        self.inbound = None;
    }

    /// Whether body bytes can be taken from the transport now.
    pub open spec fn takes_body(self) -> bool {
        !self.receiver || self.inbound is None
    }

    /// Whether body bytes can be taken from the transport now.
    pub fn can_take_body(&self) -> (can: bool)
        ensures
            can == self.takes_body(),
    {
        !self.receiver || self.inbound.is_none()
    }

    /// The stream after body bytes arrived. Without a reader they are refused
    /// and the peer is told to stop.
    pub open spec fn with_body(self, data: Vec<u8>) -> RequestStream {
        if self.receiver {
            RequestStream {
                inbound: Some(InboundFrame::Body(data)),
                audit: H3AuditStats {
                    downstream_bytes_recvd: capped_sum(
                        self.audit.downstream_bytes_recvd,
                        data@.len() as int,
                    ),
                    ..self.audit
                },
                ..self
            }
        } else {
            (RequestStream {
                recv_done: true,
                inbound_open: false,
                audit: H3AuditStats {
                    sent_stop_sending_error_code: audit_code(H3_REQUEST_CANCELLED),
                    ..self.audit
                },
                ..self
            }).closed_if_done()
        }
    }

    /// Body bytes arrived. Returns whether the application will get them.
    pub fn on_body(&mut self, data: Vec<u8>) -> (delivered: bool)
        requires
            old(self).takes_body(),
        ensures
            delivered == old(self).receiver,
            *final(self) == old(self).with_body(data),
            old(self).wf() ==> final(self).wf(),
    {
        if self.receiver {
            self.audit.downstream_bytes_recvd = add_capped(
                self.audit.downstream_bytes_recvd,
                data.len(),
            );
            self.inbound = Some(InboundFrame::Body(data));
            true
        } else {
            self.recv_done = true;
            self.inbound_open = false;
            self.audit.sent_stop_sending_error_code = code_for_audit(H3_REQUEST_CANCELLED);
            self.close_if_done();
            false
        }
    }

    /// The stream after the end of the body arrived. The application learns of
    /// it at once where nothing else waits for it.
    pub open spec fn with_fin(self) -> RequestStream {
        let ended = RequestStream {
            recv_done: true,
            audit: H3AuditStats { recvd_stream_fin: StreamClosureKind::Explicit, ..self.audit },
            ..self
        };
        if !self.receiver {
            ended.closed_if_done()
        } else if self.inbound is None {
            (RequestStream { inbound: Some(InboundFrame::Fin), ..ended }).closed_if_done()
        } else {
            RequestStream { fin_undelivered: true, ..ended }
        }
    }

    /// The end of the body arrived.
    pub fn on_fin(&mut self)
        requires
            old(self).live,
        ensures
            *final(self) == old(self).with_fin(),
            old(self).wf() ==> final(self).wf(),
    {
        self.recv_done = true;
        self.audit.recvd_stream_fin = StreamClosureKind::Explicit;
        if !self.receiver {
            self.close_if_done();
        } else if self.inbound.is_none() {
            self.inbound = Some(InboundFrame::Fin);
            self.close_if_done();
        } else {
            self.fin_undelivered = true;
        }
    }

    /// The stream after the driver looked for room in the application's queue.
    pub open spec fn upstream_ready(self) -> RequestStream {
        if !self.fin_undelivered {
            self
        } else if !self.receiver {
            (RequestStream { fin_undelivered: false, ..self }).closed_if_done()
        } else if self.inbound is None {
            (RequestStream {
                fin_undelivered: false,
                inbound: Some(InboundFrame::Fin),
                ..self
            }).closed_if_done()
        } else {
            self
        }
    }

    /// Delivers the end of the body once there is room for it.
    pub fn on_upstream_ready(&mut self)
        ensures
            *final(self) == old(self).upstream_ready(),
            old(self).wf() ==> final(self).wf(),
    {
        if self.fin_undelivered {
            if !self.receiver {
                self.fin_undelivered = false;
                self.close_if_done();
            } else if self.inbound.is_none() {
                self.fin_undelivered = false;
                self.inbound = Some(InboundFrame::Fin);
                self.close_if_done();
            }
        }
    }

    /// The stream after the peer reset it.
    pub open spec fn with_reset(self, error_code: u64) -> RequestStream {
        (RequestStream {
            recv_done: true,
            inbound_open: false,
            fin_undelivered: false,
            audit: H3AuditStats {
                recvd_reset_stream_error_code: audit_code(error_code),
                ..self.audit
            },
            ..self
        }).closed_if_done()
    }

    /// The peer reset its direction.
    pub fn on_reset(&mut self, error_code: u64)
        ensures
            *final(self) == old(self).with_reset(error_code),
            old(self).wf() ==> final(self).wf(),
    {
        self.recv_done = true;
        self.inbound_open = false;
        self.fin_undelivered = false;
        self.audit.recvd_reset_stream_error_code = code_for_audit(error_code);
        self.close_if_done();
    }

    /// The stream after a write found that the peer wants no more.
    pub open spec fn with_stop(self, error_code: u64) -> RequestStream {
        (RequestStream {
            send_done: true,
            outbound_open: false,
            outbound: None,
            queued: None,
            audit: H3AuditStats {
                recvd_stop_sending_error_code: audit_code(error_code),
                ..self.audit
            },
            ..self
        }).closed_if_done()
    }

    /// A write found that the peer wants no more.
    pub fn on_stopped(&mut self, error_code: u64)
        ensures
            *final(self) == old(self).with_stop(error_code),
            old(self).wf() ==> final(self).wf(),
    {
        self.send_done = true;
        self.outbound_open = false;
        self.outbound = None;
        self.queued = None;
        self.audit.recvd_stop_sending_error_code = code_for_audit(error_code);
        self.close_if_done();
    }

    /// The stream after this end reset its direction.
    pub open spec fn with_local_reset(self, error_code: u64) -> RequestStream {
        (RequestStream {
            send_done: true,
            outbound_open: false,
            outbound: None,
            queued: None,
            audit: H3AuditStats {
                sent_reset_stream_error_code: audit_code(error_code),
                ..self.audit
            },
            ..self
        }).closed_if_done()
    }

    /// Ends the sending direction with an error.
    pub fn shutdown_write(&mut self, error_code: u64)
        ensures
            *final(self) == old(self).with_local_reset(error_code),
            old(self).wf() ==> final(self).wf(),
    {
        self.send_done = true;
        self.outbound_open = false;
        self.outbound = None;
        self.queued = None;
        self.audit.sent_reset_stream_error_code = code_for_audit(error_code);
        self.close_if_done();
    }

    /// The stream after this end refused the peer's direction.
    pub open spec fn with_local_stop(self, error_code: u64) -> RequestStream {
        (RequestStream {
            recv_done: true,
            inbound_open: false,
            fin_undelivered: false,
            audit: H3AuditStats {
                sent_stop_sending_error_code: audit_code(error_code),
                ..self.audit
            },
            ..self
        }).closed_if_done()
    }

    /// Ends the receiving direction with an error.
    pub fn shutdown_read(&mut self, error_code: u64)
        ensures
            *final(self) == old(self).with_local_stop(error_code),
            old(self).wf() ==> final(self).wf(),
    {
        self.recv_done = true;
        self.inbound_open = false;
        self.fin_undelivered = false;
        self.audit.sent_stop_sending_error_code = code_for_audit(error_code);
        self.close_if_done();
    }

    /// The stream after its end was written in the place of any frame.
    pub fn finish(&mut self)
        ensures
            *final(self) == old(self).after_frame(true),
            old(self).wf() ==> final(self).wf(),
    {
        self.finish_frame(true);
    }

    /// The stream after a field section arrived that ends it.
    pub open spec fn with_ending_headers(self) -> RequestStream {
        (RequestStream {
            recv_done: true,
            audit: H3AuditStats { recvd_stream_fin: StreamClosureKind::Explicit, ..self.audit },
            ..self
        }).closed_if_done()
    }

    /// A field section arrived that ends the stream. The application learns of
    /// the end with the section.
    pub fn on_ending_headers(&mut self)
        ensures
            *final(self) == old(self).with_ending_headers(),
            old(self).wf() ==> final(self).wf(),
    {
        self.recv_done = true;
        self.audit.recvd_stream_fin = StreamClosureKind::Explicit;
        self.close_if_done();
    }

    /// Whether the application gave the sending direction up before its end.
    pub open spec fn is_abandoned(self) -> bool {
        self.live && !self.sender && self.outbound is None && !self.send_done
    }

    /// Whether the application gave the sending direction up before its end.
    pub fn abandoned(&self) -> (is: bool)
        ensures
            is == self.is_abandoned(),
    {
        self.live && !self.sender && self.outbound.is_none() && !self.send_done
    }

    /// Whether a frame waits to be written.
    pub open spec fn has_frame(self) -> bool {
        self.queued is Some || self.outbound is Some
    }

    /// Whether a frame waits to be written.
    pub fn wants_write(&self) -> (wants: bool)
        ensures
            wants == self.has_frame(),
    {
        self.queued.is_some() || self.outbound.is_some()
    }

    /// The stream with the next frame in the place of the one being written.
    pub open spec fn loaded(self) -> RequestStream {
        if self.queued is Some {
            self
        } else {
            RequestStream { queued: self.outbound, queued_sent: 0, outbound: None, ..self }
        }
    }

    /// The stream without the frame that was written, and ended if it was the
    /// last one.
    pub open spec fn after_frame(self, fin: bool) -> RequestStream {
        if fin {
            (RequestStream {
                queued: None,
                send_done: true,
                outbound_open: false,
                outbound: None,
                audit: H3AuditStats { sent_stream_fin: StreamClosureKind::Explicit, ..self.audit },
                ..self
            }).closed_if_done()
        } else {
            RequestStream { queued: None, ..self }
        }
    }

    /// What a turn does with the field section that is being written.
    pub open spec fn section_result(
        self,
        stream_id: u64,
        credit: u64,
        log: PeerLogState,
    ) -> WriteResult {
        let headers = log.plus(Sent::Headers { stream_id, cost: FIELD_SECTION_COST });
        if credit < FIELD_SECTION_COST {
            WriteResult { stream: self, log, cost: 0, step: WriteStep::Blocked }
        } else {
            match self.queued {
                Some(OutboundFrame::Headers(list)) => WriteResult {
                    stream: self.after_frame(false),
                    log: headers,
                    cost: FIELD_SECTION_COST,
                    step: WriteStep::Headers {
                        status: match status_of(fields(list@)) {
                            Some(n) => Some(n as u16),
                            None => None,
                        },
                    },
                },
                _ => WriteResult {
                    stream: self.after_frame(true),
                    log: headers.plus(Sent::Fin { stream_id }),
                    cost: FIELD_SECTION_COST,
                    step: WriteStep::Finished,
                },
            }
        }
    }

    /// The stream after `n` body bytes were counted as sent.
    pub open spec fn counted(self, n: int) -> RequestStream {
        RequestStream {
            audit: H3AuditStats {
                downstream_bytes_sent: capped_sum(self.audit.downstream_bytes_sent, n),
                ..self.audit
            },
            ..self
        }
    }

    /// How many of the `left` bytes of a body a turn can write.
    pub open spec fn body_part(left: int, credit: u64) -> int {
        if left + DATA_FRAME_OVERHEAD <= credit {
            left
        } else if credit <= DATA_FRAME_OVERHEAD {
            0
        } else {
            credit - DATA_FRAME_OVERHEAD
        }
    }

    /// What a turn does with the body that is being written.
    pub open spec fn body_result(
        self,
        stream_id: u64,
        credit: u64,
        data: Seq<u8>,
        fin: bool,
        log: PeerLogState,
    ) -> WriteResult {
        let from = self.queued_sent as int;
        let left = data.len() - from;
        let n = RequestStream::body_part(left, credit);
        let part = Sent::Body { stream_id, data: data.subrange(from, from + n) };
        let empty = Sent::Body { stream_id, data: Seq::empty() };
        let end = Sent::Fin { stream_id };
        if left == 0 {
            if fin {
                WriteResult {
                    stream: self.after_frame(true),
                    log: log.plus(empty).plus(end),
                    cost: 0,
                    step: WriteStep::Finished,
                }
            } else {
                WriteResult {
                    stream: self.after_frame(false),
                    log,
                    cost: 0,
                    step: WriteStep::Wrote,
                }
            }
        } else if n == 0 {
            WriteResult { stream: self, log, cost: 0, step: WriteStep::Blocked }
        } else if n < left {
            WriteResult {
                stream: RequestStream { queued_sent: (from + n) as usize, ..self.counted(n) },
                log: log.plus(part),
                cost: (n + DATA_FRAME_OVERHEAD) as u64,
                step: WriteStep::Partial,
            }
        } else if fin {
            WriteResult {
                stream: self.counted(n).after_frame(true),
                log: log.plus(part).plus(end),
                cost: (n + DATA_FRAME_OVERHEAD) as u64,
                step: WriteStep::Finished,
            }
        } else {
            WriteResult {
                stream: self.counted(n).after_frame(false),
                log: log.plus(part),
                cost: (n + DATA_FRAME_OVERHEAD) as u64,
                step: WriteStep::Wrote,
            }
        }
    }

    /// What one turn of writing does, with `credit` bytes of send credit.
    pub open spec fn write_result(
        self,
        stream_id: u64,
        credit: u64,
        log: PeerLogState,
    ) -> WriteResult {
        let s = self.loaded();
        match s.queued {
            None => WriteResult { stream: s, log, cost: 0, step: WriteStep::Idle },
            Some(OutboundFrame::Body(data, fin)) => s.body_result(
                stream_id,
                credit,
                data@,
                fin,
                log,
            ),
            _ => s.section_result(stream_id, credit, log),
        }
    }

    fn finish_frame(&mut self, fin: bool)
        ensures
            *final(self) == old(self).after_frame(fin),
    {
        self.queued = None;
        if fin {
            self.send_done = true;
            self.outbound_open = false;
            self.outbound = None;
            self.audit.sent_stream_fin = StreamClosureKind::Explicit;
            self.close_if_done();
        }
    }

    fn write_section(&mut self, stream_id: u64, credit: u64, log: &mut PeerLog) -> (turn: (
        WriteStep,
        u64,
    ))
        requires
            old(self).queued matches Some(frame) && !(frame is Body),
        ensures
            ({
                let result = old(self).section_result(stream_id, credit, old(log)@);
                &&& *final(self) == result.stream
                &&& turn == (result.step, result.cost)
                &&& final(log)@ == result.log
                &&& result.cost <= credit
            }),
    {
        if credit < FIELD_SECTION_COST {
            return (WriteStep::Blocked, 0);
        }
        let (status, fin) = match &self.queued {
            Some(OutboundFrame::Headers(list)) => (response_status(list), false),
            _ => (None, true),
        };
        log.headers(stream_id, FIELD_SECTION_COST);
        self.finish_frame(fin);
        if fin {
            log.fin(stream_id);
            (WriteStep::Finished, FIELD_SECTION_COST)
        } else {
            (WriteStep::Headers { status }, FIELD_SECTION_COST)
        }
    }

    fn write_body_end(&mut self, stream_id: u64, fin: bool, log: &mut PeerLog) -> (step: WriteStep)
        requires
            old(self).queued matches Some(OutboundFrame::Body(data, last)) && fin == last
                && old(self).queued_sent == data@.len(),
        ensures
            ({
                let data = old(self).queued->Some_0->Body_0@;
                let result = old(self).body_result(stream_id, 0, data, fin, old(log)@);
                &&& *final(self) == result.stream
                &&& step == result.step
                &&& final(log)@ == result.log
            }),
    {
        if fin {
            if let Some(OutboundFrame::Body(data, _)) = &self.queued {
                let len: usize = data.len();
                log.body(stream_id, data, len, len);
                assert(data@.subrange(len as int, len as int) =~= Seq::<u8>::empty());
            }
            log.fin(stream_id);
        }
        self.finish_frame(fin);
        if fin {
            WriteStep::Finished
        } else {
            WriteStep::Wrote
        }
    }

    fn count_sent(&mut self, n: usize)
        ensures
            *final(self) == old(self).counted(n as int),
    {
        self.audit.downstream_bytes_sent = add_capped(self.audit.downstream_bytes_sent, n);
    }

    fn write_body_part(
        &mut self,
        stream_id: u64,
        credit: u64,
        left: usize,
        fin: bool,
        log: &mut PeerLog,
    ) -> (turn: (WriteStep, u64))
        requires
            old(self).queued matches Some(OutboundFrame::Body(data, last)) && fin == last
                && old(self).queued_sent + left == data@.len() && left > 0,
        ensures
            ({
                let data = old(self).queued->Some_0->Body_0@;
                let result = old(self).body_result(stream_id, credit, data, fin, old(log)@);
                &&& *final(self) == result.stream
                &&& turn == (result.step, result.cost)
                &&& final(log)@ == result.log
                &&& result.cost <= credit
            }),
    {
        let from: usize = self.queued_sent;
        let n: usize = if credit <= DATA_FRAME_OVERHEAD {
            0
        } else if left as u64 <= credit - DATA_FRAME_OVERHEAD {
            left
        } else {
            (credit - DATA_FRAME_OVERHEAD) as usize
        };
        assert(n == RequestStream::body_part(left as int, credit));
        let ghost bytes = self.queued->Some_0->Body_0@;
        let ghost part = Sent::Body { stream_id, data: bytes.subrange(from as int, from + n) };
        if n == 0 {
            return (WriteStep::Blocked, 0);
        }
        if let Some(OutboundFrame::Body(data, _)) = &self.queued {
            assert(data.len() == data@.len());
            log.body(stream_id, data, from, from + n);
        }
        assert(log@ == old(log)@.plus(part));
        self.count_sent(n);
        let cost: u64 = n as u64 + DATA_FRAME_OVERHEAD;
        if n < left {
            self.queued_sent = from + n;
            return (WriteStep::Partial, cost);
        }
        self.finish_frame(fin);
        if fin {
            log.fin(stream_id);
            (WriteStep::Finished, cost)
        } else {
            (WriteStep::Wrote, cost)
        }
    }

    fn write_body(&mut self, stream_id: u64, credit: u64, log: &mut PeerLog) -> (turn: (
        WriteStep,
        u64,
    ))
        requires
            old(self).queued matches Some(OutboundFrame::Body(data, _)) && old(self).queued_sent
                <= data@.len(),
        ensures
            ({
                let data = old(self).queued->Some_0->Body_0@;
                let fin = old(self).queued->Some_0->Body_1;
                let result = old(self).body_result(stream_id, credit, data, fin, old(log)@);
                &&& *final(self) == result.stream
                &&& turn == (result.step, result.cost)
                &&& final(log)@ == result.log
                &&& result.cost <= credit
            }),
    {
        let (left, fin) = match &self.queued {
            Some(OutboundFrame::Body(data, fin)) => (data.len() - self.queued_sent, *fin),
            _ => (0, false),
        };
        if left == 0 {
            (self.write_body_end(stream_id, fin, log), 0)
        } else {
            self.write_body_part(stream_id, credit, left, fin, log)
        }
    }

    /// Writes as much of the next frame as `credit` allows. Returns what the
    /// turn came to and what it cost.
    pub fn write_step(&mut self, stream_id: u64, credit: u64, log: &mut PeerLog) -> (turn: (
        WriteStep,
        u64,
    ))
        requires
            old(self).wf(),
        ensures
            ({
                let result = old(self).write_result(stream_id, credit, old(log)@);
                &&& *final(self) == result.stream
                &&& turn == (result.step, result.cost)
                &&& final(log)@ == result.log
                &&& result.cost <= credit
            }),
            final(self).wf(),
    {
        if self.queued.is_none() {
            self.queued = self.outbound.take();
            self.queued_sent = 0;
        }
        let is_body = match &self.queued {
            None => {
                return (WriteStep::Idle, 0);
            },
            Some(OutboundFrame::Body(_, _)) => true,
            _ => false,
        };
        proof {
            lemma_write_keeps_invariant(*old(self), stream_id, credit, old(log)@);
        }
        if is_body {
            self.write_body(stream_id, credit, log)
        } else {
            self.write_section(stream_id, credit, log)
        }
    }
}

proof fn lemma_write_keeps_invariant(
    stream: RequestStream,
    stream_id: u64,
    credit: u64,
    log: PeerLogState,
)
    requires
        stream.wf(),
    ensures
        stream.write_result(stream_id, credit, log).stream.wf(),
{
    let s = stream.loaded();
    if let Some(OutboundFrame::Body(data, _)) = s.queued {
        assert(data.len() == data@.len());
    }
}

/// The driver gives a stream up exactly when both directions have ended, apart
/// from an end of the body that still has to reach the application.
pub proof fn lemma_stream_is_released_when_both_directions_end(stream: RequestStream)
    requires
        stream.live,
    ensures
        stream.closed_if_done().live == !(stream.send_done && stream.recv_done),
        stream.inbound is None ==> stream.with_fin().live == !stream.send_done,
        stream.inbound is Some && stream.receiver ==> stream.with_fin().live
            && (RequestStream {
            inbound: None,
            ..stream.with_fin()
        }).upstream_ready().live == !stream.send_done,
{
}

/// What arrives of a body reaches the application whole and in order: bytes that
/// wait for it are not replaced, and the end of the body comes behind them.
pub proof fn lemma_body_is_delivered_in_order(stream: RequestStream, data: Vec<u8>)
    requires
        stream.takes_body(),
        stream.receiver,
    ensures
        stream.with_body(data).inbound == Some(InboundFrame::Body(data)),
        !stream.with_body(data).takes_body(),
        ({
            let ended = stream.with_body(data).with_fin();
            let taken = RequestStream { inbound: None, ..ended };
            &&& ended.inbound == Some(InboundFrame::Body(data))
            &&& taken.upstream_ready().inbound == Some(InboundFrame::Fin)
        }),
{
}

/// A body leaves in order and unchanged: what a turn writes of it is what comes
/// next, and it never costs more than the credit.
pub proof fn lemma_body_is_written_in_order(
    stream: RequestStream,
    stream_id: u64,
    credit: u64,
    log: PeerLogState,
)
    requires
        stream.wf(),
        stream.queued matches Some(OutboundFrame::Body(data, _)) && stream.queued_sent
            < data@.len(),
    ensures
        ({
            let data = stream.queued->Some_0->Body_0@;
            let result = stream.write_result(stream_id, credit, log);
            let from = stream.queued_sent as int;
            let n = RequestStream::body_part(data.len() - from, credit);
            &&& result.cost <= credit
            &&& n == 0 <==> credit <= DATA_FRAME_OVERHEAD
            &&& n == 0 ==> result.step == WriteStep::Blocked && result.stream == stream
                && result.log == log
            &&& n > 0 ==> {
                &&& result.log.sent.len() > log.sent.len()
                &&& result.log.sent.take(log.sent.len() as int) == log.sent
                &&& result.log.sent[log.sent.len() as int] == (Sent::Body {
                    stream_id,
                    data: data.subrange(from, from + n),
                })
                &&& (result.step == WriteStep::Partial ==> result.stream.queued_sent == from + n)
                &&& (result.step != WriteStep::Partial ==> from + n == data.len())
            }
        }),
{
    let body = stream.queued->Some_0->Body_0;
    assert(body.len() == body@.len());
    let result = stream.write_result(stream_id, credit, log);
    assert(result.log.sent.len() >= log.sent.len() ==> result.log.sent.take(
        log.sent.len() as int,
    ) =~= log.sent);
}

} // verus!
