//! Requests about the directions of a session's streams.

use vstd::prelude::*;

use crate::driver::desk::{Desk, DeskState, Serving};
use crate::driver::state::{CoreState, H3Core};
use crate::peer_log::{raw_bytes, raw_fin, without_raw, PeerLogState, Sent};
use crate::request_stream::{add_capped, capped_sum};
use crate::transport::SendResult;
use crate::wire::capsule::copy_range;
use crate::wire::error_code::{
    application_error, http3_error_to_webtransport, webtransport_error_to_http3, wire_code,
};
use crate::wt::requests::{
    with_answers, Answer, ReadAnswer, WebTransportOutcome, WebTransportStreamControlOutcome,
    WebTransportStreamReadOutcome, WebTransportStreamReceiveTerminalRetirementOutcome,
    WebTransportStreamWriteOutcome, WriteAnswer,
};
use crate::wt::stream_ends::{
    WebTransportStreamReceiveTerminal, WebTransportStreamSendTerminalOutcome,
};
use crate::wt::waiters::ops_under;

verus! {

impl DeskState {
    /// The state after some requests about the end of a send direction were
    /// answered.
    pub open spec fn send_waiters_told(
        self,
        ops: Seq<u64>,
        outcome: WebTransportStreamSendTerminalOutcome,
    ) -> DeskState {
        DeskState {
            answers: with_answers(self.answers, ops, Answer::SendEnd(outcome)),
            send_work_total: capped_sum(self.send_work_total, ops.len() as int),
            ..self
        }
    }
}

impl Serving {
    /// The state after some requests about the end of a send direction were
    /// answered.
    pub open spec fn send_waiters_told(
        self,
        ops: Seq<u64>,
        outcome: WebTransportStreamSendTerminalOutcome,
    ) -> Serving {
        Serving { desk: self.desk.send_waiters_told(ops, outcome), ..self }
    }

    /// The state after this end finished or reset its direction of a stream.
    #[verifier::opaque]
    pub open spec fn send_direction_closed(self, stream_id: u64) -> Serving {
        self.send_waiters_told(
            ops_under(self.desk.endings.waiters.list, stream_id),
            WebTransportStreamSendTerminalOutcome::Closed { stream_id },
        ).with_endings(self.desk.endings.send_closed(stream_id)).stream_checked(stream_id)
    }

    /// The state after the application asked to reset its direction of a stream.
    #[verifier::opaque]
    pub open spec fn reset_requested(
        self,
        op: u64,
        session_id: u64,
        stream_id: u64,
        application_error: u32,
    ) -> Serving {
        match self.stream_selection(session_id, stream_id, true) {
            Some(error) => self.answered(
                op,
                Answer::Control(WebTransportStreamControlOutcome::Rejected(error)),
            ),
            None => {
                let ended = if self.desk.endings.ends(stream_id).send_closed {
                    self
                } else {
                    (Serving {
                        core: self.core.sending(
                            Sent::Reset {
                                stream_id,
                                error_code: wire_code(application_error) as u64,
                            },
                        ),
                        ..self
                    }).send_direction_closed(stream_id)
                };
                ended.answered(op, Answer::Control(WebTransportStreamControlOutcome::Applied))
            },
        }
    }

    /// The state after the application asked to refuse the peer's direction of a
    /// stream.
    #[verifier::opaque]
    pub open spec fn stop_requested(
        self,
        op: u64,
        session_id: u64,
        stream_id: u64,
        application_error: u32,
    ) -> Serving {
        match self.stream_selection(session_id, stream_id, false) {
            Some(error) => self.answered(
                op,
                Answer::Control(WebTransportStreamControlOutcome::Rejected(error)),
            ),
            None => {
                let ended = if self.desk.endings.ends(stream_id).stop_sent {
                    self
                } else {
                    let refused = self.core.stopping(
                        stream_id,
                        wire_code(application_error) as u64,
                    );
                    (Serving {
                        core: CoreState {
                            raw: PeerLogState {
                                sent: without_raw(refused.raw.sent, stream_id),
                                ..refused.raw
                            },
                            ..refused
                        },
                        ..self
                    }).with_endings(self.desk.endings.receive_stopped(stream_id)).stream_checked(
                        stream_id,
                    )
                };
                ended.answered(op, Answer::Control(WebTransportStreamControlOutcome::Applied))
            },
        }
    }

    /// The state after the application asked how its direction of a stream ends.
    #[verifier::opaque]
    pub open spec fn send_end_requested(self, op: u64, session_id: u64, stream_id: u64) -> Serving {
        match self.stream_selection(session_id, stream_id, true) {
            Some(error) => self.answered(
                op,
                Answer::SendEnd(WebTransportStreamSendTerminalOutcome::Rejected(error)),
            ),
            None => {
                let asked = self.serving_for(session_id).with_endings(
                    self.desk.endings.send_awaited(op, stream_id),
                );
                match self.desk.endings.send_answer(session_id, stream_id) {
                    Some(outcome) => asked.answered(op, Answer::SendEnd(outcome)),
                    None => asked,
                }
            },
        }
    }

    /// The state after the application wanted to hear no more of its direction of
    /// a stream.
    #[verifier::opaque]
    pub open spec fn send_retirement_requested(
        self,
        op: u64,
        session_id: u64,
        stream_id: u64,
    ) -> Serving {
        match self.stream_selection(session_id, stream_id, true) {
            Some(error) => self.answered(
                op,
                Answer::SendEnd(WebTransportStreamSendTerminalOutcome::Rejected(error)),
            ),
            None => {
                let outcome = WebTransportStreamSendTerminalOutcome::Retired {
                    session_id,
                    stream_id,
                };
                self.send_waiters_told(
                    ops_under(self.desk.endings.waiters.list, stream_id),
                    outcome,
                ).with_endings(self.desk.endings.send_retired(stream_id)).stream_checked(
                    stream_id,
                ).answered(op, Answer::SendEnd(outcome))
            },
        }
    }

    /// The state after the application wanted to hear no more of the peer's
    /// direction of a stream.
    #[verifier::opaque]
    pub open spec fn receive_retirement_requested(
        self,
        op: u64,
        session_id: u64,
        stream_id: u64,
    ) -> Serving {
        match self.stream_selection(session_id, stream_id, false) {
            Some(error) => self.answered(
                op,
                Answer::ReceiveRetired(
                    WebTransportStreamReceiveTerminalRetirementOutcome::Rejected(error),
                ),
            ),
            None => self.with_endings(
                self.desk.endings.receive_retired(stream_id),
            ).stream_checked(stream_id).answered(
                op,
                Answer::ReceiveRetired(
                    WebTransportStreamReceiveTerminalRetirementOutcome::Retired {
                        session_id,
                        stream_id,
                    },
                ),
            ),
        }
    }

    /// The state after bytes were offered to the transport on a stream.
    #[verifier::opaque]
    pub open spec fn write_tried(
        self,
        op: u64,
        stream_id: u64,
        data: Seq<u8>,
        fin: bool,
    ) -> Serving {
        match self.core.transport.raw_result(stream_id, data.len() as int, fin) {
            SendResult::Stopped { error_code } => self.answered(
                op,
                Answer::Write(
                    WriteAnswer::ResetRequired {
                        wire_error_code: error_code,
                        application_error_code: application_error(error_code),
                        data,
                        fin,
                    },
                ),
            ),
            SendResult::Blocked => self.answered(
                op,
                Answer::Write(WriteAnswer::Blocked { data, fin }),
            ),
            SendResult::Accepted { count, fin: ended } => {
                let sent = Serving { core: self.core.raw_sent(stream_id, data, fin), ..self };
                let closed = if ended {
                    sent.send_direction_closed(stream_id)
                } else {
                    sent
                };
                closed.answered(
                    op,
                    Answer::Write(
                        WriteAnswer::Accepted {
                            accepted: count,
                            remaining: if count < data.len() {
                                Some(data.skip(count as int))
                            } else {
                                None
                            },
                            fin_accepted: ended,
                        },
                    ),
                )
            },
        }
    }

    /// The state after the application wrote on a stream.
    #[verifier::opaque]
    pub open spec fn write_requested(
        self,
        op: u64,
        session_id: u64,
        stream_id: u64,
        data: Seq<u8>,
        fin: bool,
    ) -> Serving {
        match self.stream_selection(session_id, stream_id, true) {
            Some(error) => self.answered(
                op,
                Answer::Write(WriteAnswer::Rejected { error, data, fin }),
            ),
            None => if self.desk.endings.ends(stream_id).send_closed {
                self.answered(op, Answer::Write(WriteAnswer::Closed { data, fin }))
            } else {
                self.write_tried(op, stream_id, data, fin)
            },
        }
    }

    /// The state after the waiting bytes of a stream were taken, but for `rest`.
    pub open spec fn raw_taken(self, stream_id: u64, rest: Seq<u8>, fin: bool) -> Serving {
        let taken = without_raw(self.core.raw.sent, stream_id);
        Serving {
            core: CoreState {
                raw: PeerLogState {
                    sent: if rest.len() > 0 {
                        taken.push(Sent::Raw { stream_id, data: rest, fin })
                    } else {
                        taken
                    },
                    ..self.core.raw
                },
                ..self.core
            },
            ..self
        }
    }

    /// The state after the application read a stream: all bytes that wait, or the
    /// first `max` of them, and with the last ones how the peer's direction ended.
    #[verifier::opaque]
    pub open spec fn read_requested(
        self,
        op: u64,
        session_id: u64,
        stream_id: u64,
        max: usize,
    ) -> Serving {
        match self.stream_selection(session_id, stream_id, false) {
            Some(error) => self.answered(op, Answer::Read(ReadAnswer::Rejected(error))),
            None => {
                let bytes = raw_bytes(self.core.raw.sent, stream_id);
                let fin = raw_fin(self.core.raw.sent, stream_id);
                let received = self.desk.endings.ends(stream_id).received;
                if bytes.len() > max {
                    self.raw_taken(stream_id, bytes.skip(max as int), fin).answered(
                        op,
                        Answer::Read(
                            ReadAnswer::Data { data: bytes.subrange(0, max as int), fin: false },
                        ),
                    )
                } else if fin {
                    let terminal = WebTransportStreamReceiveTerminal::Fin;
                    self.raw_taken(stream_id, Seq::empty(), false).with_endings(
                        self.desk.endings.receive_ended(stream_id, terminal).receive_observed(
                            stream_id,
                        ),
                    ).stream_checked(stream_id).answered(
                        op,
                        Answer::Read(ReadAnswer::Terminal { data: bytes, terminal }),
                    )
                } else if bytes.len() > 0 {
                    self.raw_taken(stream_id, Seq::empty(), false).answered(
                        op,
                        Answer::Read(ReadAnswer::Data { data: bytes, fin: false }),
                    )
                } else {
                    match received {
                        Some(terminal) => self.with_endings(
                            self.desk.endings.receive_observed(stream_id),
                        ).answered(
                            op,
                            Answer::Read(ReadAnswer::Terminal { data: bytes, terminal }),
                        ),
                        None => self.answered(op, Answer::Read(ReadAnswer::Blocked)),
                    }
                }
            },
        }
    }
}

impl Desk {
    /// Answers requests about the end of a send direction.
    pub fn tell_send_waiters(
        &mut self,
        ops: &Vec<u64>,
        outcome: WebTransportStreamSendTerminalOutcome,
    )
        requires
            old(self).wf(),
        ensures
            final(self).wf(),
            final(self)@ == old(self)@.send_waiters_told(ops@, outcome),
    {
        self.answers.push_send_end(ops, outcome);
        self.send_work_total = add_capped(self.send_work_total, ops.len());
    }

    /// This end finished or reset its direction of a stream.
    pub fn close_send_direction(&mut self, core: &mut H3Core, stream_id: u64)
        requires
            old(self).wf(),
            old(core).wf(),
        ensures
            final(self).wf(),
            final(core).wf(),
            final(self).with(*final(core)) == old(self).with(*old(core)).send_direction_closed(
                stream_id,
            ),
    {
        proof {
            reveal(Serving::send_direction_closed);
        }
        let woken = self.endings.close_send(stream_id);
        self.tell_send_waiters(&woken, WebTransportStreamSendTerminalOutcome::Closed { stream_id });
        self.check_stream(core, stream_id);
    }

    /// The application asks to reset its direction of a stream.
    pub fn request_reset(
        &mut self,
        core: &mut H3Core,
        op: u64,
        session_id: u64,
        stream_id: u64,
        application_error: u32,
    )
        requires
            old(self).wf(),
            old(core).wf(),
        ensures
            final(self).wf(),
            final(core).wf(),
            final(self).with(*final(core)) == old(self).with(*old(core)).reset_requested(
                op,
                session_id,
                stream_id,
                application_error,
            ),
    {
        proof {
            reveal(Serving::reset_requested);
        }
        if let Some(error) = self.select_stream(core, session_id, stream_id, true) {
            self.answer(
                op,
                WebTransportOutcome::Control(WebTransportStreamControlOutcome::Rejected(error)),
            );
            return;
        }
        if !self.endings.get(stream_id).send_closed {
            core.transport.send_reset(stream_id, webtransport_error_to_http3(application_error));
            self.close_send_direction(core, stream_id);
        }
        self.answer(op, WebTransportOutcome::Control(WebTransportStreamControlOutcome::Applied));
    }

    /// The application asks to refuse the peer's direction of a stream.
    pub fn request_stop(
        &mut self,
        core: &mut H3Core,
        op: u64,
        session_id: u64,
        stream_id: u64,
        application_error: u32,
    )
        requires
            old(self).wf(),
            old(core).wf(),
        ensures
            final(self).wf(),
            final(core).wf(),
            final(self).with(*final(core)) == old(self).with(*old(core)).stop_requested(
                op,
                session_id,
                stream_id,
                application_error,
            ),
    {
        proof {
            reveal(Serving::stop_requested);
        }
        if let Some(error) = self.select_stream(core, session_id, stream_id, false) {
            self.answer(
                op,
                WebTransportOutcome::Control(WebTransportStreamControlOutcome::Rejected(error)),
            );
            return;
        }
        if !self.endings.get(stream_id).stop_sent {
            core.transport.send_stop(stream_id, webtransport_error_to_http3(application_error));
            core.raw.take_raw(stream_id);
            self.endings.stop_receive(stream_id);
            self.check_stream(core, stream_id);
        }
        self.answer(op, WebTransportOutcome::Control(WebTransportStreamControlOutcome::Applied));
    }

    /// The application asks how its direction of a stream ends.
    pub fn request_send_end(
        &mut self,
        core: &mut H3Core,
        op: u64,
        session_id: u64,
        stream_id: u64,
    )
        requires
            old(self).wf(),
            old(core).wf(),
        ensures
            final(self).wf(),
            final(core).wf(),
            final(self).with(*final(core)) == old(self).with(*old(core)).send_end_requested(
                op,
                session_id,
                stream_id,
            ),
    {
        proof {
            reveal(Serving::send_end_requested);
        }
        if let Some(error) = self.select_stream(core, session_id, stream_id, true) {
            self.answer(
                op,
                WebTransportOutcome::SendEnd(
                    WebTransportStreamSendTerminalOutcome::Rejected(error),
                ),
            );
            return;
        }
        self.serving = Some(session_id);
        if let Some(outcome) = self.endings.await_send_end(op, session_id, stream_id) {
            self.answer(op, WebTransportOutcome::SendEnd(outcome));
        }
    }

    /// The application wants to hear no more of its direction of a stream.
    pub fn request_send_retirement(
        &mut self,
        core: &mut H3Core,
        op: u64,
        session_id: u64,
        stream_id: u64,
    )
        requires
            old(self).wf(),
            old(core).wf(),
        ensures
            final(self).wf(),
            final(core).wf(),
            final(self).with(*final(core)) == old(self).with(
                *old(core),
            ).send_retirement_requested(op, session_id, stream_id),
    {
        proof {
            reveal(Serving::send_retirement_requested);
        }
        if let Some(error) = self.select_stream(core, session_id, stream_id, true) {
            self.answer(
                op,
                WebTransportOutcome::SendEnd(
                    WebTransportStreamSendTerminalOutcome::Rejected(error),
                ),
            );
            return;
        }
        let outcome = WebTransportStreamSendTerminalOutcome::Retired { session_id, stream_id };
        let woken = self.endings.retire_send(stream_id);
        self.tell_send_waiters(&woken, outcome);
        self.check_stream(core, stream_id);
        self.answer(op, WebTransportOutcome::SendEnd(outcome));
    }

    /// The application wants to hear no more of the peer's direction of a stream.
    pub fn request_receive_retirement(
        &mut self,
        core: &mut H3Core,
        op: u64,
        session_id: u64,
        stream_id: u64,
    )
        requires
            old(self).wf(),
            old(core).wf(),
        ensures
            final(self).wf(),
            final(core).wf(),
            final(self).with(*final(core)) == old(self).with(
                *old(core),
            ).receive_retirement_requested(op, session_id, stream_id),
    {
        proof {
            reveal(Serving::receive_retirement_requested);
        }
        if let Some(error) = self.select_stream(core, session_id, stream_id, false) {
            self.answer(
                op,
                WebTransportOutcome::ReceiveRetired(
                    WebTransportStreamReceiveTerminalRetirementOutcome::Rejected(error),
                ),
            );
            return;
        }
        self.endings.retire_receive(stream_id);
        self.check_stream(core, stream_id);
        self.answer(
            op,
            WebTransportOutcome::ReceiveRetired(
                WebTransportStreamReceiveTerminalRetirementOutcome::Retired {
                    session_id,
                    stream_id,
                },
            ),
        );
    }

    /// The application writes on a stream.
    pub fn request_write(
        &mut self,
        core: &mut H3Core,
        op: u64,
        session_id: u64,
        stream_id: u64,
        data: Vec<u8>,
        fin: bool,
    )
        requires
            old(self).wf(),
            old(core).wf(),
        ensures
            final(self).wf(),
            final(core).wf(),
            final(self).with(*final(core)) == old(self).with(*old(core)).write_requested(
                op,
                session_id,
                stream_id,
                data@,
                fin,
            ),
    {
        proof {
            reveal(Serving::write_requested);
        }
        if let Some(error) = self.select_stream(core, session_id, stream_id, true) {
            self.answer(
                op,
                WebTransportOutcome::Write(
                    WebTransportStreamWriteOutcome::Rejected { error, data, fin },
                ),
            );
            return;
        }
        if self.endings.get(stream_id).send_closed {
            self.answer(
                op,
                WebTransportOutcome::Write(WebTransportStreamWriteOutcome::Closed { data, fin }),
            );
            return;
        }
        self.try_write(core, op, stream_id, data, fin);
    }

    fn try_write(&mut self, core: &mut H3Core, op: u64, stream_id: u64, data: Vec<u8>, fin: bool)
        requires
            old(self).wf(),
            old(core).wf(),
        ensures
            final(self).wf(),
            final(core).wf(),
            final(self).with(*final(core)) == old(self).with(*old(core)).write_tried(
                op,
                stream_id,
                data@,
                fin,
            ),
    {
        proof {
            reveal(Serving::write_tried);
        }
        match core.send_raw(stream_id, data.as_slice(), fin) {
            SendResult::Stopped { error_code } => {
                let outcome = WebTransportStreamWriteOutcome::ResetRequired {
                    wire_error_code: error_code,
                    application_error_code: http3_error_to_webtransport(error_code),
                    data,
                    fin,
                };
                self.answer(op, WebTransportOutcome::Write(outcome));
            },
            SendResult::Blocked => {
                let outcome = WebTransportStreamWriteOutcome::Blocked { data, fin };
                self.answer(op, WebTransportOutcome::Write(outcome));
            },
            SendResult::Accepted { count, fin: ended } => {
                if ended {
                    self.close_send_direction(core, stream_id);
                }
                let remaining = if count < data.len() {
                    let rest = copy_range(&data, count, data.len());
                    assert(rest@ =~= data@.skip(count as int));
                    Some(rest)
                } else {
                    None
                };
                let outcome = WebTransportStreamWriteOutcome::Accepted {
                    accepted: count,
                    remaining,
                    fin_accepted: ended,
                };
                self.answer(op, WebTransportOutcome::Write(outcome));
            },
        }
    }

    /// The application reads a stream.
    pub fn request_read(
        &mut self,
        core: &mut H3Core,
        op: u64,
        session_id: u64,
        stream_id: u64,
        max: usize,
    )
        requires
            old(self).wf(),
            old(core).wf(),
        ensures
            final(self).wf(),
            final(core).wf(),
            final(self).with(*final(core)) == old(self).with(*old(core)).read_requested(
                op,
                session_id,
                stream_id,
                max,
            ),
    {
        proof {
            reveal(Serving::read_requested);
        }
        if let Some(error) = self.select_stream(core, session_id, stream_id, false) {
            self.answer(
                op,
                WebTransportOutcome::Read(WebTransportStreamReadOutcome::Rejected(error)),
            );
            return;
        }
        let (bytes, fin) = core.raw.waiting_raw(stream_id);
        let received = self.endings.get(stream_id).received;
        let outcome = if bytes.len() > max {
            core.raw.take_raw(stream_id);
            core.raw.raw(stream_id, bytes.as_slice(), max, bytes.len(), fin);
            assert(bytes@.subrange(max as int, bytes@.len() as int) =~= bytes@.skip(max as int));
            WebTransportStreamReadOutcome::Data { data: copy_range(&bytes, 0, max), fin: false }
        } else if fin {
            let terminal = WebTransportStreamReceiveTerminal::Fin;
            core.raw.take_raw(stream_id);
            self.endings.receive_end(stream_id, terminal);
            self.endings.observe(stream_id);
            self.check_stream(core, stream_id);
            WebTransportStreamReadOutcome::Terminal { data: bytes, terminal }
        } else if bytes.len() > 0 {
            core.raw.take_raw(stream_id);
            WebTransportStreamReadOutcome::Data { data: bytes, fin: false }
        } else {
            match received {
                Some(terminal) => {
                    self.endings.observe(stream_id);
                    WebTransportStreamReadOutcome::Terminal { data: bytes, terminal }
                },
                None => WebTransportStreamReadOutcome::Blocked,
            }
        };
        self.answer(op, WebTransportOutcome::Read(outcome));
    }
}

} // verus!
