//! Writing payloads that the application lends.

use vstd::prelude::*;

use crate::driver::books::{lemma_books_kept, lemma_books_returned};
use crate::driver::desk::{lease_values, Desk, DeskState, ReadyKind, Retry, Serving};
use crate::driver::state::H3Core;
use crate::table::{lookup, put, without};
use crate::transport::SendResult;
use crate::wire::error_code::{application_error, http3_error_to_webtransport};
use crate::wt::requests::{Answer, WebTransportOutcome, WebTransportReadyOutcome};
use crate::wt::types::WebTransportSelectionError;
use crate::wt::write_lease::{
    LeaseAnswer, LeaseState, LeaseVerdict, MockWriteLease, MockWriteLeaseError,
    WebTransportStreamWriteLease, WebTransportStreamWriteLeaseOutcome,
    WebTransportStreamWriteLeaseProgress, WebTransportStreamWriteRetry,
};

verus! {

impl DeskState {
    /// The state after a lease came back to its owner, and with it the right to
    /// try again.
    pub open spec fn lease_returned(self, op: u64) -> DeskState {
        match lookup(self.writes, op) {
            Some(memory) => DeskState {
                ledger: self.ledger.given_back(memory),
                writes: without(self.writes, op),
                retries: without(self.retries, op),
                ..self
            },
            None => self,
        }
    }

    /// The state after a lease came back to its owner, who keeps the right to try
    /// again.
    pub open spec fn retry_kept(self, op: u64) -> DeskState {
        match lookup(self.writes, op) {
            Some(memory) => DeskState {
                ledger: self.ledger.memory_given_back(memory),
                writes: put(self.writes, op, 0),
                ..self
            },
            None => self,
        }
    }

    /// The blocked write that a right to try again is for, if this driver gave it and
    /// it was not used yet.
    pub open spec fn retry_target(self, retry: WebTransportStreamWriteRetry) -> Option<Retry> {
        if retry.driver == self.identity {
            lookup(self.retries, retry.op)
        } else {
            None
        }
    }

    /// The state after the right to try again was given up.
    pub open spec fn retry_dropped(self, retry: WebTransportStreamWriteRetry) -> DeskState {
        if retry.driver == self.identity {
            self.lease_returned(retry.op)
        } else {
            self
        }
    }

    /// The state after the owner of a lease that the driver never had was told that
    /// nobody waits for the outcome.
    pub open spec fn unsent_lease_abandoned(self, lease: LeaseState) -> DeskState {
        let progress = WebTransportStreamWriteLeaseProgress::NeverExposed;
        DeskState {
            ledger: self.ledger.abandoned(progress),
            dropped: self.dropped.push(lease.told(progress)),
            ..self
        }
    }

    /// The state after the owner of a lease was told that nobody waits for the
    /// outcome.
    pub open spec fn lease_abandoned(
        self,
        op: u64,
        lease: LeaseState,
        progress: WebTransportStreamWriteLeaseProgress,
    ) -> DeskState {
        (DeskState {
            ledger: self.ledger.abandoned(progress),
            dropped: self.dropped.push(lease.told(progress)),
            ..self
        }).lease_returned(op)
    }
}

impl Serving {
    /// The state after a lent write was answered.
    pub open spec fn lease_answered(
        self,
        op: u64,
        lease: LeaseState,
        fin: bool,
        verdict: LeaseVerdict,
    ) -> Serving {
        self.answered(op, Answer::Lease(LeaseAnswer { lease, fin, verdict }))
    }

    /// The state after a lent payload was shown to the transport.
    #[verifier::opaque]
    pub open spec fn lease_shown(
        self,
        op: u64,
        session_id: u64,
        stream_id: u64,
        lease: LeaseState,
        fin: bool,
    ) -> Serving {
        match self.core.transport.raw_result(stream_id, lease.payload.len() as int, fin) {
            SendResult::Stopped { error_code } => self.lease_answered(
                op,
                lease,
                fin,
                LeaseVerdict::ResetRequired {
                    wire_error_code: error_code,
                    application_error_code: application_error(error_code),
                },
            ),
            SendResult::Blocked => (Serving {
                desk: DeskState {
                    retries: put(
                        self.desk.retries,
                        op,
                        Retry {
                            session_id,
                            stream_id,
                            reasons: self.core.transport.block_reasons(stream_id),
                        },
                    ),
                    ..self.desk
                },
                ..self
            }).lease_answered(
                op,
                lease,
                fin,
                LeaseVerdict::Blocked {
                    retry: WebTransportStreamWriteRetry { driver: self.desk.identity, op },
                    reasons: self.core.transport.block_reasons(stream_id),
                },
            ),
            SendResult::Accepted { count, fin: ended } => {
                let sent = Serving {
                    core: self.core.raw_sent(stream_id, lease.payload, fin),
                    ..self
                };
                let closed = if ended {
                    sent.send_direction_closed(stream_id)
                } else {
                    sent
                };
                closed.lease_answered(
                    op,
                    lease,
                    fin,
                    LeaseVerdict::Accepted {
                        accepted: count,
                        complete: count == lease.payload.len(),
                        fin_accepted: ended,
                    },
                )
            },
        }
    }

    /// The state after the application lent a payload for a write. It is shown
    /// only where the stream takes writes, and only as it is: no byte of it is
    /// kept.
    #[verifier::opaque]
    pub open spec fn lease_write_requested(
        self,
        op: u64,
        session_id: u64,
        stream_id: u64,
        lease: LeaseState,
        fin: bool,
    ) -> Serving {
        match self.stream_selection(session_id, stream_id, true) {
            Some(error) => self.lease_answered(op, lease, fin, LeaseVerdict::Rejected(error)),
            None => if self.desk.endings.ends(stream_id).send_closed {
                self.lease_answered(op, lease, fin, LeaseVerdict::Closed)
            } else if lease.fail_exposure {
                self.lease_answered(
                    op,
                    lease,
                    fin,
                    LeaseVerdict::LeaseError(MockWriteLeaseError::Unavailable),
                )
            } else if lease.payload.len() != lease.declared_len {
                self.lease_answered(
                    op,
                    lease.exposed(),
                    fin,
                    LeaseVerdict::InvalidLength {
                        declared: lease.declared_len,
                        actual: lease.payload.len() as usize,
                    },
                )
            } else {
                self.lease_shown(op, session_id, stream_id, lease.exposed(), fin)
            },
        }
    }

    /// The state after the application asked to be told when a blocked write can
    /// be tried again. The right to ask is used up with it.
    #[verifier::opaque]
    pub open spec fn retry_wait_requested(
        self,
        op: u64,
        retry: WebTransportStreamWriteRetry,
    ) -> Serving {
        match self.desk.retry_target(retry) {
            Some(target) => (Serving {
                desk: self.desk.lease_returned(retry.op),
                ..self
            }).ready_requested(
                op,
                target.session_id,
                ReadyKind::Writable { stream_id: target.stream_id, reasons: target.reasons },
            ),
            None => self.answered(
                op,
                Answer::Ready(
                    WebTransportReadyOutcome::Rejected(
                        WebTransportSelectionError::ForeignController,
                    ),
                ),
            ),
        }
    }
}

/// The right that another driver gave, or that was used before, is refused and does
/// nothing else, also where it is given up.
pub proof fn lemma_foreign_retry_is_refused(
    state: Serving,
    op: u64,
    retry: WebTransportStreamWriteRetry,
)
    requires
        retry.driver != state.desk.identity || lookup(state.desk.retries, retry.op) is None,
    ensures
        state.retry_wait_requested(op, retry) == state.answered(
            op,
            Answer::Ready(
                WebTransportReadyOutcome::Rejected(WebTransportSelectionError::ForeignController),
            ),
        ),
        retry.driver != state.desk.identity ==> state.desk.retry_dropped(retry) == state.desk,
{
    reveal(Serving::retry_wait_requested);
}

/// A lease that the transport did not take comes back as it was, but for how
/// often it was shown.
pub proof fn lemma_refused_lease_comes_back(
    state: Serving,
    op: u64,
    session_id: u64,
    stream_id: u64,
    lease: LeaseState,
    fin: bool,
)
    ensures
        ({
            let answers = state.lease_write_requested(
                op,
                session_id,
                stream_id,
                lease,
                fin,
            ).desk.answers;
            &&& answers.len() > 0
            &&& answers.last().0 == op
            &&& answers.last().1 matches Answer::Lease(answer) && answer.fin == fin && (answer.lease
                == lease || answer.lease == lease.exposed()) && (answer.verdict.made()
                == WebTransportStreamWriteLeaseProgress::NeverExposed ==> answer.lease == lease)
        }),
{
    reveal(Serving::lease_write_requested);
    reveal(Serving::lease_shown);
}

impl Desk {
    /// A lease comes back to its owner, and with it the right to try again.
    pub fn return_lease(&mut self, op: u64)
        requires
            old(self).wf(),
        ensures
            final(self).wf(),
            final(self)@ == old(self)@.lease_returned(op),
    {
        proof {
            lemma_books_returned(self.ledger, self.writes@, self.next_op, op);
        }
        if let Some(memory) = self.writes.remove(op) {
            self.ledger.give_back(memory);
            self.retries.remove(op);
        }
    }

    /// A lease comes back to its owner, who keeps the right to try again.
    pub fn keep_retry(&mut self, op: u64)
        requires
            old(self).wf(),
        ensures
            final(self).wf(),
            final(self)@ == old(self)@.retry_kept(op),
    {
        proof {
            lemma_books_kept(self.ledger, self.writes@, self.next_op, op);
        }
        let memory: Option<usize> = match self.writes.get(op) {
            Some(memory) => Some(*memory),
            None => None,
        };
        if let Some(memory) = memory {
            self.ledger.give_memory_back(memory);
            self.writes.set(op, 0);
        }
    }

    /// Tells the owner of a lease that nobody waits for the outcome.
    pub fn abandon_lease(
        &mut self,
        op: u64,
        lease: MockWriteLease,
        progress: WebTransportStreamWriteLeaseProgress,
    )
        requires
            old(self).wf(),
        ensures
            final(self).wf(),
            final(self)@ == old(self)@.lease_abandoned(op, lease@, progress),
    {
        let mut lease = lease;
        lease.on_write_abandoned(progress);
        self.ledger.note_abandoned(progress);
        let ghost before = self.dropped@;
        let ghost told = lease@;
        self.dropped.push(lease);
        assert(lease_values(self.dropped@) =~= lease_values(before).push(told));
        self.return_lease(op);
    }

    /// Tells the owner of a lease that the driver never had that nobody waits for the
    /// outcome.
    pub fn abandon_unsent_lease(&mut self, lease: MockWriteLease)
        requires
            old(self).wf(),
        ensures
            final(self).wf(),
            final(self)@ == old(self)@.unsent_lease_abandoned(lease@),
    {
        let mut lease = lease;
        lease.on_write_abandoned(WebTransportStreamWriteLeaseProgress::NeverExposed);
        self.ledger.note_abandoned(WebTransportStreamWriteLeaseProgress::NeverExposed);
        let ghost before = self.dropped@;
        let ghost told = lease@;
        self.dropped.push(lease);
        assert(lease_values(self.dropped@) =~= lease_values(before).push(told));
    }

    fn answer_lease(&mut self, op: u64, lease: MockWriteLease, fin: bool, verdict: LeaseVerdict)
        ensures
            final(self)@ == (DeskState {
                answers: old(self)@.answers.push(
                    (op, Answer::Lease(LeaseAnswer { lease: lease@, fin, verdict })),
                ),
                ..old(self)@
            }),
            old(self).wf() ==> final(self).wf(),
    {
        self.answer(
            op,
            WebTransportOutcome::Lease(WebTransportStreamWriteLeaseOutcome { lease, fin, verdict }),
        );
    }

    fn show_lease(
        &mut self,
        core: &mut H3Core,
        op: u64,
        session_id: u64,
        stream_id: u64,
        lease: MockWriteLease,
        fin: bool,
    )
        requires
            old(self).wf(),
            old(core).wf(),
        ensures
            final(self).wf(),
            final(core).wf(),
            final(self).with(*final(core)) == old(self).with(*old(core)).lease_shown(
                op,
                session_id,
                stream_id,
                lease@,
                fin,
            ),
    {
        proof {
            reveal(Serving::lease_shown);
        }
        let actual: usize = lease.payload.len();
        match core.send_raw(stream_id, lease.payload.as_slice(), fin) {
            SendResult::Stopped { error_code } => {
                let verdict = LeaseVerdict::ResetRequired {
                    wire_error_code: error_code,
                    application_error_code: http3_error_to_webtransport(error_code),
                };
                self.answer_lease(op, lease, fin, verdict);
            },
            SendResult::Blocked => {
                let reasons = core.transport.send_blocks(stream_id);
                self.retries.set(op, Retry { session_id, stream_id, reasons });
                let retry = WebTransportStreamWriteRetry { driver: self.identity, op };
                self.answer_lease(op, lease, fin, LeaseVerdict::Blocked { retry, reasons });
            },
            SendResult::Accepted { count, fin: ended } => {
                if ended {
                    self.close_send_direction(core, stream_id);
                }
                let verdict = LeaseVerdict::Accepted {
                    accepted: count,
                    complete: count == actual,
                    fin_accepted: ended,
                };
                self.answer_lease(op, lease, fin, verdict);
            },
        }
    }

    /// The application lends a payload for a write.
    pub fn request_lease_write(
        &mut self,
        core: &mut H3Core,
        op: u64,
        session_id: u64,
        stream_id: u64,
        lease: MockWriteLease,
        fin: bool,
    )
        requires
            old(self).wf(),
            old(core).wf(),
        ensures
            final(self).wf(),
            final(core).wf(),
            final(self).with(*final(core)) == old(self).with(*old(core)).lease_write_requested(
                op,
                session_id,
                stream_id,
                lease@,
                fin,
            ),
    {
        proof {
            reveal(Serving::lease_write_requested);
        }
        let mut lease = lease;
        if let Some(error) = self.select_stream(core, session_id, stream_id, true) {
            self.answer_lease(op, lease, fin, LeaseVerdict::Rejected(error));
            return;
        }
        if self.endings.get(stream_id).send_closed {
            self.answer_lease(op, lease, fin, LeaseVerdict::Closed);
            return;
        }
        let declared: usize = lease.payload_len();
        let shown: Result<usize, MockWriteLeaseError> = match lease.as_slice() {
            Ok(bytes) => Ok(bytes.len()),
            Err(error) => Err(error),
        };
        let actual: usize = match shown {
            Ok(actual) => actual,
            Err(error) => {
                self.answer_lease(op, lease, fin, LeaseVerdict::LeaseError(error));
                return;
            },
        };
        if actual != declared {
            self.answer_lease(op, lease, fin, LeaseVerdict::InvalidLength { declared, actual });
            return;
        }
        self.show_lease(core, op, session_id, stream_id, lease, fin);
    }

    /// The application asks to be told when a blocked write can be tried again.
    pub fn request_retry_wait(
        &mut self,
        core: &H3Core,
        op: u64,
        retry: WebTransportStreamWriteRetry,
    )
        requires
            old(self).wf(),
        ensures
            final(self).wf(),
            final(self).with(*core) == old(self).with(*core).retry_wait_requested(op, retry),
    {
        proof {
            reveal(Serving::retry_wait_requested);
        }
        let mut target: Option<Retry> = None;
        if retry.driver == self.identity {
            if let Some(given) = self.retries.get(retry.op) {
                target = Some(*given);
            }
        }
        match target {
            Some(target) => {
                self.return_lease(retry.op);
                self.request_ready(
                    core,
                    op,
                    target.session_id,
                    ReadyKind::Writable { stream_id: target.stream_id, reasons: target.reasons },
                );
            },
            None => {
                self.answer(
                    op,
                    WebTransportOutcome::Ready(
                        WebTransportReadyOutcome::Rejected(
                            WebTransportSelectionError::ForeignController,
                        ),
                    ),
                );
            },
        }
    }
}

} // verus!
