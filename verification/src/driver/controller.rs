//! How the application hands requests about sessions over and takes the answers.

use vstd::prelude::*;

use crate::conn_close::{bump, bumped};
use crate::driver::books::{lemma_books_entered, lemma_books_numbered};
use crate::driver::commands::{DriverState, H3Driver};
use crate::driver::desk::{lease_values, DeskState};
use crate::lane::{LaneError, LaneState};
use crate::table::put;
use crate::wire::datagram::{
    dgram_allocation, dgram_contents, dgram_payload, MAX_DATAGRAM_SIZE,
};
use crate::wt::requests::{
    answer_taken, answer_to, Answer, DatagramSendAnswer, Queued, WebTransportDatagramSendOutcome,
    WebTransportOutcome, WebTransportRequest, WebTransportStreamWriteOutcome,
};
use crate::wt::retention::{
    TerminalClaim, WebTransportRetentionStats, WebTransportTerminalRetentionOutcome,
};
use crate::wt::snapshot::SnapshotOutcome;
use crate::wt::types::WebTransportSelectionError;
use crate::wt::write_lease::{
    LeaseAdmission, LeaseState, LeaseVerdict, MockWriteLease, WebTransportStreamWriteLease,
    WebTransportStreamWriteLeaseOutcome, WebTransportStreamWriteRetry,
};

verus! {

impl DriverState {
    /// The state after a request was offered. It is numbered where the lane takes
    /// it.
    pub open spec fn requested(self, request: WebTransportRequest) -> DriverState {
        if self.requests.admits() {
            DriverState {
                requests: LaneState {
                    items: self.requests.items.push(
                        Queued { op: self.desk.next_op, request },
                    ),
                    ..self.requests
                },
                desk: DeskState { next_op: bumped(self.desk.next_op), ..self.desk },
                ..self
            }
        } else {
            self
        }
    }

    /// What becomes of a write of `len` bytes that is offered.
    pub open spec fn write_admission(self, len: usize) -> LeaseAdmission {
        self.desk.ledger.judged(len, len, self.requests.open, self.requests.admits())
    }

    /// The state after a write was offered.
    pub open spec fn write_offered(
        self,
        session_id: u64,
        stream_id: u64,
        data: Vec<u8>,
        fin: bool,
    ) -> DriverState {
        let len = data@.len() as usize;
        let admission = self.write_admission(len);
        let entered = DriverState {
            desk: DeskState { ledger: self.desk.ledger.entered(admission, len), ..self.desk },
            ..self
        };
        if admission == LeaseAdmission::Admitted {
            (DriverState {
                desk: DeskState {
                    writes: put(entered.desk.writes, entered.desk.next_op, len),
                    ..entered.desk
                },
                ..entered
            }).requested(WebTransportRequest::Write { session_id, stream_id, data, fin })
        } else {
            entered
        }
    }

    /// Why a datagram that keeps `allocated` bytes alive is not taken, if it is not.
    pub open spec fn datagram_refused(self, datagram: Seq<u8>, allocated: usize) -> Option<
        DatagramSendAnswer,
    > {
        let max = self.core.settings.webtransport_max_datagram_send_allocation_bytes;
        if datagram.len() > MAX_DATAGRAM_SIZE {
            Some(DatagramSendAnswer::TooLarge { max: MAX_DATAGRAM_SIZE, datagram })
        } else if allocated > max {
            Some(DatagramSendAnswer::AllocationTooLarge { max, allocated, datagram })
        } else if !self.requests.open {
            Some(
                DatagramSendAnswer::Rejected {
                    error: WebTransportSelectionError::ConnectionClosed,
                    datagram,
                },
            )
        } else if !self.requests.admits() {
            Some(DatagramSendAnswer::QueueFull(datagram))
        } else {
            None
        }
    }

    /// What becomes of a lease that is offered.
    pub open spec fn lease_admission(self, lease: LeaseState) -> LeaseAdmission {
        self.desk.ledger.judged(
            lease.declared_len,
            lease.retained_bytes,
            self.requests.open,
            self.requests.admits(),
        )
    }

    /// The state after a lease was offered.
    pub open spec fn lease_offered(
        self,
        session_id: u64,
        stream_id: u64,
        lease: MockWriteLease,
        fin: bool,
    ) -> DriverState {
        let admission = self.lease_admission(lease@);
        let memory = lease.retained_bytes;
        let entered = DeskState {
            ledger: self.desk.ledger.entered(admission, memory),
            ..self.desk
        };
        if admission == LeaseAdmission::Admitted {
            (DriverState {
                desk: DeskState { writes: put(entered.writes, entered.next_op, memory), ..entered },
                ..self
            }).requested(WebTransportRequest::WriteLease { session_id, stream_id, lease, fin })
        } else {
            DriverState { desk: entered, ..self }
        }
    }

    /// The state after the answer to a request was taken. A lease is back with its
    /// owner then; after a blocked write the right to try again is kept.
    pub open spec fn answer_taken(self, op: u64) -> DriverState {
        match answer_to(self.desk.answers, op) {
            Some(answer) => {
                let taken = DeskState {
                    answers: answer_taken(self.desk.answers, op),
                    ..self.desk
                };
                DriverState {
                    desk: if answer matches Answer::Lease(lease) && lease.verdict is Blocked {
                        taken.retry_kept(op)
                    } else {
                        taken.lease_returned(op)
                    },
                    ..self
                }
            },
            None => self,
        }
    }

    /// The state after nobody waits for a request any more. One that was answered
    /// is over at once; another one is when the driver sees it.
    pub open spec fn cancelled(self, op: u64) -> DriverState {
        match answer_to(self.desk.answers, op) {
            Some(answer) => {
                let taken = DeskState {
                    answers: answer_taken(self.desk.answers, op),
                    ..self.desk
                };
                DriverState {
                    desk: match answer {
                        Answer::Lease(lease) => taken.lease_abandoned(
                            op,
                            lease.lease,
                            lease.verdict.made_unseen(),
                        ),
                        _ => taken.lease_returned(op),
                    },
                    ..self
                }
            },
            None => DriverState {
                desk: DeskState { cancelled: self.desk.cancelled.push(op), ..self.desk },
                ..self
            },
        }
    }

    /// The state after a sample of the connection was asked for.
    pub open spec fn snapshot_requested(self) -> DriverState {
        let room = self.requests.admits();
        let asked = DriverState {
            desk: DeskState { snapshot: self.desk.snapshot.requested(room), ..self.desk },
            ..self
        };
        if self.desk.snapshot.instant_answer(room) is Some {
            asked
        } else {
            asked.requested(WebTransportRequest::LiveSnapshot)
        }
    }

    /// What the driver keeps alive for sessions.
    pub open spec fn retained(self) -> WebTransportRetentionStats {
        self.serving().retained(self.requests.items.len(), self.requests.capacity)
    }
}

/// The verdict on a lease that the lane did not take.
pub open spec fn refusal(admission: LeaseAdmission) -> LeaseVerdict {
    match admission {
        LeaseAdmission::TooLarge { limit, max, actual } => LeaseVerdict::TooLarge {
            limit,
            max,
            actual,
        },
        LeaseAdmission::QueueFull => LeaseVerdict::QueueFull,
        LeaseAdmission::ResourceLimit => LeaseVerdict::ResourceLimit,
        _ => LeaseVerdict::Rejected(WebTransportSelectionError::ConnectionClosed),
    }
}

impl H3Driver {
    fn enter(&mut self, request: WebTransportRequest) -> (result: Result<
        u64,
        LaneError<WebTransportRequest>,
    >)
        requires
            old(self).requests.wf(),
        ensures
            final(self).requests.wf(),
            final(self).core == old(self).core,
            final(self).commands == old(self).commands,
            final(self).desk.ledger == old(self).desk.ledger,
            final(self).desk.writes == old(self).desk.writes,
            final(self).desk.max_openings == old(self).desk.max_openings,
            final(self)@ == old(self)@.requested(request),
            result == (if old(self)@.requests.admits() {
                Ok(old(self)@.desk.next_op)
            } else if old(self)@.requests.open {
                Err(LaneError::Full(request))
            } else {
                Err(LaneError::Closed(request))
            }),
    {
        let op: u64 = self.desk.next_op;
        match self.requests.try_send(Queued { op, request }) {
            Ok(()) => {
                self.desk.next_op = bump(op);
                Ok(op)
            },
            Err(LaneError::Full(item)) => Err(LaneError::Full(item.request)),
            Err(LaneError::Closed(item)) => Err(LaneError::Closed(item.request)),
        }
    }

    /// Hands a request over. Returns the number that it is answered under; a
    /// request that the lane does not take comes back.
    pub fn submit(&mut self, request: WebTransportRequest) -> (result: Result<
        u64,
        LaneError<WebTransportRequest>,
    >)
        requires
            old(self).wf(),
        ensures
            final(self).wf(),
            final(self)@ == old(self)@.requested(request),
            result == (if old(self)@.requests.admits() {
                Ok(old(self)@.desk.next_op)
            } else if old(self)@.requests.open {
                Err(LaneError::Full(request))
            } else {
                Err(LaneError::Closed(request))
            }),
    {
        proof {
            lemma_books_numbered(self.desk.ledger, self.desk.writes@, self.desk.next_op);
        }
        self.enter(request)
    }

    /// Hands a write over. A write that is not taken comes back with the reason.
    pub fn try_write_stream(
        &mut self,
        session_id: u64,
        stream_id: u64,
        data: Vec<u8>,
        fin: bool,
    ) -> (result: Result<u64, WebTransportStreamWriteOutcome>)
        requires
            old(self).wf(),
        ensures
            final(self).wf(),
            final(self)@ == old(self)@.write_offered(session_id, stream_id, data, fin),
            result == (match old(self)@.write_admission(data@.len() as usize) {
                LeaseAdmission::Admitted => Ok(old(self)@.desk.next_op),
                LeaseAdmission::TooLarge { max, .. } => Err(
                    WebTransportStreamWriteOutcome::TooLarge { max, data, fin },
                ),
                LeaseAdmission::QueueFull => Err(
                    WebTransportStreamWriteOutcome::QueueFull { data, fin },
                ),
                LeaseAdmission::ResourceLimit => Err(
                    WebTransportStreamWriteOutcome::ResourceLimit { data, fin },
                ),
                LeaseAdmission::ConnectionClosed => Err(
                    WebTransportStreamWriteOutcome::Rejected {
                        error: WebTransportSelectionError::ConnectionClosed,
                        data,
                        fin,
                    },
                ),
            }),
    {
        let len: usize = data.len();
        let open = !self.requests.is_closed();
        let room = open && self.requests.len() < self.requests.capacity();
        let ghost ledger = self.desk.ledger;
        let ghost rows = self.desk.writes@;
        match self.desk.ledger.offer(len, len, open, room) {
            LeaseAdmission::Admitted => {
                let op: u64 = self.desk.next_op;
                proof {
                    lemma_books_entered(ledger, rows, op, len);
                }
                self.desk.writes.set(op, len);
                let _ = self.enter(
                    WebTransportRequest::Write { session_id, stream_id, data, fin },
                );
                Ok(op)
            },
            LeaseAdmission::TooLarge { max, .. } => Err(
                WebTransportStreamWriteOutcome::TooLarge { max, data, fin },
            ),
            LeaseAdmission::QueueFull => Err(
                WebTransportStreamWriteOutcome::QueueFull { data, fin },
            ),
            LeaseAdmission::ResourceLimit => Err(
                WebTransportStreamWriteOutcome::ResourceLimit { data, fin },
            ),
            LeaseAdmission::ConnectionClosed => Err(
                WebTransportStreamWriteOutcome::Rejected {
                    error: WebTransportSelectionError::ConnectionClosed,
                    data,
                    fin,
                },
            ),
        }
    }

    /// Hands a datagram over that keeps `allocated` bytes alive. One that is not taken
    /// comes back with the reason.
    pub fn offer_datagram(&mut self, session_id: u64, datagram: Vec<u8>, allocated: usize) -> (
    result: Result<u64, WebTransportDatagramSendOutcome>)
        requires
            old(self).wf(),
        ensures
            final(self).wf(),
            match old(self)@.datagram_refused(datagram@, allocated) {
                Some(refused) => final(self)@ == old(self)@ && (result matches Err(outcome)
                    && outcome@ == refused),
                None => final(self)@ == old(self)@.requested(
                    WebTransportRequest::SendDatagram { session_id, datagram },
                ) && result == Ok::<u64, WebTransportDatagramSendOutcome>(
                    old(self)@.desk.next_op,
                ),
            },
    {
        if datagram.len() > MAX_DATAGRAM_SIZE {
            return Err(
                WebTransportDatagramSendOutcome::TooLarge { max: MAX_DATAGRAM_SIZE, datagram },
            );
        }
        let max: usize = self.core.settings.webtransport_max_datagram_send_allocation_bytes;
        if allocated > max {
            return Err(
                WebTransportDatagramSendOutcome::AllocationTooLarge { max, allocated, datagram },
            );
        }
        match self.submit(WebTransportRequest::SendDatagram { session_id, datagram }) {
            Ok(op) => Ok(op),
            Err(LaneError::Full(WebTransportRequest::SendDatagram { datagram, .. })) => Err(
                WebTransportDatagramSendOutcome::QueueFull(datagram),
            ),
            Err(LaneError::Closed(WebTransportRequest::SendDatagram { datagram, .. })) => Err(
                WebTransportDatagramSendOutcome::Rejected {
                    error: WebTransportSelectionError::ConnectionClosed,
                    datagram,
                },
            ),
            Err(_) => Ok(0),
        }
    }

    /// Hands a datagram of the socket layer over. One that is not taken comes back
    /// with the reason. How much memory it keeps alive is up to the allocator.
    pub fn try_send_datagram(
        &mut self,
        session_id: u64,
        buffer: &datagram_socket::DgramBuffer,
    ) -> (result: Result<u64, WebTransportDatagramSendOutcome>)
        requires
            old(self).wf(),
        ensures
            final(self).wf(),
            exists|datagram: Vec<u8>, allocated: usize|
                {
                    &&& datagram@ == dgram_contents(*buffer)
                    &&& datagram@.len() <= allocated
                    &&& match #[trigger] old(self)@.datagram_refused(datagram@, allocated) {
                        Some(refused) => final(self)@ == old(self)@ && (result matches Err(outcome)
                            && outcome@ == refused),
                        None => final(self)@ == old(self)@.requested(
                            WebTransportRequest::SendDatagram { session_id, datagram },
                        ) && result == Ok::<u64, WebTransportDatagramSendOutcome>(
                            old(self)@.desk.next_op,
                        ),
                    }
                },
    {
        let datagram = dgram_payload(buffer);
        let allocated: usize = dgram_allocation(buffer);
        self.offer_datagram(session_id, datagram, allocated)
    }

    /// Lends a payload for a write. A lease that is not taken comes back with the
    /// reason, and its payload was not shown.
    pub fn try_write_stream_lease(
        &mut self,
        session_id: u64,
        stream_id: u64,
        lease: MockWriteLease,
        fin: bool,
    ) -> (result: Result<u64, WebTransportStreamWriteLeaseOutcome>)
        requires
            old(self).wf(),
        ensures
            final(self).wf(),
            final(self)@ == old(self)@.lease_offered(session_id, stream_id, lease, fin),
            result == (match old(self)@.lease_admission(lease@) {
                LeaseAdmission::Admitted => Ok(old(self)@.desk.next_op),
                other => Err(
                    WebTransportStreamWriteLeaseOutcome { lease, fin, verdict: refusal(other) },
                ),
            }),
    {
        let len: usize = lease.payload_len();
        let memory: usize = lease.retained_bytes();
        let open = !self.requests.is_closed();
        let room = open && self.requests.len() < self.requests.capacity();
        let ghost ledger = self.desk.ledger;
        let ghost rows = self.desk.writes@;
        let verdict = match self.desk.ledger.offer(len, memory, open, room) {
            LeaseAdmission::Admitted => {
                let op: u64 = self.desk.next_op;
                proof {
                    lemma_books_entered(ledger, rows, op, memory);
                }
                self.desk.writes.set(op, memory);
                let _ = self.enter(
                    WebTransportRequest::WriteLease { session_id, stream_id, lease, fin },
                );
                return Ok(op);
            },
            LeaseAdmission::TooLarge { limit, max, actual } => LeaseVerdict::TooLarge {
                limit,
                max,
                actual,
            },
            LeaseAdmission::QueueFull => LeaseVerdict::QueueFull,
            LeaseAdmission::ResourceLimit => LeaseVerdict::ResourceLimit,
            LeaseAdmission::ConnectionClosed => LeaseVerdict::Rejected(
                WebTransportSelectionError::ConnectionClosed,
            ),
        };
        Err(WebTransportStreamWriteLeaseOutcome { lease, fin, verdict })
    }

    /// Gives up the right to try a blocked write again.
    pub fn drop_retry(&mut self, retry: WebTransportStreamWriteRetry)
        requires
            old(self).wf(),
        ensures
            final(self).wf(),
            final(self)@ == (DriverState {
                desk: old(self)@.desk.retry_dropped(retry),
                ..old(self)@
            }),
    {
        if retry.driver == self.desk.identity {
            self.desk.return_lease(retry.op);
        }
    }

    /// Nobody waits any more for a lease that waited for room in the lane. Its owner is
    /// told.
    pub fn give_up_waiting_lease(&mut self, lease: MockWriteLease)
        requires
            old(self).wf(),
        ensures
            final(self).wf(),
            final(self)@ == (DriverState {
                desk: old(self)@.desk.unsent_lease_abandoned(lease@),
                ..old(self)@
            }),
    {
        self.desk.abandon_unsent_lease(lease);
    }

    /// Tells this driver from others, whose rights to try again it then refuses.
    pub fn identify(&mut self, identity: u64)
        requires
            old(self).wf(),
        ensures
            final(self).wf(),
            final(self)@ == (DriverState {
                desk: DeskState { identity, ..old(self)@.desk },
                ..old(self)@
            }),
    {
        self.desk.identity = identity;
    }

    /// Nobody waits for a request any more.
    pub fn cancel(&mut self, op: u64)
        requires
            old(self).wf(),
        ensures
            final(self).wf(),
            final(self)@ == old(self)@.cancelled(op),
    {
        match self.desk.answers.take(op) {
            Some(WebTransportOutcome::Lease(outcome)) => {
                let progress = outcome.verdict.unseen_progress();
                self.desk.abandon_lease(op, outcome.lease, progress);
            },
            Some(_) => {
                self.desk.return_lease(op);
            },
            None => {
                self.desk.cancelled.push(op);
            },
        }
    }

    /// Takes the leases whose outcome nobody waited for.
    pub fn take_dropped(&mut self) -> (dropped: Vec<MockWriteLease>)
        requires
            old(self).wf(),
        ensures
            final(self).wf(),
            lease_values(dropped@) == old(self)@.desk.dropped,
            final(self)@ == (DriverState {
                desk: DeskState { dropped: Seq::empty(), ..old(self)@.desk },
                ..old(self)@
            }),
    {
        let mut dropped: Vec<MockWriteLease> = Vec::new();
        assert(lease_values(dropped@) =~= Seq::empty());
        std::mem::swap(&mut dropped, &mut self.desk.dropped);
        dropped
    }

    /// Asks for a sample of the connection. Returns the answer where it is known at
    /// once.
    pub fn live_connection_snapshot(&mut self) -> (answer: Option<SnapshotOutcome>)
        requires
            old(self).wf(),
        ensures
            final(self).wf(),
            answer == old(self)@.desk.snapshot.instant_answer(old(self)@.requests.admits()),
            final(self)@ == old(self)@.snapshot_requested(),
    {
        let room = !self.requests.is_closed() && self.requests.len() < self.requests.capacity();
        let answer = self.desk.snapshot.request(room);
        if answer.is_none() {
            let _ = self.submit(WebTransportRequest::LiveSnapshot);
        }
        answer
    }

    /// Whether a turn would answer a request that waits until something can be done.
    pub fn is_wait_over(&self) -> (found: bool)
        ensures
            found == self@.serving().some_wait_is_over(),
    {
        self.desk.has_ready_wait(&self.core)
    }

    /// Takes the sample of the connection.
    pub fn take_live_snapshot(&mut self) -> (answer: Option<SnapshotOutcome>)
        requires
            old(self).wf(),
        ensures
            final(self).wf(),
            answer == old(self)@.desk.snapshot.answer(),
            final(self)@ == (DriverState {
                desk: DeskState { snapshot: old(self)@.desk.snapshot.taken(), ..old(self)@.desk },
                ..old(self)@
            }),
    {
        self.desk.snapshot.take()
    }

    /// Nobody waits for the sample of the connection any more.
    pub fn cancel_live_snapshot(&mut self) -> (answer: SnapshotOutcome)
        requires
            old(self).wf(),
        ensures
            final(self).wf(),
            answer == SnapshotOutcome::Cancelled,
            final(self)@ == (DriverState {
                desk: DeskState {
                    snapshot: old(self)@.desk.snapshot.given_up(),
                    ..old(self)@.desk
                },
                ..old(self)@
            }),
    {
        self.desk.snapshot.cancel()
    }

    /// Takes the final statistics, once nothing is kept alive any more.
    pub fn try_take_terminal_retention(&mut self) -> (outcome: WebTransportTerminalRetentionOutcome)
        requires
            old(self).wf(),
        ensures
            final(self).wf(),
            outcome == old(self)@.desk.terminal.outcome(old(self)@.retained()),
            final(self)@ == (DriverState {
                desk: DeskState {
                    terminal: TerminalClaim {
                        taken: old(self)@.desk.terminal.taken || outcome is Taken,
                        ..old(self)@.desk.terminal
                    },
                    ..old(self)@.desk
                },
                ..old(self)@
            }),
    {
        let stats = self.desk.retention(
            &self.core,
            self.requests.len(),
            self.requests.capacity(),
        );
        self.desk.terminal.try_take(stats)
    }

    /// Whether a request has an answer.
    pub fn is_answered(&self, op: u64) -> (is: bool)
        ensures
            is == (answer_to(self@.desk.answers, op) is Some),
    {
        self.desk.answers.has(op)
    }

    /// Takes the answer to a request.
    pub fn take_answer(&mut self, op: u64) -> (outcome: Option<WebTransportOutcome>)
        requires
            old(self).wf(),
        ensures
            final(self).wf(),
            match answer_to(old(self)@.desk.answers, op) {
                Some(answer) => outcome matches Some(o) && o@ == answer,
                None => outcome is None,
            },
            final(self)@ == old(self)@.answer_taken(op),
    {
        let outcome = self.desk.answers.take(op);
        match &outcome {
            Some(WebTransportOutcome::Lease(lease)) => match lease.verdict {
                LeaseVerdict::Blocked { .. } => {
                    self.desk.keep_retry(op);
                },
                _ => {
                    self.desk.return_lease(op);
                },
            },
            Some(_) => {
                self.desk.return_lease(op);
            },
            None => {},
        }
        outcome
    }

    /// The first stream whose prefix is not written in full.
    pub fn first_opening_stream_id(&self) -> (stream_id: Option<u64>)
        ensures
            stream_id == (if self@.desk.openings.len() > 0 {
                Some(self@.desk.openings[0].stream_id)
            } else {
                None
            }),
    {
        if self.desk.openings.len() > 0 {
            Some(self.desk.openings[0].stream_id)
        } else {
            None
        }
    }
}

} // verus!
