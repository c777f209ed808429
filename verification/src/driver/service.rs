//! Carrying out the application's requests about sessions.

use vstd::prelude::*;

use crate::driver::desk::{holds, Desk, DeskState, ReadyKind, Serving};
use crate::driver::session_ends::Teardown;
use crate::driver::state::{CoreState, H3Core};
use crate::lane::{Lane, LaneState};
use crate::driver::openings::waits_but;
use crate::driver::readiness::ready_but;
use crate::table::lookup;
use crate::transport::{Transport, TransportState, DGRAM_MAX_WRITABLE_LEN};
use crate::wire::datagram::{datagram_bytes, encode_datagram, session_flow_id};
use crate::wire::stream_prefix::WebTransportStreamDirection;
use crate::wire::varint::varint_size;
use crate::wt::datagrams::{first_of, DatagramRead};
use crate::wt::requests::{
    answer_taken, Answer, DatagramReadAnswer, DatagramSendAnswer, Queued, ReadAnswer,
    WebTransportDatagramReadOutcome, WebTransportDatagramSendOutcome,
    WebTransportOpenStreamOutcome, WebTransportOutcome, WebTransportReadyOutcome,
    WebTransportRequest,
    WebTransportStreamControlOutcome, WebTransportStreamReadOutcome,
    WebTransportStreamReceiveTerminalRetirementOutcome, WebTransportStreamWriteOutcome,
    WriteAnswer,
};
use crate::wt::retention::TerminalClaim;
use crate::wt::stream_ends::WebTransportStreamSendTerminalOutcome;
use crate::wt::types::WebTransportSelectionError;
use crate::wt::waiters::{without_op, WaitState};
use crate::wt::write_lease::{
    LeaseAnswer, LeaseState, LeaseVerdict, WebTransportStreamWriteLeaseOutcome,
    WebTransportStreamWriteLeaseProgress, WebTransportStreamWriteRetry,
};

verus! {

/// How large the datagrams of a session can be: what the transport sends at once,
/// but for the flow identifier.
pub open spec fn max_datagram(session_id: u64) -> usize {
    (DGRAM_MAX_WRITABLE_LEN - varint_size(session_flow_id(session_id))) as usize
}

fn datagram_limit(session_id: u64) -> (max: usize)
    ensures
        max == max_datagram(session_id),
{
    DGRAM_MAX_WRITABLE_LEN - octets::varint_len(session_id / 4)
}

impl Serving {
    /// The state after the application sent a datagram.
    #[verifier::opaque]
    pub open spec fn datagram_send_requested(
        self,
        op: u64,
        session_id: u64,
        datagram: Seq<u8>,
    ) -> Serving {
        match self.selection(session_id) {
            Some(error) => self.answered(
                op,
                Answer::DatagramSent(DatagramSendAnswer::Rejected { error, datagram }),
            ),
            None => if datagram.len() > max_datagram(session_id) {
                self.answered(
                    op,
                    Answer::DatagramSent(
                        DatagramSendAnswer::TooLarge { max: max_datagram(session_id), datagram },
                    ),
                )
            } else if self.core.transport.dgrams_queued.len() < Transport::dgram_room(
                self.core.transport,
            ) {
                (Serving {
                    core: CoreState {
                        transport: TransportState {
                            dgrams_queued: self.core.transport.dgrams_queued.push(
                                datagram_bytes(session_flow_id(session_id), datagram),
                            ),
                            ..self.core.transport
                        },
                        ..self.core
                    },
                    ..self
                }).answered(op, Answer::DatagramSent(DatagramSendAnswer::Accepted))
            } else {
                self.answered(op, Answer::DatagramSent(DatagramSendAnswer::Blocked(datagram)))
            },
        }
    }

    /// The state after the application asked how large a datagram can be.
    pub open spec fn max_datagram_requested(self, op: u64, session_id: u64) -> Serving {
        self.answered(
            op,
            Answer::MaxDatagram(
                match self.selection(session_id) {
                    Some(error) => Err(error),
                    None => Ok(max_datagram(session_id)),
                },
            ),
        )
    }

    /// The state after the application read a datagram.
    #[verifier::opaque]
    pub open spec fn datagram_read_requested(self, op: u64, session_id: u64) -> Serving {
        match self.selection(session_id) {
            Some(error) => self.answered(
                op,
                Answer::DatagramRead(DatagramReadAnswer::Rejected(error)),
            ),
            None => {
                let flow_id = session_flow_id(session_id);
                let waiting = self.core.datagrams;
                let answer = match lookup(waiting.lost, flow_id) {
                    Some(lost) => DatagramReadAnswer::Overflow {
                        datagrams: lost.datagrams,
                        bytes: lost.bytes,
                    },
                    None => if first_of(waiting.queue, flow_id) < waiting.queue.len() {
                        DatagramReadAnswer::Datagram(
                            waiting.queue[first_of(waiting.queue, flow_id)].payload,
                        )
                    } else {
                        DatagramReadAnswer::Empty
                    },
                };
                (Serving {
                    core: CoreState { datagrams: waiting.taken(flow_id), ..self.core },
                    ..self
                }).answered(op, Answer::DatagramRead(answer))
            },
        }
    }

    /// The state after a request was dropped that nobody waits for. What it was to
    /// write is out no more, and the owner of a lent payload is told.
    pub open spec fn request_dropped(self, item: Queued) -> Serving {
        match item.request {
            WebTransportRequest::WriteLease { lease, .. } => Serving {
                desk: self.desk.lease_abandoned(
                    item.op,
                    lease@,
                    WebTransportStreamWriteLeaseProgress::NeverExposed,
                ),
                ..self
            },
            _ => Serving { desk: self.desk.lease_returned(item.op), ..self },
        }
    }

    /// The state after the driver took a sample of the connection.
    pub open spec fn snapshot_taken(self) -> Serving {
        Serving {
            desk: DeskState {
                snapshot: self.desk.snapshot.sampled(self.core.transport.path),
                ..self.desk
            },
            ..self
        }
    }

    /// The state after a request was carried out, with `queued` more in a lane of
    /// `capacity` places. A request that nobody waits for is dropped.
    #[verifier::opaque]
    pub open spec fn request_handled(self, item: Queued, queued: nat, capacity: nat) -> Serving {
        let op = item.op;
        if self.desk.cancelled.contains(op) {
            self.request_dropped(item)
        } else {
            match item.request {
                WebTransportRequest::Open { session_id, direction } => self.open_requested(
                    op,
                    session_id,
                    direction,
                ),
                WebTransportRequest::Write { session_id, stream_id, data, fin } =>
                    self.write_requested(op, session_id, stream_id, data@, fin),
                WebTransportRequest::WriteLease { session_id, stream_id, lease, fin } =>
                    self.lease_write_requested(op, session_id, stream_id, lease@, fin),
                WebTransportRequest::Read { session_id, stream_id, max } => self.read_requested(
                    op,
                    session_id,
                    stream_id,
                    max,
                ),
                WebTransportRequest::Reset { session_id, stream_id, application_error } =>
                    self.reset_requested(op, session_id, stream_id, application_error),
                WebTransportRequest::Stop { session_id, stream_id, application_error } =>
                    self.stop_requested(op, session_id, stream_id, application_error),
                WebTransportRequest::AwaitSendEnd { session_id, stream_id } =>
                    self.send_end_requested(op, session_id, stream_id),
                WebTransportRequest::RetireSend { session_id, stream_id } =>
                    self.send_retirement_requested(op, session_id, stream_id),
                WebTransportRequest::RetireReceive { session_id, stream_id } =>
                    self.receive_retirement_requested(op, session_id, stream_id),
                WebTransportRequest::AwaitSessionEnd { session_id } => self.session_end_requested(
                    op,
                    session_id,
                ),
                WebTransportRequest::SendDatagram { session_id, datagram } =>
                    self.datagram_send_requested(op, session_id, datagram@),
                WebTransportRequest::ReceiveDatagram { session_id } =>
                    self.datagram_read_requested(op, session_id),
                WebTransportRequest::MaxDatagram { session_id } => self.max_datagram_requested(
                    op,
                    session_id,
                ),
                WebTransportRequest::AwaitReadable { session_id, stream_id } =>
                    self.ready_requested(op, session_id, ReadyKind::Readable { stream_id }),
                WebTransportRequest::AwaitWritable { retry } => self.retry_wait_requested(
                    op,
                    retry,
                ),
                WebTransportRequest::AwaitDatagram { session_id } => self.ready_requested(
                    op,
                    session_id,
                    ReadyKind::Datagram,
                ),
                WebTransportRequest::AwaitDatagramRoom { session_id } => self.ready_requested(
                    op,
                    session_id,
                    ReadyKind::DatagramRoom,
                ),
                WebTransportRequest::RetentionStats => self.stats_requested(op, queued, capacity),
                WebTransportRequest::LiveSnapshot => self.snapshot_taken(),
            }
        }
    }

    /// The state after the requests of a list from `from` on were carried out, as
    /// far as there is work left in this turn.
    pub open spec fn requests_handled(self, list: Seq<Queued>, capacity: nat, from: int) -> Serving
        decreases list.len() - from,
    {
        if from >= list.len() || self.desk.left == 0 {
            self
        } else {
            self.worked().request_handled(
                list[from],
                (list.len() - from - 1) as nat,
                capacity,
            ).requests_handled(list, capacity, from + 1)
        }
    }

    /// The state after nobody waits for a request any more.
    #[verifier::opaque]
    pub open spec fn op_cancelled(self, op: u64) -> Serving {
        (Serving {
            desk: DeskState {
                endings: self.desk.endings.cancelled(op),
                session_waits: WaitState {
                    list: without_op(self.desk.session_waits.list, op),
                    ..self.desk.session_waits
                },
                ready_waits: ready_but(self.desk.ready_waits, op),
                answers: answer_taken(self.desk.answers, op),
                waits: waits_but(self.desk.waits, op),
                openings: Seq::empty(),
                ..self.desk
            },
            ..self
        }).openings_abandoned(self.desk.openings, op, 0)
    }

    /// The state after nobody waits for the requests of a list from `from` on.
    pub open spec fn ops_cancelled(self, ops: Seq<u64>, from: int) -> Serving
        decreases ops.len() - from,
    {
        if from >= ops.len() {
            self
        } else {
            self.op_cancelled(ops[from]).ops_cancelled(ops, from + 1)
        }
    }

    /// The state in which a turn begins to carry requests out: what changed since
    /// the last turn was seen, and the streams on their way were worked on.
    #[verifier::opaque]
    pub open spec fn turn_begun(self) -> Serving {
        let fresh = Serving {
            desk: DeskState { left: self.desk.work_per_turn, ..self.desk },
            ..self
        };
        fresh.ops_cancelled(
            fresh.desk.cancelled,
            0,
        ).notices_seen().streams_settled().datagrams_settled().sessions_settled().ready_settled()
            .waits_woken().openings_advanced()
    }

    /// How many of `count` requests this turn carries out.
    pub open spec fn share(self, count: nat) -> nat {
        if count < self.desk.left {
            count
        } else {
            self.desk.left
        }
    }

    /// The state after the streams on their way were counted for the peer's sake.
    pub open spec fn openings_counted(self) -> Serving {
        Serving {
            core: CoreState { local_openings: self.desk.opening_count(), ..self.core },
            ..self
        }
    }

    /// The state after one turn, with the requests of `list` in a lane of
    /// `capacity` places.
    #[verifier::opaque]
    pub open spec fn served(self, list: Seq<Queued>, capacity: nat) -> Serving {
        let begun = self.turn_begun();
        let handled = begun.requests_handled(list, capacity, 0).begun_advanced();
        let counted = handled.openings_counted();
        if list.len() <= begun.desk.left {
            Serving { desk: DeskState { cancelled: Seq::empty(), ..counted.desk }, ..counted }
        } else {
            counted
        }
    }

    /// What a request is answered when the connection has ended.
    pub open spec fn closing_answer(self, request: WebTransportRequest) -> Answer {
        let error = WebTransportSelectionError::ConnectionClosed;
        match request {
            WebTransportRequest::Open { .. } => Answer::Open(
                WebTransportOpenStreamOutcome::Rejected(error),
            ),
            WebTransportRequest::Write { data, fin, .. } => Answer::Write(
                WriteAnswer::Rejected { error, data: data@, fin },
            ),
            WebTransportRequest::WriteLease { lease, fin, .. } => Answer::Lease(
                LeaseAnswer { lease: lease@, fin, verdict: LeaseVerdict::Rejected(error) },
            ),
            WebTransportRequest::Read { .. } => Answer::Read(ReadAnswer::Rejected(error)),
            WebTransportRequest::Reset { .. } | WebTransportRequest::Stop { .. } =>
                Answer::Control(WebTransportStreamControlOutcome::Rejected(error)),
            WebTransportRequest::AwaitSendEnd { session_id, stream_id }
            | WebTransportRequest::RetireSend { session_id, stream_id } => Answer::SendEnd(
                WebTransportStreamSendTerminalOutcome::ConnectionTerminated {
                    session_id,
                    stream_id,
                },
            ),
            WebTransportRequest::RetireReceive { .. } => Answer::ReceiveRetired(
                WebTransportStreamReceiveTerminalRetirementOutcome::Rejected(error),
            ),
            WebTransportRequest::AwaitSessionEnd { session_id } => Answer::SessionEnd(
                self.session_end(session_id),
            ),
            WebTransportRequest::SendDatagram { datagram, .. } => Answer::DatagramSent(
                DatagramSendAnswer::Rejected { error, datagram: datagram@ },
            ),
            WebTransportRequest::ReceiveDatagram { .. } => Answer::DatagramRead(
                DatagramReadAnswer::Rejected(error),
            ),
            WebTransportRequest::MaxDatagram { .. } => Answer::MaxDatagram(Err(error)),
            WebTransportRequest::AwaitReadable { .. } | WebTransportRequest::AwaitWritable { .. }
            | WebTransportRequest::AwaitDatagram { .. }
            | WebTransportRequest::AwaitDatagramRoom { .. } => Answer::Ready(
                WebTransportReadyOutcome::Rejected(error),
            ),
            WebTransportRequest::RetentionStats | WebTransportRequest::LiveSnapshot =>
                Answer::Closed,
        }
    }

    /// The state after a request was answered because the connection has ended. One
    /// that nobody waits for is dropped, and the end of samples is told elsewhere.
    pub open spec fn request_closed(self, item: Queued) -> Serving {
        if self.desk.cancelled.contains(item.op) {
            self.request_dropped(item)
        } else if item.request is LiveSnapshot {
            self
        } else {
            self.answered(item.op, self.closing_answer(item.request))
        }
    }

    /// The state after the requests of a list from `from` on were answered because
    /// the connection has ended.
    pub open spec fn requests_closed(self, list: Seq<Queued>, from: int) -> Serving
        decreases list.len() - from,
    {
        if from >= list.len() {
            self
        } else {
            self.request_closed(list[from]).requests_closed(list, from + 1)
        }
    }

    /// The state after every request was answered because the connection has
    /// ended.
    #[verifier::opaque]
    pub open spec fn all_closed(self, list: Seq<Queued>) -> Serving {
        let refused = self.requests_closed(list, 0).ready_refused().opens_refused(
            WebTransportSelectionError::ConnectionClosed,
        );
        let left = match refused.desk.serving {
            Some(session_id) => refused.streams_left(session_id, Teardown::Connection),
            None => refused.with_endings(refused.desk.endings.cleared()),
        };
        let settled = left.sessions_settled();
        Serving {
            desk: DeskState {
                terminal: TerminalClaim { runtime_settled: true, ..settled.desk.terminal },
                ..settled.desk
            },
            ..settled
        }
    }
}

broadcast proof fn lemma_stream_forgotten_keeps_work(state: Serving, stream_id: u64)
    ensures
        (#[trigger] state.stream_forgotten(stream_id)).desk.left == state.desk.left,
{
    reveal(Serving::stream_forgotten);
}

broadcast proof fn lemma_stream_checked_keeps_work(state: Serving, stream_id: u64)
    ensures
        (#[trigger] state.stream_checked(stream_id)).desk.left == state.desk.left,
{
    broadcast use lemma_stream_forgotten_keeps_work;

    reveal(Serving::stream_checked);
}

broadcast proof fn lemma_send_direction_closed_keeps_work(state: Serving, stream_id: u64)
    ensures
        (#[trigger] state.send_direction_closed(stream_id)).desk.left == state.desk.left,
{
    broadcast use lemma_stream_checked_keeps_work;

    reveal(Serving::send_direction_closed);
}

broadcast proof fn lemma_write_requested_keeps_work(
    state: Serving,
    op: u64,
    session_id: u64,
    stream_id: u64,
    data: Seq<u8>,
    fin: bool,
)
    ensures
        (#[trigger] state.write_requested(op, session_id, stream_id, data, fin)).desk.left
            == state.desk.left,
{
    broadcast use {lemma_stream_checked_keeps_work, lemma_send_direction_closed_keeps_work};

    reveal(Serving::write_requested);
    reveal(Serving::write_tried);
}

broadcast proof fn lemma_lease_write_requested_keeps_work(
    state: Serving,
    op: u64,
    session_id: u64,
    stream_id: u64,
    lease: LeaseState,
    fin: bool,
)
    ensures
        (#[trigger] state.lease_write_requested(op, session_id, stream_id, lease, fin)).desk.left
            == state.desk.left,
{
    broadcast use {lemma_stream_checked_keeps_work, lemma_send_direction_closed_keeps_work};

    reveal(Serving::lease_write_requested);
    reveal(Serving::lease_shown);
}

broadcast proof fn lemma_read_requested_keeps_work(
    state: Serving,
    op: u64,
    session_id: u64,
    stream_id: u64,
    max: usize,
)
    ensures
        (#[trigger] state.read_requested(op, session_id, stream_id, max)).desk.left
            == state.desk.left,
{
    broadcast use lemma_stream_checked_keeps_work;

    reveal(Serving::read_requested);
}

broadcast proof fn lemma_reset_requested_keeps_work(
    state: Serving,
    op: u64,
    session_id: u64,
    stream_id: u64,
    application_error: u32,
)
    ensures
        (#[trigger] state.reset_requested(op, session_id, stream_id, application_error)).desk.left
            == state.desk.left,
{
    broadcast use lemma_send_direction_closed_keeps_work;

    reveal(Serving::reset_requested);
}

broadcast proof fn lemma_stop_requested_keeps_work(
    state: Serving,
    op: u64,
    session_id: u64,
    stream_id: u64,
    application_error: u32,
)
    ensures
        (#[trigger] state.stop_requested(op, session_id, stream_id, application_error)).desk.left
            == state.desk.left,
{
    broadcast use lemma_stream_checked_keeps_work;

    reveal(Serving::stop_requested);
}

broadcast proof fn lemma_send_end_requested_keeps_work(
    state: Serving,
    op: u64,
    session_id: u64,
    stream_id: u64,
)
    ensures
        (#[trigger] state.send_end_requested(op, session_id, stream_id)).desk.left
            == state.desk.left,
{
    reveal(Serving::send_end_requested);
}

broadcast proof fn lemma_send_retirement_requested_keeps_work(
    state: Serving,
    op: u64,
    session_id: u64,
    stream_id: u64,
)
    ensures
        (#[trigger] state.send_retirement_requested(op, session_id, stream_id)).desk.left
            == state.desk.left,
{
    broadcast use lemma_stream_checked_keeps_work;

    reveal(Serving::send_retirement_requested);
}

broadcast proof fn lemma_receive_retirement_requested_keeps_work(
    state: Serving,
    op: u64,
    session_id: u64,
    stream_id: u64,
)
    ensures
        (#[trigger] state.receive_retirement_requested(op, session_id, stream_id)).desk.left
            == state.desk.left,
{
    broadcast use lemma_stream_checked_keeps_work;

    reveal(Serving::receive_retirement_requested);
}

broadcast proof fn lemma_open_requested_keeps_work(
    state: Serving,
    op: u64,
    session_id: u64,
    direction: WebTransportStreamDirection,
)
    ensures
        (#[trigger] state.open_requested(op, session_id, direction)).desk.left == state.desk.left,
{
    reveal(Serving::open_requested);
    reveal(Serving::opening_begun);
}

broadcast proof fn lemma_session_end_requested_keeps_work(state: Serving, op: u64, session_id: u64)
    ensures
        (#[trigger] state.session_end_requested(op, session_id)).desk.left == state.desk.left,
{
    reveal(Serving::session_end_requested);
}

broadcast proof fn lemma_datagram_send_requested_keeps_work(
    state: Serving,
    op: u64,
    session_id: u64,
    datagram: Seq<u8>,
)
    ensures
        (#[trigger] state.datagram_send_requested(op, session_id, datagram)).desk.left
            == state.desk.left,
{
    reveal(Serving::datagram_send_requested);
}

broadcast proof fn lemma_datagram_read_requested_keeps_work(
    state: Serving,
    op: u64,
    session_id: u64,
)
    ensures
        (#[trigger] state.datagram_read_requested(op, session_id)).desk.left == state.desk.left,
{
    reveal(Serving::datagram_read_requested);
}

broadcast proof fn lemma_ready_requested_keeps_work(
    state: Serving,
    op: u64,
    session_id: u64,
    kind: ReadyKind,
)
    ensures
        (#[trigger] state.ready_requested(op, session_id, kind)).desk.left == state.desk.left,
{
    reveal(Serving::ready_requested);
}

broadcast proof fn lemma_retry_wait_requested_keeps_work(
    state: Serving,
    op: u64,
    retry: WebTransportStreamWriteRetry,
)
    ensures
        (#[trigger] state.retry_wait_requested(op, retry)).desk.left == state.desk.left,
{
    broadcast use lemma_ready_requested_keeps_work;

    reveal(Serving::retry_wait_requested);
}

broadcast proof fn lemma_stats_requested_keeps_work(
    state: Serving,
    op: u64,
    queued: nat,
    capacity: nat,
)
    ensures
        (#[trigger] state.stats_requested(op, queued, capacity)).desk.left == state.desk.left,
{
    reveal(Serving::stats_requested);
}

/// Carrying a request out costs what it costs, whatever the request is.
proof fn lemma_request_keeps_work(state: Serving, item: Queued, queued: nat, capacity: nat)
    ensures
        state.request_handled(item, queued, capacity).desk.left == state.desk.left,
{
    broadcast use {
        lemma_write_requested_keeps_work,
        lemma_lease_write_requested_keeps_work,
        lemma_read_requested_keeps_work,
        lemma_reset_requested_keeps_work,
        lemma_stop_requested_keeps_work,
        lemma_send_end_requested_keeps_work,
        lemma_send_retirement_requested_keeps_work,
        lemma_receive_retirement_requested_keeps_work,
        lemma_open_requested_keeps_work,
        lemma_session_end_requested_keeps_work,
        lemma_datagram_send_requested_keeps_work,
        lemma_datagram_read_requested_keeps_work,
        lemma_ready_requested_keeps_work,
        lemma_retry_wait_requested_keeps_work,
        lemma_stats_requested_keeps_work,
    };

    reveal(Serving::request_handled);
}

/// Each request that is carried out uses up one piece of work.
pub proof fn lemma_requests_use_up_work(
    state: Serving,
    list: Seq<Queued>,
    capacity: nat,
    from: int,
)
    requires
        0 <= from <= list.len(),
    ensures
        state.requests_handled(list, capacity, from).desk.left == state.desk.left - state.share(
            (list.len() - from) as nat,
        ),
    decreases list.len() - from,
{
    if from < list.len() && state.desk.left > 0 {
        let queued = (list.len() - from - 1) as nat;
        lemma_request_keeps_work(state.worked(), list[from], queued, capacity);
        lemma_requests_use_up_work(
            state.worked().request_handled(list[from], queued, capacity),
            list,
            capacity,
            from + 1,
        );
    }
}

impl Desk {
    /// The application sends a datagram.
    pub fn request_datagram_send(
        &mut self,
        core: &mut H3Core,
        op: u64,
        session_id: u64,
        datagram: Vec<u8>,
    )
        requires
            old(self).wf(),
            old(core).wf(),
        ensures
            final(self).wf(),
            final(core).wf(),
            final(self).with(*final(core)) == old(self).with(*old(core)).datagram_send_requested(
                op,
                session_id,
                datagram@,
            ),
    {
        proof {
            reveal(Serving::datagram_send_requested);
        }
        if let Some(error) = self.select(core, session_id) {
            self.answer(
                op,
                WebTransportOutcome::DatagramSent(
                    WebTransportDatagramSendOutcome::Rejected { error, datagram },
                ),
            );
            return;
        }
        let max: usize = datagram_limit(session_id);
        if datagram.len() > max {
            self.answer(
                op,
                WebTransportOutcome::DatagramSent(
                    WebTransportDatagramSendOutcome::TooLarge { max, datagram },
                ),
            );
            return;
        }
        let bytes = encode_datagram(session_id / 4, datagram.as_slice());
        let outcome = match core.transport.send_dgram(bytes) {
            None => WebTransportDatagramSendOutcome::Accepted,
            Some(_) => WebTransportDatagramSendOutcome::Blocked(datagram),
        };
        self.answer(op, WebTransportOutcome::DatagramSent(outcome));
    }

    fn request_max_datagram(&mut self, core: &H3Core, op: u64, session_id: u64)
        requires
            old(self).wf(),
        ensures
            final(self).wf(),
            final(self).with(*core) == old(self).with(*core).max_datagram_requested(op, session_id),
    {
        let result: Result<usize, WebTransportSelectionError> = match self.select(
            core,
            session_id,
        ) {
            Some(error) => Err(error),
            None => Ok(datagram_limit(session_id)),
        };
        self.answer(op, WebTransportOutcome::MaxDatagram(result));
    }

    /// The application reads a datagram.
    pub fn request_datagram_read(&mut self, core: &mut H3Core, op: u64, session_id: u64)
        requires
            old(self).wf(),
            old(core).wf(),
        ensures
            final(self).wf(),
            final(core).wf(),
            final(self).with(*final(core)) == old(self).with(*old(core)).datagram_read_requested(
                op,
                session_id,
            ),
    {
        proof {
            reveal(Serving::datagram_read_requested);
        }
        if let Some(error) = self.select(core, session_id) {
            self.answer(
                op,
                WebTransportOutcome::DatagramRead(
                    WebTransportDatagramReadOutcome::Rejected(error),
                ),
            );
            return;
        }
        let outcome = match core.datagrams.read(session_id / 4) {
            DatagramRead::Overflow { datagrams, bytes } =>
                WebTransportDatagramReadOutcome::Overflow { datagrams, bytes },
            DatagramRead::Datagram(payload) => WebTransportDatagramReadOutcome::Datagram(payload),
            DatagramRead::Empty => WebTransportDatagramReadOutcome::Empty,
        };
        self.answer(op, WebTransportOutcome::DatagramRead(outcome));
    }

    fn drop_request(&mut self, item: Queued)
        requires
            old(self).wf(),
        ensures
            final(self).wf(),
            forall|core: H3Core|
                #[trigger] final(self).with(core) == old(self).with(core).request_dropped(item),
    {
        if let WebTransportRequest::WriteLease { lease, .. } = item.request {
            self.abandon_lease(item.op, lease, WebTransportStreamWriteLeaseProgress::NeverExposed);
        } else {
            self.return_lease(item.op);
        }
    }

    fn handle_request(&mut self, core: &mut H3Core, item: Queued, queued: usize, capacity: usize)
        requires
            old(self).wf(),
            old(core).wf(),
        ensures
            final(self).wf(),
            final(core).wf(),
            final(self).with(*final(core)) == old(self).with(*old(core)).request_handled(
                item,
                queued as nat,
                capacity as nat,
            ),
    {
        proof {
            reveal(Serving::request_handled);
        }
        let op: u64 = item.op;
        if holds(&self.cancelled, op) {
            self.drop_request(item);
            return;
        }
        match item.request {
            WebTransportRequest::Open { session_id, direction } => {
                self.request_open(core, op, session_id, direction);
            },
            WebTransportRequest::Write { session_id, stream_id, data, fin } => {
                self.request_write(core, op, session_id, stream_id, data, fin);
            },
            WebTransportRequest::WriteLease { session_id, stream_id, lease, fin } => {
                self.request_lease_write(core, op, session_id, stream_id, lease, fin);
            },
            WebTransportRequest::Read { session_id, stream_id, max } => {
                self.request_read(core, op, session_id, stream_id, max);
            },
            WebTransportRequest::Reset { session_id, stream_id, application_error } => {
                self.request_reset(core, op, session_id, stream_id, application_error);
            },
            WebTransportRequest::Stop { session_id, stream_id, application_error } => {
                self.request_stop(core, op, session_id, stream_id, application_error);
            },
            WebTransportRequest::AwaitSendEnd { session_id, stream_id } => {
                self.request_send_end(core, op, session_id, stream_id);
            },
            WebTransportRequest::RetireSend { session_id, stream_id } => {
                self.request_send_retirement(core, op, session_id, stream_id);
            },
            WebTransportRequest::RetireReceive { session_id, stream_id } => {
                self.request_receive_retirement(core, op, session_id, stream_id);
            },
            WebTransportRequest::AwaitSessionEnd { session_id } => {
                self.request_session_end(core, op, session_id);
            },
            WebTransportRequest::SendDatagram { session_id, datagram } => {
                self.request_datagram_send(core, op, session_id, datagram);
            },
            WebTransportRequest::ReceiveDatagram { session_id } => {
                self.request_datagram_read(core, op, session_id);
            },
            WebTransportRequest::MaxDatagram { session_id } => {
                self.request_max_datagram(core, op, session_id);
            },
            WebTransportRequest::AwaitReadable { session_id, stream_id } => {
                self.request_ready(core, op, session_id, ReadyKind::Readable { stream_id });
            },
            WebTransportRequest::AwaitWritable { retry } => {
                self.request_retry_wait(core, op, retry);
            },
            WebTransportRequest::AwaitDatagram { session_id } => {
                self.request_ready(core, op, session_id, ReadyKind::Datagram);
            },
            WebTransportRequest::AwaitDatagramRoom { session_id } => {
                self.request_ready(core, op, session_id, ReadyKind::DatagramRoom);
            },
            WebTransportRequest::RetentionStats => {
                self.request_stats(core, op, queued, capacity);
            },
            WebTransportRequest::LiveSnapshot => {
                self.snapshot.sample(core.transport.path());
            },
        }
    }

    fn handle_requests(&mut self, core: &mut H3Core, lane: &mut Lane<Queued>)
        requires
            old(self).wf(),
            old(core).wf(),
            old(lane).wf(),
        ensures
            final(self).wf(),
            final(core).wf(),
            final(lane).wf(),
            ({
                let start = old(self).with(*old(core));
                let list = old(lane)@.items;
                &&& final(self).with(*final(core)) == start.requests_handled(
                    list,
                    old(lane)@.capacity,
                    0,
                )
                &&& final(lane)@ == (LaneState {
                    items: list.skip(start.share(list.len()) as int),
                    ..old(lane)@
                })
            }),
    {
        let ghost list = lane@.items;
        let ghost start = self.with(*core);
        let ghost target = start.requests_handled(list, lane@.capacity, 0);
        let capacity: usize = lane.capacity();
        let budget: usize = self.left;
        let mut done: usize = 0;
        assert(list.skip(0) =~= list);
        while done < budget && lane.len() > 0
            invariant
                done <= budget == start.desk.left,
                done <= list.len(),
                self.wf(),
                core.wf(),
                lane.wf(),
                capacity == old(lane)@.capacity,
                lane@ == (LaneState { items: list.skip(done as int), ..old(lane)@ }),
                self.left == budget - done,
                self.with(*core).requests_handled(list, old(lane)@.capacity, done as int) == target,
            decreases budget - done,
        {
            if let Some(item) = lane.try_recv() {
                assert(item == list[done as int]);
                assert(lane@.items =~= list.skip(done + 1));
                let ghost before = self.with(*core);
                self.left = self.left - 1;
                assert(self.with(*core) == before.worked());
                let queued: usize = lane.len();
                proof {
                    lemma_request_keeps_work(
                        before.worked(),
                        item,
                        queued as nat,
                        capacity as nat,
                    );
                }
                self.handle_request(core, item, queued, capacity);
                done += 1;
            }
        }
    }

    fn cancel_op(&mut self, core: &mut H3Core, op: u64)
        requires
            old(self).wf(),
            old(core).wf(),
        ensures
            final(self).wf(),
            final(core).wf(),
            final(self).with(*final(core)) == old(self).with(*old(core)).op_cancelled(op),
    {
        proof {
            reveal(Serving::op_cancelled);
        }
        self.endings.cancel(op);
        self.session_waits.cancel(op);
        self.cancel_ready(op);
        let _ = self.answers.take(op);
        self.cancel_open(core, op);
    }

    fn cancel_ops(&mut self, core: &mut H3Core)
        requires
            old(self).wf(),
            old(core).wf(),
        ensures
            final(self).wf(),
            final(core).wf(),
            final(self).with(*final(core)) == old(self).with(*old(core)).ops_cancelled(
                old(self)@.cancelled,
                0,
            ),
    {
        let mut list: Vec<u64> = Vec::new();
        let mut k: usize = 0;
        while k < self.cancelled.len()
            invariant
                k <= self.cancelled@.len(),
                list@ == self.cancelled@.take(k as int),
            decreases self.cancelled@.len() - k,
        {
            list.push(self.cancelled[k]);
            assert(list@ =~= self.cancelled@.take(k + 1));
            k += 1;
        }
        assert(list@ =~= self.cancelled@);
        let ghost target = self.with(*core).ops_cancelled(list@, 0);
        let mut i: usize = 0;
        while i < list.len()
            invariant
                i <= list@.len(),
                self.wf(),
                core.wf(),
                self.with(*core).ops_cancelled(list@, i as int) == target,
            decreases list@.len() - i,
        {
            self.cancel_op(core, list[i]);
            i += 1;
        }
    }

    fn begin_turn(&mut self, core: &mut H3Core)
        requires
            old(self).wf(),
            old(core).wf(),
        ensures
            final(self).wf(),
            final(core).wf(),
            final(self).with(*final(core)) == old(self).with(*old(core)).turn_begun(),
    {
        proof {
            reveal(Serving::turn_begun);
        }
        self.left = self.work_per_turn;
        self.cancel_ops(core);
        self.see_notices(core);
        self.settle_streams(core);
        self.settle_datagrams(core);
        self.settle_sessions(core);
        self.settle_ready(core);
        self.wake_waits(core);
        self.advance_openings(core);
    }

    /// One turn: what changed is seen, and requests are carried out.
    pub fn serve(&mut self, core: &mut H3Core, lane: &mut Lane<Queued>)
        requires
            old(self).wf(),
            old(core).wf(),
            old(lane).wf(),
        ensures
            final(self).wf(),
            final(core).wf(),
            final(lane).wf(),
            ({
                let start = old(self).with(*old(core));
                let list = old(lane)@.items;
                &&& final(self).with(*final(core)) == start.served(list, old(lane)@.capacity)
                &&& final(lane)@ == (LaneState {
                    items: list.skip(start.turn_begun().share(list.len()) as int),
                    ..old(lane)@
                })
            }),
    {
        proof {
            reveal(Serving::served);
        }
        self.begin_turn(core);
        let all = lane.len() <= self.left;
        self.handle_requests(core, lane);
        self.advance_begun(core);
        core.local_openings = self.waits.len() + self.openings.len() + self.begun.len();
        if all {
            self.cancelled = Vec::new();
        }
    }

    fn close_request(&mut self, core: &H3Core, item: Queued)
        requires
            old(self).wf(),
        ensures
            final(self).wf(),
            final(self).with(*core) == old(self).with(*core).request_closed(item),
    {
        let error = WebTransportSelectionError::ConnectionClosed;
        if holds(&self.cancelled, item.op) {
            self.drop_request(item);
            return;
        }
        if let WebTransportRequest::LiveSnapshot = &item.request {
            return;
        }
        let outcome = match item.request {
            WebTransportRequest::Open { .. } => WebTransportOutcome::Open(
                WebTransportOpenStreamOutcome::Rejected(error),
            ),
            WebTransportRequest::Write { data, fin, .. } => WebTransportOutcome::Write(
                WebTransportStreamWriteOutcome::Rejected { error, data, fin },
            ),
            WebTransportRequest::WriteLease { lease, fin, .. } => WebTransportOutcome::Lease(
                WebTransportStreamWriteLeaseOutcome {
                    lease,
                    fin,
                    verdict: LeaseVerdict::Rejected(error),
                },
            ),
            WebTransportRequest::Read { .. } => WebTransportOutcome::Read(
                WebTransportStreamReadOutcome::Rejected(error),
            ),
            WebTransportRequest::Reset { .. } | WebTransportRequest::Stop { .. } =>
                WebTransportOutcome::Control(WebTransportStreamControlOutcome::Rejected(error)),
            WebTransportRequest::AwaitSendEnd { session_id, stream_id }
            | WebTransportRequest::RetireSend { session_id, stream_id } =>
                WebTransportOutcome::SendEnd(
                WebTransportStreamSendTerminalOutcome::ConnectionTerminated {
                    session_id,
                    stream_id,
                },
            ),
            WebTransportRequest::RetireReceive { .. } => WebTransportOutcome::ReceiveRetired(
                WebTransportStreamReceiveTerminalRetirementOutcome::Rejected(error),
            ),
            WebTransportRequest::AwaitSessionEnd { session_id } => WebTransportOutcome::SessionEnd(
                self.end_of_session(core, session_id),
            ),
            WebTransportRequest::SendDatagram { datagram, .. } =>
                WebTransportOutcome::DatagramSent(
                WebTransportDatagramSendOutcome::Rejected { error, datagram },
            ),
            WebTransportRequest::ReceiveDatagram { .. } => WebTransportOutcome::DatagramRead(
                WebTransportDatagramReadOutcome::Rejected(error),
            ),
            WebTransportRequest::MaxDatagram { .. } => WebTransportOutcome::MaxDatagram(Err(error)),
            WebTransportRequest::AwaitReadable { .. } | WebTransportRequest::AwaitWritable { .. }
            | WebTransportRequest::AwaitDatagram { .. }
            | WebTransportRequest::AwaitDatagramRoom { .. } => WebTransportOutcome::Ready(
                WebTransportReadyOutcome::Rejected(error),
            ),
            WebTransportRequest::RetentionStats | WebTransportRequest::LiveSnapshot =>
                WebTransportOutcome::Closed,
        };
        self.answer(item.op, outcome);
    }

    /// The connection has ended: every request is answered.
    pub fn close_all(&mut self, core: &mut H3Core, lane: &mut Lane<Queued>)
        requires
            old(self).wf(),
            old(core).wf(),
            old(lane).wf(),
        ensures
            final(self).wf(),
            final(core).wf(),
            final(lane).wf(),
            final(self).with(*final(core)) == old(self).with(*old(core)).all_closed(
                old(lane)@.items,
            ),
            final(lane)@ == (LaneState { items: Seq::empty(), open: false, ..old(lane)@ }),
    {
        proof {
            reveal(Serving::all_closed);
        }
        lane.close();
        let ghost list = lane@.items;
        let ghost target = self.with(*core).requests_closed(list, 0);
        let ghost mut i: int = 0;
        assert(list.skip(0) =~= list);
        while lane.len() > 0
            invariant
                0 <= i <= list.len(),
                self.wf(),
                core.wf(),
                lane.wf(),
                lane@ == (LaneState { items: list.skip(i), open: false, ..old(lane)@ }),
                self.with(*core).requests_closed(list, i) == target,
            decreases lane@.items.len(),
        {
            if let Some(item) = lane.try_recv() {
                assert(item == list[i]);
                assert(lane@.items =~= list.skip(i + 1));
                self.close_request(core, item);
                proof {
                    i = i + 1;
                }
            }
        }
        assert(lane@.items =~= Seq::empty());
        self.refuse_ready(core);
        self.refuse_opens(core, WebTransportSelectionError::ConnectionClosed);
        if let Some(session_id) = self.serving {
            self.leave_streams(core, session_id, Teardown::Connection);
        } else {
            self.endings.clear();
        }
        self.settle_sessions(core);
        self.terminal.runtime_settled = true;
    }
}

} // verus!
