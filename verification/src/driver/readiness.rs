//! Waiting until a stream or a datagram can be read or written.

use vstd::prelude::*;

use crate::driver::desk::{Desk, DeskState, ReadyKind, ReadyWait, Serving};
use crate::driver::state::H3Core;
use crate::peer_log::{raw_bytes, raw_fin};
use crate::transport::{SendResult, Transport, TransportState};
use crate::wire::datagram::session_flow_id;
use crate::wire::error_code::{application_error, http3_error_to_webtransport};
use crate::wt::block_reasons::StreamSendRetryDisposition;
use crate::wt::datagrams::has_for;
use crate::wt::requests::{Answer, WebTransportOutcome, WebTransportReadyOutcome};
use crate::wt::types::WebTransportSelectionError;

verus! {

/// Whether two requests wait for the same.
pub open spec fn same_goal(a: ReadyKind, b: ReadyKind) -> bool {
    match (a, b) {
        (
            ReadyKind::Writable { stream_id, .. },
            ReadyKind::Writable { stream_id: other, .. },
        ) => stream_id == other,
        _ => a == b,
    }
}

/// Whether somebody waits for the same thing.
pub open spec fn same_wait(waits: Seq<ReadyWait>, session_id: u64, kind: ReadyKind) -> bool {
    exists|i: int|
        0 <= i < waits.len() && (#[trigger] waits[i]).session_id == session_id && same_goal(
            waits[i].kind,
            kind,
        )
}

fn is_same_goal(a: ReadyKind, b: ReadyKind) -> (same: bool)
    ensures
        same == same_goal(a, b),
{
    match (a, b) {
        (
            ReadyKind::Writable { stream_id, .. },
            ReadyKind::Writable { stream_id: other, .. },
        ) => stream_id == other,
        _ => a == b,
    }
}

/// The waits without those of the request `op`.
pub open spec fn ready_but(waits: Seq<ReadyWait>, op: u64) -> Seq<ReadyWait>
    decreases waits.len(),
{
    if waits.len() == 0 {
        waits
    } else {
        let front = ready_but(waits.drop_last(), op);
        if waits.last().op == op {
            front
        } else {
            front.push(waits.last())
        }
    }
}

/// How many requests wait until a stream can be read.
pub open spec fn readers(waits: Seq<ReadyWait>) -> nat
    decreases waits.len(),
{
    if waits.len() == 0 {
        0
    } else {
        readers(waits.drop_last()) + if waits.last().kind is Readable {
            1nat
        } else {
            0nat
        }
    }
}

/// What the second of two requests that wait for the same is answered.
pub open spec fn crowded(kind: ReadyKind) -> WebTransportReadyOutcome {
    match kind {
        ReadyKind::Datagram | ReadyKind::DatagramRoom => WebTransportReadyOutcome::ResourceLimit,
        _ => WebTransportReadyOutcome::Rejected(WebTransportSelectionError::ResourceLimit),
    }
}

/// The answers to the waits of a list when nothing will happen any more.
pub open spec fn ready_refusals(answers: Seq<(u64, Answer)>, waits: Seq<ReadyWait>) -> Seq<
    (u64, Answer),
> {
    answers + Seq::new(
        waits.len(),
        |i: int|
            (
                waits[i].op,
                Answer::Ready(
                    WebTransportReadyOutcome::Rejected(
                        WebTransportSelectionError::ConnectionClosed,
                    ),
                ),
            ),
    )
}

impl Serving {
    /// What a wait is answered now, if it need not wait.
    pub open spec fn readiness(self, session_id: u64, kind: ReadyKind) -> Option<
        WebTransportReadyOutcome,
    > {
        match kind {
            ReadyKind::Readable { stream_id } => match self.stream_selection(
                session_id,
                stream_id,
                false,
            ) {
                Some(error) => Some(WebTransportReadyOutcome::Rejected(error)),
                None => if raw_bytes(self.core.raw.sent, stream_id).len() > 0 || raw_fin(
                    self.core.raw.sent,
                    stream_id,
                ) || self.desk.endings.ends(stream_id).received is Some {
                    Some(WebTransportReadyOutcome::Ready)
                } else {
                    None
                },
            },
            ReadyKind::Writable { stream_id, reasons } => match self.stream_selection(
                session_id,
                stream_id,
                true,
            ) {
                Some(error) => Some(WebTransportReadyOutcome::Rejected(error)),
                None => if self.desk.endings.ends(stream_id).send_closed {
                    Some(WebTransportReadyOutcome::Ready)
                } else {
                    match self.core.transport.raw_result(stream_id, 1, false) {
                        SendResult::Stopped { error_code } => Some(
                            WebTransportReadyOutcome::ResetRequired {
                                wire_error_code: error_code,
                                application_error_code: application_error(error_code),
                            },
                        ),
                        _ if reasons.remedy() == StreamSendRetryDisposition::StateChangeRequired =>
                            Some(
                            WebTransportReadyOutcome::WriteStateChangeRequired {
                                blocked_reasons: reasons,
                                state_change_reasons: reasons.silent(),
                            },
                        ),
                        SendResult::Blocked => None,
                        SendResult::Accepted { .. } => Some(
                            WebTransportReadyOutcome::WriteTransportWake { reasons },
                        ),
                    }
                },
            },
            ReadyKind::Datagram => match self.selection(session_id) {
                Some(error) => Some(WebTransportReadyOutcome::Rejected(error)),
                None => if has_for(self.core.datagrams, session_flow_id(session_id)) {
                    Some(WebTransportReadyOutcome::Ready)
                } else {
                    None
                },
            },
            ReadyKind::DatagramRoom => match self.selection(session_id) {
                Some(error) => Some(WebTransportReadyOutcome::Rejected(error)),
                None => if self.core.transport.dgrams_queued.len() < Transport::dgram_room(
                    self.core.transport,
                ) {
                    Some(WebTransportReadyOutcome::Ready)
                } else {
                    None
                },
            },
        }
    }

    /// The state in which one more request waits.
    pub open spec fn ready_kept(self, wait: ReadyWait) -> Serving {
        Serving {
            desk: DeskState { ready_waits: self.desk.ready_waits.push(wait), ..self.desk },
            ..self
        }
    }

    /// The state after the application asked to be told when something can be
    /// done. Only one request waits for the same thing.
    #[verifier::opaque]
    pub open spec fn ready_requested(self, op: u64, session_id: u64, kind: ReadyKind) -> Serving {
        match self.readiness(session_id, kind) {
            Some(outcome) => self.answered(op, Answer::Ready(outcome)),
            None => if same_wait(self.desk.ready_waits, session_id, kind) {
                self.answered(op, Answer::Ready(crowded(kind)))
            } else {
                self.ready_kept(ReadyWait { op, session_id, kind })
            },
        }
    }

    /// What a request that waits is answered, if it need not wait any more. Whoever
    /// waited when this end closed the session is told just that.
    pub open spec fn wait_outcome(self, wait: ReadyWait) -> Option<WebTransportReadyOutcome> {
        match self.readiness(wait.session_id, wait.kind) {
            Some(WebTransportReadyOutcome::Rejected(error)) => Some(
                WebTransportReadyOutcome::Rejected(
                    if error == WebTransportSelectionError::TerminalSession && self.closed_here(
                        wait.session_id,
                    ) {
                        WebTransportSelectionError::ClosingSession
                    } else {
                        error
                    },
                ),
            ),
            other => other,
        }
    }

    /// Whether some request that waits need not wait any more.
    pub open spec fn some_wait_is_over(self) -> bool {
        exists|i: int|
            0 <= i < self.desk.ready_waits.len() && self.wait_outcome(
                #[trigger] self.desk.ready_waits[i],
            ) is Some
    }

    /// The state after one waiting request was answered, or goes on waiting.
    pub open spec fn ready_tried(self, wait: ReadyWait) -> Serving {
        match self.wait_outcome(wait) {
            Some(outcome) => self.answered(wait.op, Answer::Ready(outcome)),
            None => self.ready_kept(wait),
        }
    }

    /// The state after this was done for the waits of a list from `from` on.
    pub open spec fn all_ready_tried(self, list: Seq<ReadyWait>, from: int) -> Serving
        decreases list.len() - from,
    {
        if from >= list.len() {
            self
        } else {
            self.ready_tried(list[from]).all_ready_tried(list, from + 1)
        }
    }

    /// The state after every request was answered that need not wait any more.
    #[verifier::opaque]
    pub open spec fn ready_settled(self) -> Serving {
        (Serving {
            desk: DeskState { ready_waits: Seq::empty(), ..self.desk },
            ..self
        }).all_ready_tried(self.desk.ready_waits, 0)
    }

    /// The state after every waiting request was refused because the connection
    /// has ended.
    pub open spec fn ready_refused(self) -> Serving {
        Serving {
            desk: DeskState {
                answers: ready_refusals(self.desk.answers, self.desk.ready_waits),
                ready_waits: Seq::empty(),
                ..self.desk
            },
            ..self
        }
    }
}

/// A request that waits is answered as soon as what it waits for can be done, and
/// goes on waiting otherwise: no answer is given twice, and none is lost.
pub proof fn lemma_ready_wait_is_level_triggered(state: Serving, wait: ReadyWait)
    ensures
        state.wait_outcome(wait) is Some <==> state.readiness(wait.session_id, wait.kind) is Some,
        state.wait_outcome(wait) matches Some(outcome) ==> state.ready_tried(
            wait,
        ).desk.answers == state.desk.answers.push((wait.op, Answer::Ready(outcome)))
            && state.ready_tried(wait).desk.ready_waits == state.desk.ready_waits,
        state.readiness(wait.session_id, wait.kind) is None ==> state.ready_tried(
            wait,
        ).desk.answers == state.desk.answers && state.ready_tried(wait).desk.ready_waits
            == state.desk.ready_waits.push(wait),
        state.ready_tried(wait).core == state.core,
{
}

impl Desk {
    fn has_wait(&self, session_id: u64, kind: ReadyKind) -> (found: bool)
        ensures
            found == same_wait(self@.ready_waits, session_id, kind),
    {
        let mut i: usize = 0;
        while i < self.ready_waits.len()
            invariant
                i <= self.ready_waits@.len(),
                forall|k: int|
                    0 <= k < i ==> !((#[trigger] self.ready_waits@[k]).session_id == session_id
                        && same_goal(self.ready_waits@[k].kind, kind)),
            decreases self.ready_waits@.len() - i,
        {
            let wait: ReadyWait = self.ready_waits[i];
            if wait.session_id == session_id && is_same_goal(wait.kind, kind) {
                assert(self.ready_waits@[i as int] == wait);
                return true;
            }
            i += 1;
        }
        false
    }

    /// How many requests wait until a stream can be read.
    pub fn reader_count(&self) -> (count: usize)
        ensures
            count == readers(self@.ready_waits),
            count <= self.ready_waits@.len(),
    {
        let ghost all = self.ready_waits@;
        let mut count: usize = 0;
        let mut i: usize = 0;
        assert(all.take(0) =~= Seq::<ReadyWait>::empty());
        while i < self.ready_waits.len()
            invariant
                i <= self.ready_waits@.len(),
                all == self.ready_waits@,
                count == readers(all.take(i as int)),
                count <= i,
            decreases self.ready_waits@.len() - i,
        {
            assert(all.take(i + 1).drop_last() =~= all.take(i as int));
            if let ReadyKind::Readable { .. } = self.ready_waits[i].kind {
                count += 1;
            }
            i += 1;
        }
        assert(all.take(i as int) =~= all);
        count
    }

    /// What a wait is answered now, if it need not wait.
    pub fn ready_now(&self, core: &H3Core, session_id: u64, kind: ReadyKind) -> (outcome: Option<
        WebTransportReadyOutcome,
    >)
        ensures
            outcome == self.with(*core).readiness(session_id, kind),
    {
        proof {
            reveal(TransportState::raw_result);
        }
        match kind {
            ReadyKind::Readable { stream_id } => {
                if let Some(error) = self.select_stream(core, session_id, stream_id, false) {
                    return Some(WebTransportReadyOutcome::Rejected(error));
                }
                let (bytes, fin) = core.raw.waiting_raw(stream_id);
                if bytes.len() > 0 || fin || self.endings.get(stream_id).received.is_some() {
                    Some(WebTransportReadyOutcome::Ready)
                } else {
                    None
                }
            },
            ReadyKind::Writable { stream_id, reasons } => {
                if let Some(error) = self.select_stream(core, session_id, stream_id, true) {
                    return Some(WebTransportReadyOutcome::Rejected(error));
                }
                if self.endings.get(stream_id).send_closed {
                    return Some(WebTransportReadyOutcome::Ready);
                }
                if let Some(error_code) = core.transport.stop_received(stream_id) {
                    return Some(
                        WebTransportReadyOutcome::ResetRequired {
                            wire_error_code: error_code,
                            application_error_code: http3_error_to_webtransport(error_code),
                        },
                    );
                }
                if reasons.retry_disposition() == StreamSendRetryDisposition::StateChangeRequired {
                    return Some(
                        WebTransportReadyOutcome::WriteStateChangeRequired {
                            blocked_reasons: reasons,
                            state_change_reasons: reasons.state_change_reasons(),
                        },
                    );
                }
                if core.transport.send_blocks(stream_id).any() {
                    None
                } else {
                    Some(WebTransportReadyOutcome::WriteTransportWake { reasons })
                }
            },
            ReadyKind::Datagram => match self.select(core, session_id) {
                Some(error) => Some(WebTransportReadyOutcome::Rejected(error)),
                None => if core.datagrams.is_readable(session_id / 4) {
                    Some(WebTransportReadyOutcome::Ready)
                } else {
                    None
                },
            },
            ReadyKind::DatagramRoom => match self.select(core, session_id) {
                Some(error) => Some(WebTransportReadyOutcome::Rejected(error)),
                None => if core.transport.has_dgram_room() {
                    Some(WebTransportReadyOutcome::Ready)
                } else {
                    None
                },
            },
        }
    }

    fn woken_with(&self, core: &H3Core, wait: ReadyWait) -> (outcome: Option<
        WebTransportReadyOutcome,
    >)
        ensures
            outcome == self.with(*core).wait_outcome(wait),
    {
        let outcome = self.ready_now(core, wait.session_id, wait.kind);
        if let Some(WebTransportReadyOutcome::Rejected(error)) = outcome {
            if error == WebTransportSelectionError::TerminalSession {
                if self.is_closed_here(core, wait.session_id) {
                    return Some(
                        WebTransportReadyOutcome::Rejected(
                            WebTransportSelectionError::ClosingSession,
                        ),
                    );
                }
            }
        }
        outcome
    }

    /// Whether some request that waits need not wait any more.
    pub fn has_ready_wait(&self, core: &H3Core) -> (found: bool)
        ensures
            found == self.with(*core).some_wait_is_over(),
    {
        let mut i: usize = 0;
        while i < self.ready_waits.len()
            invariant
                i <= self.ready_waits@.len(),
                forall|k: int|
                    0 <= k < i ==> self.with(*core).wait_outcome(
                        #[trigger] self.ready_waits@[k],
                    ) is None,
            decreases self.ready_waits@.len() - i,
        {
            let outcome = self.woken_with(core, self.ready_waits[i]);
            if outcome.is_some() {
                assert(self.with(*core).desk.ready_waits[i as int] == self.ready_waits@[i as int]);
                return true;
            }
            i += 1;
        }
        false
    }

    /// The application asks to be told when something can be done.
    pub fn request_ready(&mut self, core: &H3Core, op: u64, session_id: u64, kind: ReadyKind)
        requires
            old(self).wf(),
        ensures
            final(self).wf(),
            final(self).with(*core) == old(self).with(*core).ready_requested(op, session_id, kind),
    {
        proof {
            reveal(Serving::ready_requested);
        }
        if let Some(outcome) = self.ready_now(core, session_id, kind) {
            self.answer(op, WebTransportOutcome::Ready(outcome));
        } else if self.has_wait(session_id, kind) {
            let outcome = match kind {
                ReadyKind::Datagram | ReadyKind::DatagramRoom =>
                    WebTransportReadyOutcome::ResourceLimit,
                _ => WebTransportReadyOutcome::Rejected(WebTransportSelectionError::ResourceLimit),
            };
            self.answer(op, WebTransportOutcome::Ready(outcome));
        } else {
            self.ready_waits.push(ReadyWait { op, session_id, kind });
        }
    }

    /// Answers every request that need not wait any more.
    pub fn settle_ready(&mut self, core: &H3Core)
        requires
            old(self).wf(),
        ensures
            final(self).wf(),
            final(self).with(*core) == old(self).with(*core).ready_settled(),
    {
        proof {
            reveal(Serving::ready_settled);
        }
        let mut list: Vec<ReadyWait> = Vec::new();
        std::mem::swap(&mut list, &mut self.ready_waits);
        let ghost target = self.with(*core).all_ready_tried(list@, 0);
        let mut i: usize = 0;
        while i < list.len()
            invariant
                i <= list@.len(),
                self.wf(),
                self.with(*core).all_ready_tried(list@, i as int) == target,
            decreases list@.len() - i,
        {
            let wait: ReadyWait = list[i];
            match self.woken_with(core, wait) {
                Some(outcome) => {
                    self.answer(wait.op, WebTransportOutcome::Ready(outcome));
                },
                None => {
                    self.ready_waits.push(wait);
                },
            }
            i += 1;
        }
    }

    /// Nobody waits for the request `op` any more.
    pub fn cancel_ready(&mut self, op: u64)
        ensures
            final(self)@ == (DeskState {
                ready_waits: ready_but(old(self)@.ready_waits, op),
                ..old(self)@
            }),
            old(self).wf() ==> final(self).wf(),
    {
        let ghost all = self.ready_waits@;
        let mut kept: Vec<ReadyWait> = Vec::new();
        let mut i: usize = 0;
        assert(all.take(0) =~= Seq::<ReadyWait>::empty());
        while i < self.ready_waits.len()
            invariant
                i <= self.ready_waits@.len(),
                self.ready_waits@ == all,
                kept@ == ready_but(all.take(i as int), op),
            decreases self.ready_waits@.len() - i,
        {
            assert(all.take(i + 1).drop_last() =~= all.take(i as int));
            let wait: ReadyWait = self.ready_waits[i];
            if wait.op != op {
                kept.push(wait);
            }
            i += 1;
        }
        assert(all.take(i as int) =~= all);
        self.ready_waits = kept;
    }

    /// Refuses every waiting request because the connection has ended.
    pub fn refuse_ready(&mut self, core: &H3Core)
        requires
            old(self).wf(),
        ensures
            final(self).wf(),
            final(self).with(*core) == old(self).with(*core).ready_refused(),
    {
        let ghost before = self@;
        let ghost all = self.ready_waits@;
        let mut i: usize = 0;
        assert(ready_refusals(before.answers, all.take(0)) =~= before.answers);
        while i < self.ready_waits.len()
            invariant
                i <= self.ready_waits@.len(),
                all == self.ready_waits@,
                all == before.ready_waits,
                self.wf(),
                self@ == (DeskState {
                    answers: ready_refusals(before.answers, all.take(i as int)),
                    ..before
                }),
            decreases self.ready_waits@.len() - i,
        {
            let op: u64 = self.ready_waits[i].op;
            self.answer(
                op,
                WebTransportOutcome::Ready(
                    WebTransportReadyOutcome::Rejected(
                        WebTransportSelectionError::ConnectionClosed,
                    ),
                ),
            );
            i += 1;
            assert(self@.answers =~= ready_refusals(before.answers, all.take(i as int)));
        }
        assert(all.take(i as int) =~= all);
        self.ready_waits = Vec::new();
    }
}

} // verus!
