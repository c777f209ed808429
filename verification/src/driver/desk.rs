//! What the driver keeps for the application's requests about sessions.

use vstd::prelude::*;

use crate::driver::books::{books_agree, lemma_books_begin};
use crate::driver::state::{CoreState, H3Core};
use crate::peer_log::ids_but;
use crate::settings::Http3Settings;
use crate::table::{lookup, without, Table};
use crate::wire::stream_prefix::WebTransportStreamDirection;
use crate::wt::block_reasons::StreamSendBlockReasons;
use crate::wt::requests::{Answer, AnswerList, WebTransportOutcome};
use crate::wt::retention::TerminalClaim;
use crate::wt::runtime::{RuntimeState, SessionStream};
use crate::wt::snapshot::SnapshotSlot;
use crate::wt::stream_ends::{EndingsState, StreamEndings, StreamEnds};
use crate::wt::types::WebTransportSelectionError;
use crate::wt::waiters::{WaitList, WaitState};
use crate::wt::write_lease::{LeaseLedger, LeaseState, MockWriteLease};

verus! {

/// A request for a stream that waits until the peer allows one more.
#[derive(Clone, Copy, Debug, PartialEq, Eq, Structural)]
pub struct OpenWait {
    pub op: u64,
    pub session_id: u64,
    pub direction: WebTransportStreamDirection,
}

/// A stream whose prefix is not written in full.
#[derive(Clone, Copy, Debug, PartialEq, Eq, Structural)]
pub struct Opening {
    pub op: u64,
    pub session_id: u64,
    pub stream_id: u64,
    /// How many bytes of the prefix were written.
    pub written: usize,
}

/// What somebody waits for.
#[derive(Clone, Copy, Debug, PartialEq, Eq, Structural)]
pub enum ReadyKind {
    /// A stream can be read.
    Readable { stream_id: u64 },
    /// A stream can be written on which a write was blocked for the given reasons.
    Writable { stream_id: u64, reasons: StreamSendBlockReasons },
    /// A datagram can be read.
    Datagram,
    /// A datagram can be sent.
    DatagramRoom,
}

/// A request that waits until something can be done.
#[derive(Clone, Copy, Debug, PartialEq, Eq, Structural)]
pub struct ReadyWait {
    pub op: u64,
    pub session_id: u64,
    pub kind: ReadyKind,
}

/// A blocked write that can be tried again.
#[derive(Clone, Copy, Debug, PartialEq, Eq, Structural)]
pub struct Retry {
    pub session_id: u64,
    pub stream_id: u64,
    pub reasons: StreamSendBlockReasons,
}

/// What the transport's commit of an opened stream comes to in place of success.
#[derive(Clone, Copy, Debug, PartialEq, Eq, Structural)]
pub enum CommitFault {
    /// It has to be tried again.
    Blocked,
    /// The stream cannot be used.
    Failed,
}

/// The values of a list of leases.
pub open spec fn lease_values(list: Seq<MockWriteLease>) -> Seq<LeaseState> {
    list.map_values(|lease: MockWriteLease| lease@)
}

/// The smaller of two numbers.
pub open spec fn lesser(a: usize, b: usize) -> usize {
    if a < b {
        a
    } else {
        b
    }
}

/// The value of a [`Desk`].
pub ghost struct DeskState {
    /// How many streams can be on their way to be opened.
    pub max_openings: nat,
    /// The same, for one session.
    pub max_openings_per_session: nat,
    /// How much work one turn does.
    pub work_per_turn: nat,
    /// How much work is left in this turn.
    pub left: nat,
    /// The requests that nobody waits for any more.
    pub cancelled: Seq<u64>,
    /// The requests that wait for a stream, oldest first.
    pub waits: Seq<OpenWait>,
    /// The streams whose prefix is being written.
    pub openings: Seq<Opening>,
    /// The streams that were taken up in this turn.
    pub begun: Seq<Opening>,
    /// The open streams of this end that still count against the peer's limit.
    pub locals: Seq<u64>,
    pub endings: EndingsState,
    /// The requests that wait for the end of a session.
    pub session_waits: WaitState,
    /// The session that the requests about streams were for.
    pub serving: Option<u64>,
    /// The streams of that session which are over and forgotten.
    pub forgotten: Seq<u64>,
    pub ledger: LeaseLedger,
    /// How much memory each lease that is out keeps alive.
    pub writes: Seq<(u64, usize)>,
    /// What tells this driver from others.
    pub identity: u64,
    /// The blocked writes that can be tried again.
    pub retries: Seq<(u64, Retry)>,
    /// The leases whose outcome nobody waited for.
    pub dropped: Seq<LeaseState>,
    /// The requests that wait until something can be done, oldest first.
    pub ready_waits: Seq<ReadyWait>,
    pub snapshot: SnapshotSlot,
    pub terminal: TerminalClaim,
    /// What the next commit of an opened stream comes to, if it does not succeed.
    pub commit_fault: Option<CommitFault>,
    pub answers: Seq<(u64, Answer)>,
    pub open_work_total: u64,
    pub open_saturation_total: u64,
    pub send_work_total: u64,
    /// The number of the next request.
    pub next_op: u64,
}

/// A driver's state together with what it keeps for requests.
pub ghost struct Serving {
    pub core: CoreState,
    pub desk: DeskState,
}

/// What the driver keeps for the application's requests about sessions.
pub struct Desk {
    pub max_openings: usize,
    pub max_openings_per_session: usize,
    pub work_per_turn: usize,
    pub left: usize,
    pub cancelled: Vec<u64>,
    pub waits: Vec<OpenWait>,
    pub openings: Vec<Opening>,
    pub begun: Vec<Opening>,
    pub locals: Vec<u64>,
    pub endings: StreamEndings,
    pub session_waits: WaitList,
    pub serving: Option<u64>,
    pub forgotten: Vec<u64>,
    pub ledger: LeaseLedger,
    pub writes: Table<usize>,
    pub identity: u64,
    pub retries: Table<Retry>,
    pub dropped: Vec<MockWriteLease>,
    pub ready_waits: Vec<ReadyWait>,
    pub snapshot: SnapshotSlot,
    pub terminal: TerminalClaim,
    pub commit_fault: Option<CommitFault>,
    pub answers: AnswerList,
    pub open_work_total: u64,
    pub open_saturation_total: u64,
    pub send_work_total: u64,
    pub next_op: u64,
}

impl View for Desk {
    type V = DeskState;

    open spec fn view(&self) -> DeskState {
        DeskState {
            max_openings: self.max_openings as nat,
            max_openings_per_session: self.max_openings_per_session as nat,
            work_per_turn: self.work_per_turn as nat,
            left: self.left as nat,
            cancelled: self.cancelled@,
            waits: self.waits@,
            openings: self.openings@,
            begun: self.begun@,
            locals: self.locals@,
            endings: self.endings@,
            session_waits: self.session_waits@,
            serving: self.serving,
            forgotten: self.forgotten@,
            ledger: self.ledger,
            writes: self.writes@,
            identity: self.identity,
            retries: self.retries@,
            dropped: lease_values(self.dropped@),
            ready_waits: self.ready_waits@,
            snapshot: self.snapshot,
            terminal: self.terminal,
            commit_fault: self.commit_fault,
            answers: self.answers@,
            open_work_total: self.open_work_total,
            open_saturation_total: self.open_saturation_total,
            send_work_total: self.send_work_total,
            next_op: self.next_op,
        }
    }
}

/// Whether a stream carries what this end sends.
pub open spec fn carries_sent(stream: SessionStream) -> bool {
    stream.local || stream.direction == WebTransportStreamDirection::Bidi
}

/// Whether a stream carries what the peer sends.
pub open spec fn carries_received(stream: SessionStream) -> bool {
    !stream.local || stream.direction == WebTransportStreamDirection::Bidi
}

/// Whether nothing more is carried on a stream.
pub open spec fn is_over(stream: SessionStream, ends: StreamEnds) -> bool {
    &&& carries_sent(stream) ==> ends.send_closed
    &&& carries_received(stream) ==> ends.stop_sent || ends.received is Some
}

/// Whether the application is also done with a stream on which nothing more is
/// carried.
pub open spec fn is_done_with(stream: SessionStream, ends: StreamEnds) -> bool {
    &&& carries_sent(stream) ==> ends.send_closed && ends.send_retired
    &&& carries_received(stream) ==> ends.stop_sent || (ends.received is Some
        && ends.receive_retired)
}

impl DeskState {
    /// How many streams are on their way to be opened.
    pub open spec fn opening_count(self) -> nat {
        self.waits.len() + self.openings.len() + self.begun.len()
    }
}

impl Serving {
    /// Why a request about a session cannot be carried out, if it cannot.
    pub open spec fn selection(self, session_id: u64) -> Option<WebTransportSelectionError> {
        match self.core.session {
            Some(s) => s.selection(session_id),
            None => Some(WebTransportSelectionError::UnknownSession),
        }
    }

    /// What is known of a stream.
    pub open spec fn stream(self, stream_id: u64) -> Option<SessionStream> {
        match self.core.session {
            Some(s) => lookup(s.streams, stream_id),
            None => None,
        }
    }

    /// Why a request about one direction of a stream cannot be carried out, if it
    /// cannot.
    pub open spec fn stream_selection(self, session_id: u64, stream_id: u64, sent: bool) -> Option<
        WebTransportSelectionError,
    > {
        match self.selection(session_id) {
            Some(error) => Some(error),
            None => match self.stream(stream_id) {
                Some(stream) => if stream.session_id != session_id || !stream.owned {
                    Some(WebTransportSelectionError::UnknownStream)
                } else if sent && !carries_sent(stream) || !sent && !carries_received(stream) {
                    Some(WebTransportSelectionError::WrongDirection)
                } else {
                    None
                },
                None => if self.desk.forgotten.contains(stream_id) {
                    Some(WebTransportSelectionError::StaleStream)
                } else {
                    Some(WebTransportSelectionError::UnknownStream)
                },
            },
        }
    }

    /// The state after a request was answered.
    pub open spec fn answered(self, op: u64, answer: Answer) -> Serving {
        Serving {
            desk: DeskState { answers: self.desk.answers.push((op, answer)), ..self.desk },
            ..self
        }
    }

    /// The state with other ends of streams.
    pub open spec fn with_endings(self, endings: EndingsState) -> Serving {
        Serving { desk: DeskState { endings, ..self.desk }, ..self }
    }

    /// The state in which requests about streams are for the given session.
    pub open spec fn serving_for(self, session_id: u64) -> Serving {
        Serving { desk: DeskState { serving: Some(session_id), ..self.desk }, ..self }
    }

    /// The state after it was seen whether a stream is over. A stream of this end
    /// then counts against the peer's limit no more, and a stream with which the
    /// application is done is forgotten.
    #[verifier::opaque]
    pub open spec fn stream_checked(self, stream_id: u64) -> Serving {
        match self.stream(stream_id) {
            Some(stream) => {
                let ends = self.desk.endings.ends(stream_id);
                let counted = if is_over(stream, ends) && self.desk.locals.contains(stream_id) {
                    Serving {
                        core: self.core.stream_released(stream.direction),
                        desk: DeskState {
                            locals: ids_but(self.desk.locals, stream_id),
                            ..self.desk
                        },
                    }
                } else {
                    self
                };
                if is_done_with(stream, ends) {
                    counted.stream_forgotten(stream_id)
                } else {
                    counted
                }
            },
            None => self,
        }
    }

    /// The state without a stream.
    #[verifier::opaque]
    pub open spec fn stream_forgotten(self, stream_id: u64) -> Serving {
        match self.core.session {
            Some(s) => Serving {
                core: CoreState {
                    session: Some(
                        RuntimeState { streams: without(s.streams, stream_id), ..s },
                    ),
                    ..self.core
                },
                desk: DeskState {
                    endings: self.desk.endings.forgotten(stream_id),
                    forgotten: self.desk.forgotten.push(stream_id),
                    ..self.desk
                },
            },
            None => self,
        }
    }
}

/// Whether a list holds a number.
pub fn holds(list: &Vec<u64>, id: u64) -> (found: bool)
    ensures
        found == list@.contains(id),
{
    let mut i: usize = 0;
    while i < list.len()
        invariant
            i <= list@.len(),
            forall|k: int| 0 <= k < i ==> list@[k] != id,
        decreases list@.len() - i,
    {
        if list[i] == id {
            assert(list@[i as int] == id);
            return true;
        }
        i += 1;
    }
    false
}

/// Takes a number out of a list.
pub fn take_out(list: &mut Vec<u64>, id: u64)
    ensures
        final(list)@ == ids_but(old(list)@, id),
{
    let ghost all = list@;
    let mut kept: Vec<u64> = Vec::new();
    let mut i: usize = 0;
    assert(all.take(0) =~= Seq::<u64>::empty());
    while i < list.len()
        invariant
            i <= list@.len(),
            list@ == all,
            kept@ == ids_but(all.take(i as int), id),
        decreases list@.len() - i,
    {
        assert(all.take(i + 1).drop_last() =~= all.take(i as int));
        assert(all.take(i + 1).last() == all[i as int]);
        let item: u64 = list[i];
        if item != id {
            kept.push(item);
        }
        i += 1;
    }
    assert(all.take(i as int) =~= all);
    *list = kept;
}

impl Desk {
    /// The parts are consistent: the streams that are on their way stay within
    /// their bound.
    pub open spec fn wf(self) -> bool {
        &&& self@.opening_count() <= self.max_openings
        &&& self.books_ok()
    }

    /// The ledger stays within its bounds and counts just the leases that are out.
    pub open spec fn books_ok(self) -> bool {
        &&& self.ledger.wf()
        &&& books_agree(self.ledger.leases, self.ledger.retained, self.writes@, self.next_op)
    }

    /// A desk without requests.
    pub open spec fn fresh(settings: Http3Settings) -> DeskState {
        let ends = lesser(
            settings.webtransport_max_send_terminal_waiters,
            settings.webtransport_max_send_terminal_waiters_per_session,
        ) as nat;
        DeskState {
            max_openings: settings.webtransport_max_pending_streams as nat,
            max_openings_per_session: settings.webtransport_max_pending_streams_per_session as nat,
            work_per_turn: settings.webtransport_max_session_work_per_callback as nat,
            left: 0,
            cancelled: Seq::empty(),
            waits: Seq::empty(),
            openings: Seq::empty(),
            begun: Seq::empty(),
            locals: Seq::empty(),
            endings: EndingsState {
                rows: Seq::empty(),
                waiters: WaitState { bound: ends, list: Seq::empty(), saturation_total: 0 },
                max_states: ends,
                state_saturation_total: 0,
            },
            session_waits: WaitState {
                bound: lesser(
                    settings.webtransport_max_session_terminal_waiters,
                    settings.webtransport_max_session_terminal_waiters_per_session,
                ) as nat,
                list: Seq::empty(),
                saturation_total: 0,
            },
            serving: None,
            forgotten: Seq::empty(),
            ledger: LeaseLedger::fresh(
                settings.webtransport_command_capacity,
                settings.webtransport_max_stream_write_bytes,
                settings.webtransport_max_stream_write_lease_retained_bytes,
            ),
            writes: Seq::empty(),
            identity: 0,
            retries: Seq::empty(),
            dropped: Seq::empty(),
            ready_waits: Seq::empty(),
            snapshot: SnapshotSlot::fresh(),
            terminal: TerminalClaim::fresh(),
            commit_fault: None,
            answers: Seq::empty(),
            open_work_total: 0,
            open_saturation_total: 0,
            send_work_total: 0,
            next_op: 0,
        }
    }

    /// A desk without requests.
    pub fn new(settings: &Http3Settings) -> (desk: Self)
        ensures
            desk.wf(),
            desk@ == Desk::fresh(*settings),
    {
        let ends: usize = if settings.webtransport_max_send_terminal_waiters
            < settings.webtransport_max_send_terminal_waiters_per_session {
            settings.webtransport_max_send_terminal_waiters
        } else {
            settings.webtransport_max_send_terminal_waiters_per_session
        };
        let waits: usize = if settings.webtransport_max_session_terminal_waiters
            < settings.webtransport_max_session_terminal_waiters_per_session {
            settings.webtransport_max_session_terminal_waiters
        } else {
            settings.webtransport_max_session_terminal_waiters_per_session
        };
        assert(lease_values(Seq::empty()) =~= Seq::empty());
        proof {
            lemma_books_begin(0);
        }
        Desk {
            max_openings: settings.webtransport_max_pending_streams,
            max_openings_per_session: settings.webtransport_max_pending_streams_per_session,
            work_per_turn: settings.webtransport_max_session_work_per_callback,
            left: 0,
            cancelled: Vec::new(),
            waits: Vec::new(),
            openings: Vec::new(),
            begun: Vec::new(),
            locals: Vec::new(),
            endings: StreamEndings::new(ends),
            session_waits: WaitList::new(waits),
            serving: None,
            forgotten: Vec::new(),
            ledger: LeaseLedger::new(
                settings.webtransport_command_capacity,
                settings.webtransport_max_stream_write_bytes,
                settings.webtransport_max_stream_write_lease_retained_bytes,
            ),
            writes: Table::new(),
            identity: 0,
            retries: Table::new(),
            dropped: Vec::new(),
            ready_waits: Vec::new(),
            snapshot: SnapshotSlot::new(),
            terminal: TerminalClaim::new(),
            commit_fault: None,
            answers: AnswerList::new(),
            open_work_total: 0,
            open_saturation_total: 0,
            send_work_total: 0,
            next_op: 0,
        }
    }

    /// The driver's state together with the desk's.
    pub open spec fn with(self, core: H3Core) -> Serving {
        Serving { core: core@, desk: self@ }
    }

    /// Answers a request.
    pub fn answer(&mut self, op: u64, outcome: WebTransportOutcome)
        ensures
            final(self)@ == (DeskState {
                answers: old(self)@.answers.push((op, outcome@)),
                ..old(self)@
            }),
            old(self).wf() ==> final(self).wf(),
    {
        self.answers.push(op, outcome);
    }

    /// Why a request about a session cannot be carried out, if it cannot.
    pub fn select(&self, core: &H3Core, session_id: u64) -> (error: Option<
        WebTransportSelectionError,
    >)
        ensures
            error == self.with(*core).selection(session_id),
    {
        match &core.session {
            Some(runtime) => runtime.select(session_id),
            None => Some(WebTransportSelectionError::UnknownSession),
        }
    }

    /// What is known of a stream.
    pub fn stream(&self, core: &H3Core, stream_id: u64) -> (stream: Option<SessionStream>)
        ensures
            stream == self.with(*core).stream(stream_id),
    {
        match &core.session {
            Some(runtime) => runtime.stream(stream_id),
            None => None,
        }
    }

    /// Why a request about one direction of a stream cannot be carried out, if it
    /// cannot.
    pub fn select_stream(&self, core: &H3Core, session_id: u64, stream_id: u64, sent: bool) -> (
    error: Option<WebTransportSelectionError>)
        ensures
            error == self.with(*core).stream_selection(session_id, stream_id, sent),
    {
        if let Some(error) = self.select(core, session_id) {
            return Some(error);
        }
        match self.stream(core, stream_id) {
            Some(stream) => {
                let bidi = stream.direction == WebTransportStreamDirection::Bidi;
                if stream.session_id != session_id || !stream.owned {
                    Some(WebTransportSelectionError::UnknownStream)
                } else if sent && !stream.local && !bidi || !sent && stream.local && !bidi {
                    Some(WebTransportSelectionError::WrongDirection)
                } else {
                    None
                }
            },
            None => if holds(&self.forgotten, stream_id) {
                Some(WebTransportSelectionError::StaleStream)
            } else {
                Some(WebTransportSelectionError::UnknownStream)
            },
        }
    }

    /// Sees whether a stream is over.
    pub fn check_stream(&mut self, core: &mut H3Core, stream_id: u64)
        requires
            old(self).wf(),
            old(core).wf(),
        ensures
            final(self).wf(),
            final(core).wf(),
            final(self).with(*final(core)) == old(self).with(*old(core)).stream_checked(stream_id),
    {
        proof {
            reveal(Serving::stream_checked);
        }
        let stream: SessionStream = match self.stream(core, stream_id) {
            Some(stream) => stream,
            None => {
                return;
            },
        };
        let ends = self.endings.get(stream_id);
        let bidi = stream.direction == WebTransportStreamDirection::Bidi;
        let sends = stream.local || bidi;
        let receives = !stream.local || bidi;
        let over = (!sends || ends.send_closed) && (!receives || ends.stop_sent
            || ends.received.is_some());
        if over && holds(&self.locals, stream_id) {
            core.release_stream(stream.direction);
            take_out(&mut self.locals, stream_id);
        }
        let done = (!sends || ends.send_closed && ends.send_retired) && (!receives || ends.stop_sent
            || ends.received.is_some() && ends.receive_retired);
        if done {
            self.forget_stream(core, stream_id);
        }
    }

    fn forget_stream(&mut self, core: &mut H3Core, stream_id: u64)
        requires
            old(self).wf(),
            old(core).wf(),
        ensures
            final(self).wf(),
            final(core).wf(),
            final(self).with(*final(core)) == old(self).with(*old(core)).stream_forgotten(
                stream_id,
            ),
    {
        proof {
            reveal(Serving::stream_forgotten);
        }
        match &mut core.session {
            Some(runtime) => {
                runtime.forget_stream(stream_id);
            },
            None => {
                return;
            },
        }
        self.endings.forget(stream_id);
        self.forgotten.push(stream_id);
    }
}

} // verus!
