//! Streams that this end opens for its session.
//!
//! A stream is open once its prefix was written in full. Until the peer allows
//! one more stream a request waits, first come first served in each direction.

use vstd::prelude::*;

use crate::conn_close::{bump, bumped};
use crate::driver::desk::{CommitFault, Desk, DeskState, OpenWait, Opening, Serving};
use crate::driver::state::{CoreState, H3Core};
use crate::peer_log::{direction_of, stream_direction, Sent};
use crate::table::put;
use crate::transport::SendResult;
use crate::wire::stream_prefix::{
    prefix_bytes, webtransport_stream_data, WebTransportStreamDirection,
};
use crate::wire::varint::MAX_VARINT;
use crate::wt::requests::{Answer, WebTransportOpenStreamOutcome, WebTransportOutcome};
use crate::wt::runtime::{waiting_count, waiting_for};
use crate::wt::types::{WebTransportSelectionError, WT_SESSION_GONE};

verus! {

/// The prefix of a stream that is being opened.
pub open spec fn opening_prefix(opening: Opening) -> Seq<u8> {
    prefix_bytes(direction_of(opening.stream_id).signal_value(), opening.session_id)
}

/// Whether the prefix of a stream can be written.
pub open spec fn is_writable(opening: Opening) -> bool {
    opening.session_id <= MAX_VARINT && opening.written <= opening_prefix(opening).len()
}

/// The waits of a list but those of the request `op`.
pub open spec fn waits_but(waits: Seq<OpenWait>, op: u64) -> Seq<OpenWait>
    decreases waits.len(),
{
    if waits.len() == 0 {
        Seq::empty()
    } else if waits.last().op == op {
        waits_but(waits.drop_last(), op)
    } else {
        waits_but(waits.drop_last(), op).push(waits.last())
    }
}

/// Whether some request of a list waits for a stream of the given direction.
pub open spec fn awaited(waits: Seq<OpenWait>, direction: WebTransportStreamDirection) -> bool {
    exists|i: int| 0 <= i < waits.len() && (#[trigger] waits[i]).direction == direction
}

impl Serving {
    /// Whether one more stream can be on its way to be opened. Streams of the
    /// peer that wait for their session count too.
    pub open spec fn has_opening_room(self, session_id: u64) -> bool {
        match self.core.session {
            Some(s) => {
                &&& waiting_count(s.streams) + self.desk.opening_count() < self.desk.max_openings
                &&& waiting_for(s.streams, session_id) + self.desk.opening_count()
                    < self.desk.max_openings_per_session
            },
            None => false,
        }
    }

    /// The state after a stream was taken up, its prefix still unwritten.
    #[verifier::opaque]
    pub open spec fn opening_begun(
        self,
        op: u64,
        session_id: u64,
        direction: WebTransportStreamDirection,
    ) -> Serving {
        Serving {
            core: CoreState { transport: self.core.transport.opened(direction), ..self.core },
            desk: DeskState {
                begun: self.desk.begun.push(
                    Opening {
                        op,
                        session_id,
                        stream_id: self.core.transport.next_stream(direction),
                        written: 0,
                    },
                ),
                ..self.desk
            },
        }
    }

    /// The state after a stream was asked for.
    #[verifier::opaque]
    pub open spec fn open_requested(
        self,
        op: u64,
        session_id: u64,
        direction: WebTransportStreamDirection,
    ) -> Serving {
        match self.selection(session_id) {
            Some(error) => self.answered(
                op,
                Answer::Open(WebTransportOpenStreamOutcome::Rejected(error)),
            ),
            None => if !self.has_opening_room(session_id) {
                (Serving {
                    desk: DeskState {
                        open_saturation_total: bumped(self.desk.open_saturation_total),
                        ..self.desk
                    },
                    ..self
                }).answered(
                    op,
                    Answer::Open(
                        WebTransportOpenStreamOutcome::Rejected(
                            WebTransportSelectionError::ResourceLimit,
                        ),
                    ),
                )
            } else if self.core.transport.may_open(direction) && !awaited(
                self.desk.waits,
                direction,
            ) {
                self.serving_for(session_id).opening_begun(op, session_id, direction)
            } else {
                let served = self.serving_for(session_id);
                Serving {
                    desk: DeskState {
                        waits: served.desk.waits.push(OpenWait { op, session_id, direction }),
                        ..served.desk
                    },
                    ..served
                }
            },
        }
    }

    /// The state after a stream that is not open was given back: both of its
    /// directions are ended, and it counts against the peer's limit no more.
    #[verifier::opaque]
    pub open spec fn opening_dropped(self, opening: Opening) -> Serving {
        let direction = direction_of(opening.stream_id);
        let reset = self.core.sending(
            Sent::Reset { stream_id: opening.stream_id, error_code: WT_SESSION_GONE },
        );
        let ended = if direction == WebTransportStreamDirection::Bidi {
            reset.stopping(opening.stream_id, WT_SESSION_GONE)
        } else {
            reset
        };
        Serving { core: ended.stream_released(direction), ..self }
    }

    /// The state after a stream was given back because it cannot be opened.
    pub open spec fn opening_failed(self, opening: Opening) -> Serving {
        self.opening_dropped(opening).answered(
            opening.op,
            Answer::Open(
                WebTransportOpenStreamOutcome::Rejected(
                    WebTransportSelectionError::InternalFailure,
                ),
            ),
        )
    }

    /// The state after the prefix of a stream was written in full.
    #[verifier::opaque]
    pub open spec fn opening_done(self, opening: Opening) -> Serving {
        match self.core.session {
            Some(s) => (Serving {
                core: CoreState {
                    session: Some(
                        s.stream_opened(
                            opening.stream_id,
                            opening.session_id,
                            opening_prefix(opening).len() as usize,
                        ),
                    ),
                    raw_seen: put(self.core.raw_seen, opening.stream_id, true),
                    ..self.core
                },
                desk: DeskState {
                    locals: self.desk.locals.push(opening.stream_id),
                    ..self.desk
                },
            }).answered(
                opening.op,
                Answer::Open(
                    WebTransportOpenStreamOutcome::Opened { stream_id: opening.stream_id },
                ),
            ),
            None => self.opening_failed(opening),
        }
    }

    /// The state in which a stream is still being opened.
    pub open spec fn opening_kept(self, opening: Opening) -> Serving {
        Serving {
            desk: DeskState { openings: self.desk.openings.push(opening), ..self.desk },
            ..self
        }
    }

    /// The state after the transport committed a stream whose prefix was written. A
    /// commit that is blocked is tried again, and one that fails ends the stream.
    #[verifier::opaque]
    pub open spec fn opening_committed(self, opening: Opening) -> Serving {
        let tried = Serving { desk: DeskState { commit_fault: None, ..self.desk }, ..self };
        match self.desk.commit_fault {
            None => self.opening_done(opening),
            Some(CommitFault::Blocked) => tried.opening_kept(
                Opening { written: opening_prefix(opening).len() as usize, ..opening },
            ),
            Some(CommitFault::Failed) => tried.opening_failed(opening),
        }
    }

    /// The state after as much of a stream's prefix was written as the peer
    /// takes.
    #[verifier::opaque]
    pub open spec fn opening_tried(self, opening: Opening) -> Serving {
        let prefix = opening_prefix(opening);
        if !is_writable(opening) {
            self.opening_failed(opening)
        } else {
            let rest = prefix.skip(opening.written as int);
            match self.core.transport.raw_result(opening.stream_id, rest.len() as int, false) {
                SendResult::Stopped { .. } => self.opening_failed(opening),
                SendResult::Blocked => self.opening_kept(opening),
                SendResult::Accepted { count, .. } => {
                    let sent = Serving {
                        core: self.core.raw_sent(opening.stream_id, rest, false),
                        ..self
                    };
                    if opening.written + count == prefix.len() {
                        sent.opening_committed(opening)
                    } else {
                        sent.opening_kept(
                            Opening { written: (opening.written + count) as usize, ..opening },
                        )
                    }
                },
            }
        }
    }

    /// The state after nobody wanted a stream any more that was being opened. The
    /// peer can still tell what it was, as far as it takes the prefix.
    #[verifier::opaque]
    pub open spec fn opening_abandoned(self, opening: Opening) -> Serving {
        let told = if is_writable(opening) {
            Serving {
                core: self.core.raw_sent(
                    opening.stream_id,
                    opening_prefix(opening).skip(opening.written as int),
                    false,
                ),
                ..self
            }
        } else {
            self
        };
        told.opening_dropped(opening)
    }

    /// The state with one piece of work less left in this turn.
    pub open spec fn worked(self) -> Serving {
        Serving {
            desk: DeskState { left: (self.desk.left - 1) as nat, ..self.desk },
            ..self
        }
    }

    /// The state after the streams of a list from `from` on were worked on, as
    /// far as there is work left in this turn. Those that had no turn come first
    /// the next time.
    pub open spec fn openings_pumped(self, list: Seq<Opening>, from: int) -> Serving
        decreases list.len() - from,
    {
        if from >= list.len() {
            self
        } else if self.desk.left == 0 {
            Serving {
                desk: DeskState {
                    openings: list.skip(from) + self.desk.openings,
                    ..self.desk
                },
                ..self
            }
        } else {
            self.worked().opening_tried(list[from]).openings_pumped(list, from + 1)
        }
    }

    /// The state after the streams that are being opened were worked on.
    #[verifier::opaque]
    pub open spec fn openings_advanced(self) -> Serving {
        (Serving {
            desk: DeskState { openings: Seq::empty(), ..self.desk },
            ..self
        }).openings_pumped(self.desk.openings, 0)
    }

    /// The state after the streams that were taken up in this turn were worked
    /// on.
    #[verifier::opaque]
    pub open spec fn begun_advanced(self) -> Serving {
        (Serving {
            desk: DeskState { begun: Seq::empty(), ..self.desk },
            ..self
        }).openings_pumped(self.desk.begun, 0)
    }

    /// The state after the waiting requests of a list from `from` on got the
    /// streams that the peer allows by now.
    pub open spec fn waits_tried(self, list: Seq<OpenWait>, from: int) -> Serving
        decreases list.len() - from,
    {
        if from >= list.len() {
            self
        } else {
            let wait = list[from];
            let next = if self.desk.left > 0 && self.core.transport.may_open(wait.direction) {
                let begun = self.worked().opening_begun(wait.op, wait.session_id, wait.direction);
                Serving {
                    desk: DeskState {
                        open_work_total: bumped(begun.desk.open_work_total),
                        ..begun.desk
                    },
                    ..begun
                }
            } else {
                Serving {
                    desk: DeskState { waits: self.desk.waits.push(wait), ..self.desk },
                    ..self
                }
            };
            next.waits_tried(list, from + 1)
        }
    }

    /// The state after all waiting requests got the streams that the peer allows
    /// by now.
    #[verifier::opaque]
    pub open spec fn waits_woken(self) -> Serving {
        (Serving { desk: DeskState { waits: Seq::empty(), ..self.desk }, ..self }).waits_tried(
            self.desk.waits,
            0,
        )
    }

    /// The state after the streams of a list from `from` on that the request `op`
    /// was for were abandoned.
    pub open spec fn openings_abandoned(self, list: Seq<Opening>, op: u64, from: int) -> Serving
        decreases list.len() - from,
    {
        if from >= list.len() {
            self
        } else if list[from].op == op {
            self.opening_abandoned(list[from]).openings_abandoned(list, op, from + 1)
        } else {
            self.opening_kept(list[from]).openings_abandoned(list, op, from + 1)
        }
    }
}

fn some_wait(waits: &Vec<OpenWait>, direction: WebTransportStreamDirection) -> (found: bool)
    ensures
        found == awaited(waits@, direction),
{
    let mut i: usize = 0;
    while i < waits.len()
        invariant
            i <= waits@.len(),
            forall|k: int| 0 <= k < i ==> (#[trigger] waits@[k]).direction != direction,
        decreases waits@.len() - i,
    {
        if waits[i].direction == direction {
            assert(waits@[i as int].direction == direction);
            return true;
        }
        i += 1;
    }
    false
}

impl Desk {
    fn room_for_opening(&self, core: &H3Core, session_id: u64) -> (room: bool)
        requires
            self.wf(),
        ensures
            room == self.with(*core).has_opening_room(session_id),
    {
        match &core.session {
            Some(runtime) => {
                let count: usize = self.waits.len() + self.openings.len() + self.begun.len();
                let total: usize = runtime.pending_stream_count();
                let mine: usize = runtime.waiting_for_session(session_id);
                total < self.max_openings - count && count <= self.max_openings_per_session && mine
                    < self.max_openings_per_session - count
            },
            None => false,
        }
    }

    fn begin_opening(
        &mut self,
        core: &mut H3Core,
        op: u64,
        session_id: u64,
        direction: WebTransportStreamDirection,
    )
        requires
            old(self)@.opening_count() < old(self).max_openings,
            old(self).books_ok(),
            old(core).wf(),
            old(core)@.transport.may_open(direction),
        ensures
            final(self).wf(),
            final(core).wf(),
            final(self)@.opening_count() == old(self)@.opening_count() + 1,
            final(self).max_openings == old(self).max_openings,
            final(self).with(*final(core)) == old(self).with(*old(core)).opening_begun(
                op,
                session_id,
                direction,
            ),
    {
        proof {
            reveal(Serving::opening_begun);
        }
        if let Some(stream_id) = core.transport.open_stream(direction) {
            self.begun.push(Opening { op, session_id, stream_id, written: 0 });
        }
    }

    /// The application asks for a stream.
    pub fn request_open(
        &mut self,
        core: &mut H3Core,
        op: u64,
        session_id: u64,
        direction: WebTransportStreamDirection,
    )
        requires
            old(self).wf(),
            old(core).wf(),
        ensures
            final(self).wf(),
            final(core).wf(),
            final(self).with(*final(core)) == old(self).with(*old(core)).open_requested(
                op,
                session_id,
                direction,
            ),
    {
        proof {
            reveal(Serving::open_requested);
        }
        if let Some(error) = self.select(core, session_id) {
            self.answer(
                op,
                WebTransportOutcome::Open(WebTransportOpenStreamOutcome::Rejected(error)),
            );
            return;
        }
        if !self.room_for_opening(core, session_id) {
            self.open_saturation_total = bump(self.open_saturation_total);
            self.answer(
                op,
                WebTransportOutcome::Open(
                    WebTransportOpenStreamOutcome::Rejected(
                        WebTransportSelectionError::ResourceLimit,
                    ),
                ),
            );
            return;
        }
        self.serving = Some(session_id);
        if core.transport.upcoming(direction).is_some() && !some_wait(&self.waits, direction) {
            self.begin_opening(core, op, session_id, direction);
        } else {
            self.waits.push(OpenWait { op, session_id, direction });
        }
    }

    /// Gives a stream back that is not open.
    pub fn drop_opening(&mut self, core: &mut H3Core, opening: Opening)
        requires
            old(core).wf(),
        ensures
            final(core).wf(),
            *final(self) == *old(self),
            final(self).with(*final(core)) == old(self).with(*old(core)).opening_dropped(opening),
    {
        proof {
            reveal(Serving::opening_dropped);
        }
        let direction = stream_direction(opening.stream_id);
        core.transport.send_reset(opening.stream_id, WT_SESSION_GONE);
        if direction == WebTransportStreamDirection::Bidi {
            core.transport.send_stop(opening.stream_id, WT_SESSION_GONE);
        }
        core.release_stream(direction);
    }

    fn fail_opening(&mut self, core: &mut H3Core, opening: Opening)
        requires
            old(self).wf(),
            old(core).wf(),
        ensures
            final(self).wf(),
            final(core).wf(),
            final(self)@.opening_count() == old(self)@.opening_count(),
            final(self).max_openings == old(self).max_openings,
            final(self).with(*final(core)) == old(self).with(*old(core)).opening_failed(opening),
    {
        self.drop_opening(core, opening);
        self.answer(
            opening.op,
            WebTransportOutcome::Open(
                WebTransportOpenStreamOutcome::Rejected(
                    WebTransportSelectionError::InternalFailure,
                ),
            ),
        );
    }

    fn finish_opening(&mut self, core: &mut H3Core, opening: Opening, prefix_len: usize)
        requires
            old(self).wf(),
            old(core).wf(),
            prefix_len == opening_prefix(opening).len(),
        ensures
            final(self).wf(),
            final(core).wf(),
            final(self)@.opening_count() == old(self)@.opening_count(),
            final(self).max_openings == old(self).max_openings,
            final(self).with(*final(core)) == old(self).with(*old(core)).opening_done(opening),
    {
        proof {
            reveal(Serving::opening_done);
        }
        match &mut core.session {
            Some(runtime) => {
                runtime.open(opening.stream_id, opening.session_id, prefix_len);
            },
            None => {
                self.fail_opening(core, opening);
                return;
            },
        }
        core.raw_seen.set(opening.stream_id, true);
        self.locals.push(opening.stream_id);
        self.answer(
            opening.op,
            WebTransportOutcome::Open(
                WebTransportOpenStreamOutcome::Opened { stream_id: opening.stream_id },
            ),
        );
    }

    fn commit_opening(&mut self, core: &mut H3Core, opening: Opening, prefix_len: usize)
        requires
            old(self)@.opening_count() < old(self).max_openings,
            old(self).books_ok(),
            old(core).wf(),
            prefix_len == opening_prefix(opening).len(),
        ensures
            final(self).wf(),
            final(core).wf(),
            final(self)@.opening_count() <= old(self)@.opening_count() + 1,
            final(self).max_openings == old(self).max_openings,
            final(self).with(*final(core)) == old(self).with(*old(core)).opening_committed(opening),
    {
        proof {
            reveal(Serving::opening_committed);
        }
        match self.commit_fault {
            None => {
                self.finish_opening(core, opening, prefix_len);
            },
            Some(CommitFault::Blocked) => {
                self.commit_fault = None;
                self.openings.push(Opening { written: prefix_len, ..opening });
            },
            Some(CommitFault::Failed) => {
                self.commit_fault = None;
                self.fail_opening(core, opening);
            },
        }
    }

    /// Makes the next commit of an opened stream come to something else than
    /// success.
    pub fn inject_commit_error(&mut self, fault: CommitFault)
        ensures
            final(self)@ == (DeskState { commit_fault: Some(fault), ..old(self)@ }),
            old(self).wf() ==> final(self).wf(),
    {
        self.commit_fault = Some(fault);
    }

    fn try_opening(&mut self, core: &mut H3Core, opening: Opening)
        requires
            old(self)@.opening_count() < old(self).max_openings,
            old(self).books_ok(),
            old(core).wf(),
        ensures
            final(self).wf(),
            final(core).wf(),
            final(self)@.opening_count() <= old(self)@.opening_count() + 1,
            final(self).max_openings == old(self).max_openings,
            final(self).with(*final(core)) == old(self).with(*old(core)).opening_tried(opening),
    {
        proof {
            reveal(Serving::opening_tried);
        }
        if opening.session_id > MAX_VARINT {
            self.fail_opening(core, opening);
            return;
        }
        let signal: u64 = stream_direction(opening.stream_id).signal();
        let empty: Vec<u8> = Vec::new();
        let prefix = webtransport_stream_data(signal, opening.session_id, empty.as_slice());
        assert(prefix@ =~= opening_prefix(opening));
        if opening.written > prefix.len() {
            self.fail_opening(core, opening);
            return;
        }
        self.write_prefix(core, opening, prefix);
    }

    /// Writes as much of the rest of a stream's prefix as the peer takes.
    fn write_prefix(&mut self, core: &mut H3Core, opening: Opening, prefix: Vec<u8>)
        requires
            old(self)@.opening_count() < old(self).max_openings,
            old(self).books_ok(),
            old(core).wf(),
            is_writable(opening),
            prefix@ == opening_prefix(opening),
        ensures
            final(self).wf(),
            final(core).wf(),
            final(self)@.opening_count() <= old(self)@.opening_count() + 1,
            final(self).max_openings == old(self).max_openings,
            final(self).with(*final(core)) == old(self).with(*old(core)).opening_tried(opening),
    {
        proof {
            reveal(Serving::opening_tried);
        }
        let rest = vstd::slice::slice_subrange(prefix.as_slice(), opening.written, prefix.len());
        assert(rest@ =~= opening_prefix(opening).skip(opening.written as int));
        match core.send_raw(opening.stream_id, rest, false) {
            SendResult::Stopped { .. } => {
                self.fail_opening(core, opening);
            },
            SendResult::Blocked => {
                self.openings.push(opening);
            },
            SendResult::Accepted { count, .. } => {
                let written: usize = opening.written + count;
                if written == prefix.len() {
                    self.commit_opening(core, opening, prefix.len());
                } else {
                    self.openings.push(Opening { written, ..opening });
                }
            },
        }
    }

    fn abandon_opening(&mut self, core: &mut H3Core, opening: Opening)
        requires
            old(core).wf(),
        ensures
            final(core).wf(),
            *final(self) == *old(self),
            final(self).with(*final(core)) == old(self).with(*old(core)).opening_abandoned(opening),
    {
        proof {
            reveal(Serving::opening_abandoned);
        }
        if opening.session_id <= MAX_VARINT {
            let signal: u64 = stream_direction(opening.stream_id).signal();
            let empty: Vec<u8> = Vec::new();
            let prefix = webtransport_stream_data(signal, opening.session_id, empty.as_slice());
            assert(prefix@ =~= opening_prefix(opening));
            if opening.written <= prefix.len() {
                let rest = vstd::slice::slice_subrange(
                    prefix.as_slice(),
                    opening.written,
                    prefix.len(),
                );
                assert(rest@ =~= opening_prefix(opening).skip(opening.written as int));
                let _ = core.send_raw(opening.stream_id, rest, false);
            }
        }
        self.drop_opening(core, opening);
    }

    fn pump(&mut self, core: &mut H3Core, list: Vec<Opening>)
        requires
            old(self)@.opening_count() + list@.len() <= old(self).max_openings,
            old(self).books_ok(),
            old(core).wf(),
        ensures
            final(self).wf(),
            final(core).wf(),
            final(self).with(*final(core)) == old(self).with(*old(core)).openings_pumped(list@, 0),
    {
        let ghost target = self.with(*core).openings_pumped(list@, 0);
        let mut i: usize = 0;
        while i < list.len() && self.left > 0
            invariant
                i <= list@.len(),
                self@.opening_count() + (list@.len() - i) <= self.max_openings,
                self.books_ok(),
                core.wf(),
                self.with(*core).openings_pumped(list@, i as int) == target,
            decreases list@.len() - i,
        {
            let ghost before = self.with(*core);
            self.left = self.left - 1;
            assert(self.with(*core) == before.worked());
            self.try_opening(core, list[i]);
            i += 1;
        }
        if i < list.len() {
            let mut openings: Vec<Opening> = Vec::new();
            let ghost begin = i as int;
            while i < list.len()
                invariant
                    0 <= begin <= i <= list@.len(),
                    openings@ == list@.subrange(begin, i as int),
                decreases list@.len() - i,
            {
                openings.push(list[i]);
                assert(openings@ =~= list@.subrange(begin, i + 1));
                i += 1;
            }
            assert(openings@ =~= list@.skip(begin));
            let ghost tail = self.openings@;
            openings.append(&mut self.openings);
            assert(openings@ =~= list@.skip(begin) + tail);
            self.openings = openings;
        }
    }

    /// Works on the streams that are being opened.
    pub fn advance_openings(&mut self, core: &mut H3Core)
        requires
            old(self).wf(),
            old(core).wf(),
        ensures
            final(self).wf(),
            final(core).wf(),
            final(self).with(*final(core)) == old(self).with(*old(core)).openings_advanced(),
    {
        proof {
            reveal(Serving::openings_advanced);
        }
        let mut list: Vec<Opening> = Vec::new();
        std::mem::swap(&mut list, &mut self.openings);
        self.pump(core, list);
    }

    /// Works on the streams that were taken up in this turn.
    pub fn advance_begun(&mut self, core: &mut H3Core)
        requires
            old(self).wf(),
            old(core).wf(),
        ensures
            final(self).wf(),
            final(core).wf(),
            final(self).with(*final(core)) == old(self).with(*old(core)).begun_advanced(),
    {
        proof {
            reveal(Serving::begun_advanced);
        }
        let mut list: Vec<Opening> = Vec::new();
        std::mem::swap(&mut list, &mut self.begun);
        self.pump(core, list);
    }

    /// Gives the waiting requests the streams that the peer allows by now.
    pub fn wake_waits(&mut self, core: &mut H3Core)
        requires
            old(self).wf(),
            old(core).wf(),
        ensures
            final(self).wf(),
            final(core).wf(),
            final(self).with(*final(core)) == old(self).with(*old(core)).waits_woken(),
    {
        proof {
            reveal(Serving::waits_woken);
        }
        let mut list: Vec<OpenWait> = Vec::new();
        std::mem::swap(&mut list, &mut self.waits);
        let ghost target = self.with(*core).waits_tried(list@, 0);
        let mut i: usize = 0;
        while i < list.len()
            invariant
                i <= list@.len(),
                self@.opening_count() + (list@.len() - i) <= self.max_openings,
                self.books_ok(),
                core.wf(),
                self.with(*core).waits_tried(list@, i as int) == target,
            decreases list@.len() - i,
        {
            let wait: OpenWait = list[i];
            if self.left > 0 && core.transport.upcoming(wait.direction).is_some() {
                let ghost before = self.with(*core);
                self.left = self.left - 1;
                assert(self.with(*core) == before.worked());
                self.begin_opening(core, wait.op, wait.session_id, wait.direction);
                self.open_work_total = bump(self.open_work_total);
            } else {
                self.waits.push(wait);
            }
            i += 1;
        }
    }

    /// Takes a request for a stream back.
    pub fn cancel_open(&mut self, core: &mut H3Core, op: u64)
        requires
            old(self).wf(),
            old(core).wf(),
        ensures
            final(self).wf(),
            final(core).wf(),
            ({
                let start = old(self).with(*old(core));
                final(self).with(*final(core)) == (Serving {
                    desk: DeskState {
                        waits: waits_but(start.desk.waits, op),
                        openings: Seq::empty(),
                        ..start.desk
                    },
                    ..start
                }).openings_abandoned(start.desk.openings, op, 0)
            }),
    {
        self.drop_waits(op);
        let mut list: Vec<Opening> = Vec::new();
        std::mem::swap(&mut list, &mut self.openings);
        let ghost target = self.with(*core).openings_abandoned(list@, op, 0);
        let mut i: usize = 0;
        while i < list.len()
            invariant
                i <= list@.len(),
                self@.opening_count() + (list@.len() - i) <= self.max_openings,
                self.books_ok(),
                core.wf(),
                self.with(*core).openings_abandoned(list@, op, i as int) == target,
            decreases list@.len() - i,
        {
            if list[i].op == op {
                self.abandon_opening(core, list[i]);
            } else {
                self.openings.push(list[i]);
            }
            i += 1;
        }
    }

    fn drop_waits(&mut self, op: u64)
        requires
            old(self).wf(),
        ensures
            final(self).wf(),
            final(self)@ == (DeskState { waits: waits_but(old(self)@.waits, op), ..old(self)@ }),
    {
        let mut list: Vec<OpenWait> = Vec::new();
        std::mem::swap(&mut list, &mut self.waits);
        let mut kept: Vec<OpenWait> = Vec::new();
        let mut i: usize = 0;
        assert(list@.take(0) =~= Seq::<OpenWait>::empty());
        while i < list.len()
            invariant
                i <= list@.len(),
                kept@ == waits_but(list@.take(i as int), op),
                kept@.len() <= i,
            decreases list@.len() - i,
        {
            assert(list@.take(i + 1).drop_last() =~= list@.take(i as int));
            assert(list@.take(i + 1).last() == list@[i as int]);
            if list[i].op != op {
                kept.push(list[i]);
            }
            i += 1;
        }
        assert(list@.take(i as int) =~= list@);
        self.waits = kept;
    }
}

} // verus!
