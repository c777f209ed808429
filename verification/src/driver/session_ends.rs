//! What the end of a session means for the requests about it, and what happens
//! to its streams meanwhile.

use vstd::prelude::*;

use crate::driver::desk::{Desk, DeskState, OpenWait, Opening, Serving};
use crate::driver::state::{CoreState, H3Core, Notice};
use crate::peer_log::{direction_of, stream_direction};
use crate::table::{lookup, without};
use crate::wire::datagram::session_flow_id;
use crate::wire::error_code::{application_error, http3_error_to_webtransport};
use crate::wt::datagrams::{of_others, DatagramState};
use crate::wt::requests::{
    Answer, SessionEndAnswer, WebTransportOpenStreamOutcome, WebTransportOutcome,
    WebTransportSessionTerminalOutcome,
};
use crate::wt::runtime::SessionPhase;
use crate::wt::stream_ends::{
    stop_report, stopped_with, WebTransportStreamReceiveTerminal,
    WebTransportStreamSendTerminalOutcome,
};
use crate::wt::types::{WebTransportSelectionError, WebTransportSessionCloseReason};
use crate::wt::waiters::{WaitState, Waiter};

verus! {

/// The stream that a notice is about.
pub open spec fn notice_stream(notice: Notice) -> u64 {
    match notice {
        Notice::Stopped { stream_id, .. } => stream_id,
        Notice::Fin { stream_id } => stream_id,
        Notice::Reset { stream_id, .. } => stream_id,
    }
}

/// How the session ended, or the connection.
#[derive(Clone, Copy, Debug, PartialEq, Eq, Structural)]
pub enum Teardown {
    Session,
    Connection,
}

/// What a request about the end of a send direction is answered when the session
/// or the connection ends first.
pub open spec fn torn_down(teardown: Teardown, session_id: u64, stream_id: u64) ->
    WebTransportStreamSendTerminalOutcome {
    match teardown {
        Teardown::Session => WebTransportStreamSendTerminalOutcome::SessionTerminated {
            session_id,
            stream_id,
        },
        Teardown::Connection => WebTransportStreamSendTerminalOutcome::ConnectionTerminated {
            session_id,
            stream_id,
        },
    }
}

/// The answers to the waiting requests about send directions when the session or
/// the connection ends first.
pub open spec fn teardown_answers(
    answers: Seq<(u64, Answer)>,
    waiters: Seq<Waiter>,
    teardown: Teardown,
    session_id: u64,
) -> Seq<(u64, Answer)> {
    answers + Seq::new(
        waiters.len(),
        |i: int|
            (
                waiters[i].op,
                Answer::SendEnd(torn_down(teardown, session_id, waiters[i].key)),
            ),
    )
}

/// The answers to the waiting requests for streams when there will be none.
pub open spec fn refusals(
    answers: Seq<(u64, Answer)>,
    waits: Seq<OpenWait>,
    error: WebTransportSelectionError,
) -> Seq<(u64, Answer)> {
    answers + Seq::new(
        waits.len(),
        |i: int|
            (waits[i].op, Answer::Open(WebTransportOpenStreamOutcome::Rejected(error))),
    )
}

impl Serving {
    /// The state after something happened to a stream. What happens to a stream
    /// that waits for its session is seen when it waits no more.
    #[verifier::opaque]
    pub open spec fn notice_taken(self, notice: Notice) -> Serving {
        let stream_id = notice_stream(notice);
        match self.stream(stream_id) {
            Some(stream) => if !stream.owned {
                Serving {
                    core: CoreState { notices: self.core.notices.push(notice), ..self.core },
                    ..self
                }
            } else {
                match notice {
                    Notice::Stopped { error_code, .. } => self.send_waiters_told(
                        self.desk.endings.woken_by_stop(stream_id),
                        stopped_with(stream_id, error_code),
                    ).with_endings(self.desk.endings.peer_stopped(stream_id, error_code)),
                    Notice::Fin { .. } => self.with_endings(
                        self.desk.endings.receive_ended(
                            stream_id,
                            WebTransportStreamReceiveTerminal::Fin,
                        ),
                    ).stream_checked(stream_id),
                    Notice::Reset { error_code, .. } => self.with_endings(
                        self.desk.endings.receive_ended(
                            stream_id,
                            WebTransportStreamReceiveTerminal::Reset {
                                wire_error_code: error_code,
                                application_error_code: application_error(error_code),
                            },
                        ),
                    ).stream_checked(stream_id),
                }
            },
            None => self,
        }
    }

    /// The state after what happened from `from` on.
    pub open spec fn notices_taken(self, notices: Seq<Notice>, from: int) -> Serving
        decreases notices.len() - from,
    {
        if from >= notices.len() {
            self
        } else {
            self.notice_taken(notices[from]).notices_taken(notices, from + 1)
        }
    }

    /// The state after all that happened to streams was seen.
    #[verifier::opaque]
    pub open spec fn notices_seen(self) -> Serving {
        (Serving {
            core: CoreState { notices: Seq::empty(), ..self.core },
            ..self
        }).notices_taken(self.core.notices, 0)
    }

    /// Whether this end closes the session or has closed it.
    pub open spec fn closed_here(self, session_id: u64) -> bool {
        match self.core.session {
            Some(s) => (s.session matches Some(session) && session.id == session_id
                && session.phase == SessionPhase::Closing) || (s.end_reason(session_id) matches Some(
                reason,
            ) && reason is Local),
            None => false,
        }
    }

    /// The state after the streams of a list from `from` on were given back.
    pub open spec fn openings_refused(
        self,
        list: Seq<Opening>,
        error: WebTransportSelectionError,
        from: int,
    ) -> Serving
        decreases list.len() - from,
    {
        if from >= list.len() {
            self
        } else {
            self.opening_dropped(list[from]).answered(
                list[from].op,
                Answer::Open(WebTransportOpenStreamOutcome::Rejected(error)),
            ).openings_refused(list, error, from + 1)
        }
    }

    /// The state after no more streams are opened.
    #[verifier::opaque]
    pub open spec fn opens_refused(self, error: WebTransportSelectionError) -> Serving {
        (Serving {
            desk: DeskState {
                waits: Seq::empty(),
                openings: Seq::empty(),
                begun: Seq::empty(),
                answers: refusals(self.desk.answers, self.desk.waits, error),
                ..self.desk
            },
            ..self
        }).openings_refused(self.desk.openings + self.desk.begun, error, 0)
    }

    /// The state after the streams of a list from `from` on count against the
    /// peer's limit no more.
    pub open spec fn locals_released(self, list: Seq<u64>, from: int) -> Serving
        decreases list.len() - from,
    {
        if from >= list.len() {
            self
        } else {
            (Serving {
                core: self.core.stream_released(direction_of(list[from])),
                ..self
            }).locals_released(list, from + 1)
        }
    }

    /// The state after everything about the streams of a session was answered.
    #[verifier::opaque]
    pub open spec fn streams_left(self, session_id: u64, teardown: Teardown) -> Serving {
        (Serving {
            desk: DeskState {
                answers: teardown_answers(
                    self.desk.answers,
                    self.desk.endings.waiters.list,
                    teardown,
                    session_id,
                ),
                endings: self.desk.endings.cleared(),
                forgotten: Seq::empty(),
                locals: Seq::empty(),
                serving: None,
                ..self.desk
            },
            ..self
        }).locals_released(self.desk.locals, 0)
    }

    /// The state after it was seen whether the session that the requests about
    /// streams are for has ended, or is being closed by this end.
    #[verifier::opaque]
    pub open spec fn streams_settled(self) -> Serving {
        match self.desk.serving {
            Some(session_id) => match self.selection(session_id) {
                Some(error) => {
                    let refused = self.opens_refused(
                        if self.closed_here(session_id) {
                            WebTransportSelectionError::ClosingSession
                        } else {
                            error
                        },
                    );
                    if error == WebTransportSelectionError::ClosingSession {
                        refused
                    } else {
                        refused.streams_left(session_id, Teardown::Session)
                    }
                },
                None => self,
            },
            None => self,
        }
    }

    /// The session that ended last.
    pub open spec fn last_session(self) -> Option<u64> {
        match self.core.session {
            Some(s) => match (s.session, s.last_end) {
                (Some(session), _) if !session.is_live() => Some(session.id),
                (_, Some((id, _))) => Some(id),
                _ => None,
            },
            None => None,
        }
    }

    /// The state after the datagrams of the session that ended last were dropped,
    /// unless they are those of another flow by now.
    #[verifier::opaque]
    pub open spec fn datagrams_settled(self) -> Serving {
        match self.last_session() {
            Some(id) => {
                let flow_id = session_flow_id(id);
                if self.is_live(id) || lookup(self.core.flows, flow_id) is Some {
                    self
                } else {
                    Serving {
                        core: CoreState {
                            datagrams: DatagramState {
                                queue: of_others(self.core.datagrams.queue, flow_id),
                                lost: without(self.core.datagrams.lost, flow_id),
                                ..self.core.datagrams
                            },
                            ..self.core
                        },
                        ..self
                    }
                }
            },
            None => self,
        }
    }

    /// Whether a session has not ended.
    pub open spec fn is_live(self, session_id: u64) -> bool {
        match self.core.session {
            Some(s) => s.session matches Some(session) && session.id == session_id
                && session.is_live(),
            None => false,
        }
    }

    /// What a request that waited for the end of a session is answered.
    pub open spec fn session_end(self, session_id: u64) -> SessionEndAnswer {
        match self.core.session {
            Some(s) => match s.end_reason(session_id) {
                Some(reason) => SessionEndAnswer::Terminated { session_id, reason },
                None => if s.is_stale(session_id) || (s.session matches Some(session) && session.id
                    == session_id) {
                    SessionEndAnswer::StaleSession { session_id }
                } else {
                    SessionEndAnswer::UnknownSession { session_id }
                },
            },
            None => SessionEndAnswer::UnknownSession { session_id },
        }
    }

    /// The state after the waiting requests of a list from `from` on were answered
    /// as far as their session has ended.
    pub open spec fn session_waits_tried(self, list: Seq<Waiter>, from: int) -> Serving
        decreases list.len() - from,
    {
        if from >= list.len() {
            self
        } else if self.is_live(list[from].key) {
            (Serving {
                desk: DeskState {
                    session_waits: WaitState {
                        list: self.desk.session_waits.list.push(list[from]),
                        ..self.desk.session_waits
                    },
                    ..self.desk
                },
                ..self
            }).session_waits_tried(list, from + 1)
        } else {
            self.answered(
                list[from].op,
                Answer::SessionEnd(self.session_end(list[from].key)),
            ).session_waits_tried(list, from + 1)
        }
    }

    /// The state after the requests about sessions that have ended were answered.
    #[verifier::opaque]
    pub open spec fn sessions_settled(self) -> Serving {
        (Serving {
            desk: DeskState {
                session_waits: WaitState { list: Seq::empty(), ..self.desk.session_waits },
                ..self.desk
            },
            ..self
        }).session_waits_tried(self.desk.session_waits.list, 0)
    }

    /// The state after the application asked how a session ends. A session that
    /// is over and forgotten has no end to tell any more.
    #[verifier::opaque]
    pub open spec fn session_end_requested(self, op: u64, session_id: u64) -> Serving {
        if self.is_live(session_id) {
            let asked = Serving {
                desk: DeskState {
                    session_waits: self.desk.session_waits.registered(op, session_id),
                    ..self.desk
                },
                ..self
            };
            if self.desk.session_waits.list.len() < self.desk.session_waits.bound {
                asked
            } else {
                asked.answered(
                    op,
                    Answer::SessionEnd(SessionEndAnswer::ResourceLimit { session_id }),
                )
            }
        } else {
            let answer = match self.selection(session_id) {
                Some(WebTransportSelectionError::StaleSession) => SessionEndAnswer::StaleSession {
                    session_id,
                },
                _ => self.session_end(session_id),
            };
            self.answered(op, Answer::SessionEnd(answer))
        }
    }
}

impl Desk {
    fn take_notice(&mut self, core: &mut H3Core, notice: Notice)
        requires
            old(self).wf(),
            old(core).wf(),
        ensures
            final(self).wf(),
            final(core).wf(),
            final(self).with(*final(core)) == old(self).with(*old(core)).notice_taken(notice),
    {
        proof {
            reveal(Serving::notice_taken);
        }
        let stream_id: u64 = match notice {
            Notice::Stopped { stream_id, .. } => stream_id,
            Notice::Fin { stream_id } => stream_id,
            Notice::Reset { stream_id, .. } => stream_id,
        };
        let owned = match self.stream(core, stream_id) {
            Some(stream) => stream.owned,
            None => {
                return;
            },
        };
        if !owned {
            core.notices.push(notice);
            return;
        }
        match notice {
            Notice::Stopped { error_code, .. } => {
                let woken = self.endings.on_peer_stop(stream_id, error_code);
                self.tell_send_waiters(&woken, stop_report(stream_id, error_code));
            },
            Notice::Fin { .. } => {
                self.endings.receive_end(stream_id, WebTransportStreamReceiveTerminal::Fin);
                self.check_stream(core, stream_id);
            },
            Notice::Reset { error_code, .. } => {
                self.endings.receive_end(
                    stream_id,
                    WebTransportStreamReceiveTerminal::Reset {
                        wire_error_code: error_code,
                        application_error_code: http3_error_to_webtransport(error_code),
                    },
                );
                self.check_stream(core, stream_id);
            },
        }
    }

    /// Sees all that happened to streams.
    pub fn see_notices(&mut self, core: &mut H3Core)
        requires
            old(self).wf(),
            old(core).wf(),
        ensures
            final(self).wf(),
            final(core).wf(),
            final(self).with(*final(core)) == old(self).with(*old(core)).notices_seen(),
    {
        proof {
            reveal(Serving::notices_seen);
        }
        let mut list: Vec<Notice> = Vec::new();
        std::mem::swap(&mut list, &mut core.notices);
        let ghost target = self.with(*core).notices_taken(list@, 0);
        let mut i: usize = 0;
        while i < list.len()
            invariant
                i <= list@.len(),
                self.wf(),
                core.wf(),
                self.with(*core).notices_taken(list@, i as int) == target,
            decreases list@.len() - i,
        {
            self.take_notice(core, list[i]);
            i += 1;
        }
    }

    /// Whether this end closes the session or has closed it.
    pub fn is_closed_here(&self, core: &H3Core, session_id: u64) -> (closed: bool)
        ensures
            closed == self.with(*core).closed_here(session_id),
    {
        match &core.session {
            Some(runtime) => {
                if let Some(SessionPhase::Closing) = runtime.phase(session_id) {
                    return true;
                }
                match runtime.end_of(session_id) {
                    Some(WebTransportSessionCloseReason::Local { .. }) => true,
                    _ => false,
                }
            },
            None => false,
        }
    }

    /// Refuses every request for a stream.
    pub fn refuse_opens(&mut self, core: &mut H3Core, error: WebTransportSelectionError)
        requires
            old(self).wf(),
            old(core).wf(),
        ensures
            final(self).wf(),
            final(core).wf(),
            final(self).with(*final(core)) == old(self).with(*old(core)).opens_refused(error),
    {
        proof {
            reveal(Serving::opens_refused);
        }
        let mut waits: Vec<OpenWait> = Vec::new();
        std::mem::swap(&mut waits, &mut self.waits);
        let mut list: Vec<Opening> = Vec::new();
        std::mem::swap(&mut list, &mut self.openings);
        let ghost first = list@;
        let ghost second = self.begun@;
        list.append(&mut self.begun);
        assert(list@ =~= first + second);
        assert(self.begun@ =~= Seq::empty());
        self.refuse_waits(&waits, error);
        let ghost target = self.with(*core).openings_refused(list@, error, 0);
        let mut i: usize = 0;
        while i < list.len()
            invariant
                i <= list@.len(),
                self.wf(),
                core.wf(),
                self.with(*core).openings_refused(list@, error, i as int) == target,
            decreases list@.len() - i,
        {
            self.drop_opening(core, list[i]);
            self.answer(
                list[i].op,
                WebTransportOutcome::Open(WebTransportOpenStreamOutcome::Rejected(error)),
            );
            i += 1;
        }
    }

    fn refuse_waits(&mut self, waits: &Vec<OpenWait>, error: WebTransportSelectionError)
        requires
            old(self).wf(),
        ensures
            final(self).wf(),
            final(self)@ == (DeskState {
                answers: refusals(old(self)@.answers, waits@, error),
                ..old(self)@
            }),
    {
        let mut i: usize = 0;
        assert(refusals(self@.answers, waits@.take(0), error) =~= self@.answers);
        while i < waits.len()
            invariant
                i <= waits@.len(),
                self.wf(),
                self@ == (DeskState {
                    answers: refusals(old(self)@.answers, waits@.take(i as int), error),
                    ..old(self)@
                }),
            decreases waits@.len() - i,
        {
            self.answer(
                waits[i].op,
                WebTransportOutcome::Open(WebTransportOpenStreamOutcome::Rejected(error)),
            );
            assert(self@.answers =~= refusals(old(self)@.answers, waits@.take(i + 1), error));
            i += 1;
        }
        assert(waits@.take(i as int) =~= waits@);
    }

    fn tear_down_waiters(&mut self, waiters: &Vec<Waiter>, teardown: Teardown, session_id: u64)
        requires
            old(self).wf(),
        ensures
            final(self).wf(),
            final(self)@ == (DeskState {
                answers: teardown_answers(
                    old(self)@.answers,
                    waiters@,
                    teardown,
                    session_id,
                ),
                ..old(self)@
            }),
    {
        let mut i: usize = 0;
        assert(teardown_answers(self@.answers, waiters@.take(0), teardown, session_id)
            =~= self@.answers);
        while i < waiters.len()
            invariant
                i <= waiters@.len(),
                self.wf(),
                self@ == (DeskState {
                    answers: teardown_answers(
                        old(self)@.answers,
                        waiters@.take(i as int),
                        teardown,
                        session_id,
                    ),
                    ..old(self)@
                }),
            decreases waiters@.len() - i,
        {
            let stream_id: u64 = waiters[i].key;
            let outcome = match teardown {
                Teardown::Session => WebTransportStreamSendTerminalOutcome::SessionTerminated {
                    session_id,
                    stream_id,
                },
                Teardown::Connection =>
                    WebTransportStreamSendTerminalOutcome::ConnectionTerminated {
                    session_id,
                    stream_id,
                },
            };
            self.answer(waiters[i].op, WebTransportOutcome::SendEnd(outcome));
            assert(self@.answers =~= teardown_answers(
                old(self)@.answers,
                waiters@.take(i + 1),
                teardown,
                session_id,
            ));
            i += 1;
        }
        assert(waiters@.take(i as int) =~= waiters@);
    }

    /// Answers everything about the streams of a session.
    pub fn leave_streams(&mut self, core: &mut H3Core, session_id: u64, teardown: Teardown)
        requires
            old(self).wf(),
            old(core).wf(),
        ensures
            final(self).wf(),
            final(core).wf(),
            final(self).with(*final(core)) == old(self).with(*old(core)).streams_left(
                session_id,
                teardown,
            ),
    {
        proof {
            reveal(Serving::streams_left);
        }
        let waiters = self.endings.clear();
        self.tear_down_waiters(&waiters, teardown, session_id);
        self.forgotten = Vec::new();
        let mut list: Vec<u64> = Vec::new();
        std::mem::swap(&mut list, &mut self.locals);
        self.serving = None;
        let ghost target = self.with(*core).locals_released(list@, 0);
        let mut i: usize = 0;
        while i < list.len()
            invariant
                i <= list@.len(),
                self.wf(),
                core.wf(),
                self.with(*core).locals_released(list@, i as int) == target,
            decreases list@.len() - i,
        {
            core.release_stream(stream_direction(list[i]));
            i += 1;
        }
    }

    /// Sees whether the session that the requests about streams are for has
    /// ended, or is being closed by this end.
    pub fn settle_streams(&mut self, core: &mut H3Core)
        requires
            old(self).wf(),
            old(core).wf(),
        ensures
            final(self).wf(),
            final(core).wf(),
            final(self).with(*final(core)) == old(self).with(*old(core)).streams_settled(),
    {
        proof {
            reveal(Serving::streams_settled);
        }
        let session_id: u64 = match self.serving {
            Some(id) => id,
            None => {
                return;
            },
        };
        if let Some(error) = self.select(core, session_id) {
            let refusal = if self.is_closed_here(core, session_id) {
                WebTransportSelectionError::ClosingSession
            } else {
                error
            };
            self.refuse_opens(core, refusal);
            if error != WebTransportSelectionError::ClosingSession {
                self.leave_streams(core, session_id, Teardown::Session);
            }
        }
    }

    /// Drops the datagrams of the session that ended last.
    pub fn settle_datagrams(&mut self, core: &mut H3Core)
        requires
            old(self).wf(),
            old(core).wf(),
        ensures
            final(self).wf(),
            final(core).wf(),
            final(self).with(*final(core)) == old(self).with(*old(core)).datagrams_settled(),
    {
        proof {
            reveal(Serving::datagrams_settled);
        }
        let last: Option<u64> = match &core.session {
            Some(runtime) => runtime.last_session(),
            None => None,
        };
        if let Some(id) = last {
            if !self.session_lives(core, id) && !core.flows.contains(id / 4) {
                core.datagrams.discard(id / 4);
            }
        }
    }

    fn session_lives(&self, core: &H3Core, session_id: u64) -> (lives: bool)
        ensures
            lives == self.with(*core).is_live(session_id),
    {
        match &core.session {
            Some(runtime) => match runtime.phase(session_id) {
                Some(phase) => phase != SessionPhase::Terminal,
                None => false,
            },
            None => false,
        }
    }

    /// What a request that waited for the end of a session is answered.
    pub fn end_of_session(&self, core: &H3Core, session_id: u64) -> (outcome:
        WebTransportSessionTerminalOutcome)
        ensures
            outcome@ == self.with(*core).session_end(session_id),
    {
        match &core.session {
            Some(runtime) => match runtime.end_of(session_id) {
                Some(reason) => WebTransportSessionTerminalOutcome::Terminated {
                    session_id,
                    reason,
                },
                None => if runtime.stale(session_id) || runtime.is_session(session_id) {
                    WebTransportSessionTerminalOutcome::StaleSession { session_id }
                } else {
                    WebTransportSessionTerminalOutcome::UnknownSession { session_id }
                },
            },
            None => WebTransportSessionTerminalOutcome::UnknownSession { session_id },
        }
    }

    /// Answers the requests about sessions that have ended.
    pub fn settle_sessions(&mut self, core: &H3Core)
        requires
            old(self).wf(),
        ensures
            final(self).wf(),
            final(self).with(*core) == old(self).with(*core).sessions_settled(),
    {
        proof {
            reveal(Serving::sessions_settled);
        }
        let list = self.session_waits.settle_all();
        let ghost target = self.with(*core).session_waits_tried(list@, 0);
        let mut i: usize = 0;
        while i < list.len()
            invariant
                i <= list@.len(),
                self.wf(),
                self.with(*core).session_waits_tried(list@, i as int) == target,
            decreases list@.len() - i,
        {
            let waiter: Waiter = list[i];
            if self.session_lives(core, waiter.key) {
                self.session_waits.put_back(waiter);
            } else {
                let outcome = self.end_of_session(core, waiter.key);
                self.answer(waiter.op, WebTransportOutcome::SessionEnd(outcome));
            }
            i += 1;
        }
    }

    /// The application asks how a session ends.
    pub fn request_session_end(&mut self, core: &H3Core, op: u64, session_id: u64)
        requires
            old(self).wf(),
        ensures
            final(self).wf(),
            final(self).with(*core) == old(self).with(*core).session_end_requested(op, session_id),
    {
        proof {
            reveal(Serving::session_end_requested);
        }
        if self.session_lives(core, session_id) {
            if !self.session_waits.register(op, session_id) {
                self.answer(
                    op,
                    WebTransportOutcome::SessionEnd(
                        WebTransportSessionTerminalOutcome::ResourceLimit { session_id },
                    ),
                );
            }
        } else {
            let outcome = match self.select(core, session_id) {
                Some(WebTransportSelectionError::StaleSession) =>
                    WebTransportSessionTerminalOutcome::StaleSession { session_id },
                _ => self.end_of_session(core, session_id),
            };
            self.answer(op, WebTransportOutcome::SessionEnd(outcome));
        }
    }
}

} // verus!
