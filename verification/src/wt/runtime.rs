//! The life of a session and of the streams that belong to it.
//!
//! A connection carries at most one session at a time. Streams of the peer that
//! name a session which is not accepted yet wait for it, within a bound.

use vstd::prelude::*;
use vstd::string::*;
use vstd::utf8::encode_utf8;

use crate::conn_close::{H3_MESSAGE_ERROR, H3_REQUEST_REJECTED};
use crate::peer_log::{direction_of, stream_direction};
use crate::table::{lookup, put, without, Table};
use crate::wire::capsule::{
    close_capsule, scan_capsules, webtransport_close_capsule, CapsuleRead, CapsuleReader,
    CapsuleScan, MAX_CLOSE_MESSAGE_LEN,
};
use crate::wire::stream_prefix::WebTransportStreamDirection;
use crate::wt::types::{
    CloseReason, SessionEvent, StreamAction, WebTransportSelectionError,
    WebTransportSessionCloseReason, WebTransportSessionEvent, WT_BUFFERED_STREAM_REJECTED,
    WT_SESSION_GONE,
};

verus! {

/// How far a session has come.
#[derive(Clone, Copy, Debug, PartialEq, Eq, Structural)]
pub enum SessionPhase {
    /// No final response was exchanged yet.
    Pending,
    /// A final successful response was exchanged.
    Active,
    /// This end is writing its close capsule.
    Closing,
    /// The session has ended.
    Terminal,
}

/// A close capsule that is being written.
#[derive(Debug)]
pub struct LocalClose {
    pub error_code: u32,
    pub message: String,
    /// The bytes of the capsule.
    pub capsule: Vec<u8>,
    /// How many of them were written.
    pub written: usize,
}

/// The session of a connection.
#[derive(Debug)]
pub struct Session {
    /// The CONNECT stream.
    pub id: u64,
    pub phase: SessionPhase,
    /// Whether the peer's close capsule was read.
    pub peer_closed: bool,
    /// Whether the peer's direction of the CONNECT stream has ended.
    pub receive_done: bool,
    /// Whether this end's direction of the CONNECT stream has ended.
    pub send_done: bool,
    /// Why the session ended. A rejected session has no reason.
    pub reason: Option<WebTransportSessionCloseReason>,
    /// The close that is being written.
    pub close: Option<LocalClose>,
}

/// The value of a [`LocalClose`].
pub ghost struct CloseState {
    pub error_code: u32,
    pub message: Seq<char>,
    pub capsule: Seq<u8>,
    pub written: nat,
}

impl View for LocalClose {
    type V = CloseState;

    open spec fn view(&self) -> CloseState {
        CloseState {
            error_code: self.error_code,
            message: self.message@,
            capsule: self.capsule@,
            written: self.written as nat,
        }
    }
}

/// The value of a [`Session`].
pub ghost struct SessionState {
    pub id: u64,
    pub phase: SessionPhase,
    pub peer_closed: bool,
    pub receive_done: bool,
    pub send_done: bool,
    pub reason: Option<CloseReason>,
    pub close: Option<CloseState>,
}

impl View for Session {
    type V = SessionState;

    open spec fn view(&self) -> SessionState {
        SessionState {
            id: self.id,
            phase: self.phase,
            peer_closed: self.peer_closed,
            receive_done: self.receive_done,
            send_done: self.send_done,
            reason: match self.reason {
                Some(reason) => Some(reason@),
                None => None,
            },
            close: match self.close {
                Some(close) => Some(close@),
                None => None,
            },
        }
    }
}

impl SessionState {
    /// A session that was just asked for.
    pub open spec fn asked_for(id: u64) -> SessionState {
        SessionState {
            id,
            phase: SessionPhase::Pending,
            peer_closed: false,
            receive_done: false,
            send_done: false,
            reason: None,
            close: None,
        }
    }

    /// Whether the session has not ended.
    pub open spec fn is_live(self) -> bool {
        self.phase != SessionPhase::Terminal
    }

    /// Whether streams belong to the session now.
    pub open spec fn carries_streams(self) -> bool {
        self.phase == SessionPhase::Active || self.phase == SessionPhase::Closing
    }
}

/// A stream that belongs to a session or waits for one.
#[derive(Clone, Copy, Debug, PartialEq, Eq, Structural)]
pub struct SessionStream {
    pub session_id: u64,
    pub direction: WebTransportStreamDirection,
    /// Whether this end opened it.
    pub local: bool,
    /// Whether its session was accepted.
    pub owned: bool,
    /// How many bytes its prefix has.
    pub prefix_len: usize,
}

/// Whether an identifier can be that of a session: a bidirectional stream of
/// the client.
pub open spec fn is_session_id(id: u64) -> bool {
    id % 4 == 0
}

/// The value of a [`WebTransportRuntime`].
pub ghost struct RuntimeState {
    pub max_pending: nat,
    pub max_pending_per_session: nat,
    pub session: Option<SessionState>,
    /// The highest identifier of a session that is over.
    pub retired: Option<u64>,
    /// The session that ended last, and why it did.
    pub last_end: Option<(u64, CloseReason)>,
    pub streams: Seq<(u64, SessionStream)>,
    /// The bytes of the CONNECT stream that were not read as capsules yet.
    pub held: Seq<u8>,
    /// What the application still has to learn.
    pub events: Seq<SessionEvent>,
    /// What the transport still has to do.
    pub actions: Seq<StreamAction>,
}

/// How many streams of a table wait for their session.
pub open spec fn waiting_count(rows: Seq<(u64, SessionStream)>) -> nat
    decreases rows.len(),
{
    if rows.len() == 0 {
        0
    } else {
        waiting_count(rows.drop_last()) + if rows.last().1.owned {
            0nat
        } else {
            1nat
        }
    }
}

/// How many streams of a table wait for the session `id`.
pub open spec fn waiting_for(rows: Seq<(u64, SessionStream)>, id: u64) -> nat
    decreases rows.len(),
{
    if rows.len() == 0 {
        0
    } else {
        waiting_for(rows.drop_last(), id) + if !rows.last().1.owned && rows.last().1.session_id
            == id {
            1nat
        } else {
            0nat
        }
    }
}

/// The streams of a table that do not name the session `id`.
pub open spec fn other_streams(rows: Seq<(u64, SessionStream)>, id: u64) -> Seq<
    (u64, SessionStream),
>
    decreases rows.len(),
{
    if rows.len() == 0 {
        Seq::empty()
    } else if rows.last().1.session_id == id {
        other_streams(rows.drop_last(), id)
    } else {
        other_streams(rows.drop_last(), id).push(rows.last())
    }
}

/// What it takes to turn a stream away: the peer's direction is refused where
/// there is one, and this end's direction is reset where there is one.
pub open spec fn turn_away(
    actions: Seq<StreamAction>,
    stream_id: u64,
    stream: SessionStream,
    error_code: u64,
) -> Seq<StreamAction> {
    let bidi = stream.direction == WebTransportStreamDirection::Bidi;
    let stopped = if bidi || !stream.local {
        actions.push(StreamAction::Stop { stream_id, error_code })
    } else {
        actions
    };
    if bidi || stream.local {
        stopped.push(StreamAction::Reset { stream_id, error_code })
    } else {
        stopped
    }
}

/// The code that turns a stream of an ended session away.
pub open spec fn end_code(stream: SessionStream) -> u64 {
    if stream.owned {
        WT_SESSION_GONE
    } else {
        WT_BUFFERED_STREAM_REJECTED
    }
}

/// What it takes to turn all streams of the session `id` away.
pub open spec fn turn_all_away(
    actions: Seq<StreamAction>,
    rows: Seq<(u64, SessionStream)>,
    id: u64,
) -> Seq<StreamAction>
    decreases rows.len(),
{
    if rows.len() == 0 {
        actions
    } else {
        let front = turn_all_away(actions, rows.drop_last(), id);
        let (stream_id, stream) = rows.last();
        if stream.session_id == id {
            turn_away(front, stream_id, stream, end_code(stream))
        } else {
            front
        }
    }
}

/// The event that hands a stream to the application.
pub open spec fn association(stream_id: u64, stream: SessionStream) -> SessionEvent {
    SessionEvent::AssociatedStream {
        session_id: stream.session_id,
        stream_id,
        direction: stream.direction,
        prefix_len: stream.prefix_len,
    }
}

/// The events that hand the waiting streams of the session `id` over.
pub open spec fn associations(
    events: Seq<SessionEvent>,
    rows: Seq<(u64, SessionStream)>,
    id: u64,
) -> Seq<SessionEvent>
    decreases rows.len(),
{
    if rows.len() == 0 {
        events
    } else {
        let front = associations(events, rows.drop_last(), id);
        let (stream_id, stream) = rows.last();
        if stream.session_id == id && !stream.owned {
            front.push(association(stream_id, stream))
        } else {
            front
        }
    }
}

/// The streams of a table, with those of the session `id` handed over.
pub open spec fn handed_over(rows: Seq<(u64, SessionStream)>, id: u64) -> Seq<
    (u64, SessionStream),
> {
    Seq::new(
        rows.len(),
        |i: int|
            (
                rows[i].0,
                SessionStream {
                    owned: rows[i].1.owned || rows[i].1.session_id == id,
                    ..rows[i].1
                },
            ),
    )
}

impl RuntimeState {
    /// The greater of the highest retired identifier and `id`.
    pub open spec fn retired_with(self, id: u64) -> Option<u64> {
        match self.retired {
            Some(highest) => Some(
                if highest < id {
                    id
                } else {
                    highest
                },
            ),
            None => Some(id),
        }
    }

    /// Why the session `id` ended, where no other session ended after it.
    pub open spec fn end_reason(self, id: u64) -> Option<CloseReason> {
        match self.last_end {
            Some((last, reason)) => if last == id {
                Some(reason)
            } else {
                None
            },
            None => None,
        }
    }

    /// Whether `id` is the identifier of a session that is over.
    pub open spec fn is_stale(self, id: u64) -> bool {
        is_session_id(id) && (self.retired matches Some(highest) && id <= highest) && !(
        self.session matches Some(s) && s.id == id)
    }

    /// Whether a request for the session `id` can be carried out.
    pub open spec fn selection(self, id: u64) -> Option<WebTransportSelectionError> {
        if self.session matches Some(s) && s.id == id {
            match self.session->Some_0.phase {
                SessionPhase::Pending => Some(WebTransportSelectionError::PendingSession),
                SessionPhase::Active => None,
                SessionPhase::Closing => Some(WebTransportSelectionError::ClosingSession),
                SessionPhase::Terminal => Some(WebTransportSelectionError::TerminalSession),
            }
        } else if self.is_stale(id) {
            Some(WebTransportSelectionError::StaleSession)
        } else {
            Some(WebTransportSelectionError::UnknownSession)
        }
    }

    /// Whether a new request for the session `id` is taken up.
    pub open spec fn takes_session(self, id: u64) -> bool {
        self.session is None && is_session_id(id) && !self.is_stale(id)
    }

    /// The state after the session `id` was asked for.
    pub open spec fn asked(self, id: u64) -> RuntimeState {
        if self.takes_session(id) {
            RuntimeState { session: Some(SessionState::asked_for(id)), held: Seq::empty(), ..self }
        } else {
            RuntimeState {
                retired: self.retired_with(id),
                streams: other_streams(self.streams, id),
                actions: turn_all_away(
                    self.actions.push(
                        StreamAction::Reset { stream_id: id, error_code: H3_REQUEST_REJECTED },
                    ).push(
                        StreamAction::Stop { stream_id: id, error_code: H3_REQUEST_REJECTED },
                    ),
                    self.streams,
                    id,
                ),
                ..self
            }
        }
    }

    /// The state with one more event.
    pub open spec fn saying(self, event: SessionEvent) -> RuntimeState {
        RuntimeState { events: self.events.push(event), ..self }
    }

    /// The state with one more action.
    pub open spec fn doing(self, action: StreamAction) -> RuntimeState {
        RuntimeState { actions: self.actions.push(action), ..self }
    }

    /// The state with the session in the given phase.
    pub open spec fn in_phase(self, phase: SessionPhase) -> RuntimeState {
        match self.session {
            Some(s) => RuntimeState { session: Some(SessionState { phase, ..s }), ..self },
            None => self,
        }
    }

    /// The state without the streams of the session `id`, which are turned away.
    pub open spec fn without_streams(self, id: u64) -> RuntimeState {
        RuntimeState {
            streams: other_streams(self.streams, id),
            actions: turn_all_away(self.actions, self.streams, id),
            ..self
        }
    }

    /// The state after a live session ended. A session that is over stays as it
    /// is.
    pub open spec fn ended(self, reason: CloseReason) -> RuntimeState {
        match self.session {
            Some(s) => if s.is_live() {
                (RuntimeState {
                    session: Some(
                        SessionState {
                            phase: SessionPhase::Terminal,
                            reason: Some(reason),
                            close: None,
                            ..s
                        },
                    ),
                    last_end: Some((s.id, reason)),
                    held: Seq::empty(),
                    ..self
                }).without_streams(s.id).saying(
                    SessionEvent::Terminated { session_id: s.id, reason },
                )
            } else {
                self
            },
            None => self,
        }
    }

    /// The state without a session of which nothing is left to happen.
    pub open spec fn swept(self) -> RuntimeState {
        match self.session {
            Some(s) => if !s.is_live() && s.receive_done && s.send_done {
                RuntimeState {
                    session: None,
                    retired: self.retired_with(s.id),
                    held: Seq::empty(),
                    ..self
                }
            } else {
                self
            },
            None => self,
        }
    }

    /// The state after a final successful response.
    pub open spec fn accepted(self) -> RuntimeState {
        match self.session {
            Some(s) => if s.phase == SessionPhase::Pending {
                self.in_phase(SessionPhase::Active).saying(
                    SessionEvent::Accepted { session_id: s.id },
                )
            } else {
                self
            },
            None => self,
        }
    }

    /// The state after the waiting streams of an active session were handed
    /// over.
    pub open spec fn admitted(self) -> RuntimeState {
        match self.session {
            Some(s) => if s.phase == SessionPhase::Active {
                RuntimeState {
                    streams: handed_over(self.streams, s.id),
                    events: associations(self.events, self.streams, s.id),
                    ..self
                }
            } else {
                self
            },
            None => self,
        }
    }

    /// The state after a final response that is not successful.
    pub open spec fn rejected(self, status: u16) -> RuntimeState {
        match self.session {
            Some(s) => if s.phase == SessionPhase::Pending {
                (RuntimeState {
                    session: Some(SessionState { phase: SessionPhase::Terminal, ..s }),
                    held: Seq::empty(),
                    ..self
                }).without_streams(s.id).saying(
                    SessionEvent::Rejected { session_id: s.id, status },
                )
            } else {
                self
            },
            None => self,
        }
    }

    /// The state after a response with the given status. An informational one
    /// changes nothing.
    pub open spec fn answered(self, status: u16) -> RuntimeState {
        if status < 200 {
            self
        } else if status < 300 {
            self.accepted()
        } else {
            self.rejected(status)
        }
    }

    /// The state after the capsules that are held were read.
    pub open spec fn capsules_read(self) -> RuntimeState {
        match self.session {
            Some(s) => if s.carries_streams() {
                match scan_capsules(self.held) {
                    CapsuleScan::Waiting { rest } => RuntimeState { held: rest, ..self },
                    CapsuleScan::Malformed => self.ended(
                        CloseReason::ProtocolError,
                    ).doing(
                        StreamAction::Reset { stream_id: s.id, error_code: H3_MESSAGE_ERROR },
                    ).doing(StreamAction::Stop { stream_id: s.id, error_code: H3_MESSAGE_ERROR }),
                    CapsuleScan::Closed { error_code, message, rest } => (RuntimeState {
                        held: rest,
                        ..self
                    }).closed_by_peer(CloseReason::Peer { error_code, message }, rest.len()),
                }
            } else {
                self
            },
            None => self,
        }
    }

    /// The state after the peer closed the session, with `reason` and with
    /// `extra` bytes behind its capsule.
    pub open spec fn closed_by_peer(
        self,
        reason: CloseReason,
        extra: nat,
    ) -> RuntimeState {
        match self.session {
            Some(s) => {
                let over = (RuntimeState {
                    session: Some(SessionState { peer_closed: true, send_done: true, ..s }),
                    ..self
                }).ended(reason).doing(StreamAction::Finish { stream_id: s.id });
                if extra > 0 {
                    over.doing(
                        StreamAction::Reset { stream_id: s.id, error_code: H3_MESSAGE_ERROR },
                    )
                } else {
                    over
                }
            },
            None => self,
        }
    }

    /// The state after body bytes arrived on the CONNECT stream. Before the
    /// session is accepted they wait; behind the peer's close they are an error;
    /// after any other end they are ignored.
    pub open spec fn received(self, bytes: Seq<u8>) -> RuntimeState {
        match self.session {
            Some(s) => if s.is_live() {
                RuntimeState { held: self.held + bytes, ..self }
            } else if s.peer_closed && bytes.len() > 0 {
                self.doing(StreamAction::Reset { stream_id: s.id, error_code: H3_MESSAGE_ERROR })
            } else {
                self
            },
            None => self,
        }
    }

    /// The state after the peer ended the CONNECT stream, cleanly or not.
    pub open spec fn peer_ended(self, reason: CloseReason) -> RuntimeState {
        match self.session {
            Some(s) => (RuntimeState {
                session: Some(SessionState { receive_done: true, ..s }),
                ..self
            }).ended(reason).swept(),
            None => self,
        }
    }

    /// The state after this end's direction of the CONNECT stream ended.
    pub open spec fn locally_ended(self) -> RuntimeState {
        match self.session {
            Some(s) => (RuntimeState {
                session: Some(SessionState { send_done: true, ..s }),
                ..self
            }).swept(),
            None => self,
        }
    }

    /// The state after a write found that the peer refuses the CONNECT stream.
    pub open spec fn stopped(self, error_code: u64) -> RuntimeState {
        match self.session {
            Some(s) => (RuntimeState {
                session: Some(SessionState { send_done: true, ..s }),
                ..self
            }).ended(CloseReason::ConnectStopped { error_code }).swept(),
            None => self,
        }
    }

    /// Whether one more stream can wait for the session `id`, with `others`
    /// streams waiting elsewhere.
    pub open spec fn can_wait(self, id: u64, others: nat) -> bool {
        waiting_count(self.streams) + others < self.max_pending && waiting_for(self.streams, id)
            < self.max_pending_per_session
    }

    /// The state after the prefix of a stream of the peer arrived.
    pub open spec fn stream_arrived(
        self,
        stream_id: u64,
        session_id: u64,
        prefix_len: usize,
        others: nat,
    ) -> RuntimeState {
        let stream = SessionStream {
            session_id,
            direction: direction_of(stream_id),
            local: false,
            owned: false,
            prefix_len,
        };
        let owned = SessionStream { owned: true, ..stream };
        if lookup(self.streams, stream_id) is Some {
            self
        } else {
            match self.selection(session_id) {
                None => (RuntimeState {
                    streams: put(self.streams, stream_id, owned),
                    ..self
                }).saying(association(stream_id, owned)),
                Some(WebTransportSelectionError::ClosingSession)
                | Some(WebTransportSelectionError::TerminalSession) => RuntimeState {
                    actions: turn_away(self.actions, stream_id, stream, WT_SESSION_GONE),
                    ..self
                },
                Some(WebTransportSelectionError::StaleSession) => RuntimeState {
                    actions: turn_away(
                        self.actions,
                        stream_id,
                        stream,
                        WT_BUFFERED_STREAM_REJECTED,
                    ),
                    ..self
                },
                _ => if is_session_id(session_id) && self.can_wait(session_id, others) {
                    RuntimeState { streams: put(self.streams, stream_id, stream), ..self }
                } else {
                    RuntimeState {
                        actions: turn_away(
                            self.actions,
                            stream_id,
                            stream,
                            WT_BUFFERED_STREAM_REJECTED,
                        ),
                        ..self
                    }
                },
            }
        }
    }

    /// The state after this end opened a stream of the active session.
    pub open spec fn stream_opened(
        self,
        stream_id: u64,
        session_id: u64,
        prefix_len: usize,
    ) -> RuntimeState {
        RuntimeState {
            streams: put(
                self.streams,
                stream_id,
                SessionStream {
                    session_id,
                    direction: direction_of(stream_id),
                    local: true,
                    owned: true,
                    prefix_len,
                },
            ),
            ..self
        }
    }

    /// The state after this end started to close the session `id`.
    pub open spec fn close_begun(self, id: u64, error_code: u32, message: Seq<char>) -> RuntimeState {
        if self.selection(id) is None {
            RuntimeState {
                session: Some(
                    SessionState {
                        phase: SessionPhase::Closing,
                        close: Some(
                            CloseState {
                                error_code,
                                message,
                                capsule: close_capsule(error_code, encode_utf8(message)),
                                written: 0,
                            },
                        ),
                        ..self.session->Some_0
                    },
                ),
                ..self
            }
        } else {
            self
        }
    }

    /// The state after `count` more bytes of the close capsule were written.
    pub open spec fn close_progressed(self, count: nat) -> RuntimeState {
        match self.session {
            Some(s) => match s.close {
                Some(close) => RuntimeState {
                    session: Some(
                        SessionState {
                            close: Some(CloseState { written: close.written + count, ..close }),
                            ..s
                        },
                    ),
                    ..self
                },
                None => self,
            },
            None => self,
        }
    }

    /// The state after the whole close capsule and the end of the CONNECT stream
    /// were written.
    pub open spec fn close_committed(self) -> RuntimeState {
        match self.session {
            Some(s) => match s.close {
                Some(close) => if s.phase == SessionPhase::Closing {
                    (RuntimeState {
                        session: Some(SessionState { send_done: true, ..s }),
                        ..self
                    }).ended(
                        CloseReason::Local {
                            error_code: close.error_code,
                            message: close.message,
                        },
                    ).swept()
                } else {
                    self
                },
                None => self,
            },
            None => self,
        }
    }

    /// The state after the connection ended.
    pub open spec fn disconnected(self) -> RuntimeState {
        match self.session {
            Some(s) => {
                let told = if s.is_live() {
                    (RuntimeState {
                        last_end: Some((s.id, CloseReason::ConnectionClosed)),
                        ..self
                    }).saying(
                        SessionEvent::Terminated {
                            session_id: s.id,
                            reason: CloseReason::ConnectionClosed,
                        },
                    )
                } else {
                    self
                };
                RuntimeState {
                    session: None,
                    retired: self.retired_with(s.id),
                    streams: Seq::empty(),
                    held: Seq::empty(),
                    ..told
                }
            },
            None => RuntimeState { streams: Seq::empty(), held: Seq::empty(), ..self },
        }
    }
}

/// The values of a list of events.
pub open spec fn event_values(events: Seq<WebTransportSessionEvent>) -> Seq<SessionEvent> {
    Seq::new(events.len(), |i: int| events[i]@)
}

/// The session of a connection and its streams.
#[derive(Debug)]
pub struct WebTransportRuntime {
    max_pending: usize,
    max_pending_per_session: usize,
    session: Option<Session>,
    retired: Option<u64>,
    last_end: Option<(u64, WebTransportSessionCloseReason)>,
    streams: Table<SessionStream>,
    capsules: CapsuleReader,
    events: Vec<WebTransportSessionEvent>,
    actions: Vec<StreamAction>,
}

impl View for WebTransportRuntime {
    type V = RuntimeState;

    closed spec fn view(&self) -> RuntimeState {
        RuntimeState {
            max_pending: self.max_pending as nat,
            max_pending_per_session: self.max_pending_per_session as nat,
            session: match self.session {
                Some(session) => Some(session@),
                None => None,
            },
            retired: self.retired,
            last_end: match self.last_end {
                Some((id, reason)) => Some((id, reason@)),
                None => None,
            },
            streams: self.streams@,
            held: self.capsules@,
            events: event_values(self.events@),
            actions: self.actions@,
        }
    }
}

impl WebTransportRuntime {
    /// A runtime without a session.
    pub fn new(max_pending: usize, max_pending_per_session: usize) -> (runtime: Self)
        ensures
            runtime@ == (RuntimeState {
                max_pending: max_pending as nat,
                max_pending_per_session: max_pending_per_session as nat,
                session: None,
                retired: None,
                last_end: None,
                streams: Seq::empty(),
                held: Seq::empty(),
                events: Seq::empty(),
                actions: Seq::empty(),
            }),
    {
        let runtime = WebTransportRuntime {
            max_pending,
            max_pending_per_session,
            session: None,
            retired: None,
            last_end: None,
            streams: Table::new(),
            capsules: CapsuleReader::new(),
            events: Vec::new(),
            actions: Vec::new(),
        };
        assert(runtime@.events =~= Seq::<SessionEvent>::empty());
        runtime
    }

    /// The phase of the session `id`.
    pub fn phase(&self, id: u64) -> (phase: Option<SessionPhase>)
        ensures
            match self@.session {
                Some(s) => phase == (if s.id == id {
                    Some(s.phase)
                } else {
                    None
                }),
                None => phase is None,
            },
    {
        match &self.session {
            Some(s) => if s.id == id {
                Some(s.phase)
            } else {
                None
            },
            None => None,
        }
    }

    /// The identifier of the session.
    pub fn session_id(&self) -> (id: Option<u64>)
        ensures
            match self@.session {
                Some(s) => id == Some(s.id),
                None => id is None,
            },
    {
        match &self.session {
            Some(s) => Some(s.id),
            None => None,
        }
    }

    /// Whether `id` is the session of this connection.
    pub fn is_session(&self, id: u64) -> (is: bool)
        ensures
            is == (self@.session matches Some(s) && s.id == id),
    {
        self.phase(id).is_some()
    }

    /// Whether the session `id` waits for its final response.
    pub fn is_pending(&self, id: u64) -> (is: bool)
        ensures
            is == (self@.session matches Some(s) && s.id == id && s.phase
                == SessionPhase::Pending),
    {
        match self.phase(id) {
            Some(phase) => phase == SessionPhase::Pending,
            None => false,
        }
    }

    /// Whether the session `id` was accepted and has not ended.
    pub fn is_active(&self, id: u64) -> (is: bool)
        ensures
            is == (self@.session matches Some(s) && s.id == id && s.phase == SessionPhase::Active),
    {
        match self.phase(id) {
            Some(phase) => phase == SessionPhase::Active,
            None => false,
        }
    }

    /// How many sessions there are.
    pub fn session_count(&self) -> (count: usize)
        ensures
            count == (if self@.session is Some {
                1int
            } else {
                0int
            }),
    {
        if self.session.is_some() {
            1
        } else {
            0
        }
    }

    /// How many streams wait for their session.
    pub fn pending_stream_count(&self) -> (count: usize)
        ensures
            count == waiting_count(self@.streams),
            count <= self@.streams.len(),
    {
        let ghost rows = self.streams@;
        let mut count: usize = 0;
        let mut i: usize = 0;
        let len: usize = self.streams.len();
        assert(rows.take(0) =~= Seq::empty());
        while i < len
            invariant
                i <= len == rows.len(),
                rows == self.streams@,
                count == waiting_count(rows.take(i as int)),
                count <= i,
            decreases len - i,
        {
            assert(rows.take(i + 1).drop_last() =~= rows.take(i as int));
            let (_, stream) = self.streams.at(i);
            if !stream.owned {
                count += 1;
            }
            i += 1;
        }
        assert(rows.take(i as int) =~= rows);
        count
    }

    /// How many streams belong to the session or wait for one.
    pub fn stream_count(&self) -> (count: usize)
        ensures
            count == self@.streams.len(),
    {
        self.streams.len()
    }

    /// How many streams belong to the session.
    pub fn active_stream_count(&self) -> (count: usize)
        ensures
            count == self@.streams.len() - waiting_count(self@.streams),
    {
        self.streams.len() - self.pending_stream_count()
    }

    /// How many streams wait for the session `id`.
    pub fn waiting_for_session(&self, id: u64) -> (count: usize)
        ensures
            count == waiting_for(self@.streams, id),
            count <= self@.streams.len(),
    {
        let ghost rows = self.streams@;
        let mut count: usize = 0;
        let mut i: usize = 0;
        let len: usize = self.streams.len();
        assert(rows.take(0) =~= Seq::empty());
        while i < len
            invariant
                i <= len == rows.len(),
                rows == self.streams@,
                count == waiting_for(rows.take(i as int), id),
                count <= i,
            decreases len - i,
        {
            assert(rows.take(i + 1).drop_last() =~= rows.take(i as int));
            let (_, stream) = self.streams.at(i);
            if !stream.owned && stream.session_id == id {
                count += 1;
            }
            i += 1;
        }
        assert(rows.take(i as int) =~= rows);
        count
    }

    /// Whether a stream belongs to the session.
    pub fn owns_stream(&self, stream_id: u64) -> (owns: bool)
        ensures
            owns == (lookup(self@.streams, stream_id) matches Some(stream) && stream.owned),
    {
        match self.streams.get(stream_id) {
            Some(stream) => stream.owned,
            None => false,
        }
    }

    /// What is known of a stream.
    pub fn stream(&self, stream_id: u64) -> (stream: Option<SessionStream>)
        ensures
            stream == lookup(self@.streams, stream_id),
    {
        match self.streams.get(stream_id) {
            Some(stream) => Some(*stream),
            None => None,
        }
    }

    /// The session that ended last.
    pub fn last_session(&self) -> (id: Option<u64>)
        ensures
            id == (match (self@.session, self@.last_end) {
                (Some(session), _) if !session.is_live() => Some(session.id),
                (_, Some((last, _))) => Some(last),
                _ => None,
            }),
    {
        if let Some(s) = &self.session {
            if s.phase == SessionPhase::Terminal {
                return Some(s.id);
            }
        }
        match &self.last_end {
            Some((last, _)) => Some(*last),
            None => None,
        }
    }

    /// Why the session `id` ended, where no other session ended after it.
    pub fn end_of(&self, id: u64) -> (reason: Option<WebTransportSessionCloseReason>)
        ensures
            match self@.end_reason(id) {
                Some(value) => reason matches Some(r) && r@ == value,
                None => reason is None,
            },
    {
        match &self.last_end {
            Some((last, reason)) => if *last == id {
                Some(reason.copy())
            } else {
                None
            },
            None => None,
        }
    }

    /// Whether `id` is the identifier of a session that is over.
    pub fn stale(&self, id: u64) -> (is: bool)
        ensures
            is == self@.is_stale(id),
    {
        let passed = match self.retired {
            Some(highest) => id <= highest,
            None => false,
        };
        id % 4 == 0 && passed && !self.is_session(id)
    }

    /// Whether a request for the session `id` can be carried out.
    pub fn select(&self, id: u64) -> (error: Option<WebTransportSelectionError>)
        ensures
            error == self@.selection(id),
    {
        match self.phase(id) {
            Some(SessionPhase::Pending) => Some(WebTransportSelectionError::PendingSession),
            Some(SessionPhase::Active) => None,
            Some(SessionPhase::Closing) => Some(WebTransportSelectionError::ClosingSession),
            Some(SessionPhase::Terminal) => Some(WebTransportSelectionError::TerminalSession),
            None => if self.stale(id) {
                Some(WebTransportSelectionError::StaleSession)
            } else {
                Some(WebTransportSelectionError::UnknownSession)
            },
        }
    }

    fn retire(&mut self, id: u64)
        ensures
            final(self)@ == (RuntimeState { retired: old(self)@.retired_with(id), ..old(self)@ }),
    {
        self.retired = Some(
            match self.retired {
                Some(highest) => if highest < id {
                    id
                } else {
                    highest
                },
                None => id,
            },
        );
    }

    fn say(&mut self, event: WebTransportSessionEvent)
        ensures
            final(self)@ == old(self)@.saying(event@),
    {
        self.events.push(event);
        assert(self@.events =~= old(self)@.events.push(event@));
    }

    fn act(&mut self, action: StreamAction)
        ensures
            final(self)@ == old(self)@.doing(action),
    {
        self.actions.push(action);
    }

    fn turn_stream_away(&mut self, stream_id: u64, stream: SessionStream, error_code: u64)
        ensures
            final(self)@ == (RuntimeState {
                actions: turn_away(old(self)@.actions, stream_id, stream, error_code),
                ..old(self)@
            }),
    {
        let bidi = stream.direction == WebTransportStreamDirection::Bidi;
        if bidi || !stream.local {
            self.actions.push(StreamAction::Stop { stream_id, error_code });
        }
        if bidi || stream.local {
            self.actions.push(StreamAction::Reset { stream_id, error_code });
        }
    }

    fn drop_streams(&mut self, id: u64)
        ensures
            final(self)@ == old(self)@.without_streams(id),
    {
        let ghost rows = self.streams@;
        let ghost before = self@;
        let mut i: usize = 0;
        let len: usize = self.streams.len();
        assert(rows.take(0) =~= Seq::empty());
        let mut left: Vec<(u64, SessionStream)> = Vec::new();
        while i < len
            invariant
                i <= len == rows.len(),
                rows == self.streams@,
                left@ == other_streams(rows.take(i as int), id),
                self@ == (RuntimeState {
                    actions: turn_all_away(before.actions, rows.take(i as int), id),
                    ..before
                }),
            decreases len - i,
        {
            assert(rows.take(i + 1).drop_last() =~= rows.take(i as int));
            assert(rows.take(i + 1).last() == rows[i as int]);
            let (stream_id, row) = self.streams.at(i);
            let stream: SessionStream = *row;
            if stream.session_id == id {
                let code: u64 = if stream.owned {
                    WT_SESSION_GONE
                } else {
                    WT_BUFFERED_STREAM_REJECTED
                };
                self.turn_stream_away(stream_id, stream, code);
            } else {
                left.push((stream_id, stream));
            }
            i += 1;
        }
        assert(rows.take(i as int) =~= rows);
        self.streams = Table::from_rows(left);
    }

    /// Whether a request for a session would be taken up.
    pub fn has_room_for(&self, id: u64) -> (has: bool)
        ensures
            has == self@.takes_session(id),
    {
        self.session.is_none() && id % 4 == 0 && !self.stale(id)
    }

    /// A session is asked for. Returns whether the request is taken up; it is
    /// refused while another session exists, and for a session that is over.
    pub fn ask(&mut self, id: u64) -> (taken: bool)
        ensures
            taken == old(self)@.takes_session(id),
            final(self)@ == old(self)@.asked(id),
    {
        if self.has_room_for(id) {
            self.session = Some(
                Session {
                    id,
                    phase: SessionPhase::Pending,
                    peer_closed: false,
                    receive_done: false,
                    send_done: false,
                    reason: None,
                    close: None,
                },
            );
            self.capsules.clear();
            true
        } else {
            self.act(StreamAction::Reset { stream_id: id, error_code: H3_REQUEST_REJECTED });
            self.act(StreamAction::Stop { stream_id: id, error_code: H3_REQUEST_REJECTED });
            self.drop_streams(id);
            self.retire(id);
            false
        }
    }

    /// Tells the application that a session was asked for.
    pub fn announce(&mut self, id: u64)
        ensures
            final(self)@ == old(self)@.saying(SessionEvent::Pending { session_id: id }),
    {
        self.say(WebTransportSessionEvent::Pending { session_id: id });
    }

    /// Forgets a session that the application never learned of, and turns its
    /// streams away.
    pub fn withdraw(&mut self)
        ensures
            match old(self)@.session {
                Some(s) => final(self)@ == (RuntimeState {
                    session: None,
                    retired: old(self)@.retired_with(s.id),
                    held: Seq::empty(),
                    ..old(self)@.without_streams(s.id)
                }),
                None => final(self)@ == old(self)@,
            },
    {
        if let Some(s) = self.session.take() {
            self.capsules.clear();
            self.drop_streams(s.id);
            self.retire(s.id);
        }
    }

    fn end(&mut self, reason: WebTransportSessionCloseReason)
        ensures
            final(self)@ == old(self)@.ended(reason@),
    {
        if let Some(mut s) = self.session.take() {
            if s.phase != SessionPhase::Terminal {
                let id: u64 = s.id;
                s.phase = SessionPhase::Terminal;
                s.reason = Some(reason.copy());
                s.close = None;
                self.session = Some(s);
                self.last_end = Some((id, reason.copy()));
                self.capsules.clear();
                self.drop_streams(id);
                self.say(WebTransportSessionEvent::Terminated { session_id: id, reason });
            } else {
                self.session = Some(s);
            }
        }
    }

    fn sweep(&mut self)
        ensures
            final(self)@ == old(self)@.swept(),
    {
        if let Some(s) = self.session.take() {
            if s.phase == SessionPhase::Terminal && s.receive_done && s.send_done {
                self.capsules.clear();
                self.retire(s.id);
            } else {
                self.session = Some(s);
            }
        }
    }

    /// A response with the given status was exchanged on the CONNECT stream.
    pub fn respond(&mut self, status: u16)
        ensures
            final(self)@ == old(self)@.answered(status),
    {
        if status < 200 {
            return;
        }
        if let Some(mut s) = self.session.take() {
            let id: u64 = s.id;
            if s.phase == SessionPhase::Pending {
                if status < 300 {
                    s.phase = SessionPhase::Active;
                    self.session = Some(s);
                    self.say(WebTransportSessionEvent::Accepted { session_id: id });
                } else {
                    s.phase = SessionPhase::Terminal;
                    self.session = Some(s);
                    self.capsules.clear();
                    self.drop_streams(id);
                    self.say(WebTransportSessionEvent::Rejected { session_id: id, status });
                }
            } else {
                self.session = Some(s);
            }
        }
    }

    /// Hands the streams that waited for the session over.
    pub fn admit_streams(&mut self)
        ensures
            final(self)@ == old(self)@.admitted(),
    {
        let id: u64 = match &self.session {
            Some(s) => if s.phase == SessionPhase::Active {
                s.id
            } else {
                return;
            },
            None => {
                return;
            },
        };
        let ghost rows = self.streams@;
        let ghost before = self@;
        let mut i: usize = 0;
        let len: usize = self.streams.len();
        assert(rows.take(0) =~= Seq::empty());
        let ghost done = handed_over(rows, id);
        assert(done.take(0) + rows.skip(0) =~= rows);
        while i < len
            invariant
                i <= len == rows.len(),
                done == handed_over(rows, id),
                self@ == (RuntimeState {
                    streams: done.take(i as int) + rows.skip(i as int),
                    events: associations(before.events, rows.take(i as int), id),
                    ..before
                }),
            decreases len - i,
        {
            let ghost now = done.take(i as int) + rows.skip(i as int);
            assert(now[i as int] == rows[i as int]);
            assert(rows.take(i + 1).drop_last() =~= rows.take(i as int));
            assert(rows.take(i + 1).last() == rows[i as int]);
            assert(done.take(i + 1) + rows.skip(i + 1) =~= now.update(i as int, done[i as int]));
            let (stream_id, row) = self.streams.at(i);
            let mut stream: SessionStream = *row;
            if stream.session_id == id && !stream.owned {
                stream.owned = true;
                self.streams.set_at(i, stream);
                self.say(
                    WebTransportSessionEvent::AssociatedStream {
                        session_id: stream.session_id,
                        stream_id,
                        direction: stream.direction,
                        prefix_len: stream.prefix_len,
                    },
                );
            } else {
                assert(done[i as int] == rows[i as int]);
                assert(now.update(i as int, done[i as int]) =~= now);
            }
            i += 1;
        }
        assert(rows.take(i as int) =~= rows);
        assert(done.take(i as int) + rows.skip(i as int) =~= done);
    }

    /// Body bytes arrived on the CONNECT stream.
    pub fn receive(&mut self, bytes: &[u8])
        ensures
            final(self)@ == old(self)@.received(bytes@),
    {
        let (id, live, peer_closed) = match &self.session {
            Some(s) => (s.id, s.phase != SessionPhase::Terminal, s.peer_closed),
            None => {
                return;
            },
        };
        if live {
            self.capsules.hold(bytes);
        } else if peer_closed && bytes.len() > 0 {
            self.act(StreamAction::Reset { stream_id: id, error_code: H3_MESSAGE_ERROR });
        }
    }

    /// Reads the capsules that are held, once the session was accepted.
    pub fn read_capsules(&mut self)
        ensures
            final(self)@ == old(self)@.capsules_read(),
    {
        let id: u64 = match &self.session {
            Some(s) => if s.phase == SessionPhase::Active || s.phase == SessionPhase::Closing {
                s.id
            } else {
                return;
            },
            None => {
                return;
            },
        };
        match self.capsules.read() {
            CapsuleRead::Waiting => {},
            CapsuleRead::Malformed => {
                self.end(WebTransportSessionCloseReason::ProtocolError);
                self.act(StreamAction::Reset { stream_id: id, error_code: H3_MESSAGE_ERROR });
                self.act(StreamAction::Stop { stream_id: id, error_code: H3_MESSAGE_ERROR });
            },
            CapsuleRead::Closed { error_code, message } => {
                let extra: usize = self.capsules.len();
                self.peer_close(
                    WebTransportSessionCloseReason::Peer { error_code, message },
                    extra,
                );
            },
        }
    }

    fn peer_close(&mut self, reason: WebTransportSessionCloseReason, extra: usize)
        ensures
            final(self)@ == old(self)@.closed_by_peer(reason@, extra as nat),
    {
        if let Some(mut s) = self.session.take() {
            let id: u64 = s.id;
            s.peer_closed = true;
            s.send_done = true;
            self.session = Some(s);
            self.end(reason);
            self.act(StreamAction::Finish { stream_id: id });
            if extra > 0 {
                self.act(StreamAction::Reset { stream_id: id, error_code: H3_MESSAGE_ERROR });
            }
        }
    }

    fn peer_end(&mut self, reason: WebTransportSessionCloseReason)
        ensures
            final(self)@ == old(self)@.peer_ended(reason@),
    {
        if let Some(mut s) = self.session.take() {
            s.receive_done = true;
            self.session = Some(s);
            self.end(reason);
            self.sweep();
        }
    }

    /// The peer ended the CONNECT stream.
    pub fn receive_fin(&mut self)
        ensures
            final(self)@ == old(self)@.peer_ended(CloseReason::Clean),
    {
        self.peer_end(WebTransportSessionCloseReason::Clean);
    }

    /// The peer reset the CONNECT stream.
    pub fn receive_reset(&mut self, error_code: u64)
        ensures
            final(self)@ == old(self)@.peer_ended(CloseReason::ConnectReset { error_code }),
    {
        self.peer_end(WebTransportSessionCloseReason::ConnectReset { error_code });
    }

    /// A write found that the peer refuses the CONNECT stream.
    pub fn receive_stop(&mut self, error_code: u64)
        ensures
            final(self)@ == old(self)@.stopped(error_code),
    {
        if let Some(mut s) = self.session.take() {
            s.send_done = true;
            self.session = Some(s);
            self.end(WebTransportSessionCloseReason::ConnectStopped { error_code });
            self.sweep();
        }
    }

    /// This end's direction of the CONNECT stream ended.
    pub fn send_fin(&mut self)
        ensures
            final(self)@ == old(self)@.locally_ended(),
    {
        if let Some(mut s) = self.session.take() {
            s.send_done = true;
            self.session = Some(s);
            self.sweep();
        }
    }

    /// The prefix of a stream of the peer arrived.
    pub fn arrive(&mut self, stream_id: u64, session_id: u64, prefix_len: usize, others: usize)
        ensures
            final(self)@ == old(self)@.stream_arrived(
                stream_id,
                session_id,
                prefix_len,
                others as nat,
            ),
    {
        if self.streams.contains(stream_id) {
            return;
        }
        let direction = stream_direction(stream_id);
        let mut stream = SessionStream {
            session_id,
            direction,
            local: false,
            owned: false,
            prefix_len,
        };
        match self.select(session_id) {
            None => {
                stream.owned = true;
                self.streams.set(stream_id, stream);
                self.say(
                    WebTransportSessionEvent::AssociatedStream {
                        session_id,
                        stream_id,
                        direction,
                        prefix_len,
                    },
                );
            },
            Some(WebTransportSelectionError::ClosingSession)
            | Some(WebTransportSelectionError::TerminalSession) => {
                self.turn_stream_away(stream_id, stream, WT_SESSION_GONE);
            },
            Some(WebTransportSelectionError::StaleSession) => {
                self.turn_stream_away(stream_id, stream, WT_BUFFERED_STREAM_REJECTED);
            },
            _ => {
                let waiting: usize = self.pending_stream_count();
                let room = waiting < self.max_pending && others < self.max_pending - waiting;
                if session_id % 4 == 0 && room && self.waiting_for_session(session_id)
                    < self.max_pending_per_session {
                    self.streams.set(stream_id, stream);
                } else {
                    self.turn_stream_away(stream_id, stream, WT_BUFFERED_STREAM_REJECTED);
                }
            },
        }
    }

    /// This end opened a stream of the session.
    pub fn open(&mut self, stream_id: u64, session_id: u64, prefix_len: usize)
        ensures
            final(self)@ == old(self)@.stream_opened(stream_id, session_id, prefix_len),
    {
        let direction = stream_direction(stream_id);
        self.streams.set(
            stream_id,
            SessionStream { session_id, direction, local: true, owned: true, prefix_len },
        );
    }

    /// Forgets a stream of which nothing is left to happen.
    pub fn forget_stream(&mut self, stream_id: u64)
        ensures
            final(self)@ == (RuntimeState {
                streams: without(old(self)@.streams, stream_id),
                ..old(self)@
            }),
    {
        let _ = self.streams.remove(stream_id);
    }

    /// Starts to close the session. Returns whether it was active.
    pub fn begin_close(&mut self, id: u64, error_code: u32, message: &str) -> (begun: bool)
        requires
            encode_utf8(message@).len() <= MAX_CLOSE_MESSAGE_LEN,
        ensures
            begun == (old(self)@.selection(id) is None),
            final(self)@ == old(self)@.close_begun(id, error_code, message@),
    {
        if self.select(id).is_some() {
            return false;
        }
        if let Some(mut s) = self.session.take() {
            let capsule = webtransport_close_capsule(error_code, message);
            s.phase = SessionPhase::Closing;
            s.close = Some(
                LocalClose { error_code, message: message.to_owned(), capsule, written: 0 },
            );
            self.session = Some(s);
        }
        true
    }

    /// The bytes of the close capsule that are still to be written, with the
    /// CONNECT stream that they belong to.
    pub fn close_remainder(&self) -> (rest: Option<(u64, Vec<u8>)>)
        ensures
            match self@.session {
                Some(s) => match s.close {
                    Some(close) => if close.written <= close.capsule.len() {
                        rest matches Some((id, bytes)) && id == s.id && bytes@
                            == close.capsule.skip(close.written as int)
                    } else {
                        rest is None
                    },
                    None => rest is None,
                },
                None => rest is None,
            },
    {
        match &self.session {
            Some(s) => match &s.close {
                Some(close) => if close.written <= close.capsule.len() {
                    let bytes = crate::wire::capsule::copy_range(
                        &close.capsule,
                        close.written,
                        close.capsule.len(),
                    );
                    assert(bytes@ =~= close.capsule@.skip(close.written as int));
                    Some((s.id, bytes))
                } else {
                    None
                },
                None => None,
            },
            None => None,
        }
    }

    /// Whether this end is closing the session.
    pub fn is_closing(&self) -> (is: bool)
        ensures
            is == (self@.session matches Some(s) && s.close is Some),
    {
        match &self.session {
            Some(s) => s.close.is_some(),
            None => false,
        }
    }

    /// Notes that `count` more bytes of the close capsule were written.
    pub fn close_written(&mut self, count: usize)
        requires
            old(self)@.session matches Some(s) && s.close matches Some(close) && close.written
                + count <= close.capsule.len(),
        ensures
            final(self)@ == old(self)@.close_progressed(count as nat),
    {
        if let Some(mut s) = self.session.take() {
            if let Some(mut close) = s.close.take() {
                assert(close.capsule.len() == close.capsule@.len());
                close.written = close.written + count;
                s.close = Some(close);
            }
            self.session = Some(s);
        }
    }

    /// The whole close capsule and the end of the CONNECT stream were written.
    pub fn commit_close(&mut self)
        ensures
            final(self)@ == old(self)@.close_committed(),
    {
        let reason = match &self.session {
            Some(s) => match &s.close {
                Some(close) => if s.phase == SessionPhase::Closing {
                    WebTransportSessionCloseReason::Local {
                        error_code: close.error_code,
                        message: close.message.as_str().to_owned(),
                    }
                } else {
                    return;
                },
                None => {
                    return;
                },
            },
            None => {
                return;
            },
        };
        if let Some(mut s) = self.session.take() {
            s.send_done = true;
            self.session = Some(s);
            self.end(reason);
            self.sweep();
        }
    }

    /// The connection ended.
    pub fn disconnect(&mut self)
        ensures
            final(self)@ == old(self)@.disconnected(),
    {
        if let Some(s) = self.session.take() {
            if s.phase != SessionPhase::Terminal {
                self.last_end = Some((s.id, WebTransportSessionCloseReason::ConnectionClosed));
                self.say(
                    WebTransportSessionEvent::Terminated {
                        session_id: s.id,
                        reason: WebTransportSessionCloseReason::ConnectionClosed,
                    },
                );
            }
            self.retire(s.id);
        }
        self.streams.clear();
        self.capsules.clear();
    }

    /// Takes the events that the application still has to learn.
    pub fn take_events(&mut self) -> (events: Vec<WebTransportSessionEvent>)
        ensures
            event_values(events@) == old(self)@.events,
            final(self)@ == (RuntimeState { events: Seq::empty(), ..old(self)@ }),
    {
        let mut events: Vec<WebTransportSessionEvent> = Vec::new();
        std::mem::swap(&mut events, &mut self.events);
        assert(self@.events =~= Seq::<SessionEvent>::empty());
        events
    }

    /// Takes the actions that the transport still has to perform.
    pub fn take_actions(&mut self) -> (actions: Vec<StreamAction>)
        ensures
            actions@ == old(self)@.actions,
            final(self)@ == (RuntimeState { actions: Seq::empty(), ..old(self)@ }),
    {
        let mut actions: Vec<StreamAction> = Vec::new();
        std::mem::swap(&mut actions, &mut self.actions);
        actions
    }

    /// The bytes of the CONNECT stream that wait to be read as capsules.
    pub fn held_bytes(&self) -> (count: usize)
        ensures
            count == self@.held.len(),
    {
        self.capsules.len()
    }
}

} // verus!
