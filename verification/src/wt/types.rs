//! Events, reasons and errors of WebTransport sessions.

use vstd::prelude::*;
use vstd::string::*;
use vstd::utf8::encode_utf8_decode_utf8;

use crate::headers::same_bytes;
use crate::wire::stream_prefix::WebTransportStreamDirection;

verus! {

/// The HTTP/3 code of a stream whose session has ended.
pub const WT_SESSION_GONE: u64 = 0x170d_7b68;

/// The HTTP/3 code of a stream that could not wait for its session.
pub const WT_BUFFERED_STREAM_REJECTED: u64 = 0x3994_bd84;

/// Why a session ended.
#[derive(Clone, Debug, PartialEq, Eq)]
pub enum WebTransportSessionCloseReason {
    /// The peer ended the CONNECT stream.
    Clean,
    /// The peer reset the CONNECT stream.
    ConnectReset { error_code: u64 },
    /// The peer refused the CONNECT stream.
    ConnectStopped { error_code: u64 },
    /// The peer closed the session.
    Peer { error_code: u32, message: String },
    /// This end closed the session.
    Local { error_code: u32, message: String },
    /// The peer broke the capsule format.
    ProtocolError,
    /// The connection ended.
    ConnectionClosed,
}

/// The value of a [`WebTransportSessionCloseReason`].
pub ghost enum CloseReason {
    Clean,
    ConnectReset { error_code: u64 },
    ConnectStopped { error_code: u64 },
    Peer { error_code: u32, message: Seq<char> },
    Local { error_code: u32, message: Seq<char> },
    ProtocolError,
    ConnectionClosed,
}

impl View for WebTransportSessionCloseReason {
    type V = CloseReason;

    open spec fn view(&self) -> CloseReason {
        match self {
            WebTransportSessionCloseReason::Clean => CloseReason::Clean,
            WebTransportSessionCloseReason::ConnectReset { error_code } =>
                CloseReason::ConnectReset { error_code: *error_code },
            WebTransportSessionCloseReason::ConnectStopped { error_code } =>
                CloseReason::ConnectStopped { error_code: *error_code },
            WebTransportSessionCloseReason::Peer { error_code, message } => CloseReason::Peer {
                error_code: *error_code,
                message: message@,
            },
            WebTransportSessionCloseReason::Local { error_code, message } => CloseReason::Local {
                error_code: *error_code,
                message: message@,
            },
            WebTransportSessionCloseReason::ProtocolError => CloseReason::ProtocolError,
            WebTransportSessionCloseReason::ConnectionClosed => CloseReason::ConnectionClosed,
        }
    }
}

impl WebTransportSessionCloseReason {
    /// Whether two reasons are the same.
    pub fn is_same(&self, other: &WebTransportSessionCloseReason) -> (same: bool)
        ensures
            same == (self@ == other@),
    {
        match (self, other) {
            (
                WebTransportSessionCloseReason::Clean,
                WebTransportSessionCloseReason::Clean,
            ) => true,
            (
                WebTransportSessionCloseReason::ConnectReset { error_code: a },
                WebTransportSessionCloseReason::ConnectReset { error_code: b },
            ) => *a == *b,
            (
                WebTransportSessionCloseReason::ConnectStopped { error_code: a },
                WebTransportSessionCloseReason::ConnectStopped { error_code: b },
            ) => *a == *b,
            (
                WebTransportSessionCloseReason::Peer { error_code: a, message: m },
                WebTransportSessionCloseReason::Peer { error_code: b, message: n },
            ) => *a == *b && same_text(m.as_str(), n.as_str()),
            (
                WebTransportSessionCloseReason::Local { error_code: a, message: m },
                WebTransportSessionCloseReason::Local { error_code: b, message: n },
            ) => *a == *b && same_text(m.as_str(), n.as_str()),
            (
                WebTransportSessionCloseReason::ProtocolError,
                WebTransportSessionCloseReason::ProtocolError,
            ) => true,
            (
                WebTransportSessionCloseReason::ConnectionClosed,
                WebTransportSessionCloseReason::ConnectionClosed,
            ) => true,
            _ => false,
        }
    }

    /// A copy of the reason.
    pub fn copy(&self) -> (copied: WebTransportSessionCloseReason)
        ensures
            copied@ == self@,
    {
        match self {
            WebTransportSessionCloseReason::Clean => WebTransportSessionCloseReason::Clean,
            WebTransportSessionCloseReason::ConnectReset { error_code } =>
                WebTransportSessionCloseReason::ConnectReset { error_code: *error_code },
            WebTransportSessionCloseReason::ConnectStopped { error_code } =>
                WebTransportSessionCloseReason::ConnectStopped { error_code: *error_code },
            WebTransportSessionCloseReason::Peer { error_code, message } =>
                WebTransportSessionCloseReason::Peer {
                error_code: *error_code,
                message: message.as_str().to_owned(),
            },
            WebTransportSessionCloseReason::Local { error_code, message } =>
                WebTransportSessionCloseReason::Local {
                error_code: *error_code,
                message: message.as_str().to_owned(),
            },
            WebTransportSessionCloseReason::ProtocolError =>
                WebTransportSessionCloseReason::ProtocolError,
            WebTransportSessionCloseReason::ConnectionClosed =>
                WebTransportSessionCloseReason::ConnectionClosed,
        }
    }
}

/// Whether two texts are the same.
pub fn same_text(a: &str, b: &str) -> (same: bool)
    ensures
        same == (a@ == b@),
{
    let same = same_bytes(a.as_bytes(), b.as_bytes());
    proof {
        encode_utf8_decode_utf8(a@);
        encode_utf8_decode_utf8(b@);
    }
    same
}

/// What the application learns about sessions.
#[derive(Clone, Debug, PartialEq, Eq)]
pub enum WebTransportSessionEvent {
    /// A session was asked for.
    Pending { session_id: u64 },
    /// A final successful response left or arrived.
    Accepted { session_id: u64 },
    /// Another final response left or arrived.
    Rejected { session_id: u64, status: u16 },
    /// The session ended.
    Terminated { session_id: u64, reason: WebTransportSessionCloseReason },
    /// A stream of the peer belongs to the session.
    AssociatedStream {
        session_id: u64,
        stream_id: u64,
        direction: WebTransportStreamDirection,
        prefix_len: usize,
    },
}

/// The value of a [`WebTransportSessionEvent`].
pub ghost enum SessionEvent {
    Pending { session_id: u64 },
    Accepted { session_id: u64 },
    Rejected { session_id: u64, status: u16 },
    Terminated { session_id: u64, reason: CloseReason },
    AssociatedStream {
        session_id: u64,
        stream_id: u64,
        direction: WebTransportStreamDirection,
        prefix_len: usize,
    },
}

impl View for WebTransportSessionEvent {
    type V = SessionEvent;

    open spec fn view(&self) -> SessionEvent {
        match self {
            WebTransportSessionEvent::Pending { session_id } => SessionEvent::Pending {
                session_id: *session_id,
            },
            WebTransportSessionEvent::Accepted { session_id } => SessionEvent::Accepted {
                session_id: *session_id,
            },
            WebTransportSessionEvent::Rejected { session_id, status } => SessionEvent::Rejected {
                session_id: *session_id,
                status: *status,
            },
            WebTransportSessionEvent::Terminated { session_id, reason } =>
                SessionEvent::Terminated { session_id: *session_id, reason: reason@ },
            WebTransportSessionEvent::AssociatedStream {
                session_id,
                stream_id,
                direction,
                prefix_len,
            } => SessionEvent::AssociatedStream {
                session_id: *session_id,
                stream_id: *stream_id,
                direction: *direction,
                prefix_len: *prefix_len,
            },
        }
    }
}

impl WebTransportSessionEvent {
    /// Whether two events are the same.
    pub fn is_same(&self, other: &WebTransportSessionEvent) -> (same: bool)
        ensures
            same == (self@ == other@),
    {
        match (self, other) {
            (
                WebTransportSessionEvent::Pending { session_id: a },
                WebTransportSessionEvent::Pending { session_id: b },
            ) => *a == *b,
            (
                WebTransportSessionEvent::Accepted { session_id: a },
                WebTransportSessionEvent::Accepted { session_id: b },
            ) => *a == *b,
            (
                WebTransportSessionEvent::Rejected { session_id: a, status: s },
                WebTransportSessionEvent::Rejected { session_id: b, status: t },
            ) => *a == *b && *s == *t,
            (
                WebTransportSessionEvent::Terminated { session_id: a, reason: r },
                WebTransportSessionEvent::Terminated { session_id: b, reason: s },
            ) => *a == *b && r.is_same(s),
            (
                WebTransportSessionEvent::AssociatedStream {
                    session_id: a,
                    stream_id: x,
                    direction: d,
                    prefix_len: p,
                },
                WebTransportSessionEvent::AssociatedStream {
                    session_id: b,
                    stream_id: y,
                    direction: e,
                    prefix_len: q,
                },
            ) => *a == *b && *x == *y && *d == *e && *p == *q,
            _ => false,
        }
    }
}

/// Why a request that names a session or a stream was not carried out.
#[derive(Clone, Copy, Debug, PartialEq, Eq, Structural)]
pub enum WebTransportSelectionError {
    /// No such session was ever asked for.
    UnknownSession,
    /// The session was not accepted yet.
    PendingSession,
    /// The session is being closed by this end.
    ClosingSession,
    /// The session has ended.
    TerminalSession,
    /// The session has ended and was forgotten.
    StaleSession,
    /// The session has no such stream.
    UnknownStream,
    /// The stream has ended and was forgotten.
    StaleStream,
    /// The stream does not carry data in that direction.
    WrongDirection,
    /// A bound on waiting work was reached.
    ResourceLimit,
    /// The transport did not do what it had to.
    InternalFailure,
    /// The request names something that this connection did not hand out.
    ForeignController,
    /// The connection has ended.
    ConnectionClosed,
}

/// Something that the transport has to do to a stream.
#[derive(Clone, Copy, Debug, PartialEq, Eq, Structural)]
pub enum StreamAction {
    /// End the sending direction with an error.
    Reset { stream_id: u64, error_code: u64 },
    /// Refuse the peer's direction.
    Stop { stream_id: u64, error_code: u64 },
    /// End the sending direction of a CONNECT stream.
    Finish { stream_id: u64 },
}

} // verus!
