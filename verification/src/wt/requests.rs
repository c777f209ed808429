//! What the application asks about sessions and their streams, and what it is
//! answered.

use vstd::prelude::*;

use crate::wire::stream_prefix::WebTransportStreamDirection;
use crate::wt::block_reasons::StreamSendBlockReasons;
use crate::wt::retention::WebTransportRetentionStats;
use crate::wt::stream_ends::{
    WebTransportStreamReceiveTerminal, WebTransportStreamSendTerminalOutcome,
};
use crate::wt::types::{
    CloseReason, WebTransportSelectionError, WebTransportSessionCloseReason,
};
use crate::wt::write_lease::{
    LeaseAnswer, MockWriteLease, WebTransportStreamWriteLeaseOutcome, WebTransportStreamWriteRetry,
};

verus! {

/// A request of the application.
#[derive(Debug)]
pub enum WebTransportRequest {
    /// Open a stream.
    Open { session_id: u64, direction: WebTransportStreamDirection },
    /// Write on a stream.
    Write { session_id: u64, stream_id: u64, data: Vec<u8>, fin: bool },
    /// Write a lent payload on a stream.
    WriteLease { session_id: u64, stream_id: u64, lease: MockWriteLease, fin: bool },
    /// Read at most `max` bytes of a stream.
    Read { session_id: u64, stream_id: u64, max: usize },
    /// Reset what this end sends on a stream.
    Reset { session_id: u64, stream_id: u64, application_error: u32 },
    /// Refuse what the peer sends on a stream.
    Stop { session_id: u64, stream_id: u64, application_error: u32 },
    /// Tell how this end's direction of a stream ends.
    AwaitSendEnd { session_id: u64, stream_id: u64 },
    /// Tell no more about this end's direction of a stream.
    RetireSend { session_id: u64, stream_id: u64 },
    /// Tell no more about the peer's direction of a stream.
    RetireReceive { session_id: u64, stream_id: u64 },
    /// Tell how a session ends.
    AwaitSessionEnd { session_id: u64 },
    /// Send a datagram.
    SendDatagram { session_id: u64, datagram: Vec<u8> },
    /// Read a datagram.
    ReceiveDatagram { session_id: u64 },
    /// Tell how large a datagram can be.
    MaxDatagram { session_id: u64 },
    /// Tell when a stream can be read.
    AwaitReadable { session_id: u64, stream_id: u64 },
    /// Tell when the blocked write `retry` can be tried again.
    AwaitWritable { retry: WebTransportStreamWriteRetry },
    /// Tell when a datagram can be read.
    AwaitDatagram { session_id: u64 },
    /// Tell when a datagram can be sent.
    AwaitDatagramRoom { session_id: u64 },
    /// Tell what is kept alive.
    RetentionStats,
    /// Take a sample of the connection.
    LiveSnapshot,
}

/// A request in the lane, with the number that it is answered under.
#[derive(Debug)]
pub struct Queued {
    pub op: u64,
    pub request: WebTransportRequest,
}

/// What a request for a stream is answered.
#[derive(Clone, Copy, Debug, PartialEq, Eq, Structural)]
pub enum WebTransportOpenStreamOutcome {
    /// The stream is open, and the peer can tell that it belongs to the session.
    Opened { stream_id: u64 },
    Rejected(WebTransportSelectionError),
}

/// What a request to end a direction of a stream is answered.
#[derive(Clone, Copy, Debug, PartialEq, Eq, Structural)]
pub enum WebTransportStreamControlOutcome {
    Applied,
    Rejected(WebTransportSelectionError),
}

/// What a request to tell no more about the peer's direction is answered.
#[derive(Clone, Copy, Debug, PartialEq, Eq, Structural)]
pub enum WebTransportStreamReceiveTerminalRetirementOutcome {
    Retired { session_id: u64, stream_id: u64 },
    Rejected(WebTransportSelectionError),
}

/// What a request about the end of a session is answered.
#[derive(Debug, PartialEq, Eq)]
pub enum WebTransportSessionTerminalOutcome {
    Terminated { session_id: u64, reason: WebTransportSessionCloseReason },
    /// Too many requests wait already.
    ResourceLimit { session_id: u64 },
    /// The session is over, and how it ended is not known any more.
    StaleSession { session_id: u64 },
    /// There never was such a session.
    UnknownSession { session_id: u64 },
}

/// What a write on a stream came to. Whatever was not written comes back.
#[derive(Debug, PartialEq, Eq)]
pub enum WebTransportStreamWriteOutcome {
    Accepted { accepted: usize, remaining: Option<Vec<u8>>, fin_accepted: bool },
    /// The peer takes nothing now.
    Blocked { data: Vec<u8>, fin: bool },
    /// The peer refuses the stream, which has to be reset.
    ResetRequired {
        wire_error_code: u64,
        application_error_code: Option<u32>,
        data: Vec<u8>,
        fin: bool,
    },
    /// This end has finished or reset the stream.
    Closed { data: Vec<u8>, fin: bool },
    Rejected { error: WebTransportSelectionError, data: Vec<u8>, fin: bool },
    /// The lane is full.
    QueueFull { data: Vec<u8>, fin: bool },
    /// The leases that are out leave no room.
    ResourceLimit { data: Vec<u8>, fin: bool },
    /// One write cannot be as large.
    TooLarge { max: usize, data: Vec<u8>, fin: bool },
}

/// What a read of a stream came to.
#[derive(Debug, PartialEq, Eq)]
pub enum WebTransportStreamReadOutcome {
    Data { data: Vec<u8>, fin: bool },
    /// These are the last bytes, and this is how the direction ended.
    Terminal { data: Vec<u8>, terminal: WebTransportStreamReceiveTerminal },
    /// Nothing has arrived.
    Blocked,
    Rejected(WebTransportSelectionError),
}

/// What a wait for a stream or for datagrams is answered.
#[derive(Clone, Copy, Debug, PartialEq, Eq, Structural)]
pub enum WebTransportReadyOutcome {
    Ready,
    /// The transport takes more. The write was blocked for the given reasons.
    WriteTransportWake { reasons: StreamSendBlockReasons },
    /// The transport will not tell when it takes more: something else has to change.
    WriteStateChangeRequired {
        blocked_reasons: StreamSendBlockReasons,
        state_change_reasons: StreamSendBlockReasons,
    },
    /// The peer refuses the stream, which has to be reset.
    ResetRequired { wire_error_code: u64, application_error_code: Option<u32> },
    /// Somebody waits for datagrams already.
    ResourceLimit,
    Rejected(WebTransportSelectionError),
}

/// What a datagram came to. One that was not sent comes back.
#[derive(Debug, PartialEq, Eq)]
pub enum WebTransportDatagramSendOutcome {
    Accepted,
    Blocked(Vec<u8>),
    Rejected { error: WebTransportSelectionError, datagram: Vec<u8> },
    /// The lane is full.
    QueueFull(Vec<u8>),
    /// The socket layer does not carry as much.
    TooLarge { max: usize, datagram: Vec<u8> },
    /// The datagram keeps too much memory alive.
    AllocationTooLarge { max: usize, allocated: usize, datagram: Vec<u8> },
}

/// What a read of datagrams came to.
#[derive(Debug, PartialEq, Eq)]
pub enum WebTransportDatagramReadOutcome {
    Datagram(Vec<u8>),
    /// Datagrams were lost for want of room.
    Overflow { datagrams: u64, bytes: u64 },
    Empty,
    Rejected(WebTransportSelectionError),
}

/// What a request is answered.
#[derive(Debug, PartialEq, Eq)]
pub enum WebTransportOutcome {
    Open(WebTransportOpenStreamOutcome),
    Write(WebTransportStreamWriteOutcome),
    Lease(WebTransportStreamWriteLeaseOutcome),
    Read(WebTransportStreamReadOutcome),
    Control(WebTransportStreamControlOutcome),
    SendEnd(WebTransportStreamSendTerminalOutcome),
    ReceiveRetired(WebTransportStreamReceiveTerminalRetirementOutcome),
    SessionEnd(WebTransportSessionTerminalOutcome),
    DatagramSent(WebTransportDatagramSendOutcome),
    DatagramRead(WebTransportDatagramReadOutcome),
    MaxDatagram(Result<usize, WebTransportSelectionError>),
    Ready(WebTransportReadyOutcome),
    Stats(WebTransportRetentionStats),
    /// The connection has ended, and nothing is kept alive for it.
    Closed,
}

/// The value of a [`WebTransportSessionTerminalOutcome`].
pub ghost enum SessionEndAnswer {
    Terminated { session_id: u64, reason: CloseReason },
    ResourceLimit { session_id: u64 },
    StaleSession { session_id: u64 },
    UnknownSession { session_id: u64 },
}

/// The value of a [`WebTransportStreamWriteOutcome`].
pub ghost enum WriteAnswer {
    Accepted { accepted: usize, remaining: Option<Seq<u8>>, fin_accepted: bool },
    Blocked { data: Seq<u8>, fin: bool },
    ResetRequired {
        wire_error_code: u64,
        application_error_code: Option<u32>,
        data: Seq<u8>,
        fin: bool,
    },
    Closed { data: Seq<u8>, fin: bool },
    Rejected { error: WebTransportSelectionError, data: Seq<u8>, fin: bool },
    QueueFull { data: Seq<u8>, fin: bool },
    ResourceLimit { data: Seq<u8>, fin: bool },
    TooLarge { max: usize, data: Seq<u8>, fin: bool },
}

/// The value of a [`WebTransportStreamReadOutcome`].
pub ghost enum ReadAnswer {
    Data { data: Seq<u8>, fin: bool },
    Terminal { data: Seq<u8>, terminal: WebTransportStreamReceiveTerminal },
    Blocked,
    Rejected(WebTransportSelectionError),
}

/// The value of a [`WebTransportDatagramSendOutcome`].
pub ghost enum DatagramSendAnswer {
    Accepted,
    Blocked(Seq<u8>),
    Rejected { error: WebTransportSelectionError, datagram: Seq<u8> },
    QueueFull(Seq<u8>),
    TooLarge { max: usize, datagram: Seq<u8> },
    AllocationTooLarge { max: usize, allocated: usize, datagram: Seq<u8> },
}

/// The value of a [`WebTransportDatagramReadOutcome`].
pub ghost enum DatagramReadAnswer {
    Datagram(Seq<u8>),
    Overflow { datagrams: u64, bytes: u64 },
    Empty,
    Rejected(WebTransportSelectionError),
}

/// The value of a [`WebTransportOutcome`].
pub ghost enum Answer {
    Open(WebTransportOpenStreamOutcome),
    Write(WriteAnswer),
    Lease(LeaseAnswer),
    Read(ReadAnswer),
    Control(WebTransportStreamControlOutcome),
    SendEnd(WebTransportStreamSendTerminalOutcome),
    ReceiveRetired(WebTransportStreamReceiveTerminalRetirementOutcome),
    SessionEnd(SessionEndAnswer),
    DatagramSent(DatagramSendAnswer),
    DatagramRead(DatagramReadAnswer),
    MaxDatagram(Result<usize, WebTransportSelectionError>),
    Ready(WebTransportReadyOutcome),
    Stats(WebTransportRetentionStats),
    Closed,
}

impl View for WebTransportSessionTerminalOutcome {
    type V = SessionEndAnswer;

    open spec fn view(&self) -> SessionEndAnswer {
        match self {
            WebTransportSessionTerminalOutcome::Terminated { session_id, reason } =>
                SessionEndAnswer::Terminated { session_id: *session_id, reason: reason@ },
            WebTransportSessionTerminalOutcome::ResourceLimit { session_id } =>
                SessionEndAnswer::ResourceLimit { session_id: *session_id },
            WebTransportSessionTerminalOutcome::StaleSession { session_id } =>
                SessionEndAnswer::StaleSession { session_id: *session_id },
            WebTransportSessionTerminalOutcome::UnknownSession { session_id } =>
                SessionEndAnswer::UnknownSession { session_id: *session_id },
        }
    }
}

impl View for WebTransportStreamWriteOutcome {
    type V = WriteAnswer;

    open spec fn view(&self) -> WriteAnswer {
        match self {
            WebTransportStreamWriteOutcome::Accepted { accepted, remaining, fin_accepted } =>
                WriteAnswer::Accepted {
                accepted: *accepted,
                remaining: match remaining {
                    Some(rest) => Some(rest@),
                    None => None,
                },
                fin_accepted: *fin_accepted,
            },
            WebTransportStreamWriteOutcome::Blocked { data, fin } => WriteAnswer::Blocked {
                data: data@,
                fin: *fin,
            },
            WebTransportStreamWriteOutcome::ResetRequired {
                wire_error_code,
                application_error_code,
                data,
                fin,
            } => WriteAnswer::ResetRequired {
                wire_error_code: *wire_error_code,
                application_error_code: *application_error_code,
                data: data@,
                fin: *fin,
            },
            WebTransportStreamWriteOutcome::Closed { data, fin } => WriteAnswer::Closed {
                data: data@,
                fin: *fin,
            },
            WebTransportStreamWriteOutcome::Rejected { error, data, fin } =>
                WriteAnswer::Rejected { error: *error, data: data@, fin: *fin },
            WebTransportStreamWriteOutcome::QueueFull { data, fin } => WriteAnswer::QueueFull {
                data: data@,
                fin: *fin,
            },
            WebTransportStreamWriteOutcome::ResourceLimit { data, fin } =>
                WriteAnswer::ResourceLimit { data: data@, fin: *fin },
            WebTransportStreamWriteOutcome::TooLarge { max, data, fin } => WriteAnswer::TooLarge {
                max: *max,
                data: data@,
                fin: *fin,
            },
        }
    }
}

impl View for WebTransportStreamReadOutcome {
    type V = ReadAnswer;

    open spec fn view(&self) -> ReadAnswer {
        match self {
            WebTransportStreamReadOutcome::Data { data, fin } => ReadAnswer::Data {
                data: data@,
                fin: *fin,
            },
            WebTransportStreamReadOutcome::Terminal { data, terminal } => ReadAnswer::Terminal {
                data: data@,
                terminal: *terminal,
            },
            WebTransportStreamReadOutcome::Blocked => ReadAnswer::Blocked,
            WebTransportStreamReadOutcome::Rejected(error) => ReadAnswer::Rejected(*error),
        }
    }
}

impl View for WebTransportDatagramSendOutcome {
    type V = DatagramSendAnswer;

    open spec fn view(&self) -> DatagramSendAnswer {
        match self {
            WebTransportDatagramSendOutcome::Accepted => DatagramSendAnswer::Accepted,
            WebTransportDatagramSendOutcome::Blocked(datagram) => DatagramSendAnswer::Blocked(
                datagram@,
            ),
            WebTransportDatagramSendOutcome::Rejected { error, datagram } =>
                DatagramSendAnswer::Rejected { error: *error, datagram: datagram@ },
            WebTransportDatagramSendOutcome::QueueFull(datagram) => DatagramSendAnswer::QueueFull(
                datagram@,
            ),
            WebTransportDatagramSendOutcome::TooLarge { max, datagram } =>
                DatagramSendAnswer::TooLarge { max: *max, datagram: datagram@ },
            WebTransportDatagramSendOutcome::AllocationTooLarge { max, allocated, datagram } =>
                DatagramSendAnswer::AllocationTooLarge {
                max: *max,
                allocated: *allocated,
                datagram: datagram@,
            },
        }
    }
}

impl View for WebTransportDatagramReadOutcome {
    type V = DatagramReadAnswer;

    open spec fn view(&self) -> DatagramReadAnswer {
        match self {
            WebTransportDatagramReadOutcome::Datagram(datagram) => DatagramReadAnswer::Datagram(
                datagram@,
            ),
            WebTransportDatagramReadOutcome::Overflow { datagrams, bytes } =>
                DatagramReadAnswer::Overflow { datagrams: *datagrams, bytes: *bytes },
            WebTransportDatagramReadOutcome::Empty => DatagramReadAnswer::Empty,
            WebTransportDatagramReadOutcome::Rejected(error) => DatagramReadAnswer::Rejected(
                *error,
            ),
        }
    }
}

impl View for WebTransportOutcome {
    type V = Answer;

    open spec fn view(&self) -> Answer {
        match self {
            WebTransportOutcome::Open(outcome) => Answer::Open(*outcome),
            WebTransportOutcome::Write(outcome) => Answer::Write(outcome@),
            WebTransportOutcome::Lease(outcome) => Answer::Lease(outcome@),
            WebTransportOutcome::Read(outcome) => Answer::Read(outcome@),
            WebTransportOutcome::Control(outcome) => Answer::Control(*outcome),
            WebTransportOutcome::SendEnd(outcome) => Answer::SendEnd(*outcome),
            WebTransportOutcome::ReceiveRetired(outcome) => Answer::ReceiveRetired(*outcome),
            WebTransportOutcome::SessionEnd(outcome) => Answer::SessionEnd(outcome@),
            WebTransportOutcome::DatagramSent(outcome) => Answer::DatagramSent(outcome@),
            WebTransportOutcome::DatagramRead(outcome) => Answer::DatagramRead(outcome@),
            WebTransportOutcome::MaxDatagram(result) => Answer::MaxDatagram(*result),
            WebTransportOutcome::Ready(outcome) => Answer::Ready(*outcome),
            WebTransportOutcome::Stats(stats) => Answer::Stats(*stats),
            WebTransportOutcome::Closed => Answer::Closed,
        }
    }
}

/// The values of a list of answers.
pub open spec fn answer_values(list: Seq<(u64, WebTransportOutcome)>) -> Seq<(u64, Answer)> {
    Seq::new(list.len(), |i: int| (list[i].0, list[i].1@))
}

/// A list of answers, with the same one added for each of `ops`.
pub open spec fn with_answers(answers: Seq<(u64, Answer)>, ops: Seq<u64>, answer: Answer) -> Seq<
    (u64, Answer),
> {
    answers + Seq::new(ops.len(), |i: int| (ops[i], answer))
}

/// Where the first answer for `op` stands, or the length of the list.
pub open spec fn answer_position(answers: Seq<(u64, Answer)>, op: u64) -> int
    decreases answers.len(),
{
    if answers.len() == 0 {
        0
    } else {
        let front = answer_position(answers.drop_last(), op);
        if front < answers.len() - 1 {
            front
        } else if answers.last().0 == op {
            answers.len() - 1
        } else {
            answers.len() as int
        }
    }
}

/// The first answer for `op`.
pub open spec fn answer_to(answers: Seq<(u64, Answer)>, op: u64) -> Option<Answer> {
    let at = answer_position(answers, op);
    if at < answers.len() {
        Some(answers[at].1)
    } else {
        None
    }
}

/// A list of answers without the first one for `op`.
pub open spec fn answer_taken(answers: Seq<(u64, Answer)>, op: u64) -> Seq<(u64, Answer)> {
    let at = answer_position(answers, op);
    if at < answers.len() {
        answers.remove(at)
    } else {
        answers
    }
}

/// The first index at which an answer for `op` stands.
pub proof fn lemma_answer_position(answers: Seq<(u64, Answer)>, op: u64, at: int)
    requires
        0 <= at <= answers.len(),
        at < answers.len() ==> answers[at].0 == op,
        forall|k: int| 0 <= k < at ==> (#[trigger] answers[k]).0 != op,
    ensures
        answer_position(answers, op) == at,
    decreases answers.len(),
{
    if answers.len() > 0 {
        let front = answers.drop_last();
        if at < answers.len() - 1 {
            assert(front[at] == answers[at]);
            lemma_answer_position(front, op, at);
        } else {
            lemma_answer_position(front, op, answers.len() - 1);
        }
    }
}

/// The answers that wait to be taken, oldest first.
#[derive(Debug)]
pub struct AnswerList {
    list: Vec<(u64, WebTransportOutcome)>,
}

impl View for AnswerList {
    type V = Seq<(u64, Answer)>;

    closed spec fn view(&self) -> Seq<(u64, Answer)> {
        answer_values(self.list@)
    }
}

impl AnswerList {
    /// No answers.
    pub fn new() -> (answers: Self)
        ensures
            answers@ == Seq::<(u64, Answer)>::empty(),
    {
        let answers = AnswerList { list: Vec::new() };
        assert(answers@ =~= Seq::<(u64, Answer)>::empty());
        answers
    }

    /// Answers the request `op`.
    pub fn push(&mut self, op: u64, outcome: WebTransportOutcome)
        ensures
            final(self)@ == old(self)@.push((op, outcome@)),
    {
        self.list.push((op, outcome));
        assert(self@ =~= old(self)@.push((op, outcome@)));
    }

    /// Answers each of `ops` about the end of a send direction.
    pub fn push_send_end(&mut self, ops: &Vec<u64>, outcome: WebTransportStreamSendTerminalOutcome)
        ensures
            final(self)@ == with_answers(old(self)@, ops@, Answer::SendEnd(outcome)),
    {
        let mut i: usize = 0;
        assert(with_answers(self@, ops@.take(0), Answer::SendEnd(outcome)) =~= self@);
        while i < ops.len()
            invariant
                i <= ops@.len(),
                self@ == with_answers(old(self)@, ops@.take(i as int), Answer::SendEnd(outcome)),
            decreases ops@.len() - i,
        {
            self.push(ops[i], WebTransportOutcome::SendEnd(outcome));
            assert(self@ =~= with_answers(
                old(self)@,
                ops@.take(i + 1),
                Answer::SendEnd(outcome),
            ));
            i += 1;
        }
        assert(ops@.take(i as int) =~= ops@);
    }

    /// Whether the request `op` has an answer.
    pub fn has(&self, op: u64) -> (has: bool)
        ensures
            has == (answer_to(self@, op) is Some),
    {
        let mut i: usize = 0;
        while i < self.list.len()
            invariant
                i <= self.list@.len(),
                forall|k: int| 0 <= k < i ==> (#[trigger] self@[k]).0 != op,
            decreases self.list@.len() - i,
        {
            if self.list[i].0 == op {
                proof {
                    lemma_answer_position(self@, op, i as int);
                }
                return true;
            }
            i += 1;
        }
        proof {
            lemma_answer_position(self@, op, i as int);
        }
        false
    }

    /// Takes the first answer for the request `op`.
    pub fn take(&mut self, op: u64) -> (outcome: Option<WebTransportOutcome>)
        ensures
            match answer_to(old(self)@, op) {
                Some(answer) => outcome matches Some(o) && o@ == answer,
                None => outcome is None,
            },
            final(self)@ == answer_taken(old(self)@, op),
    {
        let mut i: usize = 0;
        while i < self.list.len()
            invariant
                i <= self.list@.len(),
                *self == *old(self),
                forall|k: int| 0 <= k < i ==> (#[trigger] self@[k]).0 != op,
            decreases self.list@.len() - i,
        {
            if self.list[i].0 == op {
                proof {
                    lemma_answer_position(self@, op, i as int);
                }
                let (_, outcome) = self.list.remove(i);
                assert(self@ =~= old(self)@.remove(i as int));
                return Some(outcome);
            }
            i += 1;
        }
        proof {
            lemma_answer_position(self@, op, i as int);
        }
        None
    }
}

} // verus!
