//! The transport below a driver, as plain values: what has arrived and was not
//! taken yet, what was sent, and how much more can be sent.

use vstd::prelude::*;

use crate::conn_close::ConnectionError;
use crate::headers::Header;
use crate::peer_log::{
    direction_of, is_bidi, raw_bytes, stream_direction, PeerEvent, PeerLog, PeerLogState, Sent,
};
use crate::pipe_config::{DriverPipe, EndpointConfig};
use crate::request_stream::{add_capped, capped_sum};
use crate::table::{lookup, put, Table};
use crate::wire::stream_prefix::{
    read_stream_prefix, stream_prefix, StreamPrefix, WebTransportStreamDirection,
};
use crate::wt::block_reasons::StreamSendBlockReasons;
use crate::wt::snapshot::PathSnapshot;

verus! {

/// Which end of a connection a driver works for.
#[derive(Clone, Copy, Debug, PartialEq, Eq, Structural)]
pub enum Role {
    Client,
    Server,
}

/// Something that arrived from the peer.
#[derive(Debug)]
pub enum TransportEvent {
    /// A field section.
    Headers { stream_id: u64, headers: Vec<Header>, fin: bool },
    /// Body bytes.
    Data { stream_id: u64, data: Vec<u8> },
    /// The end of a request stream.
    Finished { stream_id: u64 },
    /// The abrupt end of a stream.
    Reset { stream_id: u64, error_code: u64 },
    /// The refusal of a stream that this end sends on.
    Stopped { stream_id: u64, error_code: u64 },
    /// Bytes of a stream without HTTP/3 frames.
    Raw { stream_id: u64, data: Vec<u8>, fin: bool },
    /// A datagram.
    Datagram { data: Vec<u8> },
    /// The peer takes no more requests.
    GoAway { id: u64 },
}

impl TransportEvent {
    /// The stream whose order an event has to keep.
    pub open spec fn ordered_on(self) -> Option<u64> {
        match self {
            TransportEvent::Headers { stream_id, .. } => Some(stream_id),
            TransportEvent::Data { stream_id, .. } => Some(stream_id),
            TransportEvent::Finished { stream_id } => Some(stream_id),
            TransportEvent::Reset { stream_id, .. } => Some(stream_id),
            TransportEvent::Raw { stream_id, .. } => Some(stream_id),
            _ => None,
        }
    }

    /// The stream whose order an event has to keep.
    pub fn stream(&self) -> (stream_id: Option<u64>)
        ensures
            stream_id == self.ordered_on(),
    {
        match self {
            TransportEvent::Headers { stream_id, .. } => Some(*stream_id),
            TransportEvent::Data { stream_id, .. } => Some(*stream_id),
            TransportEvent::Finished { stream_id } => Some(*stream_id),
            TransportEvent::Reset { stream_id, .. } => Some(*stream_id),
            TransportEvent::Raw { stream_id, .. } => Some(*stream_id),
            _ => None,
        }
    }

    /// Whether the event is body content of `stream_id`.
    pub open spec fn is_content_of(self, stream_id: u64) -> bool {
        match self {
            TransportEvent::Data { stream_id: id, .. } => id == stream_id,
            TransportEvent::Finished { stream_id: id } => id == stream_id,
            _ => false,
        }
    }

    fn content_of(&self, stream_id: u64) -> (is: bool)
        ensures
            is == self.is_content_of(stream_id),
    {
        match self {
            TransportEvent::Data { stream_id: id, .. } => *id == stream_id,
            TransportEvent::Finished { stream_id: id } => *id == stream_id,
            _ => false,
        }
    }
}

/// The events of `inbox` that are not body content of `stream_id`.
pub open spec fn without_content(inbox: Seq<TransportEvent>, stream_id: u64) -> Seq<TransportEvent>
    decreases inbox.len(),
{
    if inbox.len() == 0 {
        Seq::empty()
    } else {
        let front = without_content(inbox.drop_last(), stream_id);
        if inbox.last().is_content_of(stream_id) {
            front
        } else {
            front.push(inbox.last())
        }
    }
}

/// The send credit of a stream.
#[derive(Clone, Copy, Debug, PartialEq, Eq, Structural)]
pub struct StreamCredit {
    /// How many more bytes can be sent.
    pub left: u64,
    /// How many bytes the peer has read since it last granted more.
    pub read: u64,
    /// How many bytes the peer has read before it knew what the stream is.
    pub early: u64,
}

/// What the transport took of a write.
#[derive(Clone, Copy, Debug, PartialEq, Eq, Structural)]
pub enum SendResult {
    /// So many bytes, and the end of the stream if all of them and it was asked
    /// for.
    Accepted { count: usize, fin: bool },
    /// Nothing, for want of stream credit.
    Blocked,
    /// Nothing, because the peer refuses the stream.
    Stopped { error_code: u64 },
}

/// The credit that a stream starts with: what the other end announced for it.
pub open spec fn initial_credit(role: Role, pipe: DriverPipe, stream_id: u64) -> u64 {
    let opened_by_client = stream_id % 2 == 0;
    match role {
        Role::Server => if is_bidi(stream_id) {
            if opened_by_client {
                pipe.client.initial_max_stream_data_bidi_local
            } else {
                pipe.client.initial_max_stream_data_bidi_remote
            }
        } else if opened_by_client {
            0
        } else {
            pipe.client.initial_max_stream_data_uni
        },
        Role::Client => if is_bidi(stream_id) {
            if opened_by_client {
                pipe.server.initial_max_stream_data_bidi_remote
            } else {
                pipe.server.initial_max_stream_data_bidi_local
            }
        } else if opened_by_client {
            pipe.server.initial_max_stream_data_uni
        } else {
            0
        },
    }
}

/// The unidirectional streams that HTTP/3 itself opens: control, two for QPACK,
/// and one for greasing.
pub const HTTP3_UNI_STREAMS: u64 = 4;

/// The credit of a stream that started with `first`, after the peer granted what it
/// has read. It does so when less than half of its window is left.
pub open spec fn granted(row: StreamCredit, first: u64) -> StreamCredit {
    if first - row.read < first / 2 {
        StreamCredit { left: capped_sum(row.left, row.read as int), read: 0, ..row }
    } else {
        row
    }
}

/// The credits of all streams after the peer granted what it has read.
pub open spec fn all_granted(rows: Seq<(u64, StreamCredit)>, role: Role, pipe: DriverPipe) -> Seq<
    (u64, StreamCredit),
> {
    Seq::new(
        rows.len(),
        |i: int| (rows[i].0, granted(rows[i].1, initial_credit(role, pipe, rows[i].0))),
    )
}

/// The credit of a stream after the peer looked for its prefix: while the prefix
/// is not whole, the peer reads what there is of it.
pub open spec fn looked_at(row: StreamCredit, log: PeerLogState, stream_id: u64) -> StreamCredit {
    let bytes = raw_bytes(log.sent, stream_id);
    if log.announced.contains(stream_id) || !(stream_prefix(direction_of(stream_id), bytes)
        is Incomplete) || bytes.len() <= row.early {
        row
    } else {
        StreamCredit {
            read: capped_sum(row.read, bytes.len() - row.early),
            early: bytes.len() as u64,
            ..row
        }
    }
}

/// The credits of all streams after the peer looked for prefixes.
pub open spec fn all_looked_at(rows: Seq<(u64, StreamCredit)>, log: PeerLogState) -> Seq<
    (u64, StreamCredit),
> {
    Seq::new(rows.len(), |i: int| (rows[i].0, looked_at(rows[i].1, log, rows[i].0)))
}

/// How many bytes the transport can send as one datagram.
pub const DGRAM_MAX_WRITABLE_LEN: usize = 1200;

/// The value of a [`Transport`].
pub ghost struct TransportState {
    pub role: Role,
    pub pipe: DriverPipe,
    /// What arrived and was not taken yet, oldest first.
    pub inbox: Seq<TransportEvent>,
    /// What was sent and the peer has not taken yet.
    pub log: PeerLogState,
    /// The streams that this end refused, with the code.
    pub stops_sent: Seq<(u64, u64)>,
    /// The streams that the peer refused, with the code.
    pub stops_received: Seq<(u64, u64)>,
    pub credit: Seq<(u64, StreamCredit)>,
    /// How many bidirectional and unidirectional streams this end opened.
    pub bidi_opened: u64,
    pub uni_opened: u64,
    /// How many it may open.
    pub bidi_limit: u64,
    pub uni_limit: u64,
    /// How many more it may open once the peer has noticed.
    pub bidi_released: u64,
    pub uni_released: u64,
    /// The datagrams that wait to be sent, and those that the peer can take.
    pub dgrams_queued: Seq<Seq<u8>>,
    pub dgrams_arrived: Seq<Seq<u8>>,
    /// What keeps all frameless streams from being written, whatever their credit.
    pub held: StreamSendBlockReasons,
    /// What the transport tells of the path that it uses.
    pub path: PathSnapshot,
    pub local_error: Option<ConnectionError>,
    pub peer_error: Option<ConnectionError>,
}

impl TransportState {
    /// The credit record of a stream.
    pub open spec fn credit_row(self, stream_id: u64) -> StreamCredit {
        match lookup(self.credit, stream_id) {
            Some(row) => row,
            None => StreamCredit {
                left: initial_credit(self.role, self.pipe, stream_id),
                read: 0,
                early: 0,
            },
        }
    }

    /// How many more bytes can be sent on a stream.
    pub open spec fn credit_of(self, stream_id: u64) -> u64 {
        self.credit_row(stream_id).left
    }

    /// The state after `count` bytes of credit were used.
    pub open spec fn spent(self, stream_id: u64, count: u64) -> TransportState {
        let row = self.credit_row(stream_id);
        TransportState {
            credit: put(
                self.credit,
                stream_id,
                StreamCredit { left: (row.left - count) as u64, ..row },
            ),
            ..self
        }
    }

    /// The state after the peer looked for the prefixes of frameless streams.
    pub open spec fn prefixes_sought(self) -> TransportState {
        TransportState { credit: all_looked_at(self.credit, self.log), ..self }
    }

    /// How many bytes the peer reads with an event of a stream, given how many the
    /// event takes.
    pub open spec fn read_now(self, stream_id: u64, event: PeerEvent, read: int) -> int {
        let early = self.credit_row(stream_id).early;
        if event is WebTransportStream {
            if early < read {
                read - early
            } else {
                0
            }
        } else {
            read
        }
    }

    /// The state after the peer read `count` bytes.
    pub open spec fn peer_read(self, stream_id: u64, count: int) -> TransportState {
        let row = self.credit_row(stream_id);
        TransportState {
            credit: put(
                self.credit,
                stream_id,
                StreamCredit { read: capped_sum(row.read, count), ..row },
            ),
            ..self
        }
    }

    /// The state after something more was sent.
    pub open spec fn sending(self, sent: Sent) -> TransportState {
        TransportState { log: self.log.plus(sent), ..self }
    }

    /// The state after this end refused a stream. The first refusal counts.
    pub open spec fn stopping(self, stream_id: u64, error_code: u64) -> TransportState {
        if lookup(self.stops_sent, stream_id) is Some {
            self
        } else {
            TransportState { stops_sent: put(self.stops_sent, stream_id, error_code), ..self }
        }
    }

    /// The state after something arrived.
    pub open spec fn receiving(self, event: TransportEvent) -> TransportState {
        TransportState { inbox: self.inbox.push(event), ..self }
    }

    /// The state after the peer reset a stream: what it sent before and was not
    /// taken is lost.
    pub open spec fn reset_delivered(self, stream_id: u64, error_code: u64) -> TransportState {
        TransportState {
            inbox: without_content(self.inbox, stream_id).push(
                TransportEvent::Reset { stream_id, error_code },
            ),
            ..self
        }
    }

    /// The state after the peer refused a stream. The first refusal counts.
    pub open spec fn stop_delivered(self, stream_id: u64, error_code: u64) -> TransportState {
        if lookup(self.stops_received, stream_id) is Some {
            self
        } else {
            (TransportState {
                stops_received: put(self.stops_received, stream_id, error_code),
                ..self
            }).receiving(TransportEvent::Stopped { stream_id, error_code })
        }
    }

    /// The state after both ends have caught up with each other: credit is
    /// granted, streams may be opened, datagrams arrive.
    pub open spec fn advanced(self) -> TransportState {
        TransportState {
            credit: all_granted(self.credit, self.role, self.pipe),
            bidi_limit: capped_sum(self.bidi_limit, self.bidi_released as int),
            uni_limit: capped_sum(self.uni_limit, self.uni_released as int),
            bidi_released: 0,
            uni_released: 0,
            dgrams_queued: Seq::empty(),
            dgrams_arrived: self.dgrams_arrived + self.dgrams_queued,
            ..self
        }
    }

    /// Whether this end may open a stream of the given direction.
    pub open spec fn may_open(self, direction: WebTransportStreamDirection) -> bool {
        match direction {
            WebTransportStreamDirection::Bidi => self.bidi_opened < self.bidi_limit
                && self.bidi_opened < MAX_STREAM_INDEX,
            WebTransportStreamDirection::Uni => self.uni_opened < self.uni_limit && self.uni_opened
                < MAX_STREAM_INDEX,
        }
    }

    /// The number of the next stream that this end opens.
    pub open spec fn next_stream(self, direction: WebTransportStreamDirection) -> u64 {
        let side = match self.role {
            Role::Client => 0int,
            Role::Server => 1int,
        };
        match direction {
            WebTransportStreamDirection::Bidi => (4 * self.bidi_opened + side) as u64,
            WebTransportStreamDirection::Uni => (4 * self.uni_opened + 2 + side) as u64,
        }
    }

    /// The state after this end opened a stream.
    pub open spec fn opened(self, direction: WebTransportStreamDirection) -> TransportState {
        match direction {
            WebTransportStreamDirection::Bidi => TransportState {
                bidi_opened: (self.bidi_opened + 1) as u64,
                ..self
            },
            WebTransportStreamDirection::Uni => TransportState {
                uni_opened: (self.uni_opened + 1) as u64,
                ..self
            },
        }
    }

    /// The state after a stream of this end is over in both directions.
    pub open spec fn released(self, direction: WebTransportStreamDirection) -> TransportState {
        match direction {
            WebTransportStreamDirection::Bidi => TransportState {
                bidi_released: capped_sum(self.bidi_released, 1),
                ..self
            },
            WebTransportStreamDirection::Uni => TransportState {
                uni_released: capped_sum(self.uni_released, 1),
                ..self
            },
        }
    }

    /// Why a frameless stream cannot be written, as far as there are reasons.
    pub open spec fn block_reasons(self, stream_id: u64) -> StreamSendBlockReasons {
        StreamSendBlockReasons {
            stream_flow_control: self.held.stream_flow_control || self.credit_of(stream_id) == 0,
            ..self.held
        }
    }

    /// What a write of `len` bytes on a frameless stream comes to.
    #[verifier::opaque]
    pub open spec fn raw_result(self, stream_id: u64, len: int, fin: bool) -> SendResult {
        let credit = self.credit_of(stream_id);
        match lookup(self.stops_received, stream_id) {
            Some(error_code) => SendResult::Stopped { error_code },
            None => if len > 0 && self.block_reasons(stream_id) != StreamSendBlockReasons::none() {
                SendResult::Blocked
            } else if len <= credit {
                SendResult::Accepted { count: len as usize, fin }
            } else {
                SendResult::Accepted { count: credit as usize, fin: false }
            },
        }
    }

    /// The state after such a write.
    #[verifier::opaque]
    pub open spec fn raw_sent(self, stream_id: u64, data: Seq<u8>, fin: bool) -> TransportState {
        match self.raw_result(stream_id, data.len() as int, fin) {
            SendResult::Accepted { count, fin: ended } => self.sending(
                Sent::Raw { stream_id, data: data.subrange(0, count as int), fin: ended },
            ).spent(stream_id, count as u64),
            _ => self,
        }
    }
}

/// The contents of a list of byte strings.
pub open spec fn byte_values(list: Seq<Vec<u8>>) -> Seq<Seq<u8>> {
    Seq::new(list.len(), |i: int| list[i]@)
}

/// How many bytes a list of byte strings has.
pub open spec fn byte_count(list: Seq<Seq<u8>>) -> nat
    decreases list.len(),
{
    if list.len() == 0 {
        0
    } else {
        byte_count(list.drop_last()) + list.last().len()
    }
}

/// How many streams of one kind can be numbered.
pub const MAX_STREAM_INDEX: u64 = 1_152_921_504_606_846_975;

/// The transport below a driver.
#[derive(Debug)]
pub struct Transport {
    role: Role,
    pipe: DriverPipe,
    inbox: Vec<TransportEvent>,
    log: PeerLog,
    stops_sent: Table<u64>,
    stops_received: Table<u64>,
    credit: Table<StreamCredit>,
    bidi_opened: u64,
    uni_opened: u64,
    bidi_limit: u64,
    uni_limit: u64,
    bidi_released: u64,
    uni_released: u64,
    dgrams_queued: Vec<Vec<u8>>,
    dgrams_arrived: Vec<Vec<u8>>,
    held: StreamSendBlockReasons,
    path: PathSnapshot,
    local_error: Option<ConnectionError>,
    peer_error: Option<ConnectionError>,
}

impl View for Transport {
    type V = TransportState;

    closed spec fn view(&self) -> TransportState {
        TransportState {
            role: self.role,
            pipe: self.pipe,
            inbox: self.inbox@,
            log: self.log@,
            stops_sent: self.stops_sent@,
            stops_received: self.stops_received@,
            credit: self.credit@,
            bidi_opened: self.bidi_opened,
            uni_opened: self.uni_opened,
            bidi_limit: self.bidi_limit,
            uni_limit: self.uni_limit,
            bidi_released: self.bidi_released,
            uni_released: self.uni_released,
            dgrams_queued: byte_values(self.dgrams_queued@),
            dgrams_arrived: byte_values(self.dgrams_arrived@),
            held: self.held,
            path: self.path,
            local_error: self.local_error,
            peer_error: self.peer_error,
        }
    }
}

impl Transport {
    /// The transport of a connection on which nothing was sent yet. HTTP/3 has
    /// opened its own streams.
    pub open spec fn fresh(role: Role, pipe: DriverPipe) -> TransportState {
        let peer = match role {
            Role::Client => pipe.server,
            Role::Server => pipe.client,
        };
        TransportState {
            role,
            pipe,
            inbox: Seq::empty(),
            log: PeerLogState { sent: Seq::empty(), announced: Seq::empty() },
            stops_sent: Seq::empty(),
            stops_received: Seq::empty(),
            credit: Seq::empty(),
            bidi_opened: 0,
            uni_opened: HTTP3_UNI_STREAMS,
            bidi_limit: peer.initial_max_streams_bidi,
            uni_limit: peer.initial_max_streams_uni,
            bidi_released: 0,
            uni_released: 0,
            dgrams_queued: Seq::empty(),
            dgrams_arrived: Seq::empty(),
            held: StreamSendBlockReasons::none(),
            path: PathSnapshot {
                path_generation: 0,
                smoothed_rtt_micros: 0,
                congestion_window_bytes: 0,
                bytes_in_flight: 0,
            },
            local_error: None,
            peer_error: None,
        }
    }

    /// The transport of a connection on which nothing was sent yet.
    pub fn new(role: Role, pipe: DriverPipe) -> (transport: Self)
        ensures
            transport@ == Transport::fresh(role, pipe),
    {
        let peer: EndpointConfig = match role {
            Role::Client => pipe.server,
            Role::Server => pipe.client,
        };
        let transport = Transport {
            role,
            pipe,
            inbox: Vec::new(),
            log: PeerLog::new(),
            stops_sent: Table::new(),
            stops_received: Table::new(),
            credit: Table::new(),
            bidi_opened: 0,
            uni_opened: HTTP3_UNI_STREAMS,
            bidi_limit: peer.initial_max_streams_bidi,
            uni_limit: peer.initial_max_streams_uni,
            bidi_released: 0,
            uni_released: 0,
            dgrams_queued: Vec::new(),
            dgrams_arrived: Vec::new(),
            held: StreamSendBlockReasons::empty(),
            path: PathSnapshot {
                path_generation: 0,
                smoothed_rtt_micros: 0,
                congestion_window_bytes: 0,
                bytes_in_flight: 0,
            },
            local_error: None,
            peer_error: None,
        };
        assert(transport@.dgrams_queued =~= Seq::<Seq<u8>>::empty());
        assert(transport@.dgrams_arrived =~= Seq::<Seq<u8>>::empty());
        transport
    }

    /// The end that this transport works for.
    pub fn role(&self) -> (role: Role)
        ensures
            role == self@.role,
    {
        self.role
    }

    fn start_credit(&self, stream_id: u64) -> (credit: u64)
        ensures
            credit == initial_credit(self@.role, self@.pipe, stream_id),
    {
        let by_client = stream_id % 2 == 0;
        let bidi = stream_id % 4 < 2;
        match self.role {
            Role::Server => if bidi {
                if by_client {
                    self.pipe.client.initial_max_stream_data_bidi_local
                } else {
                    self.pipe.client.initial_max_stream_data_bidi_remote
                }
            } else if by_client {
                0
            } else {
                self.pipe.client.initial_max_stream_data_uni
            },
            Role::Client => if bidi {
                if by_client {
                    self.pipe.server.initial_max_stream_data_bidi_remote
                } else {
                    self.pipe.server.initial_max_stream_data_bidi_local
                }
            } else if by_client {
                self.pipe.server.initial_max_stream_data_uni
            } else {
                0
            },
        }
    }

    fn credit_row(&self, stream_id: u64) -> (row: StreamCredit)
        ensures
            row == self@.credit_row(stream_id),
    {
        match self.credit.get(stream_id) {
            Some(row) => *row,
            None => StreamCredit { left: self.start_credit(stream_id), read: 0, early: 0 },
        }
    }

    /// How many more bytes can be sent on a stream.
    pub fn credit(&self, stream_id: u64) -> (left: u64)
        ensures
            left == self@.credit_of(stream_id),
    {
        self.credit_row(stream_id).left
    }

    /// Uses `count` bytes of a stream's credit.
    pub fn spend(&mut self, stream_id: u64, count: u64)
        requires
            count <= old(self)@.credit_of(stream_id),
        ensures
            final(self)@ == old(self)@.spent(stream_id, count),
    {
        let mut row = self.credit_row(stream_id);
        row.left = row.left - count;
        self.credit.set(stream_id, row);
    }

    /// The peer looks for the prefixes of frameless streams.
    pub fn seek_prefixes(&mut self)
        ensures
            final(self)@ == old(self)@.prefixes_sought(),
    {
        let ghost rows = self.credit@;
        let ghost log = self.log@;
        let ghost done = all_looked_at(rows, log);
        let ghost before = self@;
        let len: usize = self.credit.len();
        let mut i: usize = 0;
        assert(done.take(0) + rows.skip(0) =~= rows);
        while i < len
            invariant
                i <= len == rows.len(),
                done == all_looked_at(rows, log),
                log == self.log@,
                self@ == (TransportState {
                    credit: done.take(i as int) + rows.skip(i as int),
                    ..before
                }),
            decreases len - i,
        {
            let ghost now = done.take(i as int) + rows.skip(i as int);
            assert(now[i as int] == rows[i as int]);
            assert(done.take(i + 1) + rows.skip(i + 1) =~= now.update(i as int, done[i as int]));
            let (stream_id, row) = self.credit.at(i);
            let mut next: StreamCredit = *row;
            if !self.log.is_announced(stream_id) {
                let (bytes, _) = self.log.waiting_raw(stream_id);
                let len: u64 = bytes.len() as u64;
                if let StreamPrefix::Incomplete = read_stream_prefix(
                    stream_direction(stream_id),
                    &bytes,
                ) {
                    if len > next.early {
                        let more: u64 = len - next.early;
                        next.read = if more <= u64::MAX - next.read {
                            next.read + more
                        } else {
                            u64::MAX
                        };
                        next.early = len;
                    }
                }
            }
            self.credit.set_at(i, next);
            i += 1;
        }
        assert(done.take(i as int) + rows.skip(i as int) =~= done);
    }

    /// How many bytes the peer reads with an event of a stream, given how many the
    /// event takes.
    pub fn reads_now(&self, stream_id: u64, event: &PeerEvent, read: u64) -> (count: u64)
        ensures
            count == self@.read_now(stream_id, *event, read as int),
    {
        let early: u64 = self.credit_row(stream_id).early;
        match event {
            PeerEvent::WebTransportStream { .. } => if early < read {
                read - early
            } else {
                0
            },
            _ => read,
        }
    }

    /// The peer read `count` bytes of a stream.
    pub fn note_peer_read(&mut self, stream_id: u64, count: u64)
        ensures
            final(self)@ == old(self)@.peer_read(stream_id, count as int),
    {
        let mut row = self.credit_row(stream_id);
        row.read = if count <= u64::MAX - row.read {
            row.read + count
        } else {
            u64::MAX
        };
        self.credit.set(stream_id, row);
    }

    /// What the peer has been sent and has not taken yet, for adding to it.
    pub fn log_mut(&mut self) -> (log: &mut PeerLog)
        ensures
            log@ == old(self)@.log,
            final(self)@ == (TransportState { log: final(log)@, ..old(self)@ }),
    {
        &mut self.log
    }

    /// Ends a request stream, with an empty DATA frame before the end.
    pub fn send_empty_end(&mut self, stream_id: u64)
        ensures
            final(self)@ == old(self)@.sending(
                Sent::Body { stream_id, data: Seq::empty() },
            ).sending(Sent::Fin { stream_id }),
    {
        let nothing: Vec<u8> = Vec::new();
        self.log.body(stream_id, &nothing, 0, 0);
        assert(nothing@.subrange(0, 0) =~= Seq::<u8>::empty());
        self.log.fin(stream_id);
    }

    /// Resets a stream.
    pub fn send_reset(&mut self, stream_id: u64, error_code: u64)
        ensures
            final(self)@ == old(self)@.sending(Sent::Reset { stream_id, error_code }),
    {
        self.log.reset(stream_id, error_code);
    }

    /// Refuses a stream.
    pub fn send_stop(&mut self, stream_id: u64, error_code: u64)
        ensures
            final(self)@ == old(self)@.stopping(stream_id, error_code),
    {
        if !self.stops_sent.contains(stream_id) {
            self.stops_sent.set(stream_id, error_code);
        }
    }

    /// The code with which this end refused a stream.
    pub fn stop_sent(&self, stream_id: u64) -> (code: Option<u64>)
        ensures
            code == lookup(self@.stops_sent, stream_id),
    {
        match self.stops_sent.get(stream_id) {
            Some(code) => Some(*code),
            None => None,
        }
    }

    /// The code with which the peer refused a stream.
    pub fn stop_received(&self, stream_id: u64) -> (code: Option<u64>)
        ensures
            code == lookup(self@.stops_received, stream_id),
    {
        match self.stops_received.get(stream_id) {
            Some(code) => Some(*code),
            None => None,
        }
    }

    /// Why a frameless stream cannot be written, as far as there are reasons.
    pub fn send_blocks(&self, stream_id: u64) -> (reasons: StreamSendBlockReasons)
        ensures
            reasons == self@.block_reasons(stream_id),
    {
        StreamSendBlockReasons {
            stream_flow_control: self.held.stream_flow_control || self.credit(stream_id) == 0,
            ..self.held
        }
    }

    /// What the transport tells of the path that it uses.
    pub fn path(&self) -> (path: PathSnapshot)
        ensures
            path == self@.path,
    {
        self.path
    }

    /// The path that the transport uses changed.
    pub fn set_path(&mut self, path: PathSnapshot)
        ensures
            final(self)@ == (TransportState { path, ..old(self)@ }),
    {
        self.path = path;
    }

    /// Keeps all frameless streams from being written for the given reasons.
    pub fn hold_back(&mut self, reasons: StreamSendBlockReasons)
        ensures
            final(self)@ == (TransportState { held: reasons, ..old(self)@ }),
    {
        self.held = reasons;
    }

    /// Writes on a frameless stream, as far as its credit goes.
    pub fn send_raw(&mut self, stream_id: u64, data: &[u8], fin: bool) -> (result: SendResult)
        ensures
            result == old(self)@.raw_result(stream_id, data@.len() as int, fin),
            final(self)@ == old(self)@.raw_sent(stream_id, data@, fin),
            result matches SendResult::Accepted { count, .. } ==> count <= data@.len(),
            !(result is Accepted) ==> final(self)@ == old(self)@,
    {
        proof {
            reveal(TransportState::raw_result);
            reveal(TransportState::raw_sent);
        }
        if let Some(error_code) = self.stop_received(stream_id) {
            return SendResult::Stopped { error_code };
        }
        let credit: u64 = self.credit(stream_id);
        let len: usize = data.len();
        if len > 0 && self.send_blocks(stream_id).any() {
            return SendResult::Blocked;
        }
        let count: usize = if len as u64 <= credit {
            len
        } else {
            credit as usize
        };
        let ended = fin && count == len;
        self.log.raw(stream_id, data, 0, count, ended);
        self.spend(stream_id, count as u64);
        SendResult::Accepted { count, fin: ended }
    }

    /// Opens a stream, where the peer allows it.
    pub fn open_stream(&mut self, direction: WebTransportStreamDirection) -> (stream_id: Option<
        u64,
    >)
        ensures
            old(self)@.may_open(direction) ==> stream_id == Some(old(self)@.next_stream(direction))
                && final(self)@ == old(self)@.opened(direction),
            !old(self)@.may_open(direction) ==> stream_id is None && final(self)@ == old(self)@,
    {
        let stream_id = self.upcoming(direction);
        if stream_id.is_some() {
            match direction {
                WebTransportStreamDirection::Bidi => {
                    self.bidi_opened = self.bidi_opened + 1;
                },
                WebTransportStreamDirection::Uni => {
                    self.uni_opened = self.uni_opened + 1;
                },
            }
        }
        stream_id
    }

    /// The number that the next stream of a direction gets, where the peer allows
    /// one.
    pub fn upcoming(&self, direction: WebTransportStreamDirection) -> (stream_id: Option<u64>)
        ensures
            stream_id == (if self@.may_open(direction) {
                Some(self@.next_stream(direction))
            } else {
                None
            }),
    {
        let side: u64 = match self.role {
            Role::Client => 0,
            Role::Server => 1,
        };
        match direction {
            WebTransportStreamDirection::Bidi => {
                if self.bidi_opened < self.bidi_limit && self.bidi_opened < MAX_STREAM_INDEX {
                    Some(4 * self.bidi_opened + side)
                } else {
                    None
                }
            },
            WebTransportStreamDirection::Uni => {
                if self.uni_opened < self.uni_limit && self.uni_opened < MAX_STREAM_INDEX {
                    Some(4 * self.uni_opened + 2 + side)
                } else {
                    None
                }
            },
        }
    }

    /// How many more streams of a direction the peer allows.
    pub fn streams_left(&self, direction: WebTransportStreamDirection) -> (count: u64)
        ensures
            count == (match direction {
                WebTransportStreamDirection::Bidi => if self@.bidi_opened <= self@.bidi_limit {
                    self@.bidi_limit - self@.bidi_opened
                } else {
                    0
                },
                WebTransportStreamDirection::Uni => if self@.uni_opened <= self@.uni_limit {
                    self@.uni_limit - self@.uni_opened
                } else {
                    0
                },
            }),
    {
        match direction {
            WebTransportStreamDirection::Bidi => if self.bidi_opened <= self.bidi_limit {
                self.bidi_limit - self.bidi_opened
            } else {
                0
            },
            WebTransportStreamDirection::Uni => if self.uni_opened <= self.uni_limit {
                self.uni_limit - self.uni_opened
            } else {
                0
            },
        }
    }

    /// A stream of this end is over in both directions.
    pub fn release_stream(&mut self, direction: WebTransportStreamDirection)
        ensures
            final(self)@ == old(self)@.released(direction),
    {
        match direction {
            WebTransportStreamDirection::Bidi => {
                self.bidi_released = add_capped(self.bidi_released, 1);
            },
            WebTransportStreamDirection::Uni => {
                self.uni_released = add_capped(self.uni_released, 1);
            },
        }
    }

    /// The bound on the datagrams that wait to be sent.
    pub open spec fn dgram_room(state: TransportState) -> int {
        match state.role {
            Role::Client => state.pipe.client.dgram_send_queue_len as int,
            Role::Server => state.pipe.server.dgram_send_queue_len as int,
        }
    }

    /// Whether there is room for a datagram.
    pub fn has_dgram_room(&self) -> (room: bool)
        ensures
            room == (self@.dgrams_queued.len() < Transport::dgram_room(self@)),
    {
        let bound: usize = match self.role {
            Role::Client => self.pipe.client.dgram_send_queue_len,
            Role::Server => self.pipe.server.dgram_send_queue_len,
        };
        self.dgrams_queued.len() < bound
    }

    /// Sends a datagram, where there is room for it.
    pub fn send_dgram(&mut self, data: Vec<u8>) -> (rejected: Option<Vec<u8>>)
        ensures
            old(self)@.dgrams_queued.len() < Transport::dgram_room(old(self)@) ==> rejected is None
                && final(self)@ == (TransportState {
                dgrams_queued: old(self)@.dgrams_queued.push(data@),
                ..old(self)@
            }),
            old(self)@.dgrams_queued.len() >= Transport::dgram_room(old(self)@) ==> rejected
                == Some(data) && final(self)@ == old(self)@,
    {
        let room: usize = match self.role {
            Role::Client => self.pipe.client.dgram_send_queue_len,
            Role::Server => self.pipe.server.dgram_send_queue_len,
        };
        if self.dgrams_queued.len() < room {
            self.dgrams_queued.push(data);
            assert(self@.dgrams_queued =~= old(self)@.dgrams_queued.push(data@));
            None
        } else {
            Some(data)
        }
    }

    /// How many bytes of datagrams wait to be sent. The sum stops at the largest
    /// value.
    pub fn queued_dgram_bytes(&self) -> (count: u64)
        ensures
            byte_count(self@.dgrams_queued) <= u64::MAX ==> count == byte_count(
                self@.dgrams_queued,
            ),
            byte_count(self@.dgrams_queued) > u64::MAX ==> count == u64::MAX,
    {
        let ghost all = byte_values(self.dgrams_queued@);
        let mut count: u64 = 0;
        let mut i: usize = 0;
        assert(all.take(0) =~= Seq::<Seq<u8>>::empty());
        while i < self.dgrams_queued.len()
            invariant
                i <= self.dgrams_queued@.len(),
                all == byte_values(self.dgrams_queued@),
                byte_count(all.take(i as int)) <= u64::MAX ==> count == byte_count(
                    all.take(i as int),
                ),
                byte_count(all.take(i as int)) > u64::MAX ==> count == u64::MAX,
            decreases self.dgrams_queued@.len() - i,
        {
            assert(all.take(i + 1).drop_last() =~= all.take(i as int));
            assert(all.take(i + 1).last() == self.dgrams_queued@[i as int]@);
            count = add_capped(count, self.dgrams_queued[i].len());
            i += 1;
        }
        assert(all.take(i as int) =~= all);
        count
    }

    /// Takes the oldest datagram that reached the peer.
    pub fn peer_recv_dgram(&mut self) -> (data: Option<Vec<u8>>)
        ensures
            match data {
                Some(first) => old(self)@.dgrams_arrived.len() > 0 && first@
                    == old(self)@.dgrams_arrived[0] && final(self)@ == (TransportState {
                    dgrams_arrived: old(self)@.dgrams_arrived.skip(1),
                    ..old(self)@
                }),
                None => old(self)@.dgrams_arrived.len() == 0 && final(self)@ == old(self)@,
            },
    {
        if self.dgrams_arrived.len() == 0 {
            None
        } else {
            let first = self.dgrams_arrived.remove(0);
            assert(self@.dgrams_arrived =~= old(self)@.dgrams_arrived.skip(1));
            Some(first)
        }
    }

    /// Closes the connection from this end. The first close counts.
    pub fn close(&mut self, is_app: bool, error_code: u64)
        ensures
            final(self)@ == (if old(self)@.local_error is None {
                (TransportState {
                    local_error: Some(ConnectionError { is_app, error_code }),
                    ..old(self)@
                })
            } else {
                old(self)@
            }),
    {
        if self.local_error.is_none() {
            self.local_error = Some(ConnectionError { is_app, error_code });
        }
    }

    /// The peer closes the connection.
    pub fn peer_close(&mut self, is_app: bool, error_code: u64)
        ensures
            final(self)@ == (TransportState {
                peer_error: Some(ConnectionError { is_app, error_code }),
                ..old(self)@
            }),
    {
        self.peer_error = Some(ConnectionError { is_app, error_code });
    }

    /// The error that this end closed the connection with.
    pub fn local_error(&self) -> (error: Option<ConnectionError>)
        ensures
            error == self@.local_error,
    {
        self.local_error
    }

    /// The error that the peer closed the connection with.
    pub fn peer_error(&self) -> (error: Option<ConnectionError>)
        ensures
            error == self@.peer_error,
    {
        self.peer_error
    }

    /// Something arrived.
    pub fn deliver(&mut self, event: TransportEvent)
        ensures
            final(self)@ == old(self)@.receiving(event),
    {
        self.inbox.push(event);
    }

    /// The peer resets a stream: what it sent before and was not taken is lost.
    pub fn deliver_reset(&mut self, stream_id: u64, error_code: u64)
        ensures
            final(self)@ == old(self)@.reset_delivered(stream_id, error_code),
    {
        let mut inbox: Vec<TransportEvent> = Vec::new();
        std::mem::swap(&mut inbox, &mut self.inbox);
        let ghost all = inbox@;
        let mut kept: Vec<TransportEvent> = Vec::new();
        let ghost mut i: int = 0;
        assert(all.take(0) =~= Seq::<TransportEvent>::empty());
        while inbox.len() > 0
            invariant
                0 <= i,
                i + inbox@.len() == all.len(),
                inbox@ == all.skip(i),
                kept@ == without_content(all.take(i), stream_id),
            decreases inbox@.len(),
        {
            let event = inbox.remove(0);
            assert(event == all[i]);
            assert(inbox@ =~= all.skip(i + 1));
            assert(all.take(i + 1).drop_last() =~= all.take(i));
            assert(all.take(i + 1).last() == event);
            if !event.content_of(stream_id) {
                kept.push(event);
            }
            proof {
                i = i + 1;
            }
        }
        assert(all.take(i) =~= all);
        kept.push(TransportEvent::Reset { stream_id, error_code });
        self.inbox = kept;
    }

    /// The peer refuses a stream. The first refusal counts.
    pub fn deliver_stop(&mut self, stream_id: u64, error_code: u64)
        ensures
            final(self)@ == old(self)@.stop_delivered(stream_id, error_code),
    {
        if !self.stops_received.contains(stream_id) {
            self.stops_received.set(stream_id, error_code);
            self.inbox.push(TransportEvent::Stopped { stream_id, error_code });
        }
    }

    /// Takes everything that arrived.
    pub fn take_inbox(&mut self) -> (inbox: Vec<TransportEvent>)
        ensures
            inbox@ == old(self)@.inbox,
            final(self)@ == (TransportState { inbox: Seq::empty(), ..old(self)@ }),
    {
        let mut inbox: Vec<TransportEvent> = Vec::new();
        std::mem::swap(&mut inbox, &mut self.inbox);
        inbox
    }

    /// Puts back what could not be taken yet, before anything that arrived since.
    pub fn put_back(&mut self, inbox: Vec<TransportEvent>)
        ensures
            final(self)@ == (TransportState { inbox: inbox@ + old(self)@.inbox, ..old(self)@ }),
    {
        let mut front = inbox;
        front.append(&mut self.inbox);
        self.inbox = front;
    }

    /// Lets both ends catch up with each other.
    pub fn advance(&mut self)
        ensures
            final(self)@ == old(self)@.advanced(),
    {
        let ghost rows = self.credit@;
        let ghost before = self@;
        let ghost done = all_granted(rows, before.role, before.pipe);
        let len: usize = self.credit.len();
        let mut i: usize = 0;
        assert(done.take(0) + rows.skip(0) =~= rows);
        while i < len
            invariant
                i <= len == rows.len(),
                done == all_granted(rows, before.role, before.pipe),
                self@ == (TransportState {
                    credit: done.take(i as int) + rows.skip(i as int),
                    ..before
                }),
            decreases len - i,
        {
            let ghost now = done.take(i as int) + rows.skip(i as int);
            assert(now[i as int] == rows[i as int]);
            assert(done.take(i + 1) + rows.skip(i + 1) =~= now.update(i as int, done[i as int]));
            let (stream_id, row) = self.credit.at(i);
            let row: StreamCredit = *row;
            let first: u64 = self.start_credit(stream_id);
            if row.read > first || first - row.read < first / 2 {
                let left: u64 = if row.read <= u64::MAX - row.left {
                    row.left + row.read
                } else {
                    u64::MAX
                };
                self.credit.set_at(i, StreamCredit { left, read: 0, early: row.early });
            } else {
                assert(now.update(i as int, done[i as int]) =~= now);
            }
            i += 1;
        }
        assert(done.take(i as int) + rows.skip(i as int) =~= done);
        self.grant_streams();
        let mut queued: Vec<Vec<u8>> = Vec::new();
        std::mem::swap(&mut queued, &mut self.dgrams_queued);
        self.dgrams_arrived.append(&mut queued);
        assert(self@.dgrams_arrived =~= before.dgrams_arrived + before.dgrams_queued);
        assert(self@.dgrams_queued =~= Seq::<Seq<u8>>::empty());
    }

    fn grant_streams(&mut self)
        ensures
            final(self)@ == (TransportState {
                bidi_limit: capped_sum(old(self)@.bidi_limit, old(self)@.bidi_released as int),
                uni_limit: capped_sum(old(self)@.uni_limit, old(self)@.uni_released as int),
                bidi_released: 0,
                uni_released: 0,
                ..old(self)@
            }),
    {
        self.bidi_limit = if self.bidi_released <= u64::MAX - self.bidi_limit {
            self.bidi_limit + self.bidi_released
        } else {
            u64::MAX
        };
        self.uni_limit = if self.uni_released <= u64::MAX - self.uni_limit {
            self.uni_limit + self.uni_released
        } else {
            u64::MAX
        };
        self.bidi_released = 0;
        self.uni_released = 0;
    }
}

} // verus!
