//! What the peer has been sent and has not taken yet.

use vstd::prelude::*;

use crate::headers::copy_bytes;
use crate::wire::capsule::copy_range;
use crate::wire::stream_prefix::{
    read_stream_prefix, stream_prefix, StreamPrefix, WebTransportStreamDirection,
};

verus! {

/// One thing that was sent to the peer.
#[derive(Debug)]
pub enum PeerEntry {
    /// A field section.
    Headers { stream_id: u64, cost: u64 },
    /// Body bytes of a request stream.
    Body { stream_id: u64, data: Vec<u8> },
    /// The end of a request stream.
    Fin { stream_id: u64 },
    /// An abrupt end of a stream.
    Reset { stream_id: u64, error_code: u64 },
    /// Bytes of a stream that carries no HTTP/3 frames.
    Raw { stream_id: u64, data: Vec<u8>, fin: bool },
}

/// One thing that was sent to the peer, as a value.
pub ghost enum Sent {
    Headers { stream_id: u64, cost: u64 },
    Body { stream_id: u64, data: Seq<u8> },
    Fin { stream_id: u64 },
    Reset { stream_id: u64, error_code: u64 },
    Raw { stream_id: u64, data: Seq<u8>, fin: bool },
}

impl View for PeerEntry {
    type V = Sent;

    open spec fn view(&self) -> Sent {
        match self {
            PeerEntry::Headers { stream_id, cost } => Sent::Headers {
                stream_id: *stream_id,
                cost: *cost,
            },
            PeerEntry::Body { stream_id, data } => Sent::Body {
                stream_id: *stream_id,
                data: data@,
            },
            PeerEntry::Fin { stream_id } => Sent::Fin { stream_id: *stream_id },
            PeerEntry::Reset { stream_id, error_code } => Sent::Reset {
                stream_id: *stream_id,
                error_code: *error_code,
            },
            PeerEntry::Raw { stream_id, data, fin } => Sent::Raw {
                stream_id: *stream_id,
                data: data@,
                fin: *fin,
            },
        }
    }
}

/// What the peer learns when it asks for the next event.
#[derive(Clone, Copy, Debug, PartialEq, Eq, Structural)]
pub enum PeerEvent {
    Headers,
    Data,
    Finished,
    Reset { error_code: u64 },
    WebTransportStream {
        session_id: u64,
        direction: WebTransportStreamDirection,
        prefix_len: usize,
    },
}

/// What the peer gets when it reads a stream without HTTP/3 frames.
#[derive(Debug, PartialEq, Eq)]
pub enum RawRead {
    /// Nothing has arrived.
    Nothing,
    /// Bytes, and whether the stream ends behind them.
    Data { data: Vec<u8>, fin: bool },
    /// The stream was reset.
    Reset { error_code: u64 },
}

/// Whether a stream of this number carries data both ways.
pub open spec fn is_bidi(stream_id: u64) -> bool {
    stream_id % 4 < 2
}

/// The direction of a stream, as its number gives it.
pub open spec fn direction_of(stream_id: u64) -> WebTransportStreamDirection {
    if is_bidi(stream_id) {
        WebTransportStreamDirection::Bidi
    } else {
        WebTransportStreamDirection::Uni
    }
}

/// The direction of a stream, as its number gives it.
pub fn stream_direction(stream_id: u64) -> (direction: WebTransportStreamDirection)
    ensures
        direction == direction_of(stream_id),
{
    if stream_id % 4 < 2 {
        WebTransportStreamDirection::Bidi
    } else {
        WebTransportStreamDirection::Uni
    }
}

/// The numbers of a list but `stream_id`.
pub open spec fn ids_but(ids: Seq<u64>, stream_id: u64) -> Seq<u64>
    decreases ids.len(),
{
    if ids.len() == 0 {
        Seq::empty()
    } else if ids.last() == stream_id {
        ids_but(ids.drop_last(), stream_id)
    } else {
        ids_but(ids.drop_last(), stream_id).push(ids.last())
    }
}

/// Whether body bytes of `stream_id` wait in `log`.
pub open spec fn has_body(log: Seq<Sent>, stream_id: u64) -> bool {
    exists|i: int| 0 <= i < log.len() && #[trigger] log[i] is Body && log[i]->Body_stream_id
        == stream_id
}

/// The body bytes of `stream_id` that wait in `log`.
pub open spec fn body_bytes(log: Seq<Sent>, stream_id: u64) -> Seq<u8>
    decreases log.len(),
{
    if log.len() == 0 {
        Seq::empty()
    } else {
        let front = body_bytes(log.drop_last(), stream_id);
        match log.last() {
            Sent::Body { stream_id: id, data } => if id == stream_id {
                front + data
            } else {
                front
            },
            _ => front,
        }
    }
}

/// `log` without the body bytes of `stream_id`.
pub open spec fn without_body(log: Seq<Sent>, stream_id: u64) -> Seq<Sent>
    decreases log.len(),
{
    if log.len() == 0 {
        Seq::empty()
    } else {
        let front = without_body(log.drop_last(), stream_id);
        match log.last() {
            Sent::Body { stream_id: id, .. } => if id == stream_id {
                front
            } else {
                front.push(log.last())
            },
            _ => front.push(log.last()),
        }
    }
}

/// The frameless bytes of `stream_id` that wait in `log`.
pub open spec fn raw_bytes(log: Seq<Sent>, stream_id: u64) -> Seq<u8>
    decreases log.len(),
{
    if log.len() == 0 {
        Seq::empty()
    } else {
        let front = raw_bytes(log.drop_last(), stream_id);
        match log.last() {
            Sent::Raw { stream_id: id, data, .. } => if id == stream_id {
                front + data
            } else {
                front
            },
            _ => front,
        }
    }
}

/// Whether the end of the frameless stream `stream_id` waits in `log`.
pub open spec fn raw_fin(log: Seq<Sent>, stream_id: u64) -> bool
    decreases log.len(),
{
    if log.len() == 0 {
        false
    } else {
        let front = raw_fin(log.drop_last(), stream_id);
        match log.last() {
            Sent::Raw { stream_id: id, fin, .. } => front || (id == stream_id && fin),
            _ => front,
        }
    }
}

/// `log` without the frameless bytes of `stream_id`.
pub open spec fn without_raw(log: Seq<Sent>, stream_id: u64) -> Seq<Sent>
    decreases log.len(),
{
    if log.len() == 0 {
        Seq::empty()
    } else {
        let front = without_raw(log.drop_last(), stream_id);
        match log.last() {
            Sent::Raw { stream_id: id, .. } => if id == stream_id {
                front
            } else {
                front.push(log.last())
            },
            _ => front.push(log.last()),
        }
    }
}

/// The code of the first reset of `stream_id` in `log`.
pub open spec fn reset_code(log: Seq<Sent>, stream_id: u64) -> Option<u64>
    decreases log.len(),
{
    if log.len() == 0 {
        None
    } else {
        match reset_code(log.drop_last(), stream_id) {
            Some(code) => Some(code),
            None => match log.last() {
                Sent::Reset { stream_id: id, error_code } => if id == stream_id {
                    Some(error_code)
                } else {
                    None
                },
                _ => None,
            },
        }
    }
}

/// How many bytes of frameless streams a log holds.
pub open spec fn raw_total(log: Seq<Sent>) -> nat
    decreases log.len(),
{
    if log.len() == 0 {
        0
    } else {
        raw_total(log.drop_last()) + match log.last() {
            Sent::Raw { data, .. } => data.len(),
            _ => 0nat,
        }
    }
}

/// Whether something was sent on `stream_id` without HTTP/3 frames.
pub open spec fn has_raw(log: Seq<Sent>, stream_id: u64) -> bool {
    exists|i: int| 0 <= i < log.len() && (#[trigger] log[i] is Raw) && log[i]->Raw_stream_id
        == stream_id
}

/// What the peer's next event is, and what is left.
pub ghost struct Poll {
    pub event: Option<(u64, PeerEvent)>,
    /// How many bytes the peer reads with the event.
    pub read: int,
    pub log: Seq<Sent>,
    pub announced: Seq<u64>,
}

/// The first event from index `from` on. Field sections and resets are taken
/// when they are reported. Body bytes are reported once until the peer has read
/// them, and the end of a stream only behind them. A frameless stream is
/// reported once, when its prefix is whole, and the prefix is taken with it; that
/// it was reset is seen by whoever reads it.
pub open spec fn poll_from(log: Seq<Sent>, announced: Seq<u64>, from: int) -> Poll
    decreases log.len() - from,
{
    if from < 0 || from >= log.len() {
        Poll { event: None, read: 0, log, announced }
    } else {
        match log[from] {
            Sent::Headers { stream_id, cost } => Poll {
                event: Some((stream_id, PeerEvent::Headers)),
                read: cost as int,
                log: log.remove(from),
                announced,
            },
            Sent::Reset { stream_id, error_code } => if has_raw(log, stream_id) {
                poll_from(log, announced, from + 1)
            } else {
                Poll {
                    event: Some((stream_id, PeerEvent::Reset { error_code })),
                    read: 0,
                    log: log.remove(from),
                    announced,
                }
            },
            Sent::Body { stream_id, .. } => if announced.contains(stream_id) {
                poll_from(log, announced, from + 1)
            } else {
                Poll {
                    event: Some((stream_id, PeerEvent::Data)),
                    read: 0,
                    log,
                    announced: announced.push(stream_id),
                }
            },
            Sent::Fin { stream_id } => if has_body(log.take(from), stream_id) {
                poll_from(log, announced, from + 1)
            } else {
                Poll {
                    event: Some((stream_id, PeerEvent::Finished)),
                    read: 0,
                    log: log.remove(from),
                    announced,
                }
            },
            Sent::Raw { stream_id, .. } => if announced.contains(stream_id) {
                poll_from(log, announced, from + 1)
            } else {
                let direction = direction_of(stream_id);
                match stream_prefix(direction, raw_bytes(log, stream_id)) {
                    StreamPrefix::Complete { session_id, prefix_len } => Poll {
                        event: Some(
                            (
                                stream_id,
                                PeerEvent::WebTransportStream { session_id, direction, prefix_len },
                            ),
                        ),
                        read: prefix_len as int,
                        log: without_raw(log, stream_id).push(
                            Sent::Raw {
                                stream_id,
                                data: raw_bytes(log, stream_id).skip(prefix_len as int),
                                fin: raw_fin(log, stream_id),
                            },
                        ),
                        announced: announced.push(stream_id),
                    },
                    _ => poll_from(log, announced, from + 1),
                }
            },
        }
    }
}

/// Everything that was sent to the peer and that it has not taken yet.
#[derive(Debug)]
pub struct PeerLog {
    entries: Vec<PeerEntry>,
    announced: Vec<u64>,
}

/// The value of a [`PeerLog`].
pub ghost struct PeerLogState {
    /// What was sent and not taken, oldest first.
    pub sent: Seq<Sent>,
    /// The streams whose waiting bytes the peer has been told of.
    pub announced: Seq<u64>,
}

impl PeerLogState {
    /// The log after one more thing was sent.
    pub open spec fn plus(self, sent: Sent) -> PeerLogState {
        PeerLogState { sent: self.sent.push(sent), ..self }
    }
}

/// The values of a list of entries.
pub open spec fn sent_values(entries: Seq<PeerEntry>) -> Seq<Sent> {
    Seq::new(entries.len(), |i: int| entries[i]@)
}

impl View for PeerLog {
    type V = PeerLogState;

    closed spec fn view(&self) -> PeerLogState {
        PeerLogState { sent: sent_values(self.entries@), announced: self.announced@ }
    }
}

impl PeerLog {
    /// A log of nothing.
    pub fn new() -> (log: Self)
        ensures
            log@ == (PeerLogState { sent: Seq::empty(), announced: Seq::empty() }),
    {
        let log = PeerLog { entries: Vec::new(), announced: Vec::new() };
        assert(log@.sent =~= Seq::<Sent>::empty());
        log
    }

    fn push(&mut self, entry: PeerEntry)
        ensures
            final(self)@ == old(self)@.plus(entry@),
    {
        self.entries.push(entry);
        assert(self@.sent =~= old(self)@.sent.push(entry@));
    }

    /// Sends a field section.
    pub fn headers(&mut self, stream_id: u64, cost: u64)
        ensures
            final(self)@ == old(self)@.plus(Sent::Headers { stream_id, cost }),
    {
        self.push(PeerEntry::Headers { stream_id, cost });
    }

    /// Sends `data` from `start` up to `end` as body bytes.
    pub fn body(&mut self, stream_id: u64, data: &Vec<u8>, start: usize, end: usize)
        requires
            start <= end <= data@.len(),
        ensures
            final(self)@ == old(self)@.plus(
                Sent::Body { stream_id, data: data@.subrange(start as int, end as int) },
            ),
    {
        self.push(PeerEntry::Body { stream_id, data: copy_range(data, start, end) });
    }

    /// Ends a request stream.
    pub fn fin(&mut self, stream_id: u64)
        ensures
            final(self)@ == old(self)@.plus(Sent::Fin { stream_id }),
    {
        self.push(PeerEntry::Fin { stream_id });
    }

    /// Resets a stream.
    pub fn reset(&mut self, stream_id: u64, error_code: u64)
        ensures
            final(self)@ == old(self)@.plus(Sent::Reset { stream_id, error_code }),
    {
        self.push(PeerEntry::Reset { stream_id, error_code });
    }

    /// Sends `data` from `start` up to `end` on a frameless stream.
    pub fn raw(&mut self, stream_id: u64, data: &[u8], start: usize, end: usize, fin: bool)
        requires
            start <= end <= data@.len(),
        ensures
            final(self)@ == old(self)@.plus(
                Sent::Raw { stream_id, data: data@.subrange(start as int, end as int), fin },
            ),
    {
        let part = copy_bytes(vstd::slice::slice_subrange(data, start, end));
        self.push(PeerEntry::Raw { stream_id, data: part, fin });
    }

    /// Whether the peer was told of a stream.
    pub fn is_announced(&self, stream_id: u64) -> (found: bool)
        ensures
            found == self@.announced.contains(stream_id),
    {
        let mut i: usize = 0;
        while i < self.announced.len()
            invariant
                i <= self.announced@.len(),
                forall|k: int| 0 <= k < i ==> self.announced@[k] != stream_id,
            decreases self.announced@.len() - i,
        {
            if self.announced[i] == stream_id {
                return true;
            }
            i += 1;
        }
        false
    }

    /// How many bytes of frameless streams wait. The sum stops at its largest value.
    pub fn raw_byte_count(&self) -> (count: u64)
        ensures
            raw_total(self@.sent) <= u64::MAX ==> count == raw_total(self@.sent),
            raw_total(self@.sent) > u64::MAX ==> count == u64::MAX,
    {
        let ghost log = self@.sent;
        let mut count: u64 = 0;
        let mut i: usize = 0;
        assert(log.take(0) =~= Seq::<Sent>::empty());
        while i < self.entries.len()
            invariant
                i <= self.entries@.len(),
                log == self@.sent,
                raw_total(log.take(i as int)) <= u64::MAX ==> count == raw_total(
                    log.take(i as int),
                ),
                raw_total(log.take(i as int)) > u64::MAX ==> count == u64::MAX,
            decreases self.entries@.len() - i,
        {
            assert(log.take(i + 1).drop_last() =~= log.take(i as int));
            assert(log.take(i + 1).last() == self.entries@[i as int]@);
            if let PeerEntry::Raw { data, .. } = &self.entries[i] {
                let len: u64 = data.len() as u64;
                count = if len <= u64::MAX - count {
                    count + len
                } else {
                    u64::MAX
                };
            }
            i += 1;
        }
        assert(log.take(i as int) =~= log);
        count
    }

    fn carries_raw(&self, stream_id: u64) -> (found: bool)
        ensures
            found == has_raw(self@.sent, stream_id),
    {
        let ghost log = self@.sent;
        let mut i: usize = 0;
        while i < self.entries.len()
            invariant
                i <= self.entries@.len(),
                log == self@.sent,
                forall|k: int|
                    0 <= k < i ==> !(#[trigger] log[k] is Raw && log[k]->Raw_stream_id
                        == stream_id),
            decreases self.entries@.len() - i,
        {
            assert(log[i as int] == self.entries@[i as int]@);
            if let PeerEntry::Raw { stream_id: id, .. } = &self.entries[i] {
                if *id == stream_id {
                    return true;
                }
            }
            i += 1;
        }
        false
    }

    fn body_before(&self, end: usize, stream_id: u64) -> (found: bool)
        requires
            end <= self@.sent.len(),
        ensures
            found == has_body(self@.sent.take(end as int), stream_id),
    {
        let ghost front = self@.sent.take(end as int);
        let mut i: usize = 0;
        while i < end
            invariant
                i <= end <= self.entries@.len(),
                front == self@.sent.take(end as int),
                forall|k: int|
                    0 <= k < i ==> !(#[trigger] front[k] is Body && front[k]->Body_stream_id
                        == stream_id),
            decreases end - i,
        {
            assert(front[i as int] == self.entries@[i as int]@);
            if let PeerEntry::Body { stream_id: id, .. } = &self.entries[i] {
                if *id == stream_id {
                    return true;
                }
            }
            i += 1;
        }
        false
    }

    /// The bytes of a frameless stream that wait, and whether it ends behind
    /// them.
    pub fn waiting_raw(&self, stream_id: u64) -> (waiting: (Vec<u8>, bool))
        ensures
            waiting.0@ == raw_bytes(self@.sent, stream_id),
            waiting.1 == raw_fin(self@.sent, stream_id),
    {
        let ghost log = self@.sent;
        let mut bytes: Vec<u8> = Vec::new();
        let mut ended = false;
        let mut i: usize = 0;
        assert(log.take(0) =~= Seq::<Sent>::empty());
        while i < self.entries.len()
            invariant
                i <= self.entries@.len(),
                log == sent_values(self.entries@),
                bytes@ == raw_bytes(log.take(i as int), stream_id),
                ended == raw_fin(log.take(i as int), stream_id),
            decreases self.entries@.len() - i,
        {
            assert(log.take(i + 1).drop_last() =~= log.take(i as int));
            assert(log.take(i + 1).last() == self.entries@[i as int]@);
            if let PeerEntry::Raw { stream_id: id, data, fin } = &self.entries[i] {
                if *id == stream_id {
                    let ghost before = bytes@;
                    bytes.extend_from_slice(data.as_slice());
                    assert(bytes@ =~= before + data@);
                    if *fin {
                        ended = true;
                    }
                }
            }
            i += 1;
        }
        assert(log.take(i as int) =~= log);
        (bytes, ended)
    }

    /// The code of the first reset of `stream_id` that waits.
    pub fn waiting_reset(&self, stream_id: u64) -> (code: Option<u64>)
        ensures
            code == reset_code(self@.sent, stream_id),
    {
        let ghost log = self@.sent;
        let mut code: Option<u64> = None;
        let mut i: usize = 0;
        assert(log.take(0) =~= Seq::<Sent>::empty());
        while i < self.entries.len()
            invariant
                i <= self.entries@.len(),
                log == sent_values(self.entries@),
                code == reset_code(log.take(i as int), stream_id),
            decreases self.entries@.len() - i,
        {
            assert(log.take(i + 1).drop_last() =~= log.take(i as int));
            assert(log.take(i + 1).last() == self.entries@[i as int]@);
            if code.is_none() {
                if let PeerEntry::Reset { stream_id: id, error_code } = &self.entries[i] {
                    if *id == stream_id {
                        code = Some(*error_code);
                    }
                }
            }
            i += 1;
        }
        assert(log.take(i as int) =~= log);
        code
    }

    /// Takes the peer's next event. Returns also how many bytes the peer reads
    /// with it.
    pub fn poll(&mut self) -> (next: (Option<(u64, PeerEvent)>, u64))
        ensures
            ({
                let poll = poll_from(old(self)@.sent, old(self)@.announced, 0);
                next.0 == poll.event && next.1 == poll.read && final(self)@ == (PeerLogState {
                    sent: poll.log,
                    announced: poll.announced,
                })
            }),
    {
        let mut i: usize = 0;
        while i < self.entries.len()
            invariant
                i <= self.entries@.len(),
                *self == *old(self),
                poll_from(self@.sent, self@.announced, 0) == poll_from(
                    self@.sent,
                    self@.announced,
                    i as int,
                ),
            decreases self.entries@.len() - i,
        {
            assert(self@.sent[i as int] == self.entries@[i as int]@);
            let mut event: Option<(u64, PeerEvent)> = None;
            let mut taken = false;
            let mut read: u64 = 0;
            let mut payload: Option<(Vec<u8>, usize, bool)> = None;
            match &self.entries[i] {
                PeerEntry::Headers { stream_id, cost } => {
                    event = Some((*stream_id, PeerEvent::Headers));
                    read = *cost;
                    taken = true;
                },
                PeerEntry::Reset { stream_id, error_code } => {
                    if !self.carries_raw(*stream_id) {
                        event = Some((*stream_id, PeerEvent::Reset { error_code: *error_code }));
                        taken = true;
                    }
                },
                PeerEntry::Body { stream_id, .. } => {
                    if !self.is_announced(*stream_id) {
                        event = Some((*stream_id, PeerEvent::Data));
                    }
                },
                PeerEntry::Fin { stream_id } => {
                    if !self.body_before(i, *stream_id) {
                        event = Some((*stream_id, PeerEvent::Finished));
                        taken = true;
                    }
                },
                PeerEntry::Raw { stream_id, .. } => {
                    if !self.is_announced(*stream_id) {
                        let direction = stream_direction(*stream_id);
                        let (bytes, ended) = self.waiting_raw(*stream_id);
                        if let StreamPrefix::Complete { session_id, prefix_len } =
                            read_stream_prefix(direction, &bytes) {
                            event = Some(
                                (
                                    *stream_id,
                                    PeerEvent::WebTransportStream {
                                        session_id,
                                        direction,
                                        prefix_len,
                                    },
                                ),
                            );
                            read = prefix_len as u64;
                            payload = Some((bytes, prefix_len, ended));
                        }
                    }
                },
            }
            if let Some((stream_id, _)) = event {
                if let Some((bytes, start, ended)) = payload {
                    self.take_raw(stream_id);
                    self.raw(stream_id, bytes.as_slice(), start, bytes.len(), ended);
                    assert(bytes@.subrange(start as int, bytes@.len() as int) =~= bytes@.skip(
                        start as int,
                    ));
                }
                if taken {
                    let ghost before = self.entries@;
                    self.entries.remove(i);
                    assert(self@.sent =~= old(self)@.sent.remove(i as int));
                } else {
                    self.announced.push(stream_id);
                }
                return (event, read);
            }
            i += 1;
        }
        (None, 0)
    }

    /// Takes the body bytes of `stream_id`, once they have been reported.
    pub fn recv_body(&mut self, stream_id: u64) -> (body: Option<Vec<u8>>)
        ensures
            !old(self)@.announced.contains(stream_id) ==> body is None && final(self)@
                == old(self)@,
            old(self)@.announced.contains(stream_id) ==> {
                &&& final(self)@.sent == without_body(old(self)@.sent, stream_id)
                &&& final(self)@.announced == ids_but(old(self)@.announced, stream_id)
                &&& body is None <==> body_bytes(old(self)@.sent, stream_id).len() == 0
                &&& body matches Some(bytes) ==> bytes@ == body_bytes(old(self)@.sent, stream_id)
            },
    {
        if !self.is_announced(stream_id) {
            return None;
        }
        let ghost log = self@.sent;
        let mut kept: Vec<PeerEntry> = Vec::new();
        let mut bytes: Vec<u8> = Vec::new();
        let mut entries: Vec<PeerEntry> = Vec::new();
        std::mem::swap(&mut entries, &mut self.entries);
        let ghost all = entries@;
        assert(log =~= sent_values(all));
        let ghost mut i: int = 0;
        assert(log.take(0) =~= Seq::<Sent>::empty());
        assert(sent_values(kept@) =~= Seq::<Sent>::empty());
        while entries.len() > 0
            invariant
                0 <= i,
                i + entries@.len() == all.len(),
                entries@ == all.skip(i),
                log == sent_values(all),
                bytes@ == body_bytes(log.take(i), stream_id),
                sent_values(kept@) == without_body(log.take(i), stream_id),
            decreases entries@.len(),
        {
            let entry = entries.remove(0);
            assert(entry == all[i]);
            assert(entries@ =~= all.skip(i + 1));
            assert(log.take(i + 1).drop_last() =~= log.take(i));
            assert(log.take(i + 1).last() == entry@);
            let mut mine = false;
            if let PeerEntry::Body { stream_id: id, data } = &entry {
                if *id == stream_id {
                    let ghost before = bytes@;
                    bytes.extend_from_slice(data.as_slice());
                    assert(bytes@ =~= before + data@);
                    mine = true;
                }
            }
            if !mine {
                let ghost before = kept@;
                kept.push(entry);
                assert(sent_values(kept@) =~= sent_values(before).push(entry@));
            }
            proof {
                i = i + 1;
            }
        }
        assert(log.take(i) =~= log);
        self.entries = kept;
        self.forget_announcement(stream_id);
        if bytes.len() == 0 {
            None
        } else {
            Some(bytes)
        }
    }

    fn forget_announcement(&mut self, stream_id: u64)
        ensures
            final(self)@.sent == old(self)@.sent,
            final(self)@.announced == ids_but(old(self)@.announced, stream_id),
    {
        let ghost all = self.announced@;
        let mut kept: Vec<u64> = Vec::new();
        let mut i: usize = 0;
        assert(all.take(0) =~= Seq::<u64>::empty());
        while i < self.announced.len()
            invariant
                i <= self.announced@.len(),
                all == self.announced@,
                kept@ == ids_but(all.take(i as int), stream_id),
                *self == *old(self),
            decreases self.announced@.len() - i,
        {
            assert(all.take(i + 1).drop_last() =~= all.take(i as int));
            assert(all.take(i + 1).last() == all[i as int]);
            if self.announced[i] != stream_id {
                kept.push(self.announced[i]);
            }
            i += 1;
        }
        assert(all.take(i as int) =~= all);
        self.announced = kept;
        assert(self@.sent =~= old(self)@.sent);
    }

    /// Takes the bytes of a frameless stream.
    pub fn take_raw(&mut self, stream_id: u64)
        ensures
            final(self)@ == (PeerLogState {
                sent: without_raw(old(self)@.sent, stream_id),
                ..old(self)@
            }),
    {
        let ghost log = self@.sent;
        let mut kept: Vec<PeerEntry> = Vec::new();
        let mut entries: Vec<PeerEntry> = Vec::new();
        std::mem::swap(&mut entries, &mut self.entries);
        let ghost all = entries@;
        assert(log =~= sent_values(all));
        let ghost mut i: int = 0;
        assert(log.take(0) =~= Seq::<Sent>::empty());
        assert(sent_values(kept@) =~= Seq::<Sent>::empty());
        while entries.len() > 0
            invariant
                0 <= i,
                i + entries@.len() == all.len(),
                entries@ == all.skip(i),
                log == sent_values(all),
                sent_values(kept@) == without_raw(log.take(i), stream_id),
            decreases entries@.len(),
        {
            let entry = entries.remove(0);
            assert(entry == all[i]);
            assert(entries@ =~= all.skip(i + 1));
            assert(log.take(i + 1).drop_last() =~= log.take(i));
            assert(log.take(i + 1).last() == entry@);
            let mut mine = false;
            if let PeerEntry::Raw { stream_id: id, .. } = &entry {
                mine = *id == stream_id;
            }
            if !mine {
                let ghost before = kept@;
                kept.push(entry);
                assert(sent_values(kept@) =~= sent_values(before).push(entry@));
            }
            proof {
                i = i + 1;
            }
        }
        assert(log.take(i) =~= log);
        self.entries = kept;
    }
}

} // verus!
