//! What the peer does with a connection: it takes what it was sent, and sends.

use vstd::prelude::*;

use crate::peer_log::{
    body_bytes, ids_but, poll_from, raw_bytes, raw_fin, reset_code, without_body, without_raw,
    PeerEvent, PeerLog, PeerLogState, RawRead, Sent,
};
use crate::request_stream::DATA_FRAME_OVERHEAD;
use crate::table::lookup;
use crate::transport::{Transport, TransportEvent, TransportState};

verus! {

impl PeerLogState {
    /// The log with the first `count` bytes that wait of a frameless stream, and no more
    /// of it.
    #[verifier::opaque]
    pub open spec fn raw_kept(self, stream_id: u64, count: int) -> PeerLogState {
        let rest = without_raw(self.sent, stream_id);
        let data = raw_bytes(self.sent, stream_id).subrange(0, count);
        PeerLogState {
            sent: if count > 0 {
                rest.push(Sent::Raw { stream_id, data, fin: false })
            } else {
                rest
            },
            ..self
        }
    }
}

impl PeerLog {
    /// Takes back the last `lost` of the bytes that wait of a frameless stream, and its
    /// end.
    pub fn lose_raw(&mut self, stream_id: u64, lost: usize)
        ensures
            ({
                let waiting = raw_bytes(old(self)@.sent, stream_id).len();
                let kept = if lost < waiting {
                    waiting - lost
                } else {
                    0
                };
                final(self)@ == old(self)@.raw_kept(stream_id, kept)
            }),
    {
        proof {
            reveal(PeerLogState::raw_kept);
        }
        let (bytes, _) = self.waiting_raw(stream_id);
        self.take_raw(stream_id);
        if lost < bytes.len() {
            let kept: usize = bytes.len() - lost;
            self.raw(stream_id, bytes.as_slice(), 0, kept, false);
        }
    }
}

impl TransportState {
    /// The state after the peer asked for its next event.
    #[verifier::opaque]
    pub open spec fn peer_polled(self) -> TransportState {
        let poll = poll_from(self.log.sent, self.log.announced, 0);
        let taken = TransportState {
            log: PeerLogState { sent: poll.log, announced: poll.announced },
            ..self.prefixes_sought()
        };
        match poll.event {
            Some((stream_id, event)) => taken.peer_read(
                stream_id,
                taken.read_now(stream_id, event, poll.read),
            ),
            None => taken,
        }
    }

    /// The state after the peer read the body bytes of a stream that it was told of.
    #[verifier::opaque]
    pub open spec fn peer_body_read(self, stream_id: u64) -> TransportState {
        let bytes = body_bytes(self.log.sent, stream_id);
        if self.log.announced.contains(stream_id) {
            let taken = TransportState {
                log: PeerLogState {
                    sent: without_body(self.log.sent, stream_id),
                    announced: ids_but(self.log.announced, stream_id),
                },
                ..self
            };
            if bytes.len() > 0 {
                taken.peer_read(stream_id, bytes.len() as int).peer_read(
                    stream_id,
                    DATA_FRAME_OVERHEAD as int,
                )
            } else {
                taken
            }
        } else {
            self
        }
    }

    /// The state after the peer read a frameless stream.
    #[verifier::opaque]
    pub open spec fn peer_raw_read(self, stream_id: u64) -> TransportState {
        let bytes = raw_bytes(self.log.sent, stream_id);
        if reset_code(self.log.sent, stream_id) is Some || bytes.len() == 0 && !raw_fin(
            self.log.sent,
            stream_id,
        ) {
            self
        } else {
            (TransportState {
                log: PeerLogState {
                    sent: without_raw(self.log.sent, stream_id),
                    ..self.log
                },
                ..self
            }).peer_read(stream_id, bytes.len() as int)
        }
    }

    /// The state after the peer sent body bytes, unless this end has refused the stream.
    #[verifier::opaque]
    pub open spec fn body_delivered(
        self,
        stream_id: u64,
        data: Vec<u8>,
        fin: bool,
    ) -> TransportState {
        if lookup(self.stops_sent, stream_id) is Some {
            self
        } else {
            let sent = self.receiving(TransportEvent::Data { stream_id, data });
            if fin {
                sent.receiving(TransportEvent::Finished { stream_id })
            } else {
                sent
            }
        }
    }
}

impl Transport {
    /// The peer asks for its next event.
    pub fn poll_peer(&mut self) -> (event: Option<(u64, PeerEvent)>)
        ensures
            event == poll_from(old(self)@.log.sent, old(self)@.log.announced, 0).event,
            final(self)@ == old(self)@.peer_polled(),
    {
        proof {
            reveal(TransportState::peer_polled);
        }
        self.seek_prefixes();
        let (polled, read) = self.log_mut().poll();
        if let Some((stream_id, event)) = &polled {
            let count: u64 = self.reads_now(*stream_id, event, read);
            self.note_peer_read(*stream_id, count);
        }
        polled
    }

    /// The peer reads the body bytes of a stream that it was told of.
    pub fn read_peer_body(&mut self, stream_id: u64) -> (body: Option<Vec<u8>>)
        ensures
            ({
                let log = old(self)@.log;
                let bytes = body_bytes(log.sent, stream_id);
                &&& body is Some <==> log.announced.contains(stream_id) && bytes.len() > 0
                &&& body matches Some(read) ==> read@ == bytes
            }),
            final(self)@ == old(self)@.peer_body_read(stream_id),
    {
        proof {
            reveal(TransportState::peer_body_read);
        }
        let body = self.log_mut().recv_body(stream_id);
        if let Some(bytes) = &body {
            self.note_peer_read(stream_id, bytes.len() as u64);
            self.note_peer_read(stream_id, DATA_FRAME_OVERHEAD);
        }
        body
    }

    /// The peer reads a stream without HTTP/3 frames.
    pub fn read_peer_raw(&mut self, stream_id: u64) -> (read: RawRead)
        ensures
            final(self)@ == old(self)@.peer_raw_read(stream_id),
            ({
                let log = old(self)@.log.sent;
                let bytes = raw_bytes(log, stream_id);
                match reset_code(log, stream_id) {
                    Some(error_code) => read == (RawRead::Reset { error_code }),
                    None => if bytes.len() == 0 && !raw_fin(log, stream_id) {
                        read is Nothing
                    } else {
                        read matches RawRead::Data { data, fin } && data@ == bytes && fin
                            == raw_fin(log, stream_id)
                    },
                }
            }),
    {
        proof {
            reveal(TransportState::peer_raw_read);
        }
        if let Some(error_code) = self.log_mut().waiting_reset(stream_id) {
            return RawRead::Reset { error_code };
        }
        let (data, fin) = self.log_mut().waiting_raw(stream_id);
        if data.len() == 0 && !fin {
            return RawRead::Nothing;
        }
        self.log_mut().take_raw(stream_id);
        self.note_peer_read(stream_id, data.len() as u64);
        RawRead::Data { data, fin }
    }

    /// The peer sends body bytes. It cannot once this end has refused the stream; then it
    /// learns the code.
    pub fn deliver_body(&mut self, stream_id: u64, data: Vec<u8>, fin: bool) -> (sent: Result<
        usize,
        u64,
    >)
        ensures
            final(self)@ == old(self)@.body_delivered(stream_id, data, fin),
            sent == (match lookup(old(self)@.stops_sent, stream_id) {
                Some(error_code) => Err::<usize, u64>(error_code),
                None => Ok(data@.len() as usize),
            }),
    {
        proof {
            reveal(TransportState::body_delivered);
        }
        if let Some(error_code) = self.stop_sent(stream_id) {
            return Err(error_code);
        }
        let len: usize = data.len();
        self.deliver(TransportEvent::Data { stream_id, data });
        if fin {
            self.deliver(TransportEvent::Finished { stream_id });
        }
        Ok(len)
    }
}

} // verus!
