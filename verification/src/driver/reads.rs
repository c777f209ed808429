//! What the driver does with what arrives from the peer.

use vstd::prelude::*;

use crate::conn_close::{H3ConnectionError, H3_MESSAGE_ERROR, H3_REQUEST_CANCELLED};
use crate::driver::events::{DriverEvent, H3Event, Told};
use crate::driver::state::{
    lemma_lookup_wf, lemma_put_wf, CoreState, DeferredRequest, Flow, H3Core, Notice,
};
use crate::headers::{
    asks_for_session, datagram_flow_id, fields, flow_of, is_webtransport_connect, response_status,
    status_of, Header,
};
use crate::peer_log::{
    direction_of, raw_bytes, stream_direction, without_raw, PeerLogState, Sent,
};
use crate::request_stream::RequestStream;
use crate::table::{lookup, put};
use crate::transport::{Role, TransportEvent, TransportState};
use crate::wire::datagram::{decode_datagram, split_bytes};
use crate::wire::stream_prefix::{read_stream_prefix, stream_prefix, StreamPrefix};
use crate::wt::datagrams::{PendingDatagram, Received};
use crate::wt::runtime::RuntimeState;
use crate::wt::types::{CloseReason, SessionEvent, StreamAction, WebTransportSelectionError};

verus! {

impl CoreState {
    /// The state with another value of the session runtime.
    pub open spec fn with_session(self, session: RuntimeState) -> CoreState {
        CoreState { session: Some(session), ..self }
    }

    /// The state after a request for a session was taken up: the application
    /// learns of the session, then of its end if the request was ended at once,
    /// then of the request.
    #[verifier::opaque]
    pub open spec fn session_taken_up(self, stream_id: u64, fin: bool) -> CoreState {
        match self.session {
            Some(s) => {
                let announced = s.saying(SessionEvent::Pending { session_id: stream_id });
                (CoreState {
                    session: Some(
                        if fin {
                            announced.peer_ended(CloseReason::Clean)
                        } else {
                            announced
                        },
                    ),
                    streams: put(
                        self.streams,
                        stream_id,
                        RequestStream::opened(fin, false, true),
                    ),
                    ..self
                }).flushed().told(Told::Headers { stream_id, read_fin: fin })
            },
            None => self,
        }
    }

    /// The state after a request for a session was turned down because the peer
    /// does not offer WebTransport.
    pub open spec fn session_refused(self, stream_id: u64) -> CoreState {
        self.stopping(stream_id, H3_MESSAGE_ERROR).sending(
            Sent::Reset { stream_id, error_code: H3_MESSAGE_ERROR },
        )
    }

    /// The state after a request for a session arrived. It waits for the peer's
    /// settings.
    #[verifier::opaque]
    pub open spec fn session_asked(self, stream_id: u64, fin: bool) -> CoreState {
        match self.session {
            Some(s) => if self.settings_forwarded && self.peer_webtransport != Some(true) {
                self.session_refused(stream_id)
            } else {
                let asked = self.with_session(s.asked(stream_id));
                if !s.takes_session(stream_id) {
                    asked.flushed()
                } else if self.settings_forwarded {
                    asked.session_taken_up(stream_id, fin)
                } else {
                    CoreState { deferred: Some(DeferredRequest { stream_id, fin }), ..asked }
                }
            },
            None => self,
        }
    }

    /// Whether requests can open datagram flows.
    pub open spec fn offers_flows(self) -> bool {
        self.settings.enable_extended_connect || self.settings.enable_webtransport
    }

    /// The state after an ordinary request arrived.
    #[verifier::opaque]
    pub open spec fn request_arrived(
        self,
        stream_id: u64,
        list: Seq<(Seq<u8>, Seq<u8>)>,
        fin: bool,
    ) -> CoreState {
        let opened = CoreState {
            streams: put(self.streams, stream_id, RequestStream::opened(fin, false, false)),
            ..self
        };
        let flowing = match flow_of(list) {
            Some(flow_id) => if self.offers_flows() {
                (CoreState {
                    flows: put(
                        opened.flows,
                        flow_id as u64,
                        Flow { stream_id: Some(stream_id) },
                    ),
                    ..opened
                }).told(Told::NewFlow { flow_id: flow_id as u64 })
            } else {
                opened
            },
            None => opened,
        };
        flowing.told(Told::Headers { stream_id, read_fin: fin })
    }

    /// The state after a response to a request for a session arrived.
    #[verifier::opaque]
    pub open spec fn session_answered(self, stream_id: u64, status: u16, fin: bool) -> CoreState {
        match self.session {
            Some(s) => if status < 200 {
                self
            } else {
                let answered = self.with_session(s.answered(status)).flushed().told(
                    Told::IncomingHeaders { stream_id, read_fin: fin },
                );
                answered.with_session(
                    answered.session->Some_0.admitted().capsules_read(),
                ).flushed()
            },
            None => self,
        }
    }

    /// The state after a response arrived.
    #[verifier::opaque]
    pub open spec fn response_arrived(
        self,
        stream_id: u64,
        list: Seq<(Seq<u8>, Seq<u8>)>,
        fin: bool,
    ) -> CoreState {
        match lookup(self.streams, stream_id) {
            Some(stream) => if stream.session {
                match status_of(list) {
                    Some(status) => {
                        let answered = self.session_answered(stream_id, status as u16, fin);
                        if fin {
                            answered.fin_arrived(stream_id)
                        } else {
                            answered
                        }
                    },
                    None => self,
                }
            } else {
                let told = self.told(Told::IncomingHeaders { stream_id, read_fin: fin });
                if fin {
                    told.with_stream(stream_id, stream.with_ending_headers())
                } else {
                    told
                }
            },
            None => self,
        }
    }

    /// The state after a field section arrived.
    #[verifier::opaque]
    pub open spec fn headers_arrived(
        self,
        stream_id: u64,
        list: Seq<(Seq<u8>, Seq<u8>)>,
        fin: bool,
    ) -> CoreState {
        match self.transport.role {
            Role::Server => if self.session is Some && asks_for_session(list) {
                self.session_asked(stream_id, fin)
            } else {
                self.request_arrived(stream_id, list, fin)
            },
            Role::Client => self.response_arrived(stream_id, list, fin),
        }
    }

    /// The state after body bytes arrived on the CONNECT stream of a session.
    #[verifier::opaque]
    pub open spec fn capsules_arrived(self, bytes: Seq<u8>) -> CoreState {
        match self.session {
            Some(s) => self.with_session(s.received(bytes).capsules_read()).flushed(),
            None => self,
        }
    }

    /// The state after body bytes arrived.
    #[verifier::opaque]
    pub open spec fn data_arrived(self, stream_id: u64, data: Vec<u8>) -> CoreState {
        match lookup(self.streams, stream_id) {
            Some(stream) => if !stream.live || stream.recv_done && !stream.session {
                self
            } else if stream.session {
                self.capsules_arrived(data@)
            } else if stream.receiver {
                (CoreState { body_buf: self.body_buf.after_read(data@.len() as int), ..self }).told(
                    Told::BodyBytesReceived {
                        stream_id,
                        num_bytes: data@.len() as u64,
                        fin: false,
                    },
                ).with_stream(stream_id, stream.with_body(data))
            } else {
                self.stopping(stream_id, H3_REQUEST_CANCELLED).with_stream(
                    stream_id,
                    stream.with_body(data),
                )
            },
            None => self,
        }
    }

    /// The state after the end of a request stream arrived.
    #[verifier::opaque]
    pub open spec fn fin_arrived(self, stream_id: u64) -> CoreState {
        match lookup(self.streams, stream_id) {
            Some(stream) => if !stream.live || stream.recv_done {
                self
            } else if stream.session {
                let ended = self.with_stream(stream_id, stream.with_ending_headers());
                match ended.session {
                    Some(s) => ended.with_session(s.peer_ended(CloseReason::Clean)).flushed(),
                    None => ended,
                }
            } else {
                self.told(Told::BodyBytesReceived { stream_id, num_bytes: 0, fin: true }).with_stream(
                    stream_id,
                    stream.with_fin(),
                )
            },
            None => self,
        }
    }

    /// The state with one more notice about a stream of the session.
    pub open spec fn noticed(self, notice: Notice) -> CoreState {
        CoreState { notices: self.notices.push(notice), ..self }
    }

    /// The state after the peer reset a stream.
    #[verifier::opaque]
    pub open spec fn reset_arrived(self, stream_id: u64, error_code: u64) -> CoreState {
        match lookup(self.streams, stream_id) {
            Some(stream) => if !stream.live || stream.recv_done {
                self
            } else if stream.session {
                let ended = self.with_stream(stream_id, stream.with_reset(error_code));
                match ended.session {
                    Some(s) => ended.with_session(
                        s.peer_ended(CloseReason::ConnectReset { error_code }),
                    ).flushed(),
                    None => ended,
                }
            } else {
                self.told(Told::ResetStream { stream_id }).with_stream(
                    stream_id,
                    stream.with_reset(error_code),
                )
            },
            None => self.noticed(Notice::Reset { stream_id, error_code }),
        }
    }

    /// The state after the peer refused a stream. A request stream learns of it
    /// when it is next written to.
    #[verifier::opaque]
    pub open spec fn stop_arrived(self, stream_id: u64, error_code: u64) -> CoreState {
        match lookup(self.streams, stream_id) {
            Some(_) => self,
            None => self.noticed(Notice::Stopped { stream_id, error_code }),
        }
    }

    /// The state with more bytes of a frameless stream waiting to be read.
    pub open spec fn raw_waiting(self, stream_id: u64, data: Seq<u8>, fin: bool) -> CoreState {
        let stored = CoreState {
            raw: self.raw.plus(Sent::Raw { stream_id, data, fin }),
            ..self
        };
        if fin {
            stored.noticed(Notice::Fin { stream_id })
        } else {
            stored
        }
    }

    /// The state without the waiting bytes of a frameless stream whose prefix
    /// needs no more reading.
    pub open spec fn raw_settled(self, stream_id: u64) -> CoreState {
        CoreState {
            raw: PeerLogState { sent: without_raw(self.raw.sent, stream_id), ..self.raw },
            raw_seen: put(self.raw_seen, stream_id, true),
            ..self
        }
    }

    /// The state after bytes of a frameless stream arrived. The stream gets an
    /// owner when its prefix is whole; a stream that ends before has none.
    #[verifier::opaque]
    pub open spec fn raw_arrived(self, stream_id: u64, data: Seq<u8>, fin: bool) -> CoreState {
        match self.session {
            Some(s) => if lookup(self.raw_seen, stream_id) is Some {
                if lookup(s.streams, stream_id) is Some {
                    self.raw_waiting(stream_id, data, fin)
                } else {
                    self
                }
            } else {
                let bytes = raw_bytes(self.raw.sent, stream_id) + data;
                match stream_prefix(direction_of(stream_id), bytes) {
                    StreamPrefix::Complete { session_id, prefix_len } => {
                        let owned = self.raw_settled(stream_id).raw_waiting(
                            stream_id,
                            bytes.skip(prefix_len as int),
                            fin,
                        );
                        owned.with_session(
                            s.stream_arrived(
                                stream_id,
                                session_id,
                                prefix_len,
                                self.local_openings,
                            ),
                        ).flushed()
                    },
                    StreamPrefix::Foreign => self.raw_settled(stream_id),
                    StreamPrefix::Incomplete => if fin {
                        self.raw_settled(stream_id)
                    } else {
                        CoreState {
                            raw: self.raw.plus(Sent::Raw { stream_id, data, fin: false }),
                            ..self
                        }
                    },
                }
            },
            None => self,
        }
    }

    /// Whether datagrams of a flow can still be meant for a session.
    pub open spec fn flow_may_be_session(self, flow_id: u64) -> bool {
        match self.session {
            Some(s) => flow_id <= 0x0fff_ffff_ffff_ffff && match s.selection((flow_id * 4) as u64) {
                Some(WebTransportSelectionError::TerminalSession) => false,
                Some(WebTransportSelectionError::StaleSession) => false,
                _ => true,
            },
            None => false,
        }
    }

    /// The state after a datagram of a flow was kept for the application.
    pub open spec fn datagram_kept(self, flow_id: u64, payload: Seq<u8>) -> CoreState {
        CoreState {
            datagrams: self.datagrams.arrived(
                Received { flow_id, payload, allocation: payload.len() },
            ),
            ..self
        }
    }

    /// The state after a datagram arrived: it is kept for its flow or for the
    /// session that it can belong to, it opens a flow where flows are offered
    /// without sessions, and it is dropped otherwise.
    #[verifier::opaque]
    pub open spec fn datagram_arrived(self, bytes: Seq<u8>) -> CoreState {
        match split_bytes(bytes) {
            Some((flow_id, payload)) => if lookup(self.flows, flow_id) is Some
                || self.flow_may_be_session(flow_id) {
                self.datagram_kept(flow_id, payload)
            } else if self.session is None && self.settings.enable_extended_connect {
                (CoreState {
                    flows: put(self.flows, flow_id, Flow { stream_id: None }),
                    ..self
                }).told(Told::NewFlow { flow_id }).datagram_kept(flow_id, payload)
            } else {
                self
            },
            None => self,
        }
    }

    /// The state after one event of the transport.
    #[verifier::opaque]
    pub open spec fn handled(self, event: TransportEvent) -> CoreState {
        match event {
            TransportEvent::Headers { stream_id, headers, fin } => self.headers_arrived(
                stream_id,
                fields(headers@),
                fin,
            ),
            TransportEvent::Data { stream_id, data } => self.data_arrived(stream_id, data),
            TransportEvent::Finished { stream_id } => self.fin_arrived(stream_id),
            TransportEvent::Reset { stream_id, error_code } => self.reset_arrived(
                stream_id,
                error_code,
            ),
            TransportEvent::Stopped { stream_id, error_code } => self.stop_arrived(
                stream_id,
                error_code,
            ),
            TransportEvent::Raw { stream_id, data, fin } => self.raw_arrived(
                stream_id,
                data@,
                fin,
            ),
            TransportEvent::Datagram { data } => self.datagram_arrived(data@),
            TransportEvent::GoAway { id } => self.told(Told::GoAway { id }),
        }
    }

    /// Whether an event has to wait until the application has read.
    pub open spec fn blocks(self, event: TransportEvent) -> bool {
        match event {
            TransportEvent::Data { stream_id, .. } => match lookup(self.streams, stream_id) {
                Some(stream) => stream.live && !stream.session && !stream.recv_done
                    && !stream.takes_body(),
                None => false,
            },
            _ => false,
        }
    }

    /// The state after the events of `inbox` from index `from` on, together with
    /// those that have to wait. An event waits behind an earlier one of its
    /// stream that waits, and all of them once the driver has failed.
    #[verifier::opaque]
    pub open spec fn reads_from(
        self,
        inbox: Seq<TransportEvent>,
        from: int,
        kept: Seq<TransportEvent>,
    ) -> (CoreState, Seq<TransportEvent>)
        decreases inbox.len() - from,
    {
        if from < 0 || from >= inbox.len() {
            (self, kept)
        } else if self.failed is Some || waits_behind(kept, inbox[from]) || self.blocks(
            inbox[from],
        ) {
            self.reads_from(inbox, from + 1, kept.push(inbox[from]))
        } else {
            self.handled(inbox[from]).reads_from(inbox, from + 1, kept)
        }
    }

    /// The state after the peer's settings reached the application, and what
    /// waited for them was taken up.
    #[verifier::opaque]
    pub open spec fn settings_told(self) -> CoreState {
        if self.peer_webtransport is Some && !self.settings_forwarded {
            let told = (CoreState { settings_forwarded: true, ..self }).told(
                Told::IncomingSettings,
            );
            match told.deferred {
                Some(request) => {
                    let released = CoreState { deferred: None, ..told };
                    if released.peer_webtransport == Some(true) {
                        released.session_taken_up(request.stream_id, request.fin)
                    } else {
                        match released.session {
                            Some(s) => released.with_session(
                                withdrawn(s),
                            ).flushed().session_refused(request.stream_id),
                            None => released,
                        }
                    }
                },
                None => told,
            }
        } else {
            self
        }
    }

    /// The state after one turn of reading.
    pub open spec fn read(self) -> CoreState {
        let told = self.settings_told();
        let (done, kept) = (CoreState {
            transport: TransportState { inbox: Seq::empty(), ..told.transport },
            ..told
        }).reads_from(told.transport.inbox, 0, Seq::empty());
        CoreState {
            transport: TransportState {
                inbox: kept + done.transport.inbox,
                ..done.transport
            },
            ..done
        }
    }
}

/// A runtime without the session that the application never learned of.
pub open spec fn withdrawn(state: RuntimeState) -> RuntimeState {
    match state.session {
        Some(s) => RuntimeState {
            session: None,
            retired: state.retired_with(s.id),
            held: Seq::empty(),
            ..state.without_streams(s.id)
        },
        None => state,
    }
}

/// Whether an event has to wait for an earlier one of its stream.
pub open spec fn waits_behind(kept: Seq<TransportEvent>, event: TransportEvent) -> bool {
    event.ordered_on() is Some && exists|i: int|
        0 <= i < kept.len() && (#[trigger] kept[i]).ordered_on() == event.ordered_on()
}

fn must_wait(kept: &Vec<TransportEvent>, event: &TransportEvent) -> (waits: bool)
    ensures
        waits == waits_behind(kept@, *event),
{
    match event.stream() {
        None => false,
        Some(stream_id) => {
            let mut i: usize = 0;
            while i < kept.len()
                invariant
                    i <= kept@.len(),
                    event.ordered_on() == Some(stream_id),
                    forall|k: int|
                        0 <= k < i ==> (#[trigger] kept@[k]).ordered_on() != event.ordered_on(),
                decreases kept@.len() - i,
            {
                if let Some(other) = kept[i].stream() {
                    if other == stream_id {
                        assert(kept@[i as int].ordered_on() == event.ordered_on());
                        return true;
                    }
                }
                i += 1;
            }
            false
        },
    }
}

impl H3Core {
    fn take_up_session(&mut self, stream_id: u64, fin: bool)
        requires
            old(self).wf(),
        ensures
            final(self).wf(),
            final(self)@ == old(self)@.session_taken_up(stream_id, fin),
    {
        proof {
            reveal(CoreState::session_taken_up);
        }
        match &mut self.session {
            Some(runtime) => {
                runtime.announce(stream_id);
                if fin {
                    runtime.receive_fin();
                }
            },
            None => {
                return;
            },
        }
        proof {
            lemma_put_wf(self.streams@, stream_id, None);
        }
        self.streams.set(stream_id, RequestStream::open(fin, false, true));
        self.flush();
        self.emit(DriverEvent::Headers { stream_id, read_fin: fin });
    }

    fn refuse_session(&mut self, stream_id: u64)
        requires
            old(self).wf(),
        ensures
            final(self).wf(),
            final(self)@ == old(self)@.session_refused(stream_id),
    {
        self.transport.send_stop(stream_id, H3_MESSAGE_ERROR);
        self.transport.send_reset(stream_id, H3_MESSAGE_ERROR);
    }

    fn peer_offers_webtransport(&self) -> (offers: bool)
        ensures
            offers == (self@.peer_webtransport == Some(true)),
    {
        match self.peer_webtransport {
            Some(offers) => offers,
            None => false,
        }
    }

    fn on_session_request(&mut self, stream_id: u64, fin: bool)
        requires
            old(self).wf(),
        ensures
            final(self).wf(),
            final(self)@ == old(self)@.session_asked(stream_id, fin),
    {
        proof {
            reveal(CoreState::session_asked);
        }
        if self.session.is_none() {
            return;
        }
        if self.settings_forwarded && !self.peer_offers_webtransport() {
            self.refuse_session(stream_id);
            return;
        }
        let taken = match &mut self.session {
            Some(runtime) => runtime.ask(stream_id),
            None => false,
        };
        if !taken {
            self.flush();
        } else if self.settings_forwarded {
            self.take_up_session(stream_id, fin);
        } else {
            self.deferred = Some(DeferredRequest { stream_id, fin });
        }
    }

    fn on_request(&mut self, stream_id: u64, headers: &Vec<Header>, fin: bool)
        requires
            old(self).wf(),
        ensures
            final(self).wf(),
            final(self)@ == old(self)@.request_arrived(stream_id, fields(headers@), fin),
    {
        proof {
            reveal(CoreState::request_arrived);
        }
        proof {
            lemma_put_wf(self.streams@, stream_id, None);
        }
        self.streams.set(stream_id, RequestStream::open(fin, false, false));
        if self.settings.enable_extended_connect || self.settings.enable_webtransport {
            if let Some(flow_id) = datagram_flow_id(headers) {
                self.flows.set(flow_id, Flow { stream_id: Some(stream_id) });
                self.tell(H3Event::NewFlow { flow_id });
            }
        }
        self.emit(DriverEvent::Headers { stream_id, read_fin: fin });
    }

    fn on_session_response(&mut self, stream_id: u64, status: u16, fin: bool)
        requires
            old(self).wf(),
        ensures
            final(self).wf(),
            final(self)@ == old(self)@.session_answered(stream_id, status, fin),
    {
        proof {
            reveal(CoreState::session_answered);
        }
        if status < 200 {
            return;
        }
        if self.session.is_none() {
            return;
        }
        self.answer_session(status);
        self.flush();
        self.tell(H3Event::IncomingHeaders { stream_id, read_fin: fin });
        proof {
            lemma_flush_keeps_session(old(self)@.with_session(
                old(self)@.session->Some_0.answered(status),
            ));
        }
        self.read_session();
        self.flush();
    }

    /// The session takes an answer.
    fn answer_session(&mut self, status: u16)
        requires
            old(self).wf(),
            old(self)@.session is Some,
        ensures
            final(self).wf(),
            final(self)@ == old(self)@.with_session(
                old(self)@.session->Some_0.answered(status),
            ),
    {
        if let Some(runtime) = &mut self.session {
            runtime.respond(status);
        }
    }

    /// The session takes the streams and the capsules that waited for it.
    fn read_session(&mut self)
        requires
            old(self).wf(),
            old(self)@.session is Some,
        ensures
            final(self).wf(),
            final(self)@ == old(self)@.with_session(
                old(self)@.session->Some_0.admitted().capsules_read(),
            ),
    {
        if let Some(runtime) = &mut self.session {
            runtime.admit_streams();
            runtime.read_capsules();
        }
    }

    fn on_response(&mut self, stream_id: u64, headers: &Vec<Header>, fin: bool)
        requires
            old(self).wf(),
        ensures
            final(self).wf(),
            final(self)@ == old(self)@.response_arrived(stream_id, fields(headers@), fin),
    {
        proof {
            reveal(CoreState::response_arrived);
        }
        let session = match self.streams.get(stream_id) {
            Some(stream) => stream.session,
            None => {
                return;
            },
        };
        if session {
            if let Some(status) = response_status(headers) {
                self.on_session_response(stream_id, status, fin);
                if fin {
                    self.on_fin(stream_id);
                }
            }
        } else {
            self.tell(H3Event::IncomingHeaders { stream_id, read_fin: fin });
            if fin {
                self.end_with_headers(stream_id);
            }
        }
    }

    fn end_with_headers(&mut self, stream_id: u64)
        requires
            old(self).wf(),
            lookup(old(self)@.streams, stream_id) is Some,
        ensures
            final(self).wf(),
            final(self)@ == old(self)@.with_stream(
                stream_id,
                lookup(old(self)@.streams, stream_id)->Some_0.with_ending_headers(),
            ),
    {
        proof {
            reveal(CoreState::with_stream);
        }
        let ghost before = self.streams@;
        proof {
            lemma_lookup_wf(before, stream_id);
        }
        let (was_live, is_live) = match self.streams.get_mut(stream_id) {
            Some(stream) => {
                let was_live = stream.live;
                stream.on_ending_headers();
                (was_live, stream.live)
            },
            None => (false, false),
        };
        proof {
            lemma_put_wf(before, stream_id, None);
        }
        if was_live && !is_live {
            self.close_stream(stream_id);
        }
    }

    /// A field section arrived.
    pub fn headers_received(&mut self, stream_id: u64, headers: Vec<Header>, fin: bool)
        requires
            old(self).wf(),
        ensures
            final(self).wf(),
            final(self)@ == old(self)@.headers_arrived(stream_id, fields(headers@), fin),
    {
        proof {
            reveal(CoreState::headers_arrived);
        }
        match self.transport.role() {
            Role::Server => {
                if self.session.is_some() && is_webtransport_connect(&headers) {
                    self.on_session_request(stream_id, fin);
                } else {
                    self.on_request(stream_id, &headers, fin);
                }
            },
            Role::Client => {
                self.on_response(stream_id, &headers, fin);
            },
        }
    }

    fn on_capsules(&mut self, bytes: &[u8])
        requires
            old(self).wf(),
        ensures
            final(self).wf(),
            final(self)@ == old(self)@.capsules_arrived(bytes@),
    {
        proof {
            reveal(CoreState::capsules_arrived);
        }
        match &mut self.session {
            Some(runtime) => {
                runtime.receive(bytes);
                runtime.read_capsules();
            },
            None => {
                return;
            },
        }
        self.flush();
    }

    fn on_data(&mut self, stream_id: u64, data: Vec<u8>)
        requires
            old(self).wf(),
            !old(self)@.blocks(TransportEvent::Data { stream_id, data }),
        ensures
            final(self).wf(),
            final(self)@ == old(self)@.data_arrived(stream_id, data),
    {
        proof {
            reveal(CoreState::data_arrived);
        }
        let (live, session, recv_done, receiver) = match self.streams.get(stream_id) {
            Some(stream) => (stream.live, stream.session, stream.recv_done, stream.receiver),
            None => {
                return;
            },
        };
        if !live || (recv_done && !session) {
            return;
        }
        if session {
            self.on_capsules(data.as_slice());
            return;
        }
        let len: usize = data.len();
        if receiver {
            self.body_buf.read(len);
            self.tell(
                H3Event::BodyBytesReceived { stream_id, num_bytes: len as u64, fin: false },
            );
        } else {
            self.transport.send_stop(stream_id, H3_REQUEST_CANCELLED);
        }
        self.store_body(stream_id, data);
    }

    fn store_body(&mut self, stream_id: u64, data: Vec<u8>)
        requires
            old(self).wf(),
            lookup(old(self)@.streams, stream_id) matches Some(stream) && stream.takes_body(),
        ensures
            final(self).wf(),
            final(self)@ == old(self)@.with_stream(
                stream_id,
                lookup(old(self)@.streams, stream_id)->Some_0.with_body(data),
            ),
    {
        proof {
            reveal(CoreState::with_stream);
        }
        let ghost before = self.streams@;
        proof {
            lemma_lookup_wf(before, stream_id);
        }
        let (was_live, is_live) = match self.streams.get_mut(stream_id) {
            Some(stream) => {
                let was_live = stream.live;
                let _ = stream.on_body(data);
                (was_live, stream.live)
            },
            None => (false, false),
        };
        proof {
            lemma_put_wf(before, stream_id, None);
        }
        if was_live && !is_live {
            self.close_stream(stream_id);
        }
    }

    fn store_fin(&mut self, stream_id: u64)
        requires
            old(self).wf(),
            lookup(old(self)@.streams, stream_id) matches Some(stream) && stream.live,
        ensures
            final(self).wf(),
            final(self)@ == old(self)@.with_stream(
                stream_id,
                lookup(old(self)@.streams, stream_id)->Some_0.with_fin(),
            ),
    {
        proof {
            reveal(CoreState::with_stream);
        }
        let ghost before = self.streams@;
        proof {
            lemma_lookup_wf(before, stream_id);
        }
        let is_live = match self.streams.get_mut(stream_id) {
            Some(stream) => {
                stream.on_fin();
                stream.live
            },
            None => true,
        };
        proof {
            lemma_put_wf(before, stream_id, None);
        }
        if !is_live {
            self.close_stream(stream_id);
        }
    }

    fn store_reset(&mut self, stream_id: u64, error_code: u64)
        requires
            old(self).wf(),
            lookup(old(self)@.streams, stream_id) matches Some(stream) && stream.live,
        ensures
            final(self).wf(),
            final(self)@ == old(self)@.with_stream(
                stream_id,
                lookup(old(self)@.streams, stream_id)->Some_0.with_reset(error_code),
            ),
    {
        proof {
            reveal(CoreState::with_stream);
        }
        let ghost before = self.streams@;
        proof {
            lemma_lookup_wf(before, stream_id);
        }
        let is_live = match self.streams.get_mut(stream_id) {
            Some(stream) => {
                stream.on_reset(error_code);
                stream.live
            },
            None => true,
        };
        proof {
            lemma_put_wf(before, stream_id, None);
        }
        if !is_live {
            self.close_stream(stream_id);
        }
    }

    fn on_fin(&mut self, stream_id: u64)
        requires
            old(self).wf(),
        ensures
            final(self).wf(),
            final(self)@ == old(self)@.fin_arrived(stream_id),
    {
        proof {
            reveal(CoreState::fin_arrived);
        }
        let session = match self.streams.get(stream_id) {
            Some(stream) => if !stream.live || stream.recv_done {
                return;
            } else {
                stream.session
            },
            None => {
                return;
            },
        };
        if session {
            self.end_with_headers(stream_id);
            match &mut self.session {
                Some(runtime) => {
                    runtime.receive_fin();
                },
                None => {
                    return;
                },
            }
            self.flush();
        } else {
            self.tell(H3Event::BodyBytesReceived { stream_id, num_bytes: 0, fin: true });
            self.store_fin(stream_id);
        }
    }

    fn on_reset(&mut self, stream_id: u64, error_code: u64)
        requires
            old(self).wf(),
        ensures
            final(self).wf(),
            final(self)@ == old(self)@.reset_arrived(stream_id, error_code),
    {
        proof {
            reveal(CoreState::reset_arrived);
        }
        let session = match self.streams.get(stream_id) {
            Some(stream) => if !stream.live || stream.recv_done {
                return;
            } else {
                stream.session
            },
            None => {
                self.notices.push(Notice::Reset { stream_id, error_code });
                return;
            },
        };
        if session {
            self.store_reset(stream_id, error_code);
            match &mut self.session {
                Some(runtime) => {
                    runtime.receive_reset(error_code);
                },
                None => {
                    return;
                },
            }
            self.flush();
        } else {
            self.tell(H3Event::ResetStream { stream_id });
            self.store_reset(stream_id, error_code);
        }
    }

    fn on_stopped(&mut self, stream_id: u64, error_code: u64)
        requires
            old(self).wf(),
        ensures
            final(self).wf(),
            final(self)@ == old(self)@.stop_arrived(stream_id, error_code),
    {
        proof {
            reveal(CoreState::stop_arrived);
        }
        if !self.streams.contains(stream_id) {
            self.notices.push(Notice::Stopped { stream_id, error_code });
        }
    }

    fn settle_raw(&mut self, stream_id: u64)
        requires
            old(self).wf(),
        ensures
            final(self).wf(),
            final(self)@ == old(self)@.raw_settled(stream_id),
    {
        self.raw.take_raw(stream_id);
        self.raw_seen.set(stream_id, true);
    }

    fn wait_raw(&mut self, stream_id: u64, data: &Vec<u8>, start: usize, fin: bool)
        requires
            old(self).wf(),
            start <= data@.len(),
        ensures
            final(self).wf(),
            final(self)@ == old(self)@.raw_waiting(stream_id, data@.skip(start as int), fin),
    {
        self.raw.raw(stream_id, data.as_slice(), start, data.len(), fin);
        assert(data@.subrange(start as int, data@.len() as int) =~= data@.skip(start as int));
        if fin {
            self.notices.push(Notice::Fin { stream_id });
        }
    }

    fn on_raw(&mut self, stream_id: u64, data: Vec<u8>, fin: bool)
        requires
            old(self).wf(),
        ensures
            final(self).wf(),
            final(self)@ == old(self)@.raw_arrived(stream_id, data@, fin),
    {
        proof {
            reveal(CoreState::raw_arrived);
        }
        let known = match &self.session {
            Some(runtime) => runtime.stream(stream_id).is_some(),
            None => {
                return;
            },
        };
        if self.raw_seen.contains(stream_id) {
            if known {
                self.wait_raw(stream_id, &data, 0, fin);
                assert(data@.skip(0) =~= data@);
            }
            return;
        }
        let (mut bytes, _) = self.raw.waiting_raw(stream_id);
        let ghost before = bytes@;
        bytes.extend_from_slice(data.as_slice());
        assert(bytes@ =~= before + data@);
        match read_stream_prefix(stream_direction(stream_id), &bytes) {
            StreamPrefix::Complete { session_id, prefix_len } => {
                self.settle_raw(stream_id);
                self.wait_raw(stream_id, &bytes, prefix_len, fin);
                let others: usize = self.local_openings;
                if let Some(runtime) = &mut self.session {
                    runtime.arrive(stream_id, session_id, prefix_len, others);
                }
                self.flush();
            },
            StreamPrefix::Foreign => {
                self.settle_raw(stream_id);
            },
            StreamPrefix::Incomplete => {
                if fin {
                    self.settle_raw(stream_id);
                } else {
                    self.raw.raw(stream_id, data.as_slice(), 0, data.len(), false);
                    assert(data@.subrange(0, data@.len() as int) =~= data@);
                }
            },
        }
    }

    fn can_be_session_flow(&self, flow_id: u64) -> (can: bool)
        ensures
            can == self@.flow_may_be_session(flow_id),
    {
        match &self.session {
            Some(runtime) => if flow_id > 0x0fff_ffff_ffff_ffff {
                false
            } else {
                match runtime.select(flow_id * 4) {
                    Some(WebTransportSelectionError::TerminalSession) => false,
                    Some(WebTransportSelectionError::StaleSession) => false,
                    _ => true,
                }
            },
            None => false,
        }
    }

    fn keep_datagram(&mut self, flow_id: u64, payload: Vec<u8>)
        requires
            old(self).wf(),
        ensures
            final(self).wf(),
            final(self)@ == old(self)@.datagram_kept(flow_id, payload@),
    {
        let allocation: usize = payload.len();
        let _ = self.datagrams.arrive(PendingDatagram { flow_id, payload, allocation });
    }

    fn on_datagram(&mut self, data: Vec<u8>)
        requires
            old(self).wf(),
        ensures
            final(self).wf(),
            final(self)@ == old(self)@.datagram_arrived(data@),
    {
        proof {
            reveal(CoreState::datagram_arrived);
        }
        if let Some((flow_id, payload)) = decode_datagram(&data) {
            if self.flows.contains(flow_id) || self.can_be_session_flow(flow_id) {
                self.keep_datagram(flow_id, payload);
            } else if self.session.is_none() && self.settings.enable_extended_connect {
                self.flows.set(flow_id, Flow { stream_id: None });
                self.tell(H3Event::NewFlow { flow_id });
                self.keep_datagram(flow_id, payload);
            }
        }
    }

    fn must_block(&self, event: &TransportEvent) -> (blocks: bool)
        ensures
            blocks == self@.blocks(*event),
    {
        match event {
            TransportEvent::Data { stream_id, .. } => match self.streams.get(*stream_id) {
                Some(stream) => stream.live && !stream.session && !stream.recv_done
                    && !stream.can_take_body(),
                None => false,
            },
            _ => false,
        }
    }

    fn handle(&mut self, event: TransportEvent)
        requires
            old(self).wf(),
            !old(self)@.blocks(event),
        ensures
            final(self).wf(),
            final(self)@ == old(self)@.handled(event),
    {
        proof {
            reveal(CoreState::handled);
        }
        match event {
            TransportEvent::Headers { stream_id, headers, fin } => {
                self.headers_received(stream_id, headers, fin);
            },
            TransportEvent::Data { stream_id, data } => {
                self.on_data(stream_id, data);
            },
            TransportEvent::Finished { stream_id } => {
                self.on_fin(stream_id);
            },
            TransportEvent::Reset { stream_id, error_code } => {
                self.on_reset(stream_id, error_code);
            },
            TransportEvent::Stopped { stream_id, error_code } => {
                self.on_stopped(stream_id, error_code);
            },
            TransportEvent::Raw { stream_id, data, fin } => {
                self.on_raw(stream_id, data, fin);
            },
            TransportEvent::Datagram { data } => {
                self.on_datagram(data);
            },
            TransportEvent::GoAway { id } => {
                self.tell(H3Event::GoAway { id });
            },
        }
    }

    fn forward_settings(&mut self)
        requires
            old(self).wf(),
        ensures
            final(self).wf(),
            final(self)@ == old(self)@.settings_told(),
    {
        proof {
            reveal(CoreState::settings_told);
        }
        if self.peer_webtransport.is_none() || self.settings_forwarded {
            return;
        }
        self.settings_forwarded = true;
        self.tell(H3Event::IncomingSettings);
        if let Some(request) = self.deferred {
            self.deferred = None;
            if self.peer_offers_webtransport() {
                self.take_up_session(request.stream_id, request.fin);
            } else {
                if self.session.is_none() {
                    return;
                }
                self.withdraw_session();
                self.flush();
                self.refuse_session(request.stream_id);
            }
        }
    }

    /// The session that was asked for is not to be.
    fn withdraw_session(&mut self)
        requires
            old(self).wf(),
            old(self)@.session is Some,
        ensures
            final(self).wf(),
            final(self)@ == old(self)@.with_session(withdrawn(old(self)@.session->Some_0)),
    {
        if let Some(runtime) = &mut self.session {
            runtime.withdraw();
        }
    }

    /// Takes what arrived from the peer, as far as the application keeps up, and returns
    /// the rest.
    fn read_inbox(&mut self, arrived: Vec<TransportEvent>) -> (kept: Vec<TransportEvent>)
        requires
            old(self).wf(),
        ensures
            final(self).wf(),
            (final(self)@, kept@) == old(self)@.reads_from(arrived@, 0, Seq::empty()),
    {
        proof {
            reveal(CoreState::reads_from);
        }
        let mut inbox = arrived;
        let ghost all = inbox@;
        let ghost target = self@.reads_from(all, 0, Seq::empty());
        let mut kept: Vec<TransportEvent> = Vec::new();
        let ghost mut i: int = 0;
        assert(inbox@ =~= all.skip(0));
        while inbox.len() > 0
            invariant
                0 <= i,
                i + inbox@.len() == all.len(),
                inbox@ == all.skip(i),
                self.wf(),
                self@.reads_from(all, i, kept@) == target,
            decreases inbox@.len(),
        {
            proof {
                reveal(CoreState::reads_from);
            }
            let event = inbox.remove(0);
            assert(event == all[i]);
            assert(inbox@ =~= all.skip(i + 1));
            if self.failed.is_some() || must_wait(&kept, &event) || self.must_block(&event) {
                kept.push(event);
            } else {
                self.handle(event);
            }
            proof {
                i = i + 1;
            }
        }
        kept
    }

    /// Takes what arrived from the peer, as far as the application keeps up.
    pub fn process_reads(&mut self) -> (result: Result<(), H3ConnectionError>)
        requires
            old(self).wf(),
        ensures
            final(self).wf(),
            final(self)@ == old(self)@.read(),
            result == (match old(self)@.read().failed {
                Some(error) => Err::<(), H3ConnectionError>(error),
                None => Ok(()),
            }),
    {
        self.forward_settings();
        let ghost told = self@;
        let inbox = self.transport.take_inbox();
        let ghost start = CoreState {
            transport: TransportState { inbox: Seq::empty(), ..told.transport },
            ..told
        };
        assert(self@ == start);
        let kept = self.read_inbox(inbox);
        let ghost done = self@;
        assert((done, kept@) == start.reads_from(told.transport.inbox, 0, Seq::empty()));
        self.transport.put_back(kept);
        assert(self@ == (CoreState {
            transport: TransportState {
                inbox: kept@ + done.transport.inbox,
                ..done.transport
            },
            ..done
        }));
        match self.failed {
            Some(error) => Err(error),
            None => Ok(()),
        }
    }
}

/// Doing what a session asked for leaves a session runtime in place.
pub proof fn lemma_flush_keeps_session(state: CoreState)
    ensures
        state.session is None ==> state.flushed() == state,
        state.session matches Some(s) ==> state.flushed().session == Some(
            RuntimeState { events: Seq::empty(), actions: Seq::empty(), ..s },
        ),
{
    reveal(CoreState::flushed);
    if let Some(s) = state.session {
        let start = state.with_session(
            RuntimeState { events: Seq::empty(), actions: Seq::empty(), ..s },
        );
        lemma_told_all_keeps_session(start, s.events);
        lemma_performed_all_keeps_session(start.told_all(s.events), s.actions);
    }
}

proof fn lemma_performed_keeps_session(state: CoreState, action: StreamAction)
    ensures
        state.performed(action).session == state.session,
{
    reveal(CoreState::performed);
    reveal(CoreState::with_stream);
}

proof fn lemma_performed_all_keeps_session(state: CoreState, actions: Seq<StreamAction>)
    ensures
        state.performed_all(actions).session == state.session,
    decreases actions.len(),
{
    if actions.len() > 0 {
        let front = actions.drop_last();
        lemma_performed_all_keeps_session(state, front);
        lemma_performed_keeps_session(state.performed_all(front), actions.last());
    }
}

proof fn lemma_told_all_keeps_session(state: CoreState, events: Seq<SessionEvent>)
    ensures
        state.told_all(events).session == state.session,
    decreases events.len(),
{
    if events.len() > 0 {
        lemma_told_all_keeps_session(state, events.drop_last());
    }
}

} // verus!
