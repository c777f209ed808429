//! A driver together with the peer and the application that it serves.

use vstd::prelude::*;

use crate::conn_close::{ConnectionError, H3ConnectionError};
use crate::driver::commands::{DriverState, H3Command, H3CommandAdmission, H3Driver};
use crate::driver::events::{DriverEvent, Told};
use crate::driver::state::{lemma_lookup_wf, lemma_put_wf, CoreState};
use crate::headers::Header;
use crate::peer_log::{
    body_bytes, poll_from, raw_bytes, raw_fin, reset_code, without_raw, PeerEvent, PeerLogState,
    RawRead,
};
use crate::pipe_config::{default_endpoint, default_quiche_config, DriverPipe};
use crate::request_stream::{AppRecv, FrameAdmission, H3AuditStats, OutboundFrame, RequestStream};
use crate::settings::{default_settings, Http3Settings};
use crate::table::{lookup, put};
use crate::transport::{Role, TransportEvent, TransportState, MAX_STREAM_INDEX};
use crate::wt::requests::{answer_to, Answer, WebTransportOutcome, WebTransportRequest};

verus! {

/// A driver, the peer at the other end of its connection, and the application
/// on top of it.
pub struct DriverTestHelper {
    pub driver: H3Driver,
    /// Whether the peer's settings offer WebTransport.
    pub peer_offers_webtransport: bool,
    /// How many requests the peer has sent.
    pub peer_requests: u64,
}

/// The value of a [`DriverTestHelper`].
pub ghost struct HelperState {
    pub driver: DriverState,
    pub peer_offers_webtransport: bool,
    pub peer_requests: u64,
}

impl View for DriverTestHelper {
    type V = HelperState;

    closed spec fn view(&self) -> HelperState {
        HelperState {
            driver: self.driver@,
            peer_offers_webtransport: self.peer_offers_webtransport,
            peer_requests: self.peer_requests,
        }
    }
}

impl CoreState {
    /// The state with another value of the transport.
    pub open spec fn with_transport(self, transport: TransportState) -> CoreState {
        CoreState { transport, ..self }
    }

    /// The state after something arrived from the peer.
    pub open spec fn receiving(self, event: TransportEvent) -> CoreState {
        self.with_transport(self.transport.receiving(event))
    }

    /// The state with the first `count` bytes that wait of a frameless stream, and
    /// no more of it.
    pub open spec fn raw_kept(self, stream_id: u64, count: int) -> CoreState {
        CoreState { raw: self.raw.raw_kept(stream_id, count), ..self }
    }

    /// The state with one stream replaced by what the application made of it.
    pub open spec fn with_row(self, stream_id: u64, stream: RequestStream) -> CoreState {
        CoreState { streams: put(self.streams, stream_id, stream), ..self }
    }

    /// The state after both ends have caught up with each other.
    #[verifier::opaque]
    pub open spec fn advanced(self, offers_webtransport: bool) -> CoreState {
        self.with_transport(self.transport.advanced()).settings_arrived(offers_webtransport)
    }

    /// The state after the handshake, with the settings of both ends known.
    pub open spec fn handshaken(self, offers_webtransport: bool) -> CoreState {
        CoreState {
            established: true,
            peer_webtransport: Some(offers_webtransport),
            settings_forwarded: true,
            ..self
        }
    }

    /// The state after the application took its oldest event.
    pub open spec fn event_taken(self) -> CoreState {
        CoreState { events: self.events.taken(), ..self }
    }

    /// The state after the peer asked for its next event.
    pub open spec fn peer_polled(self) -> CoreState {
        self.with_transport(self.transport.peer_polled())
    }

    /// What the peer's next event is.
    pub open spec fn peer_event(self) -> Option<(u64, PeerEvent)> {
        poll_from(self.transport.log.sent, self.transport.log.announced, 0).event
    }

    /// The state after the peer read the body bytes of a stream that it was told
    /// of.
    pub open spec fn peer_body_read(self, stream_id: u64) -> CoreState {
        self.with_transport(self.transport.peer_body_read(stream_id))
    }

    /// The state after the peer read a frameless stream.
    pub open spec fn peer_raw_read(self, stream_id: u64) -> CoreState {
        self.with_transport(self.transport.peer_raw_read(stream_id))
    }
}

impl HelperState {
    /// The state with another value of the driver's core.
    pub open spec fn with_core(self, core: CoreState) -> HelperState {
        HelperState { driver: self.driver.with_core(core), ..self }
    }

    /// The oldest event that waits for the application.
    #[verifier::opaque]
    pub open spec fn next_event(self) -> Option<Told> {
        let items = self.driver.core.events.lane.items;
        if items.len() > 0 {
            Some(items[0])
        } else {
            None
        }
    }

    /// The state after the handshake.
    #[verifier::opaque]
    pub open spec fn handshaken(self) -> HelperState {
        self.with_core(self.driver.core.handshaken(self.peer_offers_webtransport))
    }

    /// The state after both ends have caught up with each other.
    pub open spec fn advanced(self) -> HelperState {
        self.with_core(self.driver.core.advanced(self.peer_offers_webtransport))
    }

    /// The state after one turn of the driver.
    pub open spec fn turned(self) -> HelperState {
        HelperState { driver: self.driver.turned(), ..self }
    }

    /// The state after both ends caught up, one turn of the driver, and catching
    /// up again. Everything ends where the turn fails.
    #[verifier::opaque]
    pub open spec fn ran(self) -> HelperState {
        let turned = self.advanced().turned();
        if turned.driver.core.failed is Some {
            turned
        } else {
            turned.advanced()
        }
    }

    /// Whether catching up and the turn after it go well.
    #[verifier::opaque]
    pub open spec fn runs_well(self) -> bool {
        self.advanced().turned().driver.core.verdict() is Ok
    }

    /// The state after the application took its oldest event.
    #[verifier::opaque]
    pub open spec fn event_taken(self) -> HelperState {
        self.with_core(self.driver.core.event_taken())
    }

    /// The state after the application asked something.
    pub open spec fn asked(self, request: WebTransportRequest) -> HelperState {
        HelperState { driver: self.driver.requested(request), ..self }
    }

    /// The answer to a request.
    pub open spec fn answer(self, op: u64) -> Option<Answer> {
        answer_to(self.driver.desk.answers, op)
    }

    /// The state after the application took an answer.
    pub open spec fn answer_taken(self, op: u64) -> HelperState {
        HelperState { driver: self.driver.answer_taken(op), ..self }
    }

    /// The stream that the peer's next request gets.
    pub open spec fn next_request(self) -> u64 {
        (4 * self.peer_requests) as u64
    }

    /// The state after the peer sent a request.
    #[verifier::opaque]
    pub open spec fn peer_requested(self, headers: Vec<Header>, fin: bool) -> HelperState {
        if self.peer_requests < MAX_STREAM_INDEX {
            HelperState {
                peer_requests: (self.peer_requests + 1) as u64,
                ..self.with_core(
                    self.driver.core.receiving(
                        TransportEvent::Headers { stream_id: self.next_request(), headers, fin },
                    ),
                )
            }
        } else {
            self
        }
    }

    /// The state after the peer sent body bytes.
    pub open spec fn peer_sent_body(self, stream_id: u64, data: Vec<u8>, fin: bool) -> HelperState {
        let core = self.driver.core;
        self.with_core(
            core.with_transport(core.transport.body_delivered(stream_id, data, fin)),
        )
    }
}

impl DriverTestHelper {
    /// The parts are consistent.
    pub closed spec fn wf(self) -> bool {
        self.driver.wf()
    }

    /// A helper is consistent where its driver is, and its value is made of the values
    /// of its parts: whoever works on the driver itself keeps the helper usable.
    pub proof fn lemma_parts(self)
        ensures
            self.wf() == self.driver.wf(),
            self@ == (HelperState {
                driver: self.driver@,
                peer_offers_webtransport: self.peer_offers_webtransport,
                peer_requests: self.peer_requests,
            }),
    {
    }

    /// A driver before the handshake, and a peer whose settings do or do not
    /// offer WebTransport.
    pub fn with_pipe_and_http3_configs(
        role: Role,
        pipe: DriverPipe,
        settings: Http3Settings,
        peer_offers_webtransport: bool,
    ) -> (helper: Self)
        requires
            settings.lanes_fit(),
        ensures
            helper.wf(),
            helper@ == (HelperState {
                driver: H3Driver::fresh(role, pipe, settings),
                peer_offers_webtransport,
                peer_requests: 0,
            }),
    {
        DriverTestHelper {
            driver: H3Driver::new(role, pipe, settings),
            peer_offers_webtransport,
            peer_requests: 0,
        }
    }

    /// A driver before the handshake, and a peer with the same settings.
    pub fn with_pipe_and_http3_settings(role: Role, pipe: DriverPipe, settings: Http3Settings) -> (
    helper: Self)
        requires
            settings.lanes_fit(),
        ensures
            helper.wf(),
            helper@ == (HelperState {
                driver: H3Driver::fresh(role, pipe, settings),
                peer_offers_webtransport: settings.enable_webtransport,
                peer_requests: 0,
            }),
    {
        let offers = settings.enable_webtransport;
        DriverTestHelper::with_pipe_and_http3_configs(role, pipe, settings, offers)
    }

    /// A driver before the handshake, with transport parameters of its own.
    pub fn with_pipe(role: Role, pipe: DriverPipe) -> (helper: Self)
        ensures
            helper.wf(),
            helper@ == (HelperState {
                driver: H3Driver::fresh(role, pipe, default_settings()),
                peer_offers_webtransport: false,
                peer_requests: 0,
            }),
    {
        DriverTestHelper::with_pipe_and_http3_settings(role, pipe, Http3Settings::default())
    }

    /// A driver that was not configured, before the handshake.
    pub fn new(role: Role) -> (helper: Self)
        ensures
            helper.wf(),
            helper@ == (HelperState {
                driver: H3Driver::fresh(
                    role,
                    DriverPipe { client: default_endpoint(), server: default_endpoint() },
                    default_settings(),
                ),
                peer_offers_webtransport: false,
                peer_requests: 0,
            }),
    {
        DriverTestHelper::with_pipe(role, DriverPipe::with_config(default_quiche_config()))
    }

    /// Completes the handshake and exchanges settings.
    pub fn complete_handshake(&mut self)
        requires
            old(self).wf(),
        ensures
            final(self).wf(),
            final(self)@ == old(self)@.handshaken(),
    {
        proof {
            reveal(HelperState::handshaken);
        }
        self.driver.core.established = true;
        self.driver.core.peer_webtransport = Some(self.peer_offers_webtransport);
        self.driver.core.settings_forwarded = true;
    }

    /// Lets both ends catch up with each other.
    pub fn advance(&mut self)
        requires
            old(self).wf(),
        ensures
            final(self).wf(),
            final(self)@ == old(self)@.advanced(),
    {
        proof {
            reveal(CoreState::advanced);
        }
        self.driver.core.transport.advance();
        self.driver.core.on_settings(self.peer_offers_webtransport);
    }

    /// One turn of the driver.
    pub fn work_loop_iter(&mut self) -> (result: Result<(), H3ConnectionError>)
        requires
            old(self).wf(),
        ensures
            final(self).wf(),
            final(self)@ == old(self)@.turned(),
            result == old(self)@.turned().driver.core.verdict(),
    {
        self.driver.work_loop_iter()
    }

    /// Lets both ends catch up, runs one turn of the driver, and lets them catch
    /// up again.
    pub fn advance_and_run_loop(&mut self) -> (result: Result<(), H3ConnectionError>)
        requires
            old(self).wf(),
        ensures
            final(self).wf(),
            final(self)@ == old(self)@.ran(),
            result == old(self)@.advanced().turned().driver.core.verdict(),
            result is Ok <==> old(self)@.runs_well(),
    {
        proof {
            reveal(HelperState::ran);
            reveal(HelperState::runs_well);
        }
        self.advance();
        let result = self.work_loop_iter();
        if result.is_ok() {
            self.advance();
        }
        result
    }

    /// Carries all waiting commands out. Returns how many there were.
    pub fn process_commands(&mut self) -> (count: usize)
        requires
            old(self).wf(),
        ensures
            final(self).wf(),
            final(self)@ == (HelperState {
                driver: old(self)@.driver.commands_processed(),
                ..old(self)@
            }),
            count == old(self)@.driver.commands_due(),
    {
        self.driver.process_commands()
    }

    /// The application takes its oldest event.
    pub fn recv_event(&mut self) -> (event: Option<DriverEvent>)
        requires
            old(self).wf(),
        ensures
            final(self).wf(),
            final(self)@ == old(self)@.event_taken(),
            old(self)@.next_event() == (match event {
                Some(first) => Some(first@),
                None => None,
            }),
    {
        proof {
            reveal(HelperState::event_taken);
            reveal(HelperState::next_event);
        }
        self.driver.core.events.recv()
    }

    /// Whether the driver has failed.
    pub fn has_failed(&self) -> (failed: bool)
        ensures
            failed == (self@.driver.core.failed is Some),
    {
        self.driver.core.failed.is_some()
    }

    /// Whether the application takes no more events.
    pub fn is_event_lane_closed(&self) -> (closed: bool)
        ensures
            closed == !self@.driver.core.events.lane.open,
    {
        self.driver.core.events.is_closed()
    }

    /// The application takes no more events.
    pub fn drop_event_receiver(&mut self)
        requires
            old(self).wf(),
        ensures
            final(self).wf(),
            final(self)@.driver.core.events.lane.open == false,
            final(self)@ == old(self)@.with_core(
                CoreState {
                    events: final(self)@.driver.core.events,
                    ..old(self)@.driver.core
                },
            ),
            final(self)@.driver.core.events.lane.items == old(
                self,
            )@.driver.core.events.lane.items,
            final(self)@.driver.core.events.stats == old(self)@.driver.core.events.stats,
    {
        self.driver.core.events.close();
    }

    /// The application offers a frame on a stream. One of a stream that the
    /// driver never had comes back.
    pub fn app_send(&mut self, stream_id: u64, frame: OutboundFrame) -> (admission: FrameAdmission)
        requires
            old(self).wf(),
        ensures
            final(self).wf(),
            match lookup(old(self)@.driver.core.streams, stream_id) {
                Some(stream) => if !stream.outbound_open {
                    admission == FrameAdmission::Closed(frame) && final(self)@ == old(self)@
                } else if stream.outbound is Some {
                    admission == FrameAdmission::Full(frame) && final(self)@ == old(self)@
                } else {
                    admission == FrameAdmission::Accepted && final(self)@ == old(self)@.with_core(
                        old(self)@.driver.core.with_row(
                            stream_id,
                            RequestStream { outbound: Some(frame), ..stream },
                        ),
                    )
                },
                None => admission == FrameAdmission::Closed(frame) && final(self)@ == old(self)@,
            },
    {
        let ghost before = self.driver.core.streams@;
        proof {
            lemma_lookup_wf(before, stream_id);
            lemma_put_wf(before, stream_id, None);
            crate::driver::state::lemma_put_same(before, stream_id);
        }
        match self.driver.core.streams.get_mut(stream_id) {
            Some(stream) => stream.app_send(frame),
            None => FrameAdmission::Closed(frame),
        }
    }

    /// The application reads a stream.
    pub fn app_recv(&mut self, stream_id: u64) -> (read: AppRecv)
        requires
            old(self).wf(),
        ensures
            final(self).wf(),
            match lookup(old(self)@.driver.core.streams, stream_id) {
                Some(stream) => final(self)@ == old(self)@.with_core(
                    old(self)@.driver.core.with_row(
                        stream_id,
                        RequestStream { inbound: None, ..stream },
                    ),
                ) && match stream.inbound {
                    Some(frame) => read == AppRecv::Frame(frame),
                    None => read == (if stream.inbound_open {
                        AppRecv::Empty
                    } else {
                        AppRecv::Disconnected
                    }),
                },
                None => read == AppRecv::Disconnected && final(self)@ == old(self)@,
            },
    {
        let ghost before = self.driver.core.streams@;
        proof {
            lemma_lookup_wf(before, stream_id);
            lemma_put_wf(before, stream_id, None);
        }
        match self.driver.core.streams.get_mut(stream_id) {
            Some(stream) => stream.app_recv(),
            None => AppRecv::Disconnected,
        }
    }

    /// The application gives its sending handle of a stream up.
    pub fn drop_sender(&mut self, stream_id: u64)
        requires
            old(self).wf(),
        ensures
            final(self).wf(),
            match lookup(old(self)@.driver.core.streams, stream_id) {
                Some(stream) => final(self)@ == old(self)@.with_core(
                    old(self)@.driver.core.with_row(
                        stream_id,
                        RequestStream { sender: false, ..stream },
                    ),
                ),
                None => final(self)@ == old(self)@,
            },
    {
        let ghost before = self.driver.core.streams@;
        proof {
            lemma_lookup_wf(before, stream_id);
            lemma_put_wf(before, stream_id, None);
        }
        if let Some(stream) = self.driver.core.streams.get_mut(stream_id) {
            stream.drop_sender();
        }
    }

    /// The application gives its receiving handle of a stream up.
    pub fn drop_receiver(&mut self, stream_id: u64)
        requires
            old(self).wf(),
        ensures
            final(self).wf(),
            match lookup(old(self)@.driver.core.streams, stream_id) {
                Some(stream) => final(self)@ == old(self)@.with_core(
                    old(self)@.driver.core.with_row(
                        stream_id,
                        RequestStream { receiver: false, inbound: None, ..stream },
                    ),
                ),
                None => final(self)@ == old(self)@,
            },
    {
        let ghost before = self.driver.core.streams@;
        proof {
            lemma_lookup_wf(before, stream_id);
            lemma_put_wf(before, stream_id, None);
        }
        if let Some(stream) = self.driver.core.streams.get_mut(stream_id) {
            stream.drop_receiver();
        }
    }

    /// A stream as the driver has it.
    pub fn stream(&self, stream_id: u64) -> (stream: Option<&RequestStream>)
        ensures
            match lookup(self@.driver.core.streams, stream_id) {
                Some(row) => stream == Some(&row),
                None => stream is None,
            },
    {
        self.driver.core.streams.get(stream_id)
    }

    /// What happened on a stream so far.
    pub fn audit_stats(&self, stream_id: u64) -> (stats: Option<H3AuditStats>)
        ensures
            stats == (match lookup(self@.driver.core.streams, stream_id) {
                Some(stream) => Some(stream.audit),
                None => None,
            }),
    {
        match self.driver.core.streams.get(stream_id) {
            Some(stream) => Some(stream.audit),
            None => None,
        }
    }

    /// The peer sends a request. Returns its stream.
    pub fn peer_client_send_request(&mut self, headers: Vec<Header>, fin: bool) -> (stream_id:
        Option<u64>)
        requires
            old(self).wf(),
        ensures
            final(self).wf(),
            final(self)@ == old(self)@.peer_requested(headers, fin),
            stream_id == (if old(self)@.peer_requests < MAX_STREAM_INDEX {
                Some(old(self)@.next_request())
            } else {
                None
            }),
            stream_id is None ==> final(self)@ == old(self)@,
    {
        proof {
            reveal(HelperState::peer_requested);
        }
        if self.peer_requests >= MAX_STREAM_INDEX {
            return None;
        }
        let stream_id: u64 = 4 * self.peer_requests;
        self.peer_requests = self.peer_requests + 1;
        self.driver.core.transport.deliver(TransportEvent::Headers { stream_id, headers, fin });
        Some(stream_id)
    }

    /// The peer sends a field section on a stream.
    pub fn peer_send_headers(&mut self, stream_id: u64, headers: Vec<Header>, fin: bool)
        requires
            old(self).wf(),
        ensures
            final(self).wf(),
            final(self)@ == old(self)@.with_core(
                old(self)@.driver.core.receiving(
                    TransportEvent::Headers { stream_id, headers, fin },
                ),
            ),
    {
        self.driver.core.transport.deliver(TransportEvent::Headers { stream_id, headers, fin });
    }

    /// The peer sends body bytes. It cannot once this end has refused the
    /// stream; then it learns the code.
    pub fn peer_send_body(&mut self, stream_id: u64, data: Vec<u8>, fin: bool) -> (sent: Result<
        usize,
        u64,
    >)
        requires
            old(self).wf(),
        ensures
            final(self).wf(),
            final(self)@ == old(self)@.peer_sent_body(stream_id, data, fin),
            sent == (match lookup(old(self)@.driver.core.transport.stops_sent, stream_id) {
                Some(error_code) => Err::<usize, u64>(error_code),
                None => Ok(data@.len() as usize),
            }),
    {
        self.driver.core.transport.deliver_body(stream_id, data, fin)
    }

    /// The peer resets a stream.
    pub fn peer_shutdown_write(&mut self, stream_id: u64, error_code: u64)
        requires
            old(self).wf(),
        ensures
            final(self).wf(),
            final(self)@ == old(self)@.with_core(
                old(self)@.driver.core.with_transport(
                    old(self)@.driver.core.transport.reset_delivered(stream_id, error_code),
                ),
            ),
    {
        self.driver.core.transport.deliver_reset(stream_id, error_code);
    }

    /// The peer resets a frameless stream and takes back the last `lost` of the bytes
    /// that wait to be read. Those before them can still be read.
    pub fn peer_shutdown_write_after(&mut self, stream_id: u64, error_code: u64, lost: usize)
        requires
            old(self).wf(),
        ensures
            final(self).wf(),
            ({
                let core = old(self)@.driver.core;
                let waiting = raw_bytes(core.raw.sent, stream_id).len();
                let kept = if lost < waiting {
                    waiting - lost
                } else {
                    0
                };
                final(self)@ == old(self)@.with_core(
                    core.raw_kept(stream_id, kept).with_transport(
                        core.transport.reset_delivered(stream_id, error_code),
                    ),
                )
            }),
    {
        self.driver.core.raw.lose_raw(stream_id, lost);
        self.driver.core.transport.deliver_reset(stream_id, error_code);
    }

    /// How many bytes of a frameless stream wait to be read.
    pub fn stream_readable_len(&self, stream_id: u64) -> (count: usize)
        ensures
            count == raw_bytes(self@.driver.core.raw.sent, stream_id).len(),
    {
        let (bytes, _) = self.driver.core.raw.waiting_raw(stream_id);
        bytes.len()
    }

    /// The peer refuses a stream.
    pub fn peer_shutdown_read(&mut self, stream_id: u64, error_code: u64)
        requires
            old(self).wf(),
        ensures
            final(self).wf(),
            final(self)@ == old(self)@.with_core(
                old(self)@.driver.core.with_transport(
                    old(self)@.driver.core.transport.stop_delivered(stream_id, error_code),
                ),
            ),
    {
        self.driver.core.transport.deliver_stop(stream_id, error_code);
    }

    /// The peer sends bytes on a stream without HTTP/3 frames. It cannot once
    /// this end has refused the stream; then it learns the code.
    pub fn peer_stream_send(&mut self, stream_id: u64, data: Vec<u8>, fin: bool) -> (sent: Result<
        usize,
        u64,
    >)
        requires
            old(self).wf(),
        ensures
            final(self).wf(),
            match lookup(old(self)@.driver.core.transport.stops_sent, stream_id) {
                Some(error_code) => sent == Err::<usize, u64>(error_code) && final(self)@ == old(
                    self,
                )@,
                None => sent == Ok::<usize, u64>(data@.len() as usize) && final(self)@ == old(
                    self,
                )@.with_core(
                    old(self)@.driver.core.receiving(
                        TransportEvent::Raw { stream_id, data, fin },
                    ),
                ),
            },
    {
        if let Some(error_code) = self.driver.core.transport.stop_sent(stream_id) {
            return Err(error_code);
        }
        let len: usize = data.len();
        self.driver.core.transport.deliver(TransportEvent::Raw { stream_id, data, fin });
        Ok(len)
    }

    /// The peer sends a datagram.
    pub fn peer_dgram_send(&mut self, data: Vec<u8>)
        requires
            old(self).wf(),
        ensures
            final(self).wf(),
            final(self)@ == old(self)@.with_core(
                old(self)@.driver.core.receiving(TransportEvent::Datagram { data }),
            ),
    {
        self.driver.core.transport.deliver(TransportEvent::Datagram { data });
    }

    /// The peer takes no more requests.
    pub fn peer_send_goaway(&mut self, id: u64)
        requires
            old(self).wf(),
        ensures
            final(self).wf(),
            final(self)@ == old(self)@.with_core(
                old(self)@.driver.core.receiving(TransportEvent::GoAway { id }),
            ),
    {
        self.driver.core.transport.deliver(TransportEvent::GoAway { id });
    }

    /// The peer takes its next event.
    pub fn peer_poll(&mut self) -> (event: Option<(u64, PeerEvent)>)
        requires
            old(self).wf(),
        ensures
            final(self).wf(),
            event == old(self)@.driver.core.peer_event(),
            final(self)@ == old(self)@.with_core(old(self)@.driver.core.peer_polled()),
    {
        self.driver.core.transport.poll_peer()
    }

    /// The peer reads the body bytes of a stream that it was told of.
    pub fn peer_recv_body(&mut self, stream_id: u64) -> (body: Option<Vec<u8>>)
        requires
            old(self).wf(),
        ensures
            final(self).wf(),
            ({
                let log = old(self)@.driver.core.transport.log;
                let bytes = body_bytes(log.sent, stream_id);
                &&& body is Some <==> log.announced.contains(stream_id) && bytes.len() > 0
                &&& body matches Some(read) ==> read@ == bytes
            }),
            final(self)@ == old(self)@.with_core(
                old(self)@.driver.core.peer_body_read(stream_id),
            ),
    {
        self.driver.core.transport.read_peer_body(stream_id)
    }

    /// The peer reads a stream without HTTP/3 frames.
    pub fn peer_stream_recv(&mut self, stream_id: u64) -> (read: RawRead)
        requires
            old(self).wf(),
        ensures
            final(self).wf(),
            final(self)@ == old(self)@.with_core(old(self)@.driver.core.peer_raw_read(stream_id)),
            ({
                let log = old(self)@.driver.core.transport.log.sent;
                let bytes = raw_bytes(log, stream_id);
                match reset_code(log, stream_id) {
                    Some(error_code) => read == (RawRead::Reset { error_code }),
                    None => if bytes.len() == 0 && !raw_fin(log, stream_id) {
                        read is Nothing
                    } else {
                        read matches RawRead::Data { data, fin } && data@ == bytes && fin
                            == raw_fin(log, stream_id)
                    },
                }
            }),
    {
        self.driver.core.transport.read_peer_raw(stream_id)
    }

    /// The code with which this end refused a stream, as the peer learns it.
    pub fn peer_stream_stopped(&self, stream_id: u64) -> (error_code: Option<u64>)
        ensures
            error_code == lookup(self@.driver.core.transport.stops_sent, stream_id),
    {
        self.driver.core.transport.stop_sent(stream_id)
    }

    /// The application reads a stream of its session directly.
    pub fn stream_recv(&mut self, stream_id: u64) -> (read: (Vec<u8>, bool))
        requires
            old(self).wf(),
        ensures
            final(self).wf(),
            read.0@ == raw_bytes(old(self)@.driver.core.raw.sent, stream_id),
            read.1 == raw_fin(old(self)@.driver.core.raw.sent, stream_id),
            final(self)@ == old(self)@.with_core(
                CoreState {
                    raw: PeerLogState {
                        sent: without_raw(old(self)@.driver.core.raw.sent, stream_id),
                        ..old(self)@.driver.core.raw
                    },
                    ..old(self)@.driver.core
                },
            ),
    {
        let read = self.driver.core.raw.waiting_raw(stream_id);
        self.driver.core.raw.take_raw(stream_id);
        read
    }

    /// Asks something. Returns the number of the request, where the lane takes it.
    pub fn ask(&mut self, request: WebTransportRequest) -> (op: Option<u64>)
        requires
            old(self).wf(),
        ensures
            final(self).wf(),
            final(self)@ == old(self)@.asked(request),
            op == (if old(self)@.driver.requests.admits() {
                Some(old(self)@.driver.desk.next_op)
            } else {
                None
            }),
    {
        match self.driver.submit(request) {
            Ok(op) => Some(op),
            Err(_) => None,
        }
    }

    /// Whether a request has its answer.
    pub fn is_answered(&self, op: u64) -> (is: bool)
        ensures
            is == (self@.answer(op) is Some),
    {
        self.driver.is_answered(op)
    }

    /// Takes the answer to a request.
    pub fn take_answer(&mut self, op: u64) -> (outcome: Option<WebTransportOutcome>)
        requires
            old(self).wf(),
        ensures
            final(self).wf(),
            final(self)@ == old(self)@.answer_taken(op),
            match old(self)@.answer(op) {
                Some(answer) => outcome matches Some(o) && o@ == answer,
                None => outcome is None,
            },
    {
        self.driver.take_answer(op)
    }

    /// Asks for a request. Returns whether the driver will see it.
    pub fn enqueue_request(&mut self, request_id: u64, headers: Vec<Header>, fin: bool) -> (
    admission: H3CommandAdmission)
        requires
            old(self).wf(),
        ensures
            final(self).wf(),
            admission == old(self)@.driver.admission(),
            final(self)@ == (HelperState {
                driver: old(self)@.driver.offered(H3Command::Request { request_id, headers, fin }),
                ..old(self)@
            }),
    {
        self.driver.enqueue_request(request_id, headers, fin)
    }

    /// The peer takes its oldest datagram.
    pub fn peer_dgram_recv(&mut self) -> (data: Option<Vec<u8>>)
        requires
            old(self).wf(),
        ensures
            final(self).wf(),
            ({
                let transport = old(self)@.driver.core.transport;
                let arrived = transport.dgrams_arrived;
                match data {
                    Some(first) => arrived.len() > 0 && first@ == arrived[0] && final(self)@
                        == old(self)@.with_core(
                        old(self)@.driver.core.with_transport(
                            TransportState { dgrams_arrived: arrived.skip(1), ..transport },
                        ),
                    ),
                    None => arrived.len() == 0 && final(self)@ == old(self)@,
                }
            }),
    {
        self.driver.core.transport.peer_recv_dgram()
    }

    /// The error that this end closed the connection with.
    pub fn local_error(&self) -> (error: Option<ConnectionError>)
        ensures
            error == self@.driver.core.transport.local_error,
    {
        self.driver.core.transport.local_error()
    }
}

} // verus!
