//! The state that a driver works on, and the small steps that all of its work
//! is made of.

use vstd::prelude::*;

use crate::body_buf::BodyRecvBuf;
use crate::conn_close::H3ConnectionError;
use crate::driver::events::{DriverEvent, EventLane, EventLaneState, H3Event, Told};
use crate::multicast::{Multicast, MulticastState};
use crate::peer_log::{without_raw, PeerLog, PeerLogState, Sent};
use crate::pipe_config::DriverPipe;
use crate::request_stream::RequestStream;
use crate::settings::Http3Settings;
use crate::table::{lookup, put, Table};
use crate::transport::{Role, SendResult, Transport, TransportState};
use crate::wire::stream_prefix::WebTransportStreamDirection;
use crate::wt::datagrams::{DatagramLimits, DatagramQueue, DatagramState};
use crate::wt::runtime::{event_values, RuntimeState, WebTransportRuntime};
use crate::wt::types::{SessionEvent, StreamAction, WebTransportSessionEvent};

verus! {

/// A datagram flow that a request opened, or the peer by using it.
#[derive(Clone, Copy, Debug, PartialEq, Eq, Structural)]
pub struct Flow {
    /// The request stream that it belongs to.
    pub stream_id: Option<u64>,
}

/// Something that happened to a stream of a session.
#[derive(Clone, Copy, Debug, PartialEq, Eq, Structural)]
pub enum Notice {
    /// The peer refuses the stream.
    Stopped { stream_id: u64, error_code: u64 },
    /// The peer's direction ended.
    Fin { stream_id: u64 },
    /// The peer reset its direction.
    Reset { stream_id: u64, error_code: u64 },
}

/// A request for a session that waits for the peer's settings.
#[derive(Clone, Copy, Debug, PartialEq, Eq, Structural)]
pub struct DeferredRequest {
    pub stream_id: u64,
    pub fin: bool,
}

/// A request that waits until one more stream may be opened.
#[derive(Clone, Copy, Debug, PartialEq, Eq, Structural)]
pub struct WaitingRequest {
    pub request_id: u64,
    pub fin: bool,
}

/// What the application hands to the driver for a datagram flow.
#[derive(Debug)]
pub enum FlowFrame {
    /// A datagram for the peer.
    Datagram { flow_id: u64, payload: Vec<u8> },
    /// The flow is over, and so is the stream that it belongs to.
    Shutdown { flow_id: u64, stream_id: u64 },
}

/// The value of an [`H3Core`].
pub ghost struct CoreState {
    pub settings: Http3Settings,
    pub established: bool,
    pub peer_webtransport: Option<bool>,
    pub settings_forwarded: bool,
    pub transport: TransportState,
    pub streams: Seq<(u64, RequestStream)>,
    pub body_buf: BodyRecvBuf,
    pub events: EventLaneState,
    pub session: Option<RuntimeState>,
    pub deferred: Option<DeferredRequest>,
    pub queued_request: Option<u64>,
    pub flows: Seq<(u64, Flow)>,
    pub datagrams: DatagramState,
    pub raw: PeerLogState,
    pub raw_seen: Seq<(u64, bool)>,
    pub notices: Seq<Notice>,
    pub local_openings: nat,
    pub waiting_requests: Seq<WaitingRequest>,
    pub flow_frames: Seq<FlowFrame>,
    pub multicast: MulticastState,
    pub goaway_sent: bool,
    pub controller_gone: bool,
    pub failed: Option<H3ConnectionError>,
}

/// Whether some stream of a table is still tracked.
pub open spec fn any_live(rows: Seq<(u64, RequestStream)>) -> bool {
    exists|i: int| 0 <= i < rows.len() && (#[trigger] rows[i]).1.live
}

/// How many streams of a table are still tracked.
pub open spec fn live_count(rows: Seq<(u64, RequestStream)>) -> nat
    decreases rows.len(),
{
    if rows.len() == 0 {
        0
    } else {
        live_count(rows.drop_last()) + if rows.last().1.live {
            1nat
        } else {
            0nat
        }
    }
}

/// How many streams of a table wait for the application to hand a frame over.
pub open spec fn waiting_streams(rows: Seq<(u64, RequestStream)>) -> nat
    decreases rows.len(),
{
    if rows.len() == 0 {
        0
    } else {
        waiting_streams(rows.drop_last()) + if rows.last().1.live && !rows.last().1.send_done
            && rows.last().1.queued is None {
            1nat
        } else {
            0nat
        }
    }
}

/// The flows of a table that do not belong to `stream_id`.
pub open spec fn flows_of_others(rows: Seq<(u64, Flow)>, stream_id: u64) -> Seq<(u64, Flow)>
    decreases rows.len(),
{
    if rows.len() == 0 {
        Seq::empty()
    } else {
        let front = flows_of_others(rows.drop_last(), stream_id);
        if rows.last().1.stream_id == Some(stream_id) {
            front
        } else {
            front.push(rows.last())
        }
    }
}

impl CoreState {
    /// The state after an event was offered to the application. Nothing is
    /// offered once the application is gone or the lane has failed.
    pub open spec fn told(self, event: Told) -> CoreState {
        if self.controller_gone || self.failed is Some {
            self
        } else {
            CoreState {
                events: self.events.offered(event),
                failed: self.events.refusal(),
                ..self
            }
        }
    }

    /// The state after the driver gave a stream up.
    pub open spec fn stream_closed(self, stream_id: u64) -> CoreState {
        (CoreState {
            flows: flows_of_others(self.flows, stream_id),
            body_buf: if any_live(self.streams) {
                self.body_buf
            } else {
                BodyRecvBuf { room: None }
            },
            ..self
        }).told(Told::StreamClosed { stream_id })
    }

    /// The state with a stream replaced, and given up if the new value is.
    #[verifier::opaque]
    pub open spec fn with_stream(self, stream_id: u64, stream: RequestStream) -> CoreState {
        let was_live = lookup(self.streams, stream_id) matches Some(s) && s.live;
        let stored = CoreState { streams: put(self.streams, stream_id, stream), ..self };
        if was_live && !stream.live {
            stored.stream_closed(stream_id)
        } else {
            stored
        }
    }

    /// The state after something more was sent.
    pub open spec fn sending(self, sent: Sent) -> CoreState {
        CoreState { transport: self.transport.sending(sent), ..self }
    }

    /// The state after a write on a frameless stream.
    pub open spec fn raw_sent(self, stream_id: u64, data: Seq<u8>, fin: bool) -> CoreState {
        CoreState { transport: self.transport.raw_sent(stream_id, data, fin), ..self }
    }

    /// The state after a stream of this end counts against the peer's limit no more.
    pub open spec fn stream_released(self, direction: WebTransportStreamDirection) -> CoreState {
        CoreState { transport: self.transport.released(direction), ..self }
    }

    /// The state after a stream was refused.
    pub open spec fn stopping(self, stream_id: u64, error_code: u64) -> CoreState {
        CoreState { transport: self.transport.stopping(stream_id, error_code), ..self }
    }

    /// The state after an action that the session asked for.
    #[verifier::opaque]
    pub open spec fn performed(self, action: StreamAction) -> CoreState {
        match action {
            StreamAction::Reset { stream_id, error_code } => {
                let sent = self.sending(Sent::Reset { stream_id, error_code });
                match lookup(self.streams, stream_id) {
                    Some(stream) => if stream.send_done {
                        sent
                    } else {
                        sent.with_stream(stream_id, stream.with_local_reset(error_code))
                    },
                    None => sent,
                }
            },
            StreamAction::Stop { stream_id, error_code } => {
                let sent = self.stopping(stream_id, error_code);
                match lookup(self.streams, stream_id) {
                    Some(stream) => if stream.recv_done {
                        sent
                    } else {
                        sent.with_stream(stream_id, stream.with_local_stop(error_code))
                    },
                    None => CoreState {
                        raw: PeerLogState {
                            sent: without_raw(sent.raw.sent, stream_id),
                            ..sent.raw
                        },
                        ..sent
                    },
                }
            },
            StreamAction::Finish { stream_id } => {
                let sent = self.sending(
                    Sent::Body { stream_id, data: Seq::empty() },
                ).sending(Sent::Fin { stream_id });
                match lookup(self.streams, stream_id) {
                    Some(stream) => if stream.send_done {
                        sent
                    } else {
                        sent.with_stream(stream_id, stream.after_frame(true))
                    },
                    None => sent,
                }
            },
        }
    }

    /// The state after a list of actions.
    pub open spec fn performed_all(self, actions: Seq<StreamAction>) -> CoreState
        decreases actions.len(),
    {
        if actions.len() == 0 {
            self
        } else {
            self.performed_all(actions.drop_last()).performed(actions.last())
        }
    }

    /// The state after a list of events of the session was offered.
    pub open spec fn told_all(self, events: Seq<SessionEvent>) -> CoreState
        decreases events.len(),
    {
        if events.len() == 0 {
            self
        } else {
            self.told_all(events.drop_last()).told(Told::Session(events.last()))
        }
    }

    /// The state after what the session has to say was said and what it asked
    /// for was done.
    #[verifier::opaque]
    pub open spec fn flushed(self) -> CoreState {
        match self.session {
            Some(s) => (CoreState {
                session: Some(
                    RuntimeState { events: Seq::empty(), actions: Seq::empty(), ..s },
                ),
                ..self
            }).told_all(s.events).performed_all(s.actions),
            None => self,
        }
    }
}

/// The state of a driver.
pub struct H3Core {
    pub settings: Http3Settings,
    /// Whether the handshake is complete.
    pub established: bool,
    /// Whether the peer offers WebTransport, once its settings arrived.
    pub peer_webtransport: Option<bool>,
    /// Whether the application has been told of the peer's settings.
    pub settings_forwarded: bool,
    pub transport: Transport,
    pub streams: Table<RequestStream>,
    pub body_buf: BodyRecvBuf,
    pub events: EventLane,
    pub session: Option<WebTransportRuntime>,
    pub deferred: Option<DeferredRequest>,
    /// A request for a session that waits for the peer's settings.
    pub queued_request: Option<u64>,
    pub flows: Table<Flow>,
    pub datagrams: DatagramQueue,
    /// The bytes of frameless streams that were not read yet.
    pub raw: PeerLog,
    /// The frameless streams whose prefix was read.
    pub raw_seen: Table<bool>,
    /// What happened to streams of the session and was not looked at yet.
    pub notices: Vec<Notice>,
    /// How many streams this end is opening or waits to open.
    pub local_openings: usize,
    /// The requests that wait until one more stream may be opened.
    pub waiting_requests: Vec<WaitingRequest>,
    /// What the application handed over for its flows, oldest first.
    pub flow_frames: Vec<FlowFrame>,
    pub multicast: Multicast,
    /// Whether the peer was told that no more requests are taken.
    pub goaway_sent: bool,
    pub controller_gone: bool,
    pub failed: Option<H3ConnectionError>,
}

impl View for H3Core {
    type V = CoreState;

    open spec fn view(&self) -> CoreState {
        CoreState {
            settings: self.settings,
            established: self.established,
            peer_webtransport: self.peer_webtransport,
            settings_forwarded: self.settings_forwarded,
            transport: self.transport@,
            streams: self.streams@,
            body_buf: self.body_buf,
            events: self.events@,
            session: match self.session {
                Some(runtime) => Some(runtime@),
                None => None,
            },
            deferred: self.deferred,
            queued_request: self.queued_request,
            flows: self.flows@,
            datagrams: self.datagrams@,
            raw: self.raw@,
            raw_seen: self.raw_seen@,
            notices: self.notices@,
            local_openings: self.local_openings as nat,
            waiting_requests: self.waiting_requests@,
            flow_frames: self.flow_frames@,
            multicast: self.multicast@,
            goaway_sent: self.goaway_sent,
            controller_gone: self.controller_gone,
            failed: self.failed,
        }
    }
}

/// Every stream of a table is consistent.
#[verifier::opaque]
pub open spec fn streams_wf(rows: Seq<(u64, RequestStream)>) -> bool {
    forall|i: int| 0 <= i < rows.len() ==> (#[trigger] rows[i]).1.wf()
}

impl H3Core {
    /// The parts of the driver are consistent.
    pub open spec fn wf(self) -> bool {
        &&& self.events.wf()
        &&& streams_wf(self.streams@)
        &&& self.datagrams@.wf()
    }

    /// The bounds of the datagram queue.
    pub open spec fn datagram_limits(settings: Http3Settings) -> DatagramLimits {
        DatagramLimits {
            max_count: settings.webtransport_max_pending_datagrams,
            max_count_per_flow: settings.webtransport_max_pending_datagrams_per_session,
            max_bytes: settings.webtransport_max_pending_datagram_bytes,
            max_bytes_per_flow: settings.webtransport_max_pending_datagram_bytes_per_session,
        }
    }

    /// The state of a driver before the handshake.
    pub open spec fn fresh(role: Role, pipe: DriverPipe, settings: Http3Settings) -> CoreState {
        CoreState {
            settings,
            established: false,
            peer_webtransport: None,
            settings_forwarded: false,
            transport: Transport::fresh(role, pipe),
            streams: Seq::empty(),
            body_buf: BodyRecvBuf { room: None },
            events: EventLane::fresh(settings.event_capacity),
            session: if settings.enable_webtransport {
                Some(
                    RuntimeState {
                        max_pending: settings.webtransport_max_pending_streams as nat,
                        max_pending_per_session:
                            settings.webtransport_max_pending_streams_per_session as nat,
                        session: None,
                        retired: None,
                        last_end: None,
                        streams: Seq::empty(),
                        held: Seq::empty(),
                        events: Seq::empty(),
                        actions: Seq::empty(),
                    },
                )
            } else {
                None
            },
            deferred: None,
            queued_request: None,
            flows: Seq::empty(),
            datagrams: DatagramState {
                limits: H3Core::datagram_limits(settings),
                queue: Seq::empty(),
                lost: Seq::empty(),
            },
            raw: PeerLogState { sent: Seq::empty(), announced: Seq::empty() },
            raw_seen: Seq::empty(),
            notices: Seq::empty(),
            local_openings: 0,
            waiting_requests: Seq::empty(),
            flow_frames: Seq::empty(),
            multicast: MulticastState {
                default_channel: None,
                live: Seq::empty(),
                sent: Seq::empty(),
            },
            goaway_sent: false,
            controller_gone: false,
            failed: None,
        }
    }

    /// A driver before the handshake.
    pub fn new(role: Role, pipe: DriverPipe, settings: Http3Settings) -> (core: Self)
        requires
            settings.lanes_fit(),
        ensures
            core@ == H3Core::fresh(role, pipe, settings),
            core.wf(),
    {
        let limits = DatagramLimits {
            max_count: settings.webtransport_max_pending_datagrams,
            max_count_per_flow: settings.webtransport_max_pending_datagrams_per_session,
            max_bytes: settings.webtransport_max_pending_datagram_bytes,
            max_bytes_per_flow: settings.webtransport_max_pending_datagram_bytes_per_session,
        };
        let session = if settings.enable_webtransport {
            Some(
                WebTransportRuntime::new(
                    settings.webtransport_max_pending_streams,
                    settings.webtransport_max_pending_streams_per_session,
                ),
            )
        } else {
            None
        };
        proof {
            reveal(streams_wf);
        }
        H3Core {
            transport: Transport::new(role, pipe),
            events: EventLane::new(settings.event_capacity),
            session,
            settings,
            established: false,
            peer_webtransport: None,
            settings_forwarded: false,
            streams: Table::new(),
            body_buf: BodyRecvBuf::unallocated(),
            deferred: None,
            queued_request: None,
            flows: Table::new(),
            datagrams: DatagramQueue::new(limits),
            raw: PeerLog::new(),
            raw_seen: Table::new(),
            notices: Vec::new(),
            local_openings: 0,
            waiting_requests: Vec::new(),
            flow_frames: Vec::new(),
            multicast: Multicast::new(),
            goaway_sent: false,
            controller_gone: false,
            failed: None,
        }
    }

    /// Offers an event to the application.
    pub fn emit(&mut self, event: DriverEvent)
        requires
            old(self).wf(),
        ensures
            final(self).wf(),
            final(self)@ == old(self)@.told(event@),
    {
        if self.controller_gone || self.failed.is_some() {
            return;
        }
        if let Err(error) = self.events.send(event) {
            self.failed = Some(error);
        }
    }

    /// Writes on a frameless stream, as far as the transport takes it.
    pub fn send_raw(&mut self, stream_id: u64, data: &[u8], fin: bool) -> (result: SendResult)
        requires
            old(self).wf(),
        ensures
            final(self).wf(),
            result == old(self)@.transport.raw_result(stream_id, data@.len() as int, fin),
            final(self)@ == old(self)@.raw_sent(stream_id, data@, fin),
            result matches SendResult::Accepted { count, .. } ==> count <= data@.len(),
            !(result is Accepted) ==> final(self)@ == old(self)@,
    {
        self.transport.send_raw(stream_id, data, fin)
    }

    /// A stream of this end counts against the peer's limit no more.
    pub fn release_stream(&mut self, direction: WebTransportStreamDirection)
        requires
            old(self).wf(),
        ensures
            final(self).wf(),
            final(self)@ == old(self)@.stream_released(direction),
    {
        self.transport.release_stream(direction);
    }

    /// Offers an event of both ends to the application.
    pub fn tell(&mut self, event: H3Event)
        requires
            old(self).wf(),
        ensures
            final(self).wf(),
            final(self)@ == old(self)@.told(event@),
    {
        self.emit(DriverEvent::Core(event));
    }

    /// Whether the driver tracks any stream.
    pub fn has_live_stream(&self) -> (found: bool)
        ensures
            found == any_live(self@.streams),
    {
        let ghost rows = self.streams@;
        let len: usize = self.streams.len();
        let mut i: usize = 0;
        while i < len
            invariant
                i <= len == rows.len(),
                rows == self.streams@,
                forall|k: int| 0 <= k < i ==> !(#[trigger] rows[k]).1.live,
            decreases len - i,
        {
            let (_, stream) = self.streams.at(i);
            if stream.live {
                assert(rows[i as int].1.live);
                return true;
            }
            i += 1;
        }
        false
    }

    /// How many streams the driver tracks.
    pub fn stream_count(&self) -> (count: usize)
        ensures
            count == live_count(self@.streams),
    {
        let ghost rows = self.streams@;
        let len: usize = self.streams.len();
        let mut count: usize = 0;
        let mut i: usize = 0;
        assert(rows.take(0) =~= Seq::empty());
        while i < len
            invariant
                i <= len == rows.len(),
                rows == self.streams@,
                count == live_count(rows.take(i as int)),
                count <= i,
            decreases len - i,
        {
            assert(rows.take(i + 1).drop_last() =~= rows.take(i as int));
            let (_, stream) = self.streams.at(i);
            if stream.live {
                count += 1;
            }
            i += 1;
        }
        assert(rows.take(i as int) =~= rows);
        count
    }

    /// How many streams wait for the application to hand a frame over.
    pub fn waiting_stream_count(&self) -> (count: usize)
        ensures
            count == waiting_streams(self@.streams),
    {
        let ghost rows = self.streams@;
        let len: usize = self.streams.len();
        let mut count: usize = 0;
        let mut i: usize = 0;
        assert(rows.take(0) =~= Seq::empty());
        while i < len
            invariant
                i <= len == rows.len(),
                rows == self.streams@,
                count == waiting_streams(rows.take(i as int)),
                count <= i,
            decreases len - i,
        {
            assert(rows.take(i + 1).drop_last() =~= rows.take(i as int));
            let (_, stream) = self.streams.at(i);
            if stream.live && !stream.send_done && stream.queued.is_none() {
                count += 1;
            }
            i += 1;
        }
        assert(rows.take(i as int) =~= rows);
        count
    }

    fn drop_flows(&mut self, stream_id: u64)
        requires
            old(self).wf(),
        ensures
            final(self).wf(),
            final(self)@ == (CoreState {
                flows: flows_of_others(old(self)@.flows, stream_id),
                ..old(self)@
            }),
    {
        let ghost all = self.flows@;
        let mut rows = self.flows.take_rows();
        let mut kept: Vec<(u64, Flow)> = Vec::new();
        let ghost mut i: int = 0;
        assert(all.take(0) =~= Seq::empty());
        assert(rows@ =~= all.skip(0));
        while rows.len() > 0
            invariant
                0 <= i,
                i + rows@.len() == all.len(),
                rows@ == all.skip(i),
                kept@ == flows_of_others(all.take(i), stream_id),
            decreases rows@.len(),
        {
            let row = rows.remove(0);
            assert(row == all[i]);
            assert(rows@ =~= all.skip(i + 1));
            assert(all.take(i + 1).drop_last() =~= all.take(i));
            assert(all.take(i + 1).last() == row);
            let mine = match row.1.stream_id {
                Some(id) => id == stream_id,
                None => false,
            };
            if !mine {
                kept.push(row);
            }
            proof {
                i = i + 1;
            }
        }
        assert(all.take(i) =~= all);
        self.flows = Table::from_rows(kept);
    }

    /// The driver gave a stream up.
    pub fn close_stream(&mut self, stream_id: u64)
        requires
            old(self).wf(),
        ensures
            final(self).wf(),
            final(self)@ == old(self)@.stream_closed(stream_id),
    {
        self.drop_flows(stream_id);
        if !self.has_live_stream() {
            self.body_buf.release();
            assert(self.body_buf == BodyRecvBuf { room: None });
        }
        self.tell(H3Event::StreamClosed { stream_id });
    }

    /// Does one thing that the session asked for.
    pub fn perform(&mut self, action: StreamAction)
        requires
            old(self).wf(),
        ensures
            final(self).wf(),
            final(self)@ == old(self)@.performed(action),
    {
        proof {
            reveal(CoreState::performed);
        }
        match action {
            StreamAction::Reset { stream_id, error_code } => {
                self.transport.send_reset(stream_id, error_code);
                self.reset_stream(stream_id, error_code);
            },
            StreamAction::Stop { stream_id, error_code } => {
                self.transport.send_stop(stream_id, error_code);
                self.stop_stream(stream_id, error_code);
            },
            StreamAction::Finish { stream_id } => {
                self.transport.send_empty_end(stream_id);
                self.finish_stream(stream_id);
            },
        }
    }

    fn reset_stream(&mut self, stream_id: u64, error_code: u64)
        requires
            old(self).wf(),
        ensures
            final(self).wf(),
            final(self)@ == (match lookup(old(self)@.streams, stream_id) {
                Some(stream) => if stream.send_done {
                    old(self)@
                } else {
                    old(self)@.with_stream(stream_id, stream.with_local_reset(error_code))
                },
                None => old(self)@,
            }),
    {
        proof {
            reveal(CoreState::with_stream);
        }
        let ghost before = self.streams@;
        proof {
            lemma_lookup_wf(before, stream_id);
        }
        let (was_live, is_live) = match self.streams.get_mut(stream_id) {
            Some(stream) => {
                let was_live = stream.live;
                if !stream.send_done {
                    stream.shutdown_write(error_code);
                }
                (was_live, stream.live)
            },
            None => {
                return;
            },
        };
        proof {
            lemma_put_wf(before, stream_id, lookup(self.streams@, stream_id));
            lemma_put_same(before, stream_id);
        }
        if was_live && !is_live {
            self.close_stream(stream_id);
        }
    }

    fn stop_stream(&mut self, stream_id: u64, error_code: u64)
        requires
            old(self).wf(),
        ensures
            final(self).wf(),
            final(self)@ == (match lookup(old(self)@.streams, stream_id) {
                Some(stream) => if stream.recv_done {
                    old(self)@
                } else {
                    old(self)@.with_stream(stream_id, stream.with_local_stop(error_code))
                },
                None => CoreState {
                    raw: PeerLogState {
                        sent: without_raw(old(self)@.raw.sent, stream_id),
                        ..old(self)@.raw
                    },
                    ..old(self)@
                },
            }),
    {
        proof {
            reveal(CoreState::with_stream);
        }
        let ghost before = self.streams@;
        proof {
            lemma_lookup_wf(before, stream_id);
        }
        let (was_live, is_live) = match self.streams.get_mut(stream_id) {
            Some(stream) => {
                let was_live = stream.live;
                if !stream.recv_done {
                    stream.shutdown_read(error_code);
                }
                (was_live, stream.live)
            },
            None => {
                self.raw.take_raw(stream_id);
                return;
            },
        };
        proof {
            lemma_put_wf(before, stream_id, lookup(self.streams@, stream_id));
            lemma_put_same(before, stream_id);
        }
        if was_live && !is_live {
            self.close_stream(stream_id);
        }
    }

    fn finish_stream(&mut self, stream_id: u64)
        requires
            old(self).wf(),
        ensures
            final(self).wf(),
            final(self)@ == (match lookup(old(self)@.streams, stream_id) {
                Some(stream) => if stream.send_done {
                    old(self)@
                } else {
                    old(self)@.with_stream(stream_id, stream.after_frame(true))
                },
                None => old(self)@,
            }),
    {
        proof {
            reveal(CoreState::with_stream);
        }
        let ghost before = self.streams@;
        proof {
            lemma_lookup_wf(before, stream_id);
        }
        let (was_live, is_live) = match self.streams.get_mut(stream_id) {
            Some(stream) => {
                let was_live = stream.live;
                if !stream.send_done {
                    stream.finish();
                }
                (was_live, stream.live)
            },
            None => {
                return;
            },
        };
        proof {
            lemma_put_wf(before, stream_id, lookup(self.streams@, stream_id));
            lemma_put_same(before, stream_id);
        }
        if was_live && !is_live {
            self.close_stream(stream_id);
        }
    }

    /// Does what the session asked for and says what it has to say.
    pub fn flush(&mut self)
        requires
            old(self).wf(),
        ensures
            final(self).wf(),
            final(self)@ == old(self)@.flushed(),
    {
        proof {
            reveal(CoreState::flushed);
        }
        let (actions, events) = match &mut self.session {
            Some(runtime) => (runtime.take_actions(), runtime.take_events()),
            None => {
                return;
            },
        };
        self.tell_all(events);
        let ghost start = self@;
        let mut i: usize = 0;
        assert(actions@.take(0) =~= Seq::<StreamAction>::empty());
        while i < actions.len()
            invariant
                i <= actions@.len(),
                self.wf(),
                self@ == start.performed_all(actions@.take(i as int)),
            decreases actions@.len() - i,
        {
            assert(actions@.take(i + 1).drop_last() =~= actions@.take(i as int));
            self.perform(actions[i]);
            i += 1;
        }
        assert(actions@.take(i as int) =~= actions@);
    }

    fn tell_all(&mut self, events: Vec<WebTransportSessionEvent>)
        requires
            old(self).wf(),
        ensures
            final(self).wf(),
            final(self)@ == old(self)@.told_all(event_values(events@)),
    {
        let ghost start = self@;
        let ghost list = events@;
        let ghost all = event_values(list);
        let mut rest = events;
        let ghost mut i: int = 0;
        assert(all.take(0) =~= Seq::<SessionEvent>::empty());
        assert(rest@ =~= list.skip(0));
        while rest.len() > 0
            invariant
                0 <= i,
                i + rest@.len() == list.len(),
                rest@ == list.skip(i),
                all == event_values(list),
                self.wf(),
                self@ == start.told_all(all.take(i)),
            decreases rest@.len(),
        {
            let event = rest.remove(0);
            assert(event == list[i]);
            assert(rest@ =~= list.skip(i + 1));
            assert(all.take(i + 1).drop_last() =~= all.take(i));
            assert(all.take(i + 1).last() == event@);
            self.tell(H3Event::WebTransportSession(event));
            proof {
                i = i + 1;
            }
        }
        assert(all.take(i) =~= all);
    }
}

/// A stream of a consistent table is consistent.
pub proof fn lemma_lookup_wf(rows: Seq<(u64, RequestStream)>, stream_id: u64)
    requires
        streams_wf(rows),
    ensures
        lookup(rows, stream_id) matches Some(stream) ==> stream.wf(),
{
    reveal(streams_wf);
    crate::table::lemma_position(rows, stream_id);
}

/// A table stays consistent when a consistent stream is written.
pub proof fn lemma_put_wf(
    rows: Seq<(u64, RequestStream)>,
    stream_id: u64,
    stream: Option<RequestStream>,
)
    requires
        streams_wf(rows),
    ensures
        stream matches Some(s) ==> (s.wf() ==> streams_wf(put(rows, stream_id, s))),
        forall|s: RequestStream| s.wf() ==> streams_wf(#[trigger] put(rows, stream_id, s)),
{
    reveal(streams_wf);
    crate::table::lemma_position(rows, stream_id);
    assert forall|s: RequestStream| s.wf() implies streams_wf(
        #[trigger] put(rows, stream_id, s),
    ) by {
        let new = put(rows, stream_id, s);
        assert forall|i: int| 0 <= i < new.len() implies (#[trigger] new[i]).1.wf() by {
            if i < rows.len() {
                assert(rows[i].1.wf());
            }
        }
    }
}

/// Writing what is there changes nothing.
pub proof fn lemma_put_same<V>(rows: Seq<(u64, V)>, stream_id: u64)
    ensures
        lookup(rows, stream_id) matches Some(stream) ==> put(rows, stream_id, stream) == rows,
{
    crate::table::lemma_position(rows, stream_id);
    if let Some(stream) = lookup(rows, stream_id) {
        assert(put(rows, stream_id, stream) =~= rows);
    }
}

} // verus!
