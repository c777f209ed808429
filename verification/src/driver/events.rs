//! What the application learns from the driver, and the lane it learns it on.

use vstd::prelude::*;

use crate::conn_close::{bump, bumped, H3ConnectionError};
use crate::lane::{max_lane_capacity, Lane, LaneError, LaneState};
use crate::wt::types::{SessionEvent, WebTransportSessionEvent};

verus! {

/// What both ends of a connection can learn.
#[derive(Debug)]
pub enum H3Event {
    /// The peer's settings arrived.
    IncomingSettings,
    /// A datagram flow was opened.
    NewFlow { flow_id: u64 },
    /// A response arrived.
    IncomingHeaders { stream_id: u64, read_fin: bool },
    /// Body bytes were read, or the end of a body.
    BodyBytesReceived { stream_id: u64, num_bytes: u64, fin: bool },
    /// The peer reset a stream.
    ResetStream { stream_id: u64 },
    /// The driver gave a stream up.
    StreamClosed { stream_id: u64 },
    /// The peer takes no more requests.
    GoAway { id: u64 },
    /// The connection failed.
    ConnectionError,
    /// Something happened to a session.
    WebTransportSession(WebTransportSessionEvent),
}

/// What the application learns.
#[derive(Debug)]
pub enum DriverEvent {
    Core(H3Event),
    /// A request arrived.
    Headers { stream_id: u64, read_fin: bool },
    /// A request left.
    NewOutboundRequest { stream_id: u64, request_id: u64 },
    /// A request for a session was refused before it left.
    WebTransportRequestRejected { request_id: u64 },
}

/// The value of a [`DriverEvent`].
pub ghost enum Told {
    IncomingSettings,
    NewFlow { flow_id: u64 },
    IncomingHeaders { stream_id: u64, read_fin: bool },
    BodyBytesReceived { stream_id: u64, num_bytes: u64, fin: bool },
    ResetStream { stream_id: u64 },
    StreamClosed { stream_id: u64 },
    GoAway { id: u64 },
    ConnectionError,
    Session(SessionEvent),
    Headers { stream_id: u64, read_fin: bool },
    NewOutboundRequest { stream_id: u64, request_id: u64 },
    WebTransportRequestRejected { request_id: u64 },
}

impl View for H3Event {
    type V = Told;

    open spec fn view(&self) -> Told {
        match self {
            H3Event::IncomingSettings => Told::IncomingSettings,
            H3Event::NewFlow { flow_id } => Told::NewFlow { flow_id: *flow_id },
            H3Event::IncomingHeaders { stream_id, read_fin } => Told::IncomingHeaders {
                stream_id: *stream_id,
                read_fin: *read_fin,
            },
            H3Event::BodyBytesReceived { stream_id, num_bytes, fin } => Told::BodyBytesReceived {
                stream_id: *stream_id,
                num_bytes: *num_bytes,
                fin: *fin,
            },
            H3Event::ResetStream { stream_id } => Told::ResetStream { stream_id: *stream_id },
            H3Event::StreamClosed { stream_id } => Told::StreamClosed { stream_id: *stream_id },
            H3Event::GoAway { id } => Told::GoAway { id: *id },
            H3Event::ConnectionError => Told::ConnectionError,
            H3Event::WebTransportSession(event) => Told::Session(event@),
        }
    }
}

impl View for DriverEvent {
    type V = Told;

    open spec fn view(&self) -> Told {
        match self {
            DriverEvent::Core(event) => event@,
            DriverEvent::Headers { stream_id, read_fin } => Told::Headers {
                stream_id: *stream_id,
                read_fin: *read_fin,
            },
            DriverEvent::NewOutboundRequest { stream_id, request_id } => Told::NewOutboundRequest {
                stream_id: *stream_id,
                request_id: *request_id,
            },
            DriverEvent::WebTransportRequestRejected { request_id } =>
                Told::WebTransportRequestRejected { request_id: *request_id },
        }
    }
}

/// The values of the events that wait in a lane.
pub open spec fn told_values(lane: LaneState<DriverEvent>) -> LaneState<Told> {
    LaneState {
        items: Seq::new(lane.items.len(), |i: int| lane.items[i]@),
        capacity: lane.capacity,
        open: lane.open,
    }
}

/// The state of the event lane.
#[derive(Clone, Copy, Debug, PartialEq, Eq, Structural)]
pub struct H3EventQueueStats {
    pub capacity: usize,
    pub admitted_total: u64,
    pub overload_total: u64,
    pub receiver_closed_total: u64,
    pub overloaded: bool,
}

/// The value of an [`EventLane`].
pub ghost struct EventLaneState {
    pub lane: LaneState<Told>,
    pub stats: H3EventQueueStats,
}

impl EventLaneState {
    /// What stops an event from being sent.
    pub open spec fn refusal(self) -> Option<H3ConnectionError> {
        if !self.lane.open {
            Some(H3ConnectionError::ControllerWentAway)
        } else if !self.lane.admits() {
            Some(H3ConnectionError::EventQueueOverloaded)
        } else {
            None
        }
    }

    /// The lane after an event was offered.
    pub open spec fn offered(self, event: Told) -> EventLaneState {
        match self.refusal() {
            Some(H3ConnectionError::ControllerWentAway) => EventLaneState {
                stats: H3EventQueueStats {
                    receiver_closed_total: bumped(self.stats.receiver_closed_total),
                    ..self.stats
                },
                ..self
            },
            Some(_) => EventLaneState {
                stats: H3EventQueueStats {
                    overload_total: bumped(self.stats.overload_total),
                    overloaded: true,
                    ..self.stats
                },
                ..self
            },
            None => EventLaneState {
                lane: LaneState { items: self.lane.items.push(event), ..self.lane },
                stats: H3EventQueueStats {
                    admitted_total: bumped(self.stats.admitted_total),
                    ..self.stats
                },
            },
        }
    }

    /// The lane after the application took its oldest event.
    pub open spec fn taken(self) -> EventLaneState {
        if self.lane.items.len() == 0 {
            self
        } else {
            EventLaneState {
                lane: LaneState { items: self.lane.items.skip(1), ..self.lane },
                ..self
            }
        }
    }
}

/// The lane on which the application learns of events.
pub struct EventLane {
    lane: Lane<DriverEvent>,
    stats: H3EventQueueStats,
}

impl View for EventLane {
    type V = EventLaneState;

    closed spec fn view(&self) -> EventLaneState {
        EventLaneState { lane: told_values(self.lane@), stats: self.stats }
    }
}

impl EventLane {
    /// The lane can be used.
    pub closed spec fn wf(self) -> bool {
        self.lane.wf()
    }

    /// The value of a lane that was just made.
    pub open spec fn fresh(capacity: usize) -> EventLaneState {
        EventLaneState {
            lane: LaneState::<Told>::fresh(capacity as nat),
            stats: H3EventQueueStats {
                capacity,
                admitted_total: 0,
                overload_total: 0,
                receiver_closed_total: 0,
                overloaded: false,
            },
        }
    }

    /// A lane for `capacity` events.
    pub fn new(capacity: usize) -> (lane: Self)
        requires
            0 < capacity <= max_lane_capacity(),
        ensures
            lane.wf(),
            lane@ == EventLane::fresh(capacity),
    {
        let lane = EventLane {
            lane: Lane::new(capacity),
            stats: H3EventQueueStats {
                capacity,
                admitted_total: 0,
                overload_total: 0,
                receiver_closed_total: 0,
                overloaded: false,
            },
        };
        assert(lane@.lane.items =~= Seq::<Told>::empty());
        lane
    }

    /// The state of the lane.
    pub fn stats(&self) -> (stats: H3EventQueueStats)
        ensures
            stats == self@.stats,
    {
        self.stats
    }

    /// Whether the application takes no more events.
    pub fn is_closed(&self) -> (closed: bool)
        ensures
            closed == !self@.lane.open,
    {
        self.lane.is_closed()
    }

    /// Offers an event to the application.
    pub fn send(&mut self, event: DriverEvent) -> (sent: Result<(), H3ConnectionError>)
        requires
            old(self).wf(),
        ensures
            final(self).wf(),
            final(self)@ == old(self)@.offered(event@),
            sent == (match old(self)@.refusal() {
                Some(error) => Err::<(), H3ConnectionError>(error),
                None => Ok(()),
            }),
    {
        match self.lane.try_send(event) {
            Ok(()) => {
                assert(self@.lane.items =~= old(self)@.lane.items.push(event@));
                self.stats.admitted_total = bump(self.stats.admitted_total);
                Ok(())
            },
            Err(LaneError::Closed(_)) => {
                self.stats.receiver_closed_total = bump(self.stats.receiver_closed_total);
                Err(H3ConnectionError::ControllerWentAway)
            },
            Err(LaneError::Full(_)) => {
                self.stats.overload_total = bump(self.stats.overload_total);
                self.stats.overloaded = true;
                Err(H3ConnectionError::EventQueueOverloaded)
            },
        }
    }

    /// Takes the oldest event.
    pub fn recv(&mut self) -> (event: Option<DriverEvent>)
        requires
            old(self).wf(),
        ensures
            final(self).wf(),
            final(self)@ == old(self)@.taken(),
            match event {
                Some(first) => old(self)@.lane.items.len() > 0 && first@
                    == old(self)@.lane.items[0],
                None => old(self)@.lane.items.len() == 0,
            },
    {
        let event = self.lane.try_recv();
        assert(event is Some ==> self@.lane.items =~= old(self)@.lane.items.skip(1));
        event
    }

    /// The application takes no more events.
    pub fn close(&mut self)
        requires
            old(self).wf(),
        ensures
            final(self).wf(),
            final(self)@ == (EventLaneState {
                lane: LaneState { open: false, ..old(self)@.lane },
                ..old(self)@
            }),
    {
        self.lane.close();
    }
}

/// Overload and a closed receiver are told apart: a full lane that is still
/// read is overloaded, and one that is not read any more never is.
pub proof fn lemma_overload_is_not_a_closed_receiver(lane: EventLaneState, event: Told)
    ensures
        !lane.lane.open ==> lane.offered(event).stats.overload_total == lane.stats.overload_total
            && lane.offered(event).stats.overloaded == lane.stats.overloaded,
        lane.lane.open ==> lane.offered(event).stats.receiver_closed_total
            == lane.stats.receiver_closed_total,
        lane.refusal() is Some ==> lane.offered(event).lane == lane.lane,
{
}

} // verus!
