//! The beginning, the turns and the end of a driver.

use vstd::prelude::*;

use crate::conn_close::{
    CloseMetrics, ConnectionError, H3ConnectionError, H3_EXCESSIVE_LOAD, H3_NO_ERROR,
};
use crate::driver::commands::{DriverState, H3Driver};
use crate::driver::desk::{DeskState, Serving};
use crate::driver::events::{H3Event, Told};
use crate::driver::state::{any_live, streams_wf, CoreState, H3Core};
use crate::driver::writes::keys;
use crate::lane::LaneState;
use crate::peer_log::{PeerLog, PeerLogState};
use crate::table::Table;
use crate::transport::TransportState;
use crate::wt::datagrams::DatagramState;
use crate::wt::retention::TerminalClaim;
use crate::wt::snapshot::SnapshotEnd;

verus! {

impl TransportState {
    /// The state after this end closed the connection. The first close counts.
    pub open spec fn closed(self, is_app: bool, error_code: u64) -> TransportState {
        if self.local_error is None {
            TransportState {
                local_error: Some(ConnectionError { is_app, error_code }),
                ..self
            }
        } else {
            self
        }
    }
}

impl CoreState {
    /// The state after the peer's settings arrived.
    pub open spec fn settings_arrived(self, offers_webtransport: bool) -> CoreState {
        if self.established && self.peer_webtransport is None {
            CoreState { peer_webtransport: Some(offers_webtransport), ..self }
        } else {
            self
        }
    }

    /// The state after each of a list of streams was looked after: one that was
    /// given up is cancelled, and the end of a body is delivered.
    pub open spec fn tended(self, ids: Seq<u64>) -> CoreState
        decreases ids.len(),
    {
        if ids.len() == 0 {
            self
        } else {
            self.tended(ids.drop_last()).abandonment_handled(ids.last()).end_offered(ids.last())
        }
    }

    /// The state after the driver looked for whether anybody still needs the
    /// connection.
    #[verifier::opaque]
    pub open spec fn closed_if_unused(self) -> CoreState {
        if self.controller_gone && !any_live(self.streams) && self.flows.len() == 0 {
            CoreState { transport: self.transport.closed(true, H3_NO_ERROR), ..self }
        } else {
            self
        }
    }

    /// The state after the driver looked for work between two turns. A driver
    /// that has failed does no more.
    #[verifier::opaque]
    pub open spec fn waited(self) -> CoreState {
        if self.failed is Some {
            self
        } else {
            let aware = CoreState {
                controller_gone: self.controller_gone || !self.events.lane.open,
                ..self
            };
            let ready = aware.read().flows_pumped();
            ready.tended(keys(ready.streams)).closed_if_unused()
        }
    }

    /// The state after the connection ended.
    #[verifier::opaque]
    pub open spec fn connection_ended(self, result: Result<(), H3ConnectionError>) -> CoreState {
        let closed = CoreState {
            transport: if result == Err::<(), _>(H3ConnectionError::EventQueueOverloaded) {
                self.transport.closed(true, H3_EXCESSIVE_LOAD)
            } else {
                self.transport
            },
            session: match self.session {
                Some(s) => Some(s.disconnected()),
                None => None,
            },
            ..self
        };
        let ended = closed.flushed().emptied();
        if result == Err::<(), _>(H3ConnectionError::TransportFailed) {
            ended.told(Told::ConnectionError)
        } else {
            ended
        }
    }

    /// The state without streams, flows and what waits for them.
    pub open spec fn emptied(self) -> CoreState {
        CoreState {
            streams: Seq::empty(),
            flows: Seq::empty(),
            datagrams: DatagramState { queue: Seq::empty(), lost: Seq::empty(), ..self.datagrams },
            raw: PeerLogState { sent: Seq::empty(), announced: Seq::empty() },
            raw_seen: Seq::empty(),
            flow_frames: Seq::empty(),
            waiting_requests: Seq::empty(),
            deferred: None,
            queued_request: None,
            ..self
        }
    }

    /// What a turn reports.
    pub open spec fn verdict(self) -> Result<(), H3ConnectionError> {
        match self.failed {
            Some(error) => Err(error),
            None => Ok(()),
        }
    }
}

impl H3Core {
    /// The handshake is complete; the peer's settings may still be missing.
    pub fn on_conn_established(&mut self)
        requires
            old(self).wf(),
        ensures
            final(self).wf(),
            final(self)@ == (CoreState { established: true, ..old(self)@ }),
    {
        self.established = true;
    }

    /// The peer's settings arrived.
    pub fn on_settings(&mut self, offers_webtransport: bool)
        requires
            old(self).wf(),
        ensures
            final(self).wf(),
            final(self)@ == old(self)@.settings_arrived(offers_webtransport),
    {
        if self.established && self.peer_webtransport.is_none() {
            self.peer_webtransport = Some(offers_webtransport);
        }
    }

    fn tend_streams(&mut self)
        requires
            old(self).wf(),
        ensures
            final(self).wf(),
            final(self)@ == old(self)@.tended(keys(old(self)@.streams)),
    {
        let ids = crate::driver::writes::key_list(&self.streams);
        let ghost start = self@;
        let mut i: usize = 0;
        assert(ids@.take(0) =~= Seq::<u64>::empty());
        while i < ids.len()
            invariant
                i <= ids@.len(),
                self.wf(),
                self@ == start.tended(ids@.take(i as int)),
            decreases ids@.len() - i,
        {
            assert(ids@.take(i + 1).drop_last() =~= ids@.take(i as int));
            self.handle_abandonment(ids[i]);
            self.offer_end(ids[i]);
            i += 1;
        }
        assert(ids@.take(i as int) =~= ids@);
    }

    fn close_if_unused(&mut self)
        requires
            old(self).wf(),
        ensures
            final(self).wf(),
            final(self)@ == old(self)@.closed_if_unused(),
    {
        proof {
            reveal(CoreState::closed_if_unused);
        }
        if self.controller_gone && !self.has_live_stream() && self.flows.len() == 0 {
            self.transport.close(true, H3_NO_ERROR);
        }
    }

    /// Looks for work between two turns. Once the application has gone and
    /// nothing is left to do for it, the connection is closed.
    pub fn wait_for_data(&mut self) -> (result: Result<(), H3ConnectionError>)
        requires
            old(self).wf(),
        ensures
            final(self).wf(),
            final(self)@ == old(self)@.waited(),
            result == old(self)@.waited().verdict(),
    {
        proof {
            reveal(CoreState::waited);
        }
        if let Some(error) = self.failed {
            return Err(error);
        }
        if self.events.is_closed() {
            self.controller_gone = true;
        }
        let _ = self.process_reads();
        self.pump_flows();
        self.tend_streams();
        self.close_if_unused();
        match self.failed {
            Some(error) => Err(error),
            None => Ok(()),
        }
    }

    fn empty(&mut self)
        requires
            old(self).wf(),
        ensures
            final(self).wf(),
            final(self)@ == old(self)@.emptied(),
    {
        proof {
            reveal(streams_wf);
        }
        self.streams = Table::new();
        self.flows = Table::new();
        self.datagrams.clear();
        self.raw = PeerLog::new();
        self.raw_seen = Table::new();
        self.flow_frames = Vec::new();
        self.waiting_requests = Vec::new();
        self.deferred = None;
        self.queued_request = None;
    }

    /// Closes the connection if the application did not keep up, and ends the session.
    fn disconnect(&mut self, overloaded: bool)
        requires
            old(self).wf(),
        ensures
            final(self).wf(),
            final(self)@ == (CoreState {
                transport: if overloaded {
                    old(self)@.transport.closed(true, H3_EXCESSIVE_LOAD)
                } else {
                    old(self)@.transport
                },
                session: match old(self)@.session {
                    Some(s) => Some(s.disconnected()),
                    None => None,
                },
                ..old(self)@
            }),
    {
        if overloaded {
            self.transport.close(true, H3_EXCESSIVE_LOAD);
        }
        if let Some(runtime) = &mut self.session {
            runtime.disconnect();
        }
    }

    /// The connection ended, with `result` as what the driver's turns came to.
    pub fn on_conn_close(
        &mut self,
        metrics: &mut CloseMetrics,
        result: Result<(), H3ConnectionError>,
    )
        requires
            old(self).wf(),
        ensures
            final(self).wf(),
            final(self)@ == old(self)@.connection_ended(result),
            *final(metrics) == old(metrics).recorded(
                result is Err,
                old(self)@.transport.local_error,
                old(self)@.transport.peer_error,
            ),
    {
        proof {
            reveal(CoreState::connection_ended);
        }
        metrics.record(
            result.is_err(),
            self.transport.local_error(),
            self.transport.peer_error(),
        );
        let (overloaded, failed) = match result {
            Err(error) => (
                error == H3ConnectionError::EventQueueOverloaded,
                error == H3ConnectionError::TransportFailed,
            ),
            Ok(_) => (false, false),
        };
        self.disconnect(overloaded);
        self.flush();
        self.empty();
        if failed {
            self.tell(H3Event::ConnectionError);
        }
    }
}

impl DriverState {
    /// The state with another value of the core.
    pub open spec fn with_core(self, core: CoreState) -> DriverState {
        DriverState { core, ..self }
    }

    /// The state after the requests about sessions had their share of a turn.
    #[verifier::opaque]
    pub open spec fn served(self) -> DriverState {
        let list = self.requests.items;
        let served = self.with_serving(self.serving().served(list, self.requests.capacity));
        DriverState {
            requests: LaneState {
                items: list.skip(self.serving().turn_begun().share(list.len()) as int),
                ..self.requests
            },
            ..served
        }
    }

    /// The state after one turn: what arrived is read, then the commands are
    /// carried out, then what waits is written, then the requests about sessions
    /// have their share. A turn ends where it fails.
    #[verifier::opaque]
    pub open spec fn turned(self) -> DriverState {
        let read = self.with_core(self.core.read());
        if read.core.failed is Some {
            read
        } else {
            let commanded = read.commands_processed();
            commanded.with_core(commanded.core.written()).served()
        }
    }

    /// The state after the connection ended.
    #[verifier::opaque]
    pub open spec fn connection_ended(self, result: Result<(), H3ConnectionError>) -> DriverState {
        self.with_core(self.core.connection_ended(result)).requests_ended(
            SnapshotEnd::ConnectionClosed,
        )
    }

    /// The state after every request was answered because there will be no more
    /// turns.
    #[verifier::opaque]
    pub open spec fn requests_ended(self, end: SnapshotEnd) -> DriverState {
        let closed = self.serving().all_closed(self.requests.items);
        DriverState {
            commands: LaneState { open: false, ..self.commands },
            requests: LaneState { items: Seq::empty(), open: false, ..self.requests },
            ..self.with_serving(
                Serving {
                    desk: DeskState { snapshot: closed.desk.snapshot.after(end), ..closed.desk },
                    ..closed
                },
            )
        }
    }
}

impl H3Driver {
    /// One turn of the driver.
    pub fn work_loop_iter(&mut self) -> (result: Result<(), H3ConnectionError>)
        requires
            old(self).wf(),
        ensures
            final(self).wf(),
            final(self)@ == old(self)@.turned(),
            result == old(self)@.turned().core.verdict(),
    {
        proof {
            reveal(DriverState::turned);
            reveal(DriverState::served);
        }
        self.core.process_reads()?;
        let _ = self.process_commands();
        let _ = self.core.process_writes();
        self.desk.serve(&mut self.core, &mut self.requests);
        match self.core.failed {
            Some(error) => Err(error),
            None => Ok(()),
        }
    }

    /// The connection ended, with `result` as what the driver's turns came to.
    pub fn on_conn_close(
        &mut self,
        metrics: &mut CloseMetrics,
        result: Result<(), H3ConnectionError>,
    )
        requires
            old(self).wf(),
        ensures
            final(self).wf(),
            final(self)@ == old(self)@.connection_ended(result),
            *final(metrics) == old(metrics).recorded(
                result is Err,
                old(self)@.core.transport.local_error,
                old(self)@.core.transport.peer_error,
            ),
    {
        proof {
            reveal(DriverState::connection_ended);
        }
        self.core.on_conn_close(metrics, result);
        self.end_requests(SnapshotEnd::ConnectionClosed);
    }

    fn end_requests(&mut self, end: SnapshotEnd)
        requires
            old(self).wf(),
        ensures
            final(self).wf(),
            final(self)@ == old(self)@.requests_ended(end),
    {
        proof {
            reveal(DriverState::requests_ended);
        }
        self.commands.close();
        self.desk.close_all(&mut self.core, &mut self.requests);
        self.desk.snapshot.end(end);
    }

    /// The driver goes away without having seen the end of the connection: every
    /// request is answered.
    pub fn go_away(&mut self)
        requires
            old(self).wf(),
        ensures
            final(self).wf(),
            final(self)@ == old(self)@.requests_ended(SnapshotEnd::DriverGone),
    {
        self.end_requests(SnapshotEnd::DriverGone);
    }

    /// The owner of the connection is gone.
    pub fn drop_connection_owner(&mut self)
        requires
            old(self).wf(),
        ensures
            final(self).wf(),
            final(self)@ == (DriverState {
                desk: DeskState {
                    terminal: TerminalClaim { owner_dropped: true, ..old(self)@.desk.terminal },
                    ..old(self)@.desk
                },
                ..old(self)@
            }),
    {
        self.desk.terminal.owner_dropped = true;
    }
}

} // verus!
