//! What the driver writes of what the application and the session hand to it.

use vstd::prelude::*;

use crate::conn_close::{H3ConnectionError, H3_REQUEST_CANCELLED};
use crate::driver::state::{lemma_lookup_wf, lemma_put_wf, CoreState, H3Core};
use crate::peer_log::Sent;
use crate::request_stream::{RequestStream, WriteStep, DATA_FRAME_OVERHEAD};
use crate::table::{lookup, Table};
use crate::transport::TransportState;

verus! {

/// The keys of a table, in order.
pub open spec fn keys<V>(rows: Seq<(u64, V)>) -> Seq<u64> {
    Seq::new(rows.len(), |i: int| rows[i].0)
}

impl CoreState {
    /// The state after the session learned that this end's direction of its
    /// CONNECT stream is over.
    pub open spec fn session_send_over(self) -> CoreState {
        match self.session {
            Some(s) => self.with_session(s.locally_ended()).flushed(),
            None => self,
        }
    }

    /// The state after the driver looked for a stream that the application gave
    /// up before its end: the peer is told that it is cancelled.
    #[verifier::opaque]
    pub open spec fn abandonment_handled(self, stream_id: u64) -> CoreState {
        match lookup(self.streams, stream_id) {
            Some(stream) => if stream.is_abandoned() {
                let reset = self.sending(
                    Sent::Reset { stream_id, error_code: H3_REQUEST_CANCELLED },
                ).with_stream(stream_id, stream.with_local_reset(H3_REQUEST_CANCELLED));
                if stream.session {
                    reset.session_send_over()
                } else {
                    reset
                }
            } else {
                self
            },
            None => self,
        }
    }

    /// The state after the end of a body was offered to the application again.
    #[verifier::opaque]
    pub open spec fn end_offered(self, stream_id: u64) -> CoreState {
        match lookup(self.streams, stream_id) {
            Some(stream) => if stream.live && stream.fin_undelivered {
                self.with_stream(stream_id, stream.upstream_ready())
            } else {
                self
            },
            None => self,
        }
    }

    /// The state after a write found that the peer refuses a stream.
    #[verifier::opaque]
    pub open spec fn stop_found(self, stream_id: u64, error_code: u64) -> CoreState {
        match lookup(self.streams, stream_id) {
            Some(stream) => {
                let stopped = self.with_stream(stream_id, stream.with_stop(error_code));
                if stream.session {
                    match stopped.session {
                        Some(s) => stopped.with_session(s.stopped(error_code)).flushed(),
                        None => stopped,
                    }
                } else {
                    stopped
                }
            },
            None => self,
        }
    }

    /// The state after a frame was written as far as the credit goes, before the
    /// session has learned of it.
    #[verifier::opaque]
    pub open spec fn frame_written(self, stream_id: u64) -> CoreState {
        match lookup(self.streams, stream_id) {
            Some(stream) => {
                let result = stream.write_result(
                    stream_id,
                    self.transport.credit_of(stream_id),
                    self.transport.log,
                );
                (CoreState {
                    transport: TransportState { log: result.log, ..self.transport }.spent(
                        stream_id,
                        result.cost,
                    ),
                    ..self
                }).with_stream(stream_id, result.stream)
            },
            None => self,
        }
    }

    /// What a write on a stream comes to.
    pub open spec fn frame_step(self, stream_id: u64) -> WriteStep {
        match lookup(self.streams, stream_id) {
            Some(stream) => stream.write_result(
                stream_id,
                self.transport.credit_of(stream_id),
                self.transport.log,
            ).step,
            None => WriteStep::Idle,
        }
    }

    /// The state after the session learned what was written on its CONNECT
    /// stream.
    #[verifier::opaque]
    pub open spec fn session_wrote(self, step: WriteStep) -> CoreState {
        match (self.session, step) {
            (Some(s), WriteStep::Headers { status: Some(status) }) => self.with_session(
                s.answered(status).admitted().capsules_read(),
            ).flushed(),
            (Some(_), WriteStep::Finished) => self.session_send_over(),
            _ => self,
        }
    }

    /// The state after the next frame of a stream was written as far as the
    /// credit goes.
    #[verifier::opaque]
    pub open spec fn frame_handled(self, stream_id: u64) -> CoreState {
        match lookup(self.streams, stream_id) {
            Some(stream) => if !stream.live || !stream.has_frame() {
                self
            } else {
                match lookup(self.transport.stops_received, stream_id) {
                    Some(error_code) => self.stop_found(stream_id, error_code),
                    None => if stream.session {
                        self.frame_written(stream_id).session_wrote(self.frame_step(stream_id))
                    } else {
                        self.frame_written(stream_id)
                    },
                }
            },
            None => self,
        }
    }

    /// The state after a stream had its turn of writing.
    pub open spec fn stream_written(self, stream_id: u64) -> CoreState {
        self.abandonment_handled(stream_id).end_offered(stream_id).frame_handled(stream_id)
    }

    /// The state after each of a list of streams had its turn of writing.
    pub open spec fn streams_written(self, ids: Seq<u64>) -> CoreState
        decreases ids.len(),
    {
        if ids.len() == 0 {
            self
        } else {
            self.streams_written(ids.drop_last()).stream_written(ids.last())
        }
    }

    /// The state after `count` of the bytes `rest` of a close capsule were
    /// written. The end of the stream follows the last of them, and then the
    /// session is over.
    #[verifier::opaque]
    pub open spec fn close_sent(self, stream_id: u64, rest: Seq<u8>, count: int) -> CoreState {
        match self.session {
            Some(s) => {
                let sent = (CoreState {
                    transport: self.transport.sending(
                        Sent::Body { stream_id, data: rest.subrange(0, count) },
                    ).spent(stream_id, (count + DATA_FRAME_OVERHEAD) as u64),
                    ..self
                }).with_session(s.close_progressed(count as nat));
                if count < rest.len() {
                    sent
                } else {
                    sent.close_ended(stream_id)
                }
            },
            None => self,
        }
    }

    /// The state after the end of the CONNECT stream was written behind a whole
    /// close capsule.
    #[verifier::opaque]
    pub open spec fn close_ended(self, stream_id: u64) -> CoreState {
        match (lookup(self.streams, stream_id), self.session) {
            (Some(stream), Some(s)) => {
                let ended = self.sending(Sent::Fin { stream_id }).with_session(
                    s.close_committed(),
                ).with_stream(stream_id, stream.after_frame(true));
                ended.flushed()
            },
            _ => self,
        }
    }

    /// The state after the driver went on with closing the session. The close
    /// waits until the application's last frame was written.
    #[verifier::opaque]
    pub open spec fn close_pumped(self) -> CoreState {
        match self.session {
            Some(s) => match s.session {
                Some(session) => match (session.close, lookup(self.streams, session.id)) {
                    (Some(close), Some(stream)) => {
                        let rest = close.capsule.skip(close.written as int);
                        let count = RequestStream::body_part(
                            rest.len() as int,
                            self.transport.credit_of(session.id),
                        );
                        if stream.send_done || stream.has_frame() || close.written
                            > close.capsule.len() {
                            self
                        } else {
                            match lookup(self.transport.stops_received, session.id) {
                                Some(error_code) => self.stop_found(session.id, error_code),
                                None => if count == 0 {
                                    self
                                } else {
                                    self.close_sent(session.id, rest, count)
                                },
                            }
                        }
                    },
                    _ => self,
                },
                None => self,
            },
            None => self,
        }
    }

    /// The state after one turn of writing.
    pub open spec fn written(self) -> CoreState {
        let flowing = self.flows_pumped();
        flowing.streams_written(keys(flowing.streams)).close_pumped()
    }
}

/// The keys of a table, in order.
pub fn key_list<V>(table: &Table<V>) -> (ids: Vec<u64>)
    ensures
        ids@ == keys(table@),
{
    let len: usize = table.len();
    let mut ids: Vec<u64> = Vec::new();
    let mut i: usize = 0;
    while i < len
        invariant
            i <= len == table@.len(),
            ids@.len() == i,
            forall|k: int| 0 <= k < i ==> #[trigger] ids@[k] == table@[k].0,
        decreases len - i,
    {
        let (id, _) = table.at(i);
        ids.push(id);
        i += 1;
    }
    assert(ids@ =~= keys(table@));
    ids
}

impl H3Core {
    fn cancel_sending(&mut self, stream_id: u64, error_code: u64)
        requires
            old(self).wf(),
            lookup(old(self)@.streams, stream_id) is Some,
        ensures
            final(self).wf(),
            final(self)@ == old(self)@.sending(
                Sent::Reset { stream_id, error_code },
            ).with_stream(
                stream_id,
                lookup(old(self)@.streams, stream_id)->Some_0.with_local_reset(error_code),
            ),
    {
        proof {
            reveal(CoreState::with_stream);
        }
        self.transport.send_reset(stream_id, error_code);
        let ghost before = self.streams@;
        proof {
            lemma_lookup_wf(before, stream_id);
        }
        let (was_live, is_live) = match self.streams.get_mut(stream_id) {
            Some(stream) => {
                let was_live = stream.live;
                stream.shutdown_write(error_code);
                (was_live, stream.live)
            },
            None => (false, false),
        };
        proof {
            lemma_put_wf(before, stream_id, None);
        }
        if was_live && !is_live {
            self.close_stream(stream_id);
        }
    }

    /// Tells the session that this end's direction of its CONNECT stream is over.
    pub fn end_session_sending(&mut self)
        requires
            old(self).wf(),
        ensures
            final(self).wf(),
            final(self)@ == old(self)@.session_send_over(),
    {
        match &mut self.session {
            Some(runtime) => {
                runtime.send_fin();
            },
            None => {
                return;
            },
        }
        self.flush();
    }

    /// Cancels a stream that the application gave up before its end.
    pub fn handle_abandonment(&mut self, stream_id: u64)
        requires
            old(self).wf(),
        ensures
            final(self).wf(),
            final(self)@ == old(self)@.abandonment_handled(stream_id),
    {
        proof {
            reveal(CoreState::abandonment_handled);
        }
        let (abandoned, session) = match self.streams.get(stream_id) {
            Some(stream) => (stream.abandoned(), stream.session),
            None => (false, false),
        };
        if !abandoned {
            return;
        }
        self.cancel_sending(stream_id, H3_REQUEST_CANCELLED);
        if session {
            self.end_session_sending();
        }
    }

    /// Offers the end of a body to the application again.
    pub fn offer_end(&mut self, stream_id: u64)
        requires
            old(self).wf(),
        ensures
            final(self).wf(),
            final(self)@ == old(self)@.end_offered(stream_id),
    {
        proof {
            reveal(CoreState::end_offered);
            reveal(CoreState::with_stream);
        }
        let ghost before = self.streams@;
        proof {
            lemma_lookup_wf(before, stream_id);
        }
        let waits = match self.streams.get(stream_id) {
            Some(stream) => stream.live && stream.fin_undelivered,
            None => false,
        };
        if !waits {
            return;
        }
        let is_live = match self.streams.get_mut(stream_id) {
            Some(stream) => {
                stream.on_upstream_ready();
                stream.live
            },
            None => true,
        };
        proof {
            lemma_put_wf(before, stream_id, None);
        }
        if !is_live {
            self.close_stream(stream_id);
        }
    }

    fn store_stop(&mut self, stream_id: u64, error_code: u64)
        requires
            old(self).wf(),
            lookup(old(self)@.streams, stream_id) is Some,
        ensures
            final(self).wf(),
            final(self)@ == old(self)@.with_stream(
                stream_id,
                lookup(old(self)@.streams, stream_id)->Some_0.with_stop(error_code),
            ),
    {
        proof {
            reveal(CoreState::with_stream);
        }
        let ghost before = self.streams@;
        proof {
            lemma_lookup_wf(before, stream_id);
        }
        let (was_live, is_live) = match self.streams.get_mut(stream_id) {
            Some(stream) => {
                let was_live = stream.live;
                stream.on_stopped(error_code);
                (was_live, stream.live)
            },
            None => (false, false),
        };
        proof {
            lemma_put_wf(before, stream_id, None);
        }
        if was_live && !is_live {
            self.close_stream(stream_id);
        }
    }

    fn find_stop(&mut self, stream_id: u64, error_code: u64)
        requires
            old(self).wf(),
        ensures
            final(self).wf(),
            final(self)@ == old(self)@.stop_found(stream_id, error_code),
    {
        proof {
            reveal(CoreState::stop_found);
        }
        let session = match self.streams.get(stream_id) {
            Some(stream) => stream.session,
            None => {
                return;
            },
        };
        self.store_stop(stream_id, error_code);
        if session {
            match &mut self.session {
                Some(runtime) => {
                    runtime.receive_stop(error_code);
                },
                None => {
                    return;
                },
            }
            self.flush();
        }
    }

    fn write_frame(&mut self, stream_id: u64) -> (step: WriteStep)
        requires
            old(self).wf(),
        ensures
            final(self).wf(),
            final(self)@ == old(self)@.frame_written(stream_id),
            step == old(self)@.frame_step(stream_id),
    {
        proof {
            reveal(CoreState::frame_written);
            reveal(CoreState::with_stream);
        }
        let ghost before = self.streams@;
        proof {
            lemma_lookup_wf(before, stream_id);
        }
        let credit: u64 = self.transport.credit(stream_id);
        let (was_live, is_live, step, cost) = match self.streams.get_mut(stream_id) {
            Some(stream) => {
                let was_live = stream.live;
                let (step, cost) = stream.write_step(stream_id, credit, self.transport.log_mut());
                (was_live, stream.live, step, cost)
            },
            None => {
                return WriteStep::Idle;
            },
        };
        proof {
            lemma_put_wf(before, stream_id, None);
        }
        self.transport.spend(stream_id, cost);
        if was_live && !is_live {
            self.close_stream(stream_id);
        }
        step
    }

    fn note_session_write(&mut self, step: WriteStep)
        requires
            old(self).wf(),
        ensures
            final(self).wf(),
            final(self)@ == old(self)@.session_wrote(step),
    {
        proof {
            reveal(CoreState::session_wrote);
        }
        match step {
            WriteStep::Headers { status: Some(status) } => {
                match &mut self.session {
                    Some(runtime) => {
                        runtime.respond(status);
                        runtime.admit_streams();
                        runtime.read_capsules();
                    },
                    None => {
                        return;
                    },
                }
                self.flush();
            },
            WriteStep::Finished => {
                self.end_session_sending();
            },
            _ => {},
        }
    }

    fn handle_frame(&mut self, stream_id: u64)
        requires
            old(self).wf(),
        ensures
            final(self).wf(),
            final(self)@ == old(self)@.frame_handled(stream_id),
    {
        proof {
            reveal(CoreState::frame_handled);
        }
        let (live, session, wants) = match self.streams.get(stream_id) {
            Some(stream) => (stream.live, stream.session, stream.wants_write()),
            None => {
                return;
            },
        };
        if !live || !wants {
            return;
        }
        if let Some(error_code) = self.transport.stop_received(stream_id) {
            self.find_stop(stream_id, error_code);
            return;
        }
        let step = self.write_frame(stream_id);
        if session {
            self.note_session_write(step);
        }
    }

    fn write_stream(&mut self, stream_id: u64)
        requires
            old(self).wf(),
        ensures
            final(self).wf(),
            final(self)@ == old(self)@.stream_written(stream_id),
    {
        self.handle_abandonment(stream_id);
        self.offer_end(stream_id);
        self.handle_frame(stream_id);
    }

    fn end_close(&mut self, stream_id: u64)
        requires
            old(self).wf(),
        ensures
            final(self).wf(),
            final(self)@ == old(self)@.close_ended(stream_id),
    {
        proof {
            reveal(CoreState::close_ended);
        }
        if !self.streams.contains(stream_id) || self.session.is_none() {
            return;
        }
        self.transport.log_mut().fin(stream_id);
        if let Some(runtime) = &mut self.session {
            runtime.commit_close();
        }
        self.store_end(stream_id);
        self.flush();
    }

    fn store_end(&mut self, stream_id: u64)
        requires
            old(self).wf(),
            lookup(old(self)@.streams, stream_id) is Some,
        ensures
            final(self).wf(),
            final(self)@ == old(self)@.with_stream(
                stream_id,
                lookup(old(self)@.streams, stream_id)->Some_0.after_frame(true),
            ),
    {
        proof {
            reveal(CoreState::with_stream);
        }
        let ghost before = self.streams@;
        proof {
            lemma_lookup_wf(before, stream_id);
        }
        let (was_live, is_live) = match self.streams.get_mut(stream_id) {
            Some(stream) => {
                let was_live = stream.live;
                stream.finish();
                (was_live, stream.live)
            },
            None => (false, false),
        };
        proof {
            lemma_put_wf(before, stream_id, None);
        }
        if was_live && !is_live {
            self.close_stream(stream_id);
        }
    }

    fn send_close(&mut self, stream_id: u64, rest: &Vec<u8>, count: usize)
        requires
            old(self).wf(),
            0 < count <= rest@.len(),
            count + DATA_FRAME_OVERHEAD <= old(self)@.transport.credit_of(stream_id),
            old(self)@.session matches Some(s) && s.session matches Some(session)
                && session.close matches Some(close) && close.written + rest@.len()
                <= close.capsule.len(),
        ensures
            final(self).wf(),
            final(self)@ == old(self)@.close_sent(stream_id, rest@, count as int),
    {
        proof {
            reveal(CoreState::close_sent);
        }
        self.transport.log_mut().body(stream_id, rest, 0, count);
        self.transport.spend(stream_id, count as u64 + DATA_FRAME_OVERHEAD);
        if let Some(runtime) = &mut self.session {
            runtime.close_written(count);
        }
        if count == rest.len() {
            self.end_close(stream_id);
        }
    }

    /// Goes on with closing the session.
    pub fn pump_close(&mut self)
        requires
            old(self).wf(),
        ensures
            final(self).wf(),
            final(self)@ == old(self)@.close_pumped(),
    {
        proof {
            reveal(CoreState::close_pumped);
        }
        let (stream_id, rest) = match &self.session {
            Some(runtime) => match runtime.close_remainder() {
                Some(remainder) => remainder,
                None => {
                    return;
                },
            },
            None => {
                return;
            },
        };
        match self.streams.get(stream_id) {
            Some(stream) => if stream.send_done || stream.wants_write() {
                return;
            },
            None => {
                return;
            },
        }
        if let Some(error_code) = self.transport.stop_received(stream_id) {
            self.find_stop(stream_id, error_code);
            return;
        }
        let credit: u64 = self.transport.credit(stream_id);
        let left: usize = rest.len();
        let count: usize = if credit <= DATA_FRAME_OVERHEAD {
            0
        } else if left as u64 <= credit - DATA_FRAME_OVERHEAD {
            left
        } else {
            (credit - DATA_FRAME_OVERHEAD) as usize
        };
        assert(count == RequestStream::body_part(left as int, credit));
        if count > 0 {
            self.send_close(stream_id, &rest, count);
        }
    }

    /// Sends what waits for the flows, writes the next frame of each stream as far as
    /// the peer's credit goes, and goes on with closing the session.
    pub fn process_writes(&mut self) -> (result: Result<(), H3ConnectionError>)
        requires
            old(self).wf(),
        ensures
            final(self).wf(),
            final(self)@ == old(self)@.written(),
            result == (match old(self)@.written().failed {
                Some(error) => Err::<(), H3ConnectionError>(error),
                None => Ok(()),
            }),
    {
        self.pump_flows();
        let ids = key_list(&self.streams);
        let ghost start = self@;
        let mut i: usize = 0;
        assert(ids@.take(0) =~= Seq::<u64>::empty());
        while i < ids.len()
            invariant
                i <= ids@.len(),
                self.wf(),
                self@ == start.streams_written(ids@.take(i as int)),
            decreases ids@.len() - i,
        {
            assert(ids@.take(i + 1).drop_last() =~= ids@.take(i as int));
            self.write_stream(ids[i]);
            i += 1;
        }
        assert(ids@.take(i as int) =~= ids@);
        self.pump_close();
        match self.failed {
            Some(error) => Err(error),
            None => Ok(()),
        }
    }
}

} // verus!
