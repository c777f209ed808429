//! How the two directions of a session's stream came to an end, and what the
//! application has been told of it.

use vstd::prelude::*;

use crate::conn_close::{bump, bumped};
use crate::table::{lookup, put, without, Table};
use crate::wire::error_code::{application_error, http3_error_to_webtransport};
use crate::wt::types::WebTransportSelectionError;
use crate::wt::waiters::{ops_under, without_op, WaitList, WaitState, Waiter};

verus! {

/// How the receiving direction of a stream ended.
#[derive(Clone, Copy, Debug, PartialEq, Eq, Structural)]
pub enum WebTransportStreamReceiveTerminal {
    Fin,
    Reset { wire_error_code: u64, application_error_code: Option<u32> },
}

/// What is known of the ends of a stream.
#[derive(Clone, Copy, Debug, PartialEq, Eq, Structural)]
pub struct StreamEnds {
    /// Whether this end finished or reset its direction.
    pub send_closed: bool,
    /// The code with which the peer refused this end's direction, if it is
    /// remembered.
    pub stopped: Option<u64>,
    /// Whether the peer refused this end's direction and there was no room to
    /// remember it.
    pub stop_lost: bool,
    /// Whether the application wants to hear no more of this end's direction.
    pub send_retired: bool,
    /// How the peer's direction ended.
    pub received: Option<WebTransportStreamReceiveTerminal>,
    /// Whether this end refused the peer's direction.
    pub stop_sent: bool,
    /// Whether the application has been told how the peer's direction ended.
    pub observed: bool,
    /// Whether the application wants to hear no more of the peer's direction.
    pub receive_retired: bool,
}

/// The ends of a stream to which nothing has happened.
pub open spec fn no_ends() -> StreamEnds {
    StreamEnds {
        send_closed: false,
        stopped: None,
        stop_lost: false,
        send_retired: false,
        received: None,
        stop_sent: false,
        observed: false,
        receive_retired: false,
    }
}

/// What a request about the end of a send direction is answered.
#[derive(Clone, Copy, Debug, PartialEq, Eq, Structural)]
pub enum WebTransportStreamSendTerminalOutcome {
    /// The peer refused the direction.
    Stopped { stream_id: u64, wire_error_code: u64, application_error_code: Option<u32> },
    /// This end finished or reset the direction.
    Closed { stream_id: u64 },
    /// The application wants to hear no more of it.
    Retired { session_id: u64, stream_id: u64 },
    /// The session ended first.
    SessionTerminated { session_id: u64, stream_id: u64 },
    /// The connection ended first.
    ConnectionTerminated { session_id: u64, stream_id: u64 },
    /// The request cannot be carried out.
    Rejected(WebTransportSelectionError),
}

/// The answer that the peer's refusal with a given code is reported with.
pub open spec fn stopped_with(stream_id: u64, wire_error_code: u64) ->
    WebTransportStreamSendTerminalOutcome {
    WebTransportStreamSendTerminalOutcome::Stopped {
        stream_id,
        wire_error_code,
        application_error_code: application_error(wire_error_code),
    }
}

/// How many streams have a remembered refusal.
pub open spec fn remembered(rows: Seq<(u64, StreamEnds)>) -> nat
    decreases rows.len(),
{
    if rows.len() == 0 {
        0
    } else {
        remembered(rows.drop_last()) + if rows.last().1.stopped is Some {
            1nat
        } else {
            0nat
        }
    }
}

/// Whether how the peer's direction ended is still of interest.
pub open spec fn end_matters(ends: StreamEnds) -> bool {
    ends.received is Some && !ends.receive_retired
}

/// How many streams of a table have an end of the peer's direction that is still
/// of interest.
pub open spec fn ends_that_matter(rows: Seq<(u64, StreamEnds)>) -> nat
    decreases rows.len(),
{
    if rows.len() == 0 {
        0
    } else {
        ends_that_matter(rows.drop_last()) + if end_matters(rows.last().1) {
            1nat
        } else {
            0nat
        }
    }
}

/// Whether the refusal of some stream could not be remembered.
pub open spec fn overloaded(rows: Seq<(u64, StreamEnds)>) -> bool {
    exists|i: int| 0 <= i < rows.len() && (#[trigger] rows[i]).1.stop_lost
}

/// The value of a [`StreamEndings`].
pub ghost struct EndingsState {
    pub rows: Seq<(u64, StreamEnds)>,
    pub waiters: WaitState,
    /// How many refusals can be remembered.
    pub max_states: nat,
    /// How many refusals could not be remembered.
    pub state_saturation_total: u64,
}

impl EndingsState {
    /// What is known of the ends of a stream.
    pub open spec fn ends(self, stream_id: u64) -> StreamEnds {
        match lookup(self.rows, stream_id) {
            Some(ends) => ends,
            None => no_ends(),
        }
    }

    /// The state with what is known of one stream replaced.
    pub open spec fn with_ends(self, stream_id: u64, ends: StreamEnds) -> EndingsState {
        EndingsState { rows: put(self.rows, stream_id, ends), ..self }
    }

    /// What is known of the end of a send direction, if anything is.
    pub open spec fn send_fact(self, stream_id: u64) -> SendFact {
        let ends = self.ends(stream_id);
        if ends.send_retired {
            SendFact::Retired
        } else if ends.stopped is Some {
            SendFact::Stopped { wire_error_code: ends.stopped->Some_0 }
        } else if ends.send_closed {
            SendFact::Closed
        } else if ends.stop_lost {
            SendFact::Lost
        } else {
            SendFact::Open
        }
    }

    /// The state after the peer refused this end's direction. A retired
    /// direction stays retired, and the first refusal counts.
    pub open spec fn peer_stopped(self, stream_id: u64, wire_error_code: u64) -> EndingsState {
        let ends = self.ends(stream_id);
        if ends.send_retired || ends.stopped is Some || ends.stop_lost {
            self
        } else {
            let woken = EndingsState { waiters: self.waiters.settled(stream_id), ..self };
            if remembered(self.rows) < self.max_states {
                woken.with_ends(
                    stream_id,
                    StreamEnds { stopped: Some(wire_error_code), ..ends },
                )
            } else {
                EndingsState {
                    state_saturation_total: bumped(self.state_saturation_total),
                    ..woken.with_ends(stream_id, StreamEnds { stop_lost: true, ..ends })
                }
            }
        }
    }

    /// The state after the application retired a send direction.
    pub open spec fn send_retired(self, stream_id: u64) -> EndingsState {
        (EndingsState { waiters: self.waiters.settled(stream_id), ..self }).with_ends(
            stream_id,
            StreamEnds {
                send_retired: true,
                stopped: None,
                stop_lost: false,
                ..self.ends(stream_id)
            },
        )
    }

    /// The state after this end finished or reset its direction.
    pub open spec fn send_closed(self, stream_id: u64) -> EndingsState {
        (EndingsState { waiters: self.waiters.settled(stream_id), ..self }).with_ends(
            stream_id,
            StreamEnds { send_closed: true, ..self.ends(stream_id) },
        )
    }

    /// What a request to wait for the end of a send direction is answered at
    /// once: what is known already, or that there is no room to wait.
    pub open spec fn send_answer(self, session_id: u64, stream_id: u64) -> Option<
        WebTransportStreamSendTerminalOutcome,
    > {
        match self.send_fact(stream_id) {
            SendFact::Retired => Some(
                WebTransportStreamSendTerminalOutcome::Retired { session_id, stream_id },
            ),
            SendFact::Stopped { wire_error_code } => Some(stopped_with(stream_id, wire_error_code)),
            SendFact::Closed => Some(WebTransportStreamSendTerminalOutcome::Closed { stream_id }),
            SendFact::Lost => Some(
                WebTransportStreamSendTerminalOutcome::Rejected(
                    WebTransportSelectionError::ResourceLimit,
                ),
            ),
            SendFact::Open => if self.waiters.list.len() < self.waiters.bound {
                None
            } else {
                Some(
                    WebTransportStreamSendTerminalOutcome::Rejected(
                        WebTransportSelectionError::ResourceLimit,
                    ),
                )
            },
        }
    }

    /// The requests that a refusal by the peer wakes.
    pub open spec fn woken_by_stop(self, stream_id: u64) -> Seq<u64> {
        let ends = self.ends(stream_id);
        if ends.send_retired || ends.stopped is Some || ends.stop_lost {
            Seq::empty()
        } else {
            ops_under(self.waiters.list, stream_id)
        }
    }

    /// The state after the peer's direction ended. The first end counts.
    pub open spec fn receive_ended(
        self,
        stream_id: u64,
        terminal: WebTransportStreamReceiveTerminal,
    ) -> EndingsState {
        if self.ends(stream_id).received is None {
            self.with_ends(
                stream_id,
                StreamEnds { received: Some(terminal), ..self.ends(stream_id) },
            )
        } else {
            self
        }
    }

    /// The state after this end refused the peer's direction.
    pub open spec fn receive_stopped(self, stream_id: u64) -> EndingsState {
        self.with_ends(stream_id, StreamEnds { stop_sent: true, ..self.ends(stream_id) })
    }

    /// The state after the application was told how the peer's direction ended.
    pub open spec fn receive_observed(self, stream_id: u64) -> EndingsState {
        self.with_ends(stream_id, StreamEnds { observed: true, ..self.ends(stream_id) })
    }

    /// The state after the application retired the peer's direction.
    pub open spec fn receive_retired(self, stream_id: u64) -> EndingsState {
        self.with_ends(stream_id, StreamEnds { receive_retired: true, ..self.ends(stream_id) })
    }

    /// The state without a request that waited.
    pub open spec fn cancelled(self, op: u64) -> EndingsState {
        EndingsState {
            waiters: WaitState { list: without_op(self.waiters.list, op), ..self.waiters },
            ..self
        }
    }

    /// The state without a stream.
    pub open spec fn forgotten(self, stream_id: u64) -> EndingsState {
        EndingsState { rows: without(self.rows, stream_id), ..self }
    }

    /// The state without any stream and any waiting request.
    pub open spec fn cleared(self) -> EndingsState {
        EndingsState {
            rows: Seq::empty(),
            waiters: WaitState { list: Seq::empty(), ..self.waiters },
            ..self
        }
    }

    /// The state after a request asked to wait for the end of a send direction.
    pub open spec fn send_awaited(self, op: u64, stream_id: u64) -> EndingsState {
        if self.send_fact(stream_id) == SendFact::Open {
            EndingsState { waiters: self.waiters.registered(op, stream_id), ..self }
        } else {
            self
        }
    }
}

/// What is known of the end of a send direction.
#[derive(Clone, Copy, Debug, PartialEq, Eq, Structural)]
pub enum SendFact {
    Open,
    Stopped { wire_error_code: u64 },
    Closed,
    Retired,
    /// It ended, and there was no room to remember how.
    Lost,
}

/// The ends of the streams of a session.
#[derive(Debug)]
pub struct StreamEndings {
    rows: Table<StreamEnds>,
    waiters: WaitList,
    max_states: usize,
    state_saturation_total: u64,
}

impl View for StreamEndings {
    type V = EndingsState;

    closed spec fn view(&self) -> EndingsState {
        EndingsState {
            rows: self.rows@,
            waiters: self.waiters@,
            max_states: self.max_states as nat,
            state_saturation_total: self.state_saturation_total,
        }
    }
}

/// The report of a refusal by the peer.
pub fn stop_report(stream_id: u64, wire_error_code: u64) -> (outcome:
    WebTransportStreamSendTerminalOutcome)
    ensures
        outcome == stopped_with(stream_id, wire_error_code),
{
    WebTransportStreamSendTerminalOutcome::Stopped {
        stream_id,
        wire_error_code,
        application_error_code: http3_error_to_webtransport(wire_error_code),
    }
}

impl StreamEndings {
    /// Room for `bound` waiting requests and as many remembered refusals.
    pub fn new(bound: usize) -> (endings: Self)
        ensures
            endings@ == (EndingsState {
                rows: Seq::empty(),
                waiters: WaitState { bound: bound as nat, list: Seq::empty(), saturation_total: 0 },
                max_states: bound as nat,
                state_saturation_total: 0,
            }),
    {
        StreamEndings {
            rows: Table::new(),
            waiters: WaitList::new(bound),
            max_states: bound,
            state_saturation_total: 0,
        }
    }

    /// What is known of the ends of a stream.
    pub fn get(&self, stream_id: u64) -> (ends: StreamEnds)
        ensures
            ends == self@.ends(stream_id),
    {
        match self.rows.get(stream_id) {
            Some(ends) => *ends,
            None => StreamEnds {
                send_closed: false,
                stopped: None,
                stop_lost: false,
                send_retired: false,
                received: None,
                stop_sent: false,
                observed: false,
                receive_retired: false,
            },
        }
    }

    fn set(&mut self, stream_id: u64, ends: StreamEnds)
        ensures
            final(self)@ == old(self)@.with_ends(stream_id, ends),
    {
        self.rows.set(stream_id, ends);
    }

    /// How many refusals are remembered.
    pub fn remembered_count(&self) -> (count: usize)
        ensures
            count == remembered(self@.rows),
    {
        let ghost rows = self.rows@;
        let len: usize = self.rows.len();
        let mut count: usize = 0;
        let mut i: usize = 0;
        assert(rows.take(0) =~= Seq::empty());
        while i < len
            invariant
                i <= len == rows.len(),
                rows == self.rows@,
                count == remembered(rows.take(i as int)),
                count <= i,
            decreases len - i,
        {
            assert(rows.take(i + 1).drop_last() =~= rows.take(i as int));
            let (_, ends) = self.rows.at(i);
            if ends.stopped.is_some() {
                count += 1;
            }
            i += 1;
        }
        assert(rows.take(i as int) =~= rows);
        count
    }

    /// Whether the refusal of some stream could not be remembered.
    pub fn is_overloaded(&self) -> (is: bool)
        ensures
            is == overloaded(self@.rows),
    {
        let ghost rows = self.rows@;
        let len: usize = self.rows.len();
        let mut i: usize = 0;
        while i < len
            invariant
                i <= len == rows.len(),
                rows == self.rows@,
                forall|k: int| 0 <= k < i ==> !(#[trigger] rows[k]).1.stop_lost,
            decreases len - i,
        {
            let (_, ends) = self.rows.at(i);
            if ends.stop_lost {
                assert(rows[i as int].1.stop_lost);
                return true;
            }
            i += 1;
        }
        false
    }

    /// How many streams something is known of.
    pub fn len(&self) -> (count: usize)
        ensures
            count == self@.rows.len(),
    {
        self.rows.len()
    }

    /// How many streams have an end of the peer's direction that is still of
    /// interest.
    pub fn received_count(&self) -> (count: usize)
        ensures
            count == ends_that_matter(self@.rows),
    {
        let ghost rows = self.rows@;
        let len: usize = self.rows.len();
        let mut count: usize = 0;
        let mut i: usize = 0;
        assert(rows.take(0) =~= Seq::empty());
        while i < len
            invariant
                i <= len == rows.len(),
                rows == self.rows@,
                count == ends_that_matter(rows.take(i as int)),
                count <= i,
            decreases len - i,
        {
            assert(rows.take(i + 1).drop_last() =~= rows.take(i as int));
            let (_, ends) = self.rows.at(i);
            if ends.received.is_some() && !ends.receive_retired {
                count += 1;
            }
            i += 1;
        }
        assert(rows.take(i as int) =~= rows);
        count
    }

    /// How many requests wait.
    pub fn waiter_count(&self) -> (count: usize)
        ensures
            count == self@.waiters.list.len(),
    {
        self.waiters.len()
    }

    /// How many requests found no room to wait.
    pub fn waiter_saturation_total(&self) -> (count: u64)
        ensures
            count == self@.waiters.saturation_total,
    {
        self.waiters.saturation_total()
    }

    /// How many refusals could not be remembered.
    pub fn state_saturation_total(&self) -> (count: u64)
        ensures
            count == self@.state_saturation_total,
    {
        self.state_saturation_total
    }

    /// What is known of the end of a send direction.
    pub fn send_fact(&self, stream_id: u64) -> (fact: SendFact)
        ensures
            fact == self@.send_fact(stream_id),
    {
        let ends = self.get(stream_id);
        if ends.send_retired {
            SendFact::Retired
        } else if let Some(wire_error_code) = ends.stopped {
            SendFact::Stopped { wire_error_code }
        } else if ends.send_closed {
            SendFact::Closed
        } else if ends.stop_lost {
            SendFact::Lost
        } else {
            SendFact::Open
        }
    }

    /// Asks to be told of the end of a send direction. Returns the answer where
    /// it is known already, or where there is no room to wait.
    pub fn await_send_end(&mut self, op: u64, session_id: u64, stream_id: u64) -> (answer: Option<
        WebTransportStreamSendTerminalOutcome,
    >)
        ensures
            final(self)@ == old(self)@.send_awaited(op, stream_id),
            answer == old(self)@.send_answer(session_id, stream_id),
    {
        match self.send_fact(stream_id) {
            SendFact::Retired => Some(
                WebTransportStreamSendTerminalOutcome::Retired { session_id, stream_id },
            ),
            SendFact::Stopped { wire_error_code } => Some(stop_report(stream_id, wire_error_code)),
            SendFact::Closed => Some(WebTransportStreamSendTerminalOutcome::Closed { stream_id }),
            SendFact::Lost => Some(
                WebTransportStreamSendTerminalOutcome::Rejected(
                    WebTransportSelectionError::ResourceLimit,
                ),
            ),
            SendFact::Open => {
                if self.waiters.register(op, stream_id) {
                    None
                } else {
                    Some(
                        WebTransportStreamSendTerminalOutcome::Rejected(
                            WebTransportSelectionError::ResourceLimit,
                        ),
                    )
                }
            },
        }
    }

    /// The peer refused this end's direction. Returns the requests that waited
    /// for it.
    pub fn on_peer_stop(&mut self, stream_id: u64, wire_error_code: u64) -> (woken: Vec<u64>)
        ensures
            final(self)@ == old(self)@.peer_stopped(stream_id, wire_error_code),
            woken@ == old(self)@.woken_by_stop(stream_id),
    {
        let mut ends = self.get(stream_id);
        if ends.send_retired || ends.stopped.is_some() || ends.stop_lost {
            return Vec::new();
        }
        let room = self.remembered_count() < self.max_states;
        let woken = self.waiters.settle(stream_id);
        if room {
            ends.stopped = Some(wire_error_code);
        } else {
            ends.stop_lost = true;
            self.state_saturation_total = bump(self.state_saturation_total);
        }
        self.set(stream_id, ends);
        woken
    }

    /// The application wants to hear no more of a send direction. Returns the
    /// requests that waited for it.
    pub fn retire_send(&mut self, stream_id: u64) -> (woken: Vec<u64>)
        ensures
            final(self)@ == old(self)@.send_retired(stream_id),
            woken@ == ops_under(old(self)@.waiters.list, stream_id),
    {
        let mut ends = self.get(stream_id);
        let woken = self.waiters.settle(stream_id);
        ends.send_retired = true;
        ends.stopped = None;
        ends.stop_lost = false;
        self.set(stream_id, ends);
        woken
    }

    /// This end finished or reset its direction. Returns the requests that
    /// waited for it.
    pub fn close_send(&mut self, stream_id: u64) -> (woken: Vec<u64>)
        ensures
            final(self)@ == old(self)@.send_closed(stream_id),
            woken@ == ops_under(old(self)@.waiters.list, stream_id),
    {
        let mut ends = self.get(stream_id);
        let woken = self.waiters.settle(stream_id);
        ends.send_closed = true;
        self.set(stream_id, ends);
        woken
    }

    /// The peer's direction ended. The first end counts.
    pub fn receive_end(&mut self, stream_id: u64, terminal: WebTransportStreamReceiveTerminal)
        ensures
            final(self)@ == old(self)@.receive_ended(stream_id, terminal),
    {
        let mut ends = self.get(stream_id);
        if ends.received.is_none() {
            ends.received = Some(terminal);
            self.set(stream_id, ends);
        }
    }

    /// This end refused the peer's direction.
    pub fn stop_receive(&mut self, stream_id: u64)
        ensures
            final(self)@ == old(self)@.receive_stopped(stream_id),
    {
        let mut ends = self.get(stream_id);
        ends.stop_sent = true;
        self.set(stream_id, ends);
    }

    /// The application was told how the peer's direction ended.
    pub fn observe(&mut self, stream_id: u64)
        ensures
            final(self)@ == old(self)@.receive_observed(stream_id),
    {
        let mut ends = self.get(stream_id);
        ends.observed = true;
        self.set(stream_id, ends);
    }

    /// The application wants to hear no more of the peer's direction.
    pub fn retire_receive(&mut self, stream_id: u64)
        ensures
            final(self)@ == old(self)@.receive_retired(stream_id),
    {
        let mut ends = self.get(stream_id);
        ends.receive_retired = true;
        self.set(stream_id, ends);
    }

    /// A request waits no more.
    pub fn cancel(&mut self, op: u64)
        ensures
            final(self)@ == old(self)@.cancelled(op),
    {
        self.waiters.cancel(op);
    }

    /// Forgets a stream.
    pub fn forget(&mut self, stream_id: u64)
        ensures
            final(self)@ == old(self)@.forgotten(stream_id),
    {
        let _ = self.rows.remove(stream_id);
    }

    /// Forgets every stream. Returns the requests that waited.
    pub fn clear(&mut self) -> (woken: Vec<Waiter>)
        ensures
            woken@ == old(self)@.waiters.list,
            final(self)@ == old(self)@.cleared(),
    {
        self.rows.clear();
        self.waiters.settle_all()
    }
}

/// A refusal is reported the same way whether it comes before or after the
/// request for it, as long as there was room to remember it.
pub proof fn lemma_stop_is_latched(state: EndingsState, stream_id: u64, wire_error_code: u64)
    requires
        state.send_fact(stream_id) == SendFact::Open,
        remembered(state.rows) < state.max_states,
    ensures
        state.peer_stopped(stream_id, wire_error_code).send_fact(stream_id) == (SendFact::Stopped {
            wire_error_code,
        }),
{
    crate::table::lemma_lookup_after_put(
        state.rows,
        stream_id,
        StreamEnds { stopped: Some(wire_error_code), ..state.ends(stream_id) },
        stream_id,
    );
}

/// A later refusal never replaces the first one.
pub proof fn lemma_first_stop_wins(state: EndingsState, stream_id: u64, first: u64, second: u64)
    ensures
        state.peer_stopped(stream_id, first).peer_stopped(stream_id, second) == state.peer_stopped(
            stream_id,
            first,
        ),
{
    let ends = state.ends(stream_id);
    crate::table::lemma_lookup_after_put(
        state.rows,
        stream_id,
        StreamEnds { stopped: Some(first), ..ends },
        stream_id,
    );
    crate::table::lemma_lookup_after_put(
        state.rows,
        stream_id,
        StreamEnds { stop_lost: true, ..ends },
        stream_id,
    );
}

/// Retirement is final: it can be repeated, a later refusal is suppressed, and
/// nothing of the refusal is remembered.
pub proof fn lemma_retirement_is_final(state: EndingsState, stream_id: u64, wire_error_code: u64)
    ensures
        ({
            let retired = state.send_retired(stream_id);
            &&& retired.send_fact(stream_id) == SendFact::Retired
            &&& retired.peer_stopped(stream_id, wire_error_code) == retired
            &&& retired.send_retired(stream_id).send_fact(stream_id) == SendFact::Retired
            &&& retired.ends(stream_id).stopped is None
        }),
{
    let ends = StreamEnds {
        send_retired: true,
        stopped: None,
        stop_lost: false,
        ..state.ends(stream_id)
    };
    crate::table::lemma_lookup_after_put(state.rows, stream_id, ends, stream_id);
    let retired = state.send_retired(stream_id);
    crate::table::lemma_lookup_after_put(
        retired.rows,
        stream_id,
        StreamEnds { send_retired: true, stopped: None, stop_lost: false, ..retired.ends(stream_id) },
        stream_id,
    );
}

/// What happens to one stream does not change what is known of another.
pub proof fn lemma_streams_end_independently(
    state: EndingsState,
    stream_id: u64,
    wire_error_code: u64,
    other: u64,
)
    requires
        other != stream_id,
    ensures
        state.peer_stopped(stream_id, wire_error_code).send_fact(other) == state.send_fact(other),
        state.send_retired(stream_id).send_fact(other) == state.send_fact(other),
        state.send_closed(stream_id).send_fact(other) == state.send_fact(other),
{
    let ends = state.ends(stream_id);
    crate::table::lemma_lookup_after_put(
        state.rows,
        stream_id,
        StreamEnds { stopped: Some(wire_error_code), ..ends },
        other,
    );
    crate::table::lemma_lookup_after_put(
        state.rows,
        stream_id,
        StreamEnds { stop_lost: true, ..ends },
        other,
    );
    crate::table::lemma_lookup_after_put(
        state.rows,
        stream_id,
        StreamEnds { send_retired: true, stopped: None, stop_lost: false, ..ends },
        other,
    );
    crate::table::lemma_lookup_after_put(
        state.rows,
        stream_id,
        StreamEnds { send_closed: true, ..ends },
        other,
    );
}

} // verus!
