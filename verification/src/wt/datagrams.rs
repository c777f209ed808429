//! Received datagrams that wait for the application.

use vstd::prelude::*;

use crate::request_stream::{add_capped, capped_sum};
use crate::table::{lookup, put, without, Table};

verus! {

/// A received datagram.
#[derive(Debug)]
pub struct PendingDatagram {
    /// The flow that it came on.
    pub flow_id: u64,
    pub payload: Vec<u8>,
    /// How many bytes of memory it keeps alive.
    pub allocation: usize,
}

/// The value of a [`PendingDatagram`].
pub ghost struct Received {
    pub flow_id: u64,
    pub payload: Seq<u8>,
    pub allocation: nat,
}

impl View for PendingDatagram {
    type V = Received;

    open spec fn view(&self) -> Received {
        Received {
            flow_id: self.flow_id,
            payload: self.payload@,
            allocation: self.allocation as nat,
        }
    }
}

/// The values of a list of datagrams.
pub open spec fn received_values(queue: Seq<PendingDatagram>) -> Seq<Received> {
    Seq::new(queue.len(), |i: int| queue[i]@)
}

/// Datagrams that found no room.
#[derive(Clone, Copy, Debug, PartialEq, Eq, Structural)]
pub struct Overflow {
    pub datagrams: u64,
    pub bytes: u64,
}

/// What a read of datagrams comes to.
#[derive(Debug)]
pub enum DatagramRead {
    /// Some datagrams were lost since the last report.
    Overflow { datagrams: u64, bytes: u64 },
    Datagram(Vec<u8>),
    Empty,
}

/// How many datagrams of a queue came on `flow_id`.
pub open spec fn count_of(queue: Seq<Received>, flow_id: u64) -> nat
    decreases queue.len(),
{
    if queue.len() == 0 {
        0
    } else {
        count_of(queue.drop_last(), flow_id) + if queue.last().flow_id == flow_id {
            1nat
        } else {
            0nat
        }
    }
}

/// How many payload bytes a queue holds.
pub open spec fn total_bytes(queue: Seq<Received>) -> nat
    decreases queue.len(),
{
    if queue.len() == 0 {
        0
    } else {
        total_bytes(queue.drop_last()) + queue.last().payload.len()
    }
}

/// How many payload bytes a queue holds of `flow_id`.
pub open spec fn bytes_of(queue: Seq<Received>, flow_id: u64) -> nat
    decreases queue.len(),
{
    if queue.len() == 0 {
        0
    } else {
        bytes_of(queue.drop_last(), flow_id) + if queue.last().flow_id == flow_id {
            queue.last().payload.len()
        } else {
            0nat
        }
    }
}

/// How many bytes of memory a queue keeps alive.
pub open spec fn total_allocation(queue: Seq<Received>) -> nat
    decreases queue.len(),
{
    if queue.len() == 0 {
        0
    } else {
        total_allocation(queue.drop_last()) + queue.last().allocation
    }
}

/// The index of the first datagram of `flow_id`, or the length of the queue.
pub open spec fn first_of(queue: Seq<Received>, flow_id: u64) -> int
    decreases queue.len(),
{
    if queue.len() == 0 {
        0
    } else {
        let front = first_of(queue.drop_last(), flow_id);
        if front < queue.len() - 1 {
            front
        } else if queue.last().flow_id == flow_id {
            queue.len() - 1
        } else {
            queue.len() as int
        }
    }
}

/// Whether a read of a flow finds something.
pub open spec fn has_for(state: DatagramState, flow_id: u64) -> bool {
    lookup(state.lost, flow_id) is Some || first_of(state.queue, flow_id) < state.queue.len()
}

/// The datagrams of a queue that came on other flows.
pub open spec fn of_others(queue: Seq<Received>, flow_id: u64) -> Seq<Received>
    decreases queue.len(),
{
    if queue.len() == 0 {
        Seq::empty()
    } else {
        let front = of_others(queue.drop_last(), flow_id);
        if queue.last().flow_id == flow_id {
            front
        } else {
            front.push(queue.last())
        }
    }
}

/// The bounds of a datagram queue.
#[derive(Clone, Copy, Debug, PartialEq, Eq, Structural)]
pub struct DatagramLimits {
    pub max_count: usize,
    pub max_count_per_flow: usize,
    pub max_bytes: usize,
    pub max_bytes_per_flow: usize,
}

/// The value of a [`DatagramQueue`].
pub ghost struct DatagramState {
    pub limits: DatagramLimits,
    pub queue: Seq<Received>,
    pub lost: Seq<(u64, Overflow)>,
}

impl DatagramState {
    /// Whether a datagram of `len` bytes fits.
    pub open spec fn fits(self, flow_id: u64, len: int) -> bool {
        &&& self.queue.len() < self.limits.max_count
        &&& count_of(self.queue, flow_id) < self.limits.max_count_per_flow
        &&& total_bytes(self.queue) + len <= self.limits.max_bytes
        &&& bytes_of(self.queue, flow_id) + len <= self.limits.max_bytes_per_flow
    }

    /// What was lost of a flow since the last report.
    pub open spec fn lost_of(self, flow_id: u64) -> Overflow {
        match lookup(self.lost, flow_id) {
            Some(overflow) => overflow,
            None => Overflow { datagrams: 0, bytes: 0 },
        }
    }

    /// The queue after a datagram arrived. One that does not fit is lost, and
    /// counted.
    pub open spec fn arrived(self, datagram: Received) -> DatagramState {
        if self.fits(datagram.flow_id, datagram.payload.len() as int) {
            DatagramState { queue: self.queue.push(datagram), ..self }
        } else {
            let lost = self.lost_of(datagram.flow_id);
            DatagramState {
                lost: put(
                    self.lost,
                    datagram.flow_id,
                    Overflow {
                        datagrams: capped_sum(lost.datagrams, 1),
                        bytes: capped_sum(lost.bytes, datagram.payload.len() as int),
                    },
                ),
                ..self
            }
        }
    }

    /// The queue after the application read a flow.
    pub open spec fn taken(self, flow_id: u64) -> DatagramState {
        if lookup(self.lost, flow_id) is Some {
            DatagramState { lost: without(self.lost, flow_id), ..self }
        } else if first_of(self.queue, flow_id) < self.queue.len() {
            DatagramState { queue: self.queue.remove(first_of(self.queue, flow_id)), ..self }
        } else {
            self
        }
    }

    /// The queue stays within its bounds.
    pub open spec fn wf(self) -> bool {
        self.queue.len() <= self.limits.max_count && total_bytes(self.queue)
            <= self.limits.max_bytes
    }
}

/// A bounded queue of received datagrams.
#[derive(Debug)]
pub struct DatagramQueue {
    limits: DatagramLimits,
    queue: Vec<PendingDatagram>,
    lost: Table<Overflow>,
}

impl View for DatagramQueue {
    type V = DatagramState;

    closed spec fn view(&self) -> DatagramState {
        DatagramState {
            limits: self.limits,
            queue: received_values(self.queue@),
            lost: self.lost@,
        }
    }
}

impl DatagramQueue {
    /// An empty queue.
    pub fn new(limits: DatagramLimits) -> (queue: Self)
        ensures
            queue@ == (DatagramState { limits, queue: Seq::empty(), lost: Seq::empty() }),
    {
        let queue = DatagramQueue { limits, queue: Vec::new(), lost: Table::new() };
        assert(queue@.queue =~= Seq::<Received>::empty());
        queue
    }

    /// How many datagrams wait, how many payload bytes they have, and how much
    /// memory they keep alive. Sums stop at the largest value.
    pub fn usage(&self) -> (usage: (usize, u64, u64))
        ensures
            usage.0 == self@.queue.len(),
            total_bytes(self@.queue) <= u64::MAX ==> usage.1 == total_bytes(self@.queue),
            total_allocation(self@.queue) <= u64::MAX ==> usage.2 == total_allocation(self@.queue),
            total_bytes(self@.queue) > u64::MAX ==> usage.1 == u64::MAX,
            total_allocation(self@.queue) > u64::MAX ==> usage.2 == u64::MAX,
    {
        let ghost all = received_values(self.queue@);
        let mut bytes: u64 = 0;
        let mut memory: u64 = 0;
        let mut i: usize = 0;
        assert(all.take(0) =~= Seq::<Received>::empty());
        while i < self.queue.len()
            invariant
                i <= self.queue@.len(),
                all == received_values(self.queue@),
                total_bytes(all.take(i as int)) <= u64::MAX ==> bytes == total_bytes(
                    all.take(i as int),
                ),
                total_bytes(all.take(i as int)) > u64::MAX ==> bytes == u64::MAX,
                total_allocation(all.take(i as int)) <= u64::MAX ==> memory == total_allocation(
                    all.take(i as int),
                ),
                total_allocation(all.take(i as int)) > u64::MAX ==> memory == u64::MAX,
            decreases self.queue@.len() - i,
        {
            assert(all.take(i + 1).drop_last() =~= all.take(i as int));
            assert(all.take(i + 1).last() == all[i as int]);
            bytes = add_capped(bytes, self.queue[i].payload.len());
            memory = add_capped(memory, self.queue[i].allocation);
            i += 1;
        }
        assert(all.take(i as int) =~= all);
        (self.queue.len(), bytes, memory)
    }

    fn flow_usage(&self, flow_id: u64) -> (usage: (usize, u64, u64))
        requires
            self@.wf(),
        ensures
            usage.0 == count_of(self@.queue, flow_id),
            usage.1 == total_bytes(self@.queue),
            usage.2 == bytes_of(self@.queue, flow_id),
    {
        let ghost all = received_values(self.queue@);
        let mut count: usize = 0;
        let mut bytes: u64 = 0;
        let mut mine: u64 = 0;
        let mut i: usize = 0;
        assert(all.take(0) =~= Seq::<Received>::empty());
        while i < self.queue.len()
            invariant
                i <= self.queue@.len(),
                all == received_values(self.queue@),
                count == count_of(all.take(i as int), flow_id),
                count <= i,
                bytes == total_bytes(all.take(i as int)),
                mine == bytes_of(all.take(i as int), flow_id),
                mine <= bytes,
                total_bytes(all) <= usize::MAX,
            decreases self.queue@.len() - i,
        {
            assert(all.take(i + 1).drop_last() =~= all.take(i as int));
            assert(all.take(i + 1).last() == all[i as int]);
            proof {
                lemma_front_is_smaller(all, i + 1);
            }
            let len: usize = self.queue[i].payload.len();
            bytes = bytes + len as u64;
            if self.queue[i].flow_id == flow_id {
                count = count + 1;
                mine = mine + len as u64;
            }
            i += 1;
        }
        assert(all.take(i as int) =~= all);
        (count, bytes, mine)
    }

    /// A datagram arrived. Returns whether it fits.
    pub fn arrive(&mut self, datagram: PendingDatagram) -> (kept: bool)
        requires
            old(self)@.wf(),
        ensures
            kept == old(self)@.fits(datagram.flow_id, datagram.payload@.len() as int),
            final(self)@ == old(self)@.arrived(datagram@),
            final(self)@.wf(),
    {
        let flow_id: u64 = datagram.flow_id;
        let len: u64 = datagram.payload.len() as u64;
        let (count, bytes, mine) = self.flow_usage(flow_id);
        proof {
            lemma_flow_is_smaller(self@.queue, flow_id);
        }
        let room = self.queue.len() < self.limits.max_count && count
            < self.limits.max_count_per_flow && len <= self.limits.max_bytes as u64 - bytes && mine
            <= self.limits.max_bytes_per_flow as u64 && len <= self.limits.max_bytes_per_flow as u64
            - mine;
        if room {
            let ghost before = self@.queue;
            self.queue.push(datagram);
            assert(self@.queue =~= before.push(datagram@));
            assert(self@.queue.drop_last() =~= before);
            true
        } else {
            let lost = match self.lost.get(flow_id) {
                Some(lost) => *lost,
                None => Overflow { datagrams: 0, bytes: 0 },
            };
            self.lost.set(
                flow_id,
                Overflow {
                    datagrams: add_capped(lost.datagrams, 1),
                    bytes: add_capped(lost.bytes, datagram.payload.len()),
                },
            );
            false
        }
    }

    /// The application reads a flow: first what was lost, then the oldest
    /// datagram.
    pub fn read(&mut self, flow_id: u64) -> (read: DatagramRead)
        ensures
            final(self)@ == old(self)@.taken(flow_id),
            match lookup(old(self)@.lost, flow_id) {
                Some(lost) => read == (DatagramRead::Overflow {
                    datagrams: lost.datagrams,
                    bytes: lost.bytes,
                }),
                None => if first_of(old(self)@.queue, flow_id) < old(self)@.queue.len() {
                    read matches DatagramRead::Datagram(payload) && payload@
                        == old(self)@.queue[first_of(old(self)@.queue, flow_id)].payload
                } else {
                    read == DatagramRead::Empty
                },
            },
            old(self)@.wf() ==> final(self)@.wf(),
    {
        if let Some(lost) = self.lost.remove(flow_id) {
            return DatagramRead::Overflow { datagrams: lost.datagrams, bytes: lost.bytes };
        }
        let ghost all = received_values(self.queue@);
        let mut i: usize = 0;
        while i < self.queue.len()
            invariant
                i <= self.queue@.len(),
                all == received_values(self.queue@),
                forall|k: int| 0 <= k < i ==> (#[trigger] all[k]).flow_id != flow_id,
                self@ == old(self)@,
                lookup(old(self)@.lost, flow_id) is None,
            decreases self.queue@.len() - i,
        {
            if self.queue[i].flow_id == flow_id {
                proof {
                    lemma_first_of(all, flow_id, i as int);
                    lemma_removal_shrinks(all, i as int);
                }
                let datagram = self.queue.remove(i);
                assert(self@.queue =~= all.remove(i as int));
                return DatagramRead::Datagram(datagram.payload);
            }
            i += 1;
        }
        proof {
            lemma_first_of(all, flow_id, i as int);
        }
        DatagramRead::Empty
    }

    /// Whether a read of the flow would give anything.
    pub fn is_readable(&self, flow_id: u64) -> (is: bool)
        ensures
            is == has_for(self@, flow_id),
    {
        if self.lost.contains(flow_id) {
            return true;
        }
        let ghost all = received_values(self.queue@);
        let mut i: usize = 0;
        while i < self.queue.len()
            invariant
                i <= self.queue@.len(),
                all == received_values(self.queue@),
                forall|k: int| 0 <= k < i ==> (#[trigger] all[k]).flow_id != flow_id,
            decreases self.queue@.len() - i,
        {
            if self.queue[i].flow_id == flow_id {
                proof {
                    lemma_first_of(all, flow_id, i as int);
                }
                return true;
            }
            i += 1;
        }
        proof {
            lemma_first_of(all, flow_id, i as int);
        }
        false
    }

    /// Forgets everything about a flow.
    pub fn discard(&mut self, flow_id: u64)
        ensures
            final(self)@ == (DatagramState {
                queue: of_others(old(self)@.queue, flow_id),
                lost: without(old(self)@.lost, flow_id),
                ..old(self)@
            }),
            old(self)@.wf() ==> final(self)@.wf(),
    {
        let _ = self.lost.remove(flow_id);
        let mut queue: Vec<PendingDatagram> = Vec::new();
        std::mem::swap(&mut queue, &mut self.queue);
        let ghost list = queue@;
        let ghost all = received_values(list);
        assert(all =~= old(self)@.queue);
        let mut kept: Vec<PendingDatagram> = Vec::new();
        assert(received_values(kept@) =~= Seq::<Received>::empty());
        let ghost mut i: int = 0;
        assert(all.take(0) =~= Seq::<Received>::empty());
        while queue.len() > 0
            invariant
                0 <= i,
                i + queue@.len() == list.len(),
                queue@ == list.skip(i),
                all == received_values(list),
                received_values(kept@) == of_others(all.take(i), flow_id),
            decreases queue@.len(),
        {
            let datagram = queue.remove(0);
            assert(datagram == list[i]);
            assert(queue@ =~= list.skip(i + 1));
            assert(all.take(i + 1).drop_last() =~= all.take(i));
            assert(all.take(i + 1).last() == datagram@);
            if datagram.flow_id != flow_id {
                let ghost before = kept@;
                kept.push(datagram);
                assert(received_values(kept@) =~= received_values(before).push(datagram@));
            }
            proof {
                i = i + 1;
            }
        }
        assert(all.take(i) =~= all);
        self.queue = kept;
        proof {
            lemma_others_are_smaller(all, flow_id);
        }
    }

    /// Forgets everything.
    pub fn clear(&mut self)
        ensures
            final(self)@ == (DatagramState {
                queue: Seq::empty(),
                lost: Seq::empty(),
                ..old(self)@
            }),
            final(self)@.wf(),
    {
        self.queue.clear();
        self.lost.clear();
        assert(self@.queue =~= Seq::<Received>::empty());
    }
}

proof fn lemma_front_is_smaller(queue: Seq<Received>, cut: int)
    requires
        0 <= cut <= queue.len(),
    ensures
        total_bytes(queue.take(cut)) <= total_bytes(queue),
    decreases queue.len(),
{
    if cut < queue.len() {
        assert(queue.drop_last().take(cut) =~= queue.take(cut));
        lemma_front_is_smaller(queue.drop_last(), cut);
    } else {
        assert(queue.take(cut) =~= queue);
    }
}

proof fn lemma_flow_is_smaller(queue: Seq<Received>, flow_id: u64)
    ensures
        bytes_of(queue, flow_id) <= total_bytes(queue),
    decreases queue.len(),
{
    if queue.len() > 0 {
        lemma_flow_is_smaller(queue.drop_last(), flow_id);
    }
}

proof fn lemma_others_are_smaller(queue: Seq<Received>, flow_id: u64)
    ensures
        of_others(queue, flow_id).len() <= queue.len(),
        total_bytes(of_others(queue, flow_id)) <= total_bytes(queue),
        count_of(of_others(queue, flow_id), flow_id) == 0,
    decreases queue.len(),
{
    if queue.len() > 0 {
        lemma_others_are_smaller(queue.drop_last(), flow_id);
        let front = of_others(queue.drop_last(), flow_id);
        if queue.last().flow_id != flow_id {
            assert(front.push(queue.last()).drop_last() =~= front);
        }
    }
}

proof fn lemma_removal_shrinks(queue: Seq<Received>, at: int)
    requires
        0 <= at < queue.len(),
    ensures
        total_bytes(queue.remove(at)) + queue[at].payload.len() == total_bytes(queue),
    decreases queue.len(),
{
    if at == queue.len() - 1 {
        assert(queue.remove(at) =~= queue.drop_last());
    } else {
        assert(queue.remove(at).drop_last() =~= queue.drop_last().remove(at));
        lemma_removal_shrinks(queue.drop_last(), at);
    }
}

proof fn lemma_first_of(queue: Seq<Received>, flow_id: u64, at: int)
    requires
        0 <= at <= queue.len(),
        at < queue.len() ==> queue[at].flow_id == flow_id,
        forall|k: int| 0 <= k < at ==> (#[trigger] queue[k]).flow_id != flow_id,
    ensures
        first_of(queue, flow_id) == at,
    decreases queue.len(),
{
    if queue.len() > 0 {
        let front = queue.drop_last();
        assert forall|k: int| 0 <= k < at && k < front.len() implies (
        #[trigger] front[k]).flow_id != flow_id by {
            assert(queue[k].flow_id != flow_id);
        }
        if at < queue.len() - 1 {
            lemma_first_of(front, flow_id, at);
        } else {
            lemma_first_of(front, flow_id, queue.len() - 1);
        }
    }
}

/// A queue of datagrams never exceeds its bounds; a datagram that does not fit
/// leaves the queue as it is and is counted as lost.
pub proof fn lemma_datagrams_stay_bounded(state: DatagramState, datagram: Received)
    requires
        state.wf(),
    ensures
        state.arrived(datagram).wf(),
        !state.fits(datagram.flow_id, datagram.payload.len() as int) ==> state.arrived(
            datagram,
        ).queue == state.queue,
{
    assert(state.queue.push(datagram).drop_last() =~= state.queue);
}

/// What was lost is reported once, before any datagram, and then no more.
pub proof fn lemma_overflow_is_reported_once(state: DatagramState, flow_id: u64)
    requires
        lookup(state.lost, flow_id) is Some,
        crate::table::distinct(state.lost),
    ensures
        state.taken(flow_id).queue == state.queue,
        lookup(state.taken(flow_id).lost, flow_id) is None,
{
    crate::table::lemma_lookup_after_without(state.lost, flow_id, flow_id);
}

/// After a flow is discarded nothing of it is left.
pub proof fn lemma_discarded_flow_is_empty(queue: Seq<Received>, flow_id: u64)
    ensures
        count_of(of_others(queue, flow_id), flow_id) == 0,
{
    lemma_others_are_smaller(queue, flow_id);
}

} // verus!
