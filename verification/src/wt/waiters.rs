//! Requests that wait for something to happen.

use vstd::prelude::*;

use crate::conn_close::{bump, bumped};

verus! {

/// A request that waits under a key: a stream, a session, a direction.
#[derive(Clone, Copy, Debug, PartialEq, Eq, Structural)]
pub struct Waiter {
    /// The request.
    pub op: u64,
    /// What it waits for.
    pub key: u64,
}

/// The requests that wait under `key`, oldest first.
pub open spec fn ops_under(list: Seq<Waiter>, key: u64) -> Seq<u64>
    decreases list.len(),
{
    if list.len() == 0 {
        Seq::empty()
    } else {
        let front = ops_under(list.drop_last(), key);
        if list.last().key == key {
            front.push(list.last().op)
        } else {
            front
        }
    }
}

/// The waiters of a list that wait under another key.
pub open spec fn others(list: Seq<Waiter>, key: u64) -> Seq<Waiter>
    decreases list.len(),
{
    if list.len() == 0 {
        Seq::empty()
    } else {
        let front = others(list.drop_last(), key);
        if list.last().key == key {
            front
        } else {
            front.push(list.last())
        }
    }
}

/// The waiters of a list without the request `op`.
pub open spec fn without_op(list: Seq<Waiter>, op: u64) -> Seq<Waiter>
    decreases list.len(),
{
    if list.len() == 0 {
        Seq::empty()
    } else {
        let front = without_op(list.drop_last(), op);
        if list.last().op == op {
            front
        } else {
            front.push(list.last())
        }
    }
}

/// The index of the first waiter under `key`, or the length of the list.
pub open spec fn first_under(list: Seq<Waiter>, key: u64) -> int
    decreases list.len(),
{
    if list.len() == 0 {
        0
    } else {
        let front = first_under(list.drop_last(), key);
        if front < list.len() - 1 {
            front
        } else if list.last().key == key {
            list.len() - 1
        } else {
            list.len() as int
        }
    }
}

/// The value of a [`WaitList`].
pub ghost struct WaitState {
    pub bound: nat,
    pub list: Seq<Waiter>,
    /// How many requests found no room.
    pub saturation_total: u64,
}

impl WaitState {
    /// The list after a request asked to wait.
    pub open spec fn registered(self, op: u64, key: u64) -> WaitState {
        if self.list.len() < self.bound {
            WaitState { list: self.list.push(Waiter { op, key }), ..self }
        } else {
            WaitState { saturation_total: bumped(self.saturation_total), ..self }
        }
    }

    /// The list after what the requests under `key` wait for has happened.
    pub open spec fn settled(self, key: u64) -> WaitState {
        WaitState { list: others(self.list, key), ..self }
    }
}

/// A bounded list of requests that wait, oldest first.
#[derive(Debug)]
pub struct WaitList {
    bound: usize,
    list: Vec<Waiter>,
    saturation_total: u64,
}

impl View for WaitList {
    type V = WaitState;

    closed spec fn view(&self) -> WaitState {
        WaitState {
            bound: self.bound as nat,
            list: self.list@,
            saturation_total: self.saturation_total,
        }
    }
}

impl WaitList {
    /// A list with room for `bound` requests.
    pub fn new(bound: usize) -> (waiters: Self)
        ensures
            waiters@ == (WaitState { bound: bound as nat, list: Seq::empty(), saturation_total: 0 }),
    {
        WaitList { bound, list: Vec::new(), saturation_total: 0 }
    }

    /// How many requests wait.
    pub fn len(&self) -> (count: usize)
        ensures
            count == self@.list.len(),
    {
        self.list.len()
    }

    /// How many requests can wait.
    pub fn bound(&self) -> (count: usize)
        ensures
            count == self@.bound,
    {
        self.bound
    }

    /// How many requests found no room.
    pub fn saturation_total(&self) -> (count: u64)
        ensures
            count == self@.saturation_total,
    {
        self.saturation_total
    }

    /// Lets a request wait, where there is room.
    pub fn register(&mut self, op: u64, key: u64) -> (waits: bool)
        ensures
            waits == (old(self)@.list.len() < old(self)@.bound),
            final(self)@ == old(self)@.registered(op, key),
    {
        if self.list.len() < self.bound {
            self.list.push(Waiter { op, key });
            true
        } else {
            self.saturation_total = bump(self.saturation_total);
            false
        }
    }

    /// What the requests under `key` wait for has happened: they leave the list.
    pub fn settle(&mut self, key: u64) -> (ops: Vec<u64>)
        ensures
            ops@ == ops_under(old(self)@.list, key),
            final(self)@ == old(self)@.settled(key),
    {
        let ghost all = self.list@;
        let mut ops: Vec<u64> = Vec::new();
        let mut kept: Vec<Waiter> = Vec::new();
        let mut i: usize = 0;
        assert(all.take(0) =~= Seq::<Waiter>::empty());
        while i < self.list.len()
            invariant
                i <= self.list@.len(),
                all == self.list@,
                ops@ == ops_under(all.take(i as int), key),
                kept@ == others(all.take(i as int), key),
                *self == *old(self),
            decreases self.list@.len() - i,
        {
            assert(all.take(i + 1).drop_last() =~= all.take(i as int));
            assert(all.take(i + 1).last() == all[i as int]);
            let waiter: Waiter = self.list[i];
            if waiter.key == key {
                ops.push(waiter.op);
            } else {
                kept.push(waiter);
            }
            i += 1;
        }
        assert(all.take(i as int) =~= all);
        self.list = kept;
        ops
    }

    /// The oldest request under `key`.
    pub fn first(&self, key: u64) -> (op: Option<u64>)
        ensures
            match op {
                Some(first) => first_under(self@.list, key) < self@.list.len() && first
                    == self@.list[first_under(self@.list, key)].op,
                None => first_under(self@.list, key) == self@.list.len(),
            },
    {
        let ghost all = self.list@;
        let mut i: usize = 0;
        while i < self.list.len()
            invariant
                i <= self.list@.len(),
                all == self.list@,
                forall|k: int| 0 <= k < i ==> all[k].key != key,
            decreases self.list@.len() - i,
        {
            if self.list[i].key == key {
                proof {
                    lemma_first_under(all, key, i as int);
                }
                return Some(self.list[i].op);
            }
            i += 1;
        }
        proof {
            lemma_first_under(all, key, i as int);
        }
        None
    }

    /// Takes a request off the list, whether it was waiting or not.
    pub fn cancel(&mut self, op: u64)
        ensures
            final(self)@ == (WaitState { list: without_op(old(self)@.list, op), ..old(self)@ }),
    {
        let ghost all = self.list@;
        let mut kept: Vec<Waiter> = Vec::new();
        let mut i: usize = 0;
        assert(all.take(0) =~= Seq::<Waiter>::empty());
        while i < self.list.len()
            invariant
                i <= self.list@.len(),
                all == self.list@,
                kept@ == without_op(all.take(i as int), op),
                *self == *old(self),
            decreases self.list@.len() - i,
        {
            assert(all.take(i + 1).drop_last() =~= all.take(i as int));
            assert(all.take(i + 1).last() == all[i as int]);
            let waiter: Waiter = self.list[i];
            if waiter.op != op {
                kept.push(waiter);
            }
            i += 1;
        }
        assert(all.take(i as int) =~= all);
        self.list = kept;
    }

    /// Lets a request that was taken off the list wait on.
    pub fn put_back(&mut self, waiter: Waiter)
        ensures
            final(self)@ == (WaitState { list: old(self)@.list.push(waiter), ..old(self)@ }),
    {
        self.list.push(waiter);
    }

    /// Takes every request off the list.
    pub fn settle_all(&mut self) -> (waiters: Vec<Waiter>)
        ensures
            waiters@ == old(self)@.list,
            final(self)@ == (WaitState { list: Seq::empty(), ..old(self)@ }),
    {
        let mut waiters: Vec<Waiter> = Vec::new();
        std::mem::swap(&mut waiters, &mut self.list);
        waiters
    }
}

/// The first index at which a key stands.
pub proof fn lemma_first_under(list: Seq<Waiter>, key: u64, at: int)
    requires
        0 <= at <= list.len(),
        at < list.len() ==> list[at].key == key,
        forall|k: int| 0 <= k < at ==> list[k].key != key,
    ensures
        first_under(list, key) == at,
    decreases list.len(),
{
    if list.len() > 0 {
        let front = list.drop_last();
        if at < list.len() - 1 {
            lemma_first_under(front, key, at);
        } else {
            lemma_first_under(front, key, list.len() - 1);
        }
    }
}

/// A list never holds more requests than its bound, and a request that finds no
/// room is counted and changes nothing else.
pub proof fn lemma_waiters_are_bounded(state: WaitState, op: u64, key: u64)
    requires
        state.list.len() <= state.bound,
    ensures
        state.registered(op, key).list.len() <= state.bound,
        state.list.len() == state.bound ==> state.registered(op, key) == (WaitState {
            saturation_total: bumped(state.saturation_total),
            ..state
        }),
        state.settled(key).list.len() <= state.list.len(),
{
    lemma_others_len(state.list, key);
}

proof fn lemma_others_len(list: Seq<Waiter>, key: u64)
    ensures
        others(list, key).len() + ops_under(list, key).len() == list.len(),
    decreases list.len(),
{
    if list.len() > 0 {
        lemma_others_len(list.drop_last(), key);
    }
}

/// Requests leave in the order in which they came: a request that waits longer
/// stands before one that came later, and settling takes exactly those under
/// the key.
pub proof fn lemma_waiters_leave_in_order(state: WaitState, op: u64, key: u64, other: u64)
    requires
        state.list.len() < state.bound,
    ensures
        ops_under(state.registered(op, key).list, key) == ops_under(state.list, key).push(op),
        other != key ==> ops_under(state.registered(op, key).list, other) == ops_under(
            state.list,
            other,
        ),
        ops_under(state.settled(key).list, key).len() == 0,
        other != key ==> ops_under(state.settled(key).list, other) == ops_under(
            state.list,
            other,
        ),
{
    let list = state.list;
    let waiter = Waiter { op, key };
    assert(list.push(waiter).drop_last() =~= list);
    lemma_settled_ops(list, key, other);
}

proof fn lemma_settled_ops(list: Seq<Waiter>, key: u64, other: u64)
    ensures
        ops_under(others(list, key), key).len() == 0,
        other != key ==> ops_under(others(list, key), other) == ops_under(list, other),
    decreases list.len(),
{
    if list.len() > 0 {
        lemma_settled_ops(list.drop_last(), key, other);
        let front = others(list.drop_last(), key);
        if list.last().key != key {
            assert(front.push(list.last()).drop_last() =~= front);
        }
    }
}

/// A request that was taken off the list waits no more, and the others keep
/// their order.
pub proof fn lemma_cancelled_request_is_gone(list: Seq<Waiter>, op: u64)
    ensures
        forall|i: int| 0 <= i < without_op(list, op).len() ==> (#[trigger] without_op(list, op)[i]).op
            != op,
        (forall|i: int| 0 <= i < list.len() ==> (#[trigger] list[i]).op != op) ==> without_op(
            list,
            op,
        ) == list,
        without_op(list, op).len() <= list.len(),
    decreases list.len(),
{
    if list.len() > 0 {
        lemma_cancelled_request_is_gone(list.drop_last(), op);
        if forall|i: int| 0 <= i < list.len() ==> (#[trigger] list[i]).op != op {
            assert forall|i: int| 0 <= i < list.drop_last().len() implies (
            #[trigger] list.drop_last()[i]).op != op by {
                assert(list[i].op != op);
            }
            assert(list.last() == list[list.len() - 1]);
            assert(list.drop_last().push(list.last()) =~= list);
        }
    }
}

} // verus!
