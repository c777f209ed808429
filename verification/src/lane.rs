//! Bounded command and event lanes.
//!
//! Admission, order and closing are those of a bounded `tokio` channel. The
//! channel carries slot numbers; the items themselves wait in the slots.

use vstd::prelude::*;

verus! {

/// The largest bound that a lane can have.
pub open spec fn max_lane_capacity() -> int {
    usize::MAX as int / 8
}

/// Both ends of a bounded `tokio::sync::mpsc` channel of slot numbers.
#[verifier::external_body]
pub struct SlotChannel {
    sender: tokio::sync::mpsc::Sender<u64>,
    receiver: tokio::sync::mpsc::Receiver<u64>,
}

/// The slot numbers that were sent and not yet received, oldest first.
pub uninterp spec fn channel_slots(channel: SlotChannel) -> Seq<u64>;

/// The bound that the channel was made with.
pub uninterp spec fn channel_bound(channel: SlotChannel) -> nat;

/// Whether the receiving end still admits messages.
pub uninterp spec fn channel_open(channel: SlotChannel) -> bool;

/// What became of a message offered to a channel.
#[derive(Clone, Copy, Debug, PartialEq, Eq, Structural)]
pub enum ChannelSend {
    /// The message waits in the channel.
    Sent,
    /// The channel holds as many messages as its bound allows.
    Full,
    /// The receiving end is closed.
    Closed,
}

/// `tokio::sync::mpsc::channel`: an open, empty channel with the given bound.
/// It panics on a bound of zero or above the largest number of permits.
#[verifier::external_body]
fn open_channel(bound: usize) -> (channel: SlotChannel)
    requires
        0 < bound <= max_lane_capacity(),
    ensures
        channel_slots(channel) == Seq::<u64>::empty(),
        channel_bound(channel) == bound,
        channel_open(channel),
{
    let (sender, receiver) = tokio::sync::mpsc::channel(bound);
    SlotChannel { sender, receiver }
}

/// `tokio::sync::mpsc::Sender::try_send`: refuses a closed channel first, a
/// full one next, and otherwise puts the message behind the others.
#[verifier::external_body]
fn channel_try_send(channel: &mut SlotChannel, slot: u64) -> (sent: ChannelSend)
    ensures
        channel_bound(*final(channel)) == channel_bound(*old(channel)),
        channel_open(*final(channel)) == channel_open(*old(channel)),
        !channel_open(*old(channel)) ==> sent == ChannelSend::Closed,
        channel_open(*old(channel)) && channel_slots(*old(channel)).len() >= channel_bound(
            *old(channel),
        ) ==> sent == ChannelSend::Full,
        channel_open(*old(channel)) && channel_slots(*old(channel)).len() < channel_bound(
            *old(channel),
        ) ==> sent == ChannelSend::Sent,
        channel_slots(*final(channel)) == (if sent == ChannelSend::Sent {
            channel_slots(*old(channel)).push(slot)
        } else {
            channel_slots(*old(channel))
        }),
{
    match channel.sender.try_send(slot) {
        Ok(()) => ChannelSend::Sent,
        Err(tokio::sync::mpsc::error::TrySendError::Full(_)) => ChannelSend::Full,
        Err(tokio::sync::mpsc::error::TrySendError::Closed(_)) => ChannelSend::Closed,
    }
}

/// `tokio::sync::mpsc::Receiver::try_recv`: takes the oldest message, also
/// after the channel was closed, and fails only where none is left.
#[verifier::external_body]
fn channel_try_recv(channel: &mut SlotChannel) -> (slot: Option<u64>)
    ensures
        channel_bound(*final(channel)) == channel_bound(*old(channel)),
        channel_open(*final(channel)) == channel_open(*old(channel)),
        channel_slots(*old(channel)).len() == 0 ==> slot is None,
        channel_slots(*old(channel)).len() > 0 ==> slot == Some(channel_slots(*old(channel))[0]),
        channel_slots(*final(channel)) == (if channel_slots(*old(channel)).len() > 0 {
            channel_slots(*old(channel)).skip(1)
        } else {
            channel_slots(*old(channel))
        }),
{
    channel.receiver.try_recv().ok()
}

/// `tokio::sync::mpsc::Receiver::close`: admits nothing more and keeps what
/// is waiting.
#[verifier::external_body]
fn channel_close(channel: &mut SlotChannel)
    ensures
        channel_bound(*final(channel)) == channel_bound(*old(channel)),
        channel_slots(*final(channel)) == channel_slots(*old(channel)),
        !channel_open(*final(channel)),
{
    channel.receiver.close();
}

/// `tokio::sync::mpsc::Receiver::len`: how many messages are waiting.
#[verifier::external_body]
fn channel_len(channel: &SlotChannel) -> (count: usize)
    ensures
        count == channel_slots(*channel).len(),
{
    channel.receiver.len()
}

/// `tokio::sync::mpsc::Sender::max_capacity`: the bound of the channel.
#[verifier::external_body]
fn channel_max_capacity(channel: &SlotChannel) -> (bound: usize)
    ensures
        bound == channel_bound(*channel),
{
    channel.sender.max_capacity()
}

/// `tokio::sync::mpsc::Sender::is_closed`: whether the receiving end was
/// closed.
#[verifier::external_body]
fn channel_is_closed(channel: &SlotChannel) -> (closed: bool)
    ensures
        closed == !channel_open(*channel),
{
    channel.sender.is_closed()
}

/// Why a lane did not take an item. The item comes back with the answer.
#[derive(Debug)]
pub enum LaneError<T> {
    /// The lane holds as many items as its capacity.
    Full(T),
    /// The receiving side is gone.
    Closed(T),
}

/// A bounded first-in first-out lane.
pub struct Lane<T> {
    channel: SlotChannel,
    slots: Vec<Option<T>>,
}

/// What a lane is: the items that wait in it, its capacity, and whether it
/// admits more.
pub ghost struct LaneState<T> {
    pub items: Seq<T>,
    pub capacity: nat,
    pub open: bool,
}

impl<T> LaneState<T> {
    /// A lane that was just made.
    pub open spec fn fresh(capacity: nat) -> Self {
        LaneState { items: Seq::empty(), capacity, open: true }
    }

    /// Whether the lane takes an item now.
    pub open spec fn admits(self) -> bool {
        self.open && self.items.len() < self.capacity
    }
}

impl<T> View for Lane<T> {
    type V = LaneState<T>;

    closed spec fn view(&self) -> LaneState<T> {
        let numbers = channel_slots(self.channel);
        LaneState {
            items: Seq::new(numbers.len(), |i: int| self.slots@[numbers[i] as int]->Some_0),
            capacity: channel_bound(self.channel),
            open: channel_open(self.channel),
        }
    }
}

impl<T> Lane<T> {
    /// Every number in the channel names a filled slot of its own.
    pub closed spec fn wf(self) -> bool {
        let numbers = channel_slots(self.channel);
        &&& forall|i: int|
            0 <= i < numbers.len() ==> numbers[i] < self.slots@.len()
                && self.slots@[numbers[i] as int] is Some
        &&& forall|i: int, j: int|
            0 <= i < j < numbers.len() ==> numbers[i] != numbers[j]
    }

    /// An empty lane for `capacity` items.
    pub fn new(capacity: usize) -> (lane: Self)
        requires
            0 < capacity <= max_lane_capacity(),
        ensures
            lane.wf(),
            lane@ == LaneState::<T>::fresh(capacity as nat),
    {
        let lane = Lane { channel: open_channel(capacity), slots: Vec::new() };
        assert(lane@.items =~= Seq::<T>::empty());
        lane
    }

    /// How many items wait.
    pub fn len(&self) -> (count: usize)
        ensures
            count == self@.items.len(),
    {
        channel_len(&self.channel)
    }

    /// How many items can wait.
    pub fn capacity(&self) -> (bound: usize)
        ensures
            bound == self@.capacity,
    {
        channel_max_capacity(&self.channel)
    }

    /// Whether the receiving side is gone.
    pub fn is_closed(&self) -> (closed: bool)
        ensures
            closed == !self@.open,
    {
        channel_is_closed(&self.channel)
    }

    fn free_slot(&mut self) -> (slot: usize)
        requires
            old(self).wf(),
        ensures
            final(self).wf(),
            final(self)@ == old(self)@,
            slot < final(self).slots@.len(),
            final(self).slots@[slot as int] is None,
            final(self).channel == old(self).channel,
    {
        let mut i: usize = 0;
        while i < self.slots.len()
            invariant
                i <= self.slots@.len(),
                *self == *old(self),
                self.wf(),
            decreases self.slots@.len() - i,
        {
            if self.slots[i].is_none() {
                return i;
            }
            i += 1;
        }
        self.slots.push(None);
        assert(self@.items =~= old(self)@.items);
        i
    }

    /// Offers an item to the lane. A closed lane and a full one hand it back.
    pub fn try_send(&mut self, item: T) -> (sent: Result<(), LaneError<T>>)
        requires
            old(self).wf(),
        ensures
            final(self).wf(),
            sent == (if !old(self)@.open {
                Err(LaneError::Closed(item))
            } else if !old(self)@.admits() {
                Err(LaneError::Full(item))
            } else {
                Ok(())
            }),
            final(self)@ == (if old(self)@.admits() {
                (LaneState { items: old(self)@.items.push(item), ..old(self)@ })
            } else {
                old(self)@
            }),
    {
        let slot: usize = self.free_slot();
        let ghost numbers = channel_slots(self.channel);
        let ghost before = self.slots@;
        match channel_try_send(&mut self.channel, slot as u64) {
            ChannelSend::Sent => {
                self.slots.set(slot, Some(item));
                proof {
                    assert forall|i: int| 0 <= i < numbers.len() implies numbers[i] != slot by {
                        assert(before[numbers[i] as int] is Some);
                    }
                    let now = channel_slots(self.channel);
                    assert(now == numbers.push(slot as u64));
                    assert forall|i: int| 0 <= i < now.len() implies now[i] < self.slots@.len()
                        && self.slots@[now[i] as int] is Some by {
                        if i < numbers.len() {
                            assert(now[i] == numbers[i]);
                        }
                    }
                    assert(self@.items =~= old(self)@.items.push(item));
                }
                Ok(())
            },
            ChannelSend::Full => {
                assert(self@.items =~= old(self)@.items);
                Err(LaneError::Full(item))
            },
            ChannelSend::Closed => {
                assert(self@.items =~= old(self)@.items);
                Err(LaneError::Closed(item))
            },
        }
    }

    /// Takes the oldest item.
    pub fn try_recv(&mut self) -> (item: Option<T>)
        requires
            old(self).wf(),
        ensures
            final(self).wf(),
            match item {
                Some(first) => old(self)@.items.len() > 0 && first == old(self)@.items[0]
                    && final(self)@ == (LaneState {
                    items: old(self)@.items.skip(1),
                    ..old(self)@
                }),
                None => old(self)@.items.len() == 0 && final(self)@ == old(self)@,
            },
    {
        let ghost numbers = channel_slots(self.channel);
        let ghost before = self.slots@;
        match channel_try_recv(&mut self.channel) {
            Some(slot) => {
                let mut item: Option<T> = None;
                assert(slot == numbers[0] && slot < self.slots.len());
                let at: usize = slot as usize;
                assert(at == slot);
                std::mem::swap(&mut item, &mut self.slots[at]);
                assert(self.slots@ == before.update(at as int, None));
                proof {
                    let now = channel_slots(self.channel);
                    assert(now == numbers.skip(1));
                    assert forall|i: int| 0 <= i < now.len() implies now[i] < self.slots@.len()
                        && self.slots@[now[i] as int] is Some && self.slots@[now[i] as int]
                        == before[now[i] as int] by {
                        assert(now[i] == numbers[i + 1] && numbers[i + 1] != numbers[0]);
                    }
                    assert(self@.items =~= old(self)@.items.skip(1));
                }
                item
            },
            None => {
                assert(self@.items =~= old(self)@.items);
                None
            },
        }
    }

    /// Admits nothing more. What waits can still be taken.
    pub fn close(&mut self)
        requires
            old(self).wf(),
        ensures
            final(self).wf(),
            final(self)@ == (LaneState { open: false, ..old(self)@ }),
    {
        channel_close(&mut self.channel);
        assert(self@.items =~= old(self)@.items);
    }
}

/// An item taken out of a lane is the one that entered first.
pub proof fn lemma_lane_is_first_in_first_out<T>(lane: LaneState<T>, item: T)
    requires
        lane.admits(),
    ensures
        lane.items.len() == 0 ==> lane.items.push(item)[0] == item,
        lane.items.len() > 0 ==> lane.items.push(item)[0] == lane.items[0],
        lane.items.push(item).len() <= lane.capacity,
{
}

} // verus!
