//! Multicast channels that can carry HTTP/3 datagrams.

use vstd::prelude::*;

use crate::headers::{copy_bytes, same_bytes};
use crate::transport::byte_values;

verus! {

/// A peer's acknowledgement of packets of a multicast channel.
#[derive(Debug)]
pub struct MulticastAck {
    pub channel_id: Vec<u8>,
    pub largest_acknowledged: u64,
    pub ack_delay: u64,
    pub first_ack_range: u64,
    /// Gaps and lengths of the further ranges.
    pub ack_ranges: Vec<(u64, u64)>,
    /// How many packets arrived with each of the three congestion marks.
    pub ecn_counts: Option<(u64, u64, u64)>,
}

/// An acknowledgement of the first packet of a channel.
pub fn multicast_ack(channel_id: &[u8]) -> (ack: MulticastAck)
    ensures
        ack.channel_id@ == channel_id@,
        ack.largest_acknowledged == 0,
        ack.ack_delay == 0,
        ack.first_ack_range == 0,
        ack.ack_ranges@ == Seq::<(u64, u64)>::empty(),
        ack.ecn_counts is None,
{
    MulticastAck {
        channel_id: copy_bytes(channel_id),
        largest_acknowledged: 0,
        ack_delay: 0,
        first_ack_range: 0,
        ack_ranges: Vec::new(),
        ecn_counts: None,
    }
}

/// The multicast channels of a connection.
pub struct Multicast {
    default_channel: Option<Vec<u8>>,
    live: Vec<Vec<u8>>,
    sent: Vec<Vec<u8>>,
}

/// The value of a [`Multicast`].
pub ghost struct MulticastState {
    /// The channel for datagrams where none is configured.
    pub default_channel: Option<Seq<u8>>,
    /// The channels that the peer is known to receive.
    pub live: Seq<Seq<u8>>,
    /// The datagrams that left on a channel.
    pub sent: Seq<Seq<u8>>,
}

impl MulticastState {
    /// The channel for datagrams.
    pub open spec fn chosen(self, configured: Option<Seq<u8>>) -> Option<Seq<u8>> {
        match configured {
            Some(channel_id) => Some(channel_id),
            None => self.default_channel,
        }
    }

    /// Whether datagrams leave on a multicast channel: there is one for them,
    /// and the peer is known to receive it.
    pub open spec fn carries(self, configured: Option<Seq<u8>>) -> bool {
        match self.chosen(configured) {
            Some(channel_id) => self.live.contains(channel_id),
            None => false,
        }
    }

    /// The state after the peer acknowledged packets of a channel.
    pub open spec fn acknowledged(self, channel_id: Seq<u8>) -> MulticastState {
        if self.live.contains(channel_id) {
            self
        } else {
            MulticastState { live: self.live.push(channel_id), ..self }
        }
    }
}

/// The value of an optional byte string.
pub open spec fn optional_bytes(bytes: Option<Vec<u8>>) -> Option<Seq<u8>> {
    match bytes {
        Some(b) => Some(b@),
        None => None,
    }
}

impl View for Multicast {
    type V = MulticastState;

    closed spec fn view(&self) -> MulticastState {
        MulticastState {
            default_channel: optional_bytes(self.default_channel),
            live: byte_values(self.live@),
            sent: byte_values(self.sent@),
        }
    }
}

impl Multicast {
    /// No channels.
    pub fn new() -> (multicast: Self)
        ensures
            multicast@ == (MulticastState {
                default_channel: None,
                live: Seq::empty(),
                sent: Seq::empty(),
            }),
    {
        let multicast = Multicast { default_channel: None, live: Vec::new(), sent: Vec::new() };
        assert(multicast@.live =~= Seq::empty());
        assert(multicast@.sent =~= Seq::empty());
        multicast
    }

    /// Chooses the channel for datagrams where none is configured.
    pub fn set_default(&mut self, channel_id: Option<Vec<u8>>)
        ensures
            final(self)@ == (MulticastState {
                default_channel: optional_bytes(channel_id),
                ..old(self)@
            }),
    {
        self.default_channel = channel_id;
    }

    fn is_live(&self, channel_id: &[u8]) -> (live: bool)
        ensures
            live == self@.live.contains(channel_id@),
    {
        let ghost values = byte_values(self.live@);
        let mut i: usize = 0;
        while i < self.live.len()
            invariant
                i <= self.live@.len(),
                values == byte_values(self.live@),
                forall|k: int| 0 <= k < i ==> #[trigger] values[k] != channel_id@,
            decreases self.live@.len() - i,
        {
            if same_bytes(self.live[i].as_slice(), channel_id) {
                assert(values[i as int] == channel_id@);
                return true;
            }
            assert(values[i as int] != channel_id@);
            i += 1;
        }
        false
    }

    /// The peer acknowledged packets of a channel.
    pub fn process_ack(&mut self, ack: MulticastAck)
        ensures
            final(self)@ == old(self)@.acknowledged(ack.channel_id@),
    {
        if !self.is_live(ack.channel_id.as_slice()) {
            let ghost before = self.live@;
            self.live.push(ack.channel_id);
            assert(byte_values(self.live@) =~= byte_values(before).push(ack.channel_id@));
        }
    }

    /// Whether datagrams leave on a multicast channel.
    pub fn takes_datagrams(&self, configured: &Option<Vec<u8>>) -> (takes: bool)
        ensures
            takes == self@.carries(optional_bytes(*configured)),
    {
        match configured {
            Some(channel_id) => self.is_live(channel_id.as_slice()),
            None => match &self.default_channel {
                Some(channel_id) => self.is_live(channel_id.as_slice()),
                None => false,
            },
        }
    }

    /// Sends a datagram on the channel.
    pub fn send(&mut self, data: Vec<u8>)
        ensures
            final(self)@ == (MulticastState { sent: old(self)@.sent.push(data@), ..old(self)@ }),
    {
        let ghost before = self.sent@;
        self.sent.push(data);
        assert(byte_values(self.sent@) =~= byte_values(before).push(data@));
    }
}

/// A channel carries datagrams from its first acknowledgement on.
pub proof fn lemma_acknowledged_channel_carries(state: MulticastState, channel_id: Seq<u8>)
    ensures
        state.acknowledged(channel_id).carries(Some(channel_id)),
        (MulticastState { default_channel: Some(channel_id), ..state }).acknowledged(
            channel_id,
        ).carries(None),
        forall|other: Seq<u8>|
            #[trigger] state.carries(Some(other)) ==> state.acknowledged(channel_id).carries(
                Some(other),
            ),
{
    let with_default = MulticastState { default_channel: Some(channel_id), ..state };
    assert(state.live.push(channel_id).last() == channel_id);
    assert(with_default.live.push(channel_id).last() == channel_id);
    assert forall|other: Seq<u8>| #[trigger]
        state.carries(Some(other)) implies state.acknowledged(channel_id).carries(Some(other)) by {
        let i = choose|i: int| 0 <= i < state.live.len() && state.live[i] == other;
        assert(state.live.push(channel_id)[i] == other);
    }
}

} // verus!
