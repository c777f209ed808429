//! The bytes that bind a QUIC stream to a WebTransport session: a signal
//! value, then the session identifier, both as variable-length integers.

use vstd::prelude::*;

use crate::wire::varint::{
    decode_varint, encode_varint, lemma_varint_front_is_stable, lemma_varint_prefix_is_incomplete,
    lemma_varint_round_trip, varint_bytes, varint_front, varint_size, MAX_VARINT,
};

verus! {

/// The signal value that opens a bidirectional WebTransport stream.
pub const WEBTRANSPORT_BIDI_STREAM_TYPE: u64 = 0x41;

/// The stream type that opens a unidirectional WebTransport stream.
pub const WEBTRANSPORT_UNI_STREAM_TYPE: u64 = 0x54;

/// Whether both ends of a stream send or only the one that opened it.
#[derive(Clone, Copy, Debug, PartialEq, Eq, Structural)]
pub enum WebTransportStreamDirection {
    Bidi,
    Uni,
}

impl WebTransportStreamDirection {
    /// The value that opens a WebTransport stream of this direction.
    pub open spec fn signal_value(self) -> u64 {
        match self {
            WebTransportStreamDirection::Bidi => WEBTRANSPORT_BIDI_STREAM_TYPE,
            WebTransportStreamDirection::Uni => WEBTRANSPORT_UNI_STREAM_TYPE,
        }
    }

    /// The value that opens a WebTransport stream of this direction.
    pub fn signal(self) -> (value: u64)
        ensures
            value == self.signal_value(),
    {
        match self {
            WebTransportStreamDirection::Bidi => WEBTRANSPORT_BIDI_STREAM_TYPE,
            WebTransportStreamDirection::Uni => WEBTRANSPORT_UNI_STREAM_TYPE,
        }
    }
}

/// The bytes of a stream prefix.
pub open spec fn prefix_bytes(signal: u64, session_id: u64) -> Seq<u8> {
    varint_bytes(signal) + varint_bytes(session_id)
}

/// What the front of a stream says about its owner.
#[derive(Clone, Copy, Debug, PartialEq, Eq, Structural)]
pub enum StreamPrefix {
    /// The prefix has not arrived whole.
    Incomplete,
    /// The stream does not open with the WebTransport signal.
    Foreign,
    /// The stream belongs to `session_id`, and its payload starts behind
    /// `prefix_len` bytes.
    Complete { session_id: u64, prefix_len: usize },
}

/// What the front of `bytes` says, on a stream of the given direction.
pub open spec fn stream_prefix(direction: WebTransportStreamDirection, bytes: Seq<u8>) -> StreamPrefix {
    match varint_front(bytes) {
        None => StreamPrefix::Incomplete,
        Some((signal, first)) => if signal != direction.signal_value() {
            StreamPrefix::Foreign
        } else {
            match varint_front(bytes.skip(first as int)) {
                None => StreamPrefix::Incomplete,
                Some((session_id, second)) => StreamPrefix::Complete {
                    session_id,
                    prefix_len: (first + second) as usize,
                },
            }
        },
    }
}

/// The prefix and the payload of a WebTransport stream.
pub fn webtransport_stream_data(stream_type: u64, session_id: u64, payload: &[u8]) -> (data: Vec<u8>)
    requires
        stream_type <= MAX_VARINT,
        session_id <= MAX_VARINT,
    ensures
        data@ == prefix_bytes(stream_type, session_id) + payload@,
{
    let mut data: Vec<u8> = Vec::new();
    encode_varint(stream_type, &mut data);
    encode_varint(session_id, &mut data);
    data.extend_from_slice(payload);
    assert(data@ == prefix_bytes(stream_type, session_id) + payload@);
    data
}

/// Reads the front of a stream.
pub fn read_stream_prefix(direction: WebTransportStreamDirection, bytes: &Vec<u8>) -> (prefix:
    StreamPrefix)
    ensures
        prefix == stream_prefix(direction, bytes@),
        prefix matches StreamPrefix::Complete { prefix_len, .. } ==> prefix_len <= bytes@.len(),
{
    assert(bytes@.skip(0) == bytes@);
    match decode_varint(bytes, 0) {
        None => StreamPrefix::Incomplete,
        Some((signal, first)) => {
            if signal != direction.signal() {
                return StreamPrefix::Foreign;
            }
            match decode_varint(bytes, first) {
                None => StreamPrefix::Incomplete,
                Some((session_id, prefix_len)) => StreamPrefix::Complete { session_id, prefix_len },
            }
        },
    }
}

/// A written prefix is read back with its session and its own length, whatever
/// payload follows.
pub proof fn lemma_stream_prefix_round_trip(
    direction: WebTransportStreamDirection,
    session_id: u64,
    payload: Seq<u8>,
)
    requires
        session_id <= MAX_VARINT,
    ensures
        stream_prefix(direction, prefix_bytes(direction.signal_value(), session_id) + payload)
            == (StreamPrefix::Complete {
            session_id,
            prefix_len: prefix_bytes(direction.signal_value(), session_id).len() as usize,
        }),
        prefix_bytes(direction.signal_value(), session_id).len() == 2 + varint_size(session_id),
{
    let signal = direction.signal_value();
    let tail = varint_bytes(session_id) + payload;
    let all = prefix_bytes(signal, session_id) + payload;
    lemma_varint_round_trip(signal, tail);
    lemma_varint_round_trip(session_id, payload);
    assert(all == varint_bytes(signal) + tail);
    assert(all.skip(2) == tail);
}

/// No proper part of a prefix gives a stream an owner.
pub proof fn lemma_cut_stream_prefix_is_incomplete(
    direction: WebTransportStreamDirection,
    session_id: u64,
    cut: int,
)
    requires
        session_id <= MAX_VARINT,
        0 <= cut < prefix_bytes(direction.signal_value(), session_id).len(),
    ensures
        stream_prefix(
            direction,
            prefix_bytes(direction.signal_value(), session_id).take(cut),
        ) == StreamPrefix::Incomplete,
{
    let signal = direction.signal_value();
    let whole = prefix_bytes(signal, session_id);
    let front = whole.take(cut);
    if cut < 2 {
        lemma_varint_prefix_is_incomplete(signal, cut);
        assert(front == varint_bytes(signal).take(cut));
    } else {
        let rest = varint_bytes(session_id).take(cut - 2);
        lemma_varint_round_trip(signal, rest);
        lemma_varint_round_trip(session_id, Seq::empty());
        lemma_varint_prefix_is_incomplete(session_id, cut - 2);
        assert(front == varint_bytes(signal) + rest);
        assert(front.skip(2) == rest);
    }
}

/// Once the front of a stream names its owner, later bytes do not change it.
pub proof fn lemma_stream_prefix_is_stable(
    direction: WebTransportStreamDirection,
    bytes: Seq<u8>,
    more: Seq<u8>,
)
    requires
        stream_prefix(direction, bytes) != StreamPrefix::Incomplete,
    ensures
        stream_prefix(direction, bytes + more) == stream_prefix(direction, bytes),
{
    lemma_varint_front_is_stable(bytes, more);
    let first = varint_front(bytes)->Some_0.1 as int;
    if varint_front(bytes)->Some_0.0 == direction.signal_value() {
        lemma_varint_front_is_stable(bytes.skip(first), more);
        assert((bytes + more).skip(first) == bytes.skip(first) + more);
    }
}

} // verus!
