//! What stands on the wire, byte by byte.

use vstd::prelude::*;
use vstd::utf8::valid_utf8;

use crate::wire::capsule::{close_capsule, scan_capsules, CapsuleScan};
use crate::wire::datagram::{datagram_bytes, split_bytes};
use crate::wire::stream_prefix::{
    prefix_bytes, stream_prefix, StreamPrefix, WebTransportStreamDirection,
};
use crate::wire::varint::{
    lemma_parts_of_a_number, lemma_varint_round_trip, varint_bytes, varint_front,
};

verus! {

/// The number that bytes spell in base 256, most significant first.
pub open spec fn number(bytes: Seq<u8>) -> int
    decreases bytes.len(),
{
    if bytes.len() == 0 {
        0
    } else {
        0x100 * number(bytes.drop_last()) + bytes.last()
    }
}

/// A number takes one, two, four or eight bytes, as few as it can: they spell it, with the
/// size in the two highest bits of the first.
pub proof fn lemma_numbers_are_as_short_as_they_can(value: u64)
    requires
        value < 0x4000_0000_0000_0000,
    ensures
        ({
            let bytes = varint_bytes(value);
            &&& value < 0x40 ==> bytes.len() == 1 && number(bytes) == value
            &&& 0x40 <= value < 0x4000 ==> bytes.len() == 2 && number(bytes) == 0x4000 + value
            &&& 0x4000 <= value < 0x4000_0000 ==> bytes.len() == 4 && number(bytes)
                == 0x8000_0000 + value
            &&& 0x4000_0000 <= value ==> bytes.len() == 8 && number(bytes)
                == 0xc000_0000_0000_0000 + value
        }),
{
    let v = value as int;
    let bytes = varint_bytes(value);
    lemma_parts_of_a_number(v);
    if value < 0x40 {
        lemma_next_byte(bytes, 1);
    } else if value < 0x4000 {
        lemma_next_byte(bytes, 1);
        lemma_next_byte(bytes, 2);
    } else if value < 0x4000_0000 {
        lemma_next_byte(bytes, 1);
        lemma_next_byte(bytes, 2);
        lemma_next_byte(bytes, 3);
        lemma_next_byte(bytes, 4);
    } else {
        lemma_next_byte(bytes, 1);
        lemma_next_byte(bytes, 2);
        lemma_next_byte(bytes, 3);
        lemma_next_byte(bytes, 4);
        lemma_next_byte(bytes, 5);
        lemma_next_byte(bytes, 6);
        lemma_next_byte(bytes, 7);
        lemma_next_byte(bytes, 8);
    }
    assert(bytes.take(0) =~= Seq::<u8>::empty());
    assert(bytes.take(bytes.len() as int) =~= bytes);
}

proof fn lemma_next_byte(bytes: Seq<u8>, at: int)
    requires
        0 < at <= bytes.len(),
    ensures
        number(bytes.take(at)) == 0x100 * number(bytes.take(at - 1)) + bytes[at - 1],
{
    assert(bytes.take(at).drop_last() =~= bytes.take(at - 1));
}

proof fn lemma_spelled(bytes: Seq<u8>)
    requires
        bytes.len() > 0,
    ensures
        number(bytes) == 0x100 * number(bytes.drop_last()) + bytes[bytes.len() - 1],
        forall|i: int|
            0 <= i < bytes.len() - 1 ==> #[trigger] bytes.drop_last()[i] == bytes[i],
        bytes.len() == 1 ==> number(bytes.drop_last()) == 0,
{
}

/// What opens a stream of a session, a datagram of a flow and a close are the numbers that
/// say so: 0x41 or 0x54 and the session, the flow, and 0x2843 with the length of a code of
/// four bytes and a text.
pub proof fn lemma_openings_are_numbers(
    session_id: u64,
    flow_id: u64,
    payload: Seq<u8>,
    error_code: u32,
    message: Seq<u8>,
)
    requires
        message.len() <= 1024,
    ensures
        prefix_bytes(WebTransportStreamDirection::Bidi.signal_value(), session_id) == seq![
            0x40u8,
            0x41u8,
        ] + varint_bytes(session_id),
        prefix_bytes(WebTransportStreamDirection::Uni.signal_value(), session_id) == seq![
            0x40u8,
            0x54u8,
        ] + varint_bytes(session_id),
        datagram_bytes(flow_id, payload) == varint_bytes(flow_id) + payload,
        exists|code: Seq<u8>| code.len() == 4 && #[trigger] number(code) == error_code
            && close_capsule(error_code, message) == seq![0x68u8, 0x43u8] + varint_bytes(
            (4 + message.len()) as u64,
        ) + code + message,
{
    assert(varint_bytes(0x41) =~= seq![0x40u8, 0x41u8]);
    assert(varint_bytes(0x54) =~= seq![0x40u8, 0x54u8]);
    assert(varint_bytes(0x2843) =~= seq![0x68u8, 0x43u8]);
    let e = error_code as int;
    let code = seq![
        (e / 0x100_0000) as u8,
        (e / 0x1_0000 % 0x100) as u8,
        (e / 0x100 % 0x100) as u8,
        (e % 0x100) as u8,
    ];
    lemma_spelled(code);
    lemma_spelled(code.drop_last());
    lemma_spelled(code.drop_last().drop_last());
    lemma_spelled(code.drop_last().drop_last().drop_last());
    assert(number(code) == error_code);
}

/// A datagram is read by the number at its front; what follows is its payload.
pub proof fn lemma_datagram_is_split_behind_its_number(bytes: Seq<u8>)
    ensures
        split_bytes(bytes) is None <==> varint_front(bytes) is None,
        split_bytes(bytes) matches Some((flow_id, payload)) ==> (
        varint_front(bytes) matches Some((value, size)) && value == flow_id && payload
            == bytes.skip(size as int)),
{
}

/// A capsule of another kind is passed over with all of its bytes, and a close with a length
/// that none can have, or with a text that is none, breaks the format. What is not whole
/// waits.
pub proof fn lemma_capsules_are_read_one_by_one(
    kind: u64,
    body: Seq<u8>,
    rest: Seq<u8>,
)
    requires
        kind < 0x4000_0000_0000_0000,
        body.len() < 0x4000_0000_0000_0000,
    ensures
        ({
            let front = varint_bytes(kind) + varint_bytes(body.len() as u64);
            let scan = scan_capsules(front + body + rest);
            let is_close = kind == 0x2843;
            let length = 4 <= body.len() <= 1028;
            &&& !is_close ==> scan == scan_capsules(rest)
            &&& is_close && !length ==> scan is Malformed
            &&& is_close && length && !valid_utf8(body.skip(4)) ==> scan is Malformed
            &&& is_close && length && valid_utf8(body.skip(4)) ==> scan is Closed
            &&& scan_capsules(Seq::empty()) == (CapsuleScan::Waiting { rest: Seq::empty() })
        }),
{
    let len = body.len() as u64;
    let front = varint_bytes(kind) + varint_bytes(len);
    let tail = varint_bytes(len) + (body + rest);
    let all = front + body + rest;
    assert(all =~= varint_bytes(kind) + tail);
    lemma_varint_round_trip(kind, tail);
    lemma_varint_round_trip(len, body + rest);
    let first = varint_bytes(kind).len() as int;
    let second = varint_bytes(len).len() as int;
    assert(all.skip(first) =~= tail);
    let end = first + second + body.len();
    assert(all.skip(end) =~= rest);
    if body.len() >= 4 {
        assert(all.subrange(first + second + 4, end) =~= body.skip(4));
    }
    reveal_with_fuel(scan_capsules, 2);
}

/// A stream says nothing of its owner until both numbers at its front are there, and is
/// somebody else's if the first is not the one of its direction.
pub proof fn lemma_stream_names_its_owner(
    direction: WebTransportStreamDirection,
    bytes: Seq<u8>,
)
    ensures
        ({
            let signal: u64 = if direction == WebTransportStreamDirection::Bidi {
                0x41
            } else {
                0x54
            };
            match varint_front(bytes) {
                None => stream_prefix(direction, bytes) == StreamPrefix::Incomplete,
                Some((value, first)) => if value != signal {
                    stream_prefix(direction, bytes) == StreamPrefix::Foreign
                } else {
                    match varint_front(bytes.skip(first as int)) {
                        None => stream_prefix(direction, bytes) == StreamPrefix::Incomplete,
                        Some((session_id, second)) => stream_prefix(direction, bytes) == (
                        StreamPrefix::Complete {
                            session_id,
                            prefix_len: (first + second) as usize,
                        }),
                    }
                },
            }
        }),
{
}

} // verus!
