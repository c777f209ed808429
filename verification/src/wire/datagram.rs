//! HTTP/3 datagrams: a flow identifier as a variable-length integer, then the
//! payload.

use vstd::prelude::*;

use crate::wire::capsule::copy_range;
use crate::wire::varint::{
    decode_varint, encode_varint, lemma_varint_round_trip, varint_bytes, varint_front, MAX_VARINT,
};

verus! {

/// How many bytes a datagram of the socket layer can have.
pub const MAX_DATAGRAM_SIZE: usize = 1500;

/// The bytes of a datagram on the flow `flow_id`.
pub open spec fn datagram_bytes(flow_id: u64, payload: Seq<u8>) -> Seq<u8> {
    varint_bytes(flow_id) + payload
}

/// The flow and the payload of a datagram, where its flow identifier is whole.
pub open spec fn split_bytes(bytes: Seq<u8>) -> Option<(u64, Seq<u8>)> {
    match varint_front(bytes) {
        Some((flow_id, size)) => Some((flow_id, bytes.skip(size as int))),
        None => None,
    }
}

/// The flow of a session's datagrams: the session's number among the
/// bidirectional streams of the client.
pub open spec fn session_flow_id(session_id: u64) -> u64 {
    session_id / 4
}

/// A datagram buffer of the socket layer.
#[verifier::external_type_specification]
#[verifier::external_body]
pub struct ExDgramBuffer(datagram_socket::DgramBuffer);

/// The bytes that a datagram buffer holds.
pub uninterp spec fn dgram_contents(buffer: datagram_socket::DgramBuffer) -> Seq<u8>;

/// `datagram_socket::DgramBuffer::from_slice`: a buffer that holds a copy of
/// `data`.
#[verifier::external_body]
fn dgram_from_slice(data: &[u8]) -> (buffer: datagram_socket::DgramBuffer)
    ensures
        dgram_contents(buffer) == data@,
{
    datagram_socket::DgramBuffer::from_slice(data)
}

/// `datagram_socket::DgramBuffer::as_slice`: the bytes that the buffer holds.
#[verifier::external_body]
fn dgram_as_slice(buffer: &datagram_socket::DgramBuffer) -> (data: &[u8])
    ensures
        data@ == dgram_contents(*buffer),
{
    buffer.as_slice()
}

/// `datagram_socket::DgramBuffer::spare_capacity`: how many more bytes the buffer can
/// hold without new memory. Nothing is claimed of the number, which is up to the
/// allocator.
#[verifier::external_body]
fn dgram_spare(buffer: &datagram_socket::DgramBuffer) -> (count: usize) {
    buffer.spare_capacity()
}

/// How much memory a datagram buffer keeps alive: what it holds, and what it could
/// hold besides, which is up to the allocator. Bytes in front of its cursor are not
/// counted.
pub fn dgram_allocation(buffer: &datagram_socket::DgramBuffer) -> (bytes: usize)
    ensures
        dgram_contents(*buffer).len() <= bytes,
{
    let held: usize = dgram_as_slice(buffer).len();
    match held.checked_add(dgram_spare(buffer)) {
        Some(sum) => sum,
        None => usize::MAX,
    }
}

/// A datagram buffer with a copy of `data`.
pub fn dgram_buf(data: &[u8]) -> (buffer: datagram_socket::DgramBuffer)
    ensures
        dgram_contents(buffer) == data@,
{
    dgram_from_slice(data)
}

/// The bytes of a datagram buffer, as a vector of their own.
pub fn dgram_payload(buffer: &datagram_socket::DgramBuffer) -> (data: Vec<u8>)
    ensures
        data@ == dgram_contents(*buffer),
{
    let mut data: Vec<u8> = Vec::new();
    data.extend_from_slice(dgram_as_slice(buffer));
    assert(data@ == dgram_contents(*buffer));
    data
}

/// Writes a datagram on the flow `flow_id`.
pub fn encode_datagram(flow_id: u64, payload: &[u8]) -> (bytes: Vec<u8>)
    requires
        flow_id <= MAX_VARINT,
    ensures
        bytes@ == datagram_bytes(flow_id, payload@),
{
    let mut bytes: Vec<u8> = Vec::new();
    encode_varint(flow_id, &mut bytes);
    bytes.extend_from_slice(payload);
    assert(bytes@ == datagram_bytes(flow_id, payload@));
    bytes
}

/// Takes a datagram apart.
pub fn decode_datagram(bytes: &Vec<u8>) -> (parts: Option<(u64, Vec<u8>)>)
    ensures
        match split_bytes(bytes@) {
            Some((flow_id, payload)) => parts matches Some((f, p)) && f == flow_id && p@ == payload,
            None => parts is None,
        },
{
    assert(bytes@.skip(0) == bytes@);
    match decode_varint(bytes, 0) {
        Some((flow_id, start)) => {
            let payload = copy_range(bytes, start, bytes.len());
            assert(payload@ == bytes@.skip(start as int));
            Some((flow_id, payload))
        },
        None => None,
    }
}

/// A datagram is taken apart into what it was made of.
pub proof fn lemma_datagram_round_trip(flow_id: u64, payload: Seq<u8>)
    requires
        flow_id <= MAX_VARINT,
    ensures
        split_bytes(datagram_bytes(flow_id, payload)) == Some((flow_id, payload)),
{
    lemma_varint_round_trip(flow_id, payload);
    assert(datagram_bytes(flow_id, payload).skip(varint_bytes(flow_id).len() as int) == payload);
}

/// Two sessions of a client never share a flow.
pub proof fn lemma_session_flows_are_distinct(a: u64, b: u64)
    requires
        a % 4 == 0,
        b % 4 == 0,
        session_flow_id(a) == session_flow_id(b),
    ensures
        a == b,
{
}

} // verus!
