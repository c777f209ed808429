//! QUIC variable-length integers.

use vstd::prelude::*;

verus! {

/// The largest value that a variable-length integer can carry.
pub const MAX_VARINT: u64 = 4_611_686_018_427_387_903;

/// How many bytes the shortest encoding of `value` takes.
pub open spec fn varint_size(value: u64) -> nat {
    if value <= 63 {
        1
    } else if value <= 16_383 {
        2
    } else if value <= 1_073_741_823 {
        4
    } else {
        8
    }
}

/// The shortest encoding of `value`: its big-endian bytes, with the base-two
/// logarithm of their number in the two highest bits of the first byte.
pub open spec fn varint_bytes(value: u64) -> Seq<u8> {
    let v = value as int;
    if value <= 63 {
        seq![v as u8]
    } else if value <= 16_383 {
        seq![(0x40 + v / 0x100) as u8, (v % 0x100) as u8]
    } else if value <= 1_073_741_823 {
        seq![
            (0x80 + v / 0x100_0000) as u8,
            (v / 0x1_0000 % 0x100) as u8,
            (v / 0x100 % 0x100) as u8,
            (v % 0x100) as u8,
        ]
    } else {
        seq![
            (0xc0 + v / 0x100_0000_0000_0000) as u8,
            (v / 0x1_0000_0000_0000 % 0x100) as u8,
            (v / 0x100_0000_0000 % 0x100) as u8,
            (v / 0x1_0000_0000 % 0x100) as u8,
            (v / 0x100_0000 % 0x100) as u8,
            (v / 0x1_0000 % 0x100) as u8,
            (v / 0x100 % 0x100) as u8,
            (v % 0x100) as u8,
        ]
    }
}

/// How many bytes an encoding that starts with `first` takes.
pub open spec fn varint_size_of(first: u8) -> nat {
    if first < 0x40 {
        1
    } else if first < 0x80 {
        2
    } else if first < 0xc0 {
        4
    } else {
        8
    }
}

/// The number that `bytes` spell in base 256, most significant byte first.
pub open spec fn big_endian(bytes: Seq<u8>) -> nat
    decreases bytes.len(),
{
    if bytes.len() == 0 {
        0
    } else {
        big_endian(bytes.drop_last()) * 0x100 + bytes.last() as nat
    }
}

/// The value at the front of `bytes` and the number of bytes it takes, or
/// nothing while the encoding is incomplete.
pub open spec fn varint_front(bytes: Seq<u8>) -> Option<(u64, nat)> {
    if bytes.len() == 0 {
        None
    } else if bytes.len() < varint_size_of(bytes[0]) {
        None
    } else {
        let size = varint_size_of(bytes[0]);
        Some((
            big_endian(bytes.take(size as int).update(0, (bytes[0] % 0x40) as u8)) as u64,
            size,
        ))
    }
}

/// `octets::OctetsMut::put_varint` into an empty buffer of eight bytes. It
/// writes the shortest encoding and moves the offset behind it. It panics on a
/// value above [`MAX_VARINT`].
#[verifier::external_body]
fn put_varint(value: u64) -> (bytes: Vec<u8>)
    requires
        value <= MAX_VARINT,
    ensures
        bytes@ == varint_bytes(value),
{
    let mut buf = [0u8; 8];
    let off = {
        let mut b = octets::OctetsMut::with_slice(&mut buf);
        b.put_varint(value).unwrap();
        b.off()
    };
    buf[..off].to_vec()
}

/// `octets::Octets::get_varint` at the start of `bytes`. It fails exactly when
/// the buffer is empty or ends before the encoding that its first byte
/// announces.
#[verifier::external_body]
fn get_varint(bytes: &[u8]) -> (front: Option<(u64, usize)>)
    ensures
        front is Some <==> varint_front(bytes@) is Some,
        front matches Some((value, size)) ==> varint_front(bytes@) == Some((value, size as nat)),
{
    let mut b = octets::Octets::with_slice(bytes);
    match b.get_varint() {
        Ok(value) => Some((value, b.off())),
        Err(_) => None,
    }
}

/// `octets::varint_len`. It panics on a value above [`MAX_VARINT`].
pub assume_specification[ octets::varint_len ](v: u64) -> (size: usize)
    requires
        v <= MAX_VARINT,
    ensures
        size == varint_size(v),
;

/// The size of the shortest encoding of `value`.
pub fn varint_len(value: u64) -> (size: usize)
    requires
        value <= MAX_VARINT,
    ensures
        size == varint_size(value),
        size == varint_bytes(value).len(),
{
    octets::varint_len(value)
}

/// Appends the shortest encoding of `value` to `out`.
pub fn encode_varint(value: u64, out: &mut Vec<u8>)
    requires
        value <= MAX_VARINT,
    ensures
        final(out)@ == old(out)@ + varint_bytes(value),
{
    let mut bytes = put_varint(value);
    out.append(&mut bytes);
}

/// Reads the variable-length integer that `bytes` holds from `start` on: the
/// value and the index behind it.
pub fn decode_varint(bytes: &Vec<u8>, start: usize) -> (front: Option<(u64, usize)>)
    requires
        start <= bytes@.len(),
    ensures
        match varint_front(bytes@.skip(start as int)) {
            Some((value, size)) => front == Some((value, (start + size) as usize)) && start + size
                <= bytes@.len(),
            None => front is None,
        },
{
    let rest = vstd::slice::slice_subrange(bytes.as_slice(), start, bytes.len());
    assert(rest@ == bytes@.skip(start as int));
    match get_varint(rest) {
        Some((value, size)) => Some((value, start + size)),
        None => None,
    }
}

proof fn lemma_big_endian_step(bytes: Seq<u8>, at: int)
    requires
        0 < at <= bytes.len(),
    ensures
        big_endian(bytes.take(at)) == big_endian(bytes.take(at - 1)) * 0x100 + bytes[at - 1],
{
    assert(bytes.take(at).drop_last() =~= bytes.take(at - 1));
}

/// Every part of a number in base 256 follows from the next smaller part and a digit.
pub proof fn lemma_parts_of_a_number(v: int)
    requires
        0 <= v <= MAX_VARINT,
    ensures
        v == 0x100 * (v / 0x100) + v % 0x100,
        v / 0x100 == 0x100 * (v / 0x1_0000) + v / 0x100 % 0x100,
        v / 0x1_0000 == 0x100 * (v / 0x100_0000) + v / 0x1_0000 % 0x100,
        v / 0x100_0000 == 0x100 * (v / 0x1_0000_0000) + v / 0x100_0000 % 0x100,
        v / 0x1_0000_0000 == 0x100 * (v / 0x100_0000_0000) + v / 0x1_0000_0000 % 0x100,
        v / 0x100_0000_0000 == 0x100 * (v / 0x1_0000_0000_0000) + v / 0x100_0000_0000 % 0x100,
        v / 0x1_0000_0000_0000 == 0x100 * (v / 0x100_0000_0000_0000) + v / 0x1_0000_0000_0000
            % 0x100,
        v / 0x100_0000_0000_0000 < 0x40,
{
}

/// An encoding spells its value, but for the size in its first byte.
proof fn lemma_encoding_spells_its_value(value: u64)
    requires
        value <= MAX_VARINT,
    ensures
        ({
            let bytes = varint_bytes(value);
            &&& bytes.len() == varint_size(value) == varint_size_of(bytes[0])
            &&& big_endian(bytes.update(0, (bytes[0] % 0x40) as u8)) == value
        }),
{
    let v = value as int;
    let bytes = varint_bytes(value);
    let masked = bytes.update(0, (bytes[0] % 0x40) as u8);
    lemma_parts_of_a_number(v);
    assert(masked.take(0) =~= Seq::<u8>::empty());
    lemma_big_endian_step(masked, 1);
    if value <= 63 {
    } else if value <= 16_383 {
        lemma_big_endian_step(masked, 2);
    } else if value <= 1_073_741_823 {
        lemma_big_endian_step(masked, 2);
        lemma_big_endian_step(masked, 3);
        lemma_big_endian_step(masked, 4);
    } else {
        lemma_big_endian_step(masked, 2);
        lemma_big_endian_step(masked, 3);
        lemma_big_endian_step(masked, 4);
        lemma_big_endian_step(masked, 5);
        lemma_big_endian_step(masked, 6);
        lemma_big_endian_step(masked, 7);
        lemma_big_endian_step(masked, 8);
    }
    assert(masked.take(masked.len() as int) =~= masked);
}

/// Reading an encoding gives back the value that was written and the size of
/// what was written, whatever bytes follow.
pub proof fn lemma_varint_round_trip(value: u64, rest: Seq<u8>)
    requires
        value <= MAX_VARINT,
    ensures
        varint_front(varint_bytes(value) + rest) == Some((value, varint_size(value))),
        varint_bytes(value).len() == varint_size(value),
{
    let bytes = varint_bytes(value);
    let all = bytes + rest;
    lemma_encoding_spells_its_value(value);
    assert(all[0] == bytes[0]);
    assert(all.take(varint_size(value) as int) =~= bytes);
}

/// Nothing can be read from a proper prefix of an encoding.
pub proof fn lemma_varint_prefix_is_incomplete(value: u64, cut: int)
    requires
        value <= MAX_VARINT,
        0 <= cut < varint_size(value),
    ensures
        varint_front(varint_bytes(value).take(cut)) is None,
{
    if cut > 0 {
        assert(varint_bytes(value).take(cut)[0] == varint_bytes(value)[0]);
    }
}

/// A variable-length integer that has been read once is read again unchanged
/// when more bytes arrive behind it.
pub proof fn lemma_varint_front_is_stable(bytes: Seq<u8>, more: Seq<u8>)
    requires
        varint_front(bytes) is Some,
    ensures
        varint_front(bytes + more) == varint_front(bytes),
{
    let size = varint_size_of(bytes[0]) as int;
    assert((bytes + more).take(size) == bytes.take(size));
}

} // verus!
