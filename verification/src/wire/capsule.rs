//! Capsules on a CONNECT stream.

use vstd::prelude::*;
use vstd::string::*;
use vstd::utf8::{
    decode_utf8, encode_utf8, encode_utf8_decode_utf8, encode_utf8_valid_utf8, valid_utf8,
};

use crate::wire::varint::{
    big_endian, decode_varint, encode_varint, lemma_varint_front_is_stable,
    lemma_varint_prefix_is_incomplete, lemma_varint_round_trip, varint_bytes, varint_front,
    MAX_VARINT,
};

verus! {

/// The type of the capsule that closes a session.
pub const WT_CLOSE_SESSION: u64 = 0x2843;

/// The most bytes that a close message can have.
pub const MAX_CLOSE_MESSAGE_LEN: usize = 1024;

/// The four bytes of an error code, most significant first.
pub open spec fn error_code_bytes(error_code: u32) -> Seq<u8> {
    seq![
        (error_code as int / 0x100_0000) as u8,
        (error_code as int / 0x1_0000 % 0x100) as u8,
        (error_code as int / 0x100 % 0x100) as u8,
        (error_code as int % 0x100) as u8,
    ]
}

/// The capsule that closes a session with `error_code` and `message`.
pub open spec fn close_capsule(error_code: u32, message: Seq<u8>) -> Seq<u8> {
    varint_bytes(WT_CLOSE_SESSION) + varint_bytes((4 + message.len()) as u64) + error_code_bytes(
        error_code,
    ) + message
}

/// What the capsules at the front of a CONNECT stream say.
pub ghost enum CapsuleScan {
    /// No close has arrived yet; `rest` is the start of an unfinished capsule.
    Waiting { rest: Seq<u8> },
    /// The peer closed the session, and `rest` follows its capsule.
    Closed { error_code: u32, message: Seq<char>, rest: Seq<u8> },
    /// A close capsule breaks the format.
    Malformed,
}

/// Whether `body_len` bytes can be the body of a close capsule: an error code
/// and a message of bounded length.
pub open spec fn is_close_length(body_len: int) -> bool {
    4 <= body_len <= 4 + MAX_CLOSE_MESSAGE_LEN
}

/// Reads capsules until one closes the session. Capsules of other types are
/// skipped.
pub open spec fn scan_capsules(bytes: Seq<u8>) -> CapsuleScan
    decreases bytes.len(),
{
    match varint_front(bytes) {
        None => CapsuleScan::Waiting { rest: bytes },
        Some((kind, first)) => match varint_front(bytes.skip(first as int)) {
            None => CapsuleScan::Waiting { rest: bytes },
            Some((body_len, second)) => {
                let start = (first + second) as int;
                let end = start + body_len as int;
                if kind == WT_CLOSE_SESSION && !is_close_length(body_len as int) {
                    CapsuleScan::Malformed
                } else if bytes.len() < end {
                    CapsuleScan::Waiting { rest: bytes }
                } else if kind != WT_CLOSE_SESSION {
                    scan_capsules(bytes.skip(end))
                } else if !valid_utf8(bytes.subrange(start + 4, end)) {
                    CapsuleScan::Malformed
                } else {
                    CapsuleScan::Closed {
                        error_code: big_endian(bytes.subrange(start, start + 4)) as u32,
                        message: decode_utf8(bytes.subrange(start + 4, end)),
                        rest: bytes.skip(end),
                    }
                }
            },
        },
    }
}

/// What a read of capsules came to.
#[derive(Debug)]
pub enum CapsuleRead {
    Waiting,
    Closed { error_code: u32, message: String },
    Malformed,
}

/// `String::from_utf8`: takes the bytes as they are where they are valid
/// UTF-8, and fails otherwise.
#[verifier::external_body]
fn string_from_utf8(bytes: Vec<u8>) -> (text: Option<String>)
    ensures
        text is Some <==> valid_utf8(bytes@),
        text matches Some(s) ==> encode_utf8(s@) == bytes@,
{
    String::from_utf8(bytes).ok()
}

/// The bytes of `bytes` from `start` up to `end`.
pub fn copy_range(bytes: &Vec<u8>, start: usize, end: usize) -> (part: Vec<u8>)
    requires
        start <= end <= bytes@.len(),
    ensures
        part@ == bytes@.subrange(start as int, end as int),
{
    let mut part: Vec<u8> = Vec::new();
    part.extend_from_slice(vstd::slice::slice_subrange(bytes.as_slice(), start, end));
    assert(part@ == bytes@.subrange(start as int, end as int));
    part
}

/// The capsule that closes a session with `error_code` and `message`.
pub fn webtransport_close_capsule(error_code: u32, message: &str) -> (data: Vec<u8>)
    requires
        4 + message.spec_bytes().len() <= MAX_VARINT,
    ensures
        data@ == close_capsule(error_code, message.spec_bytes()),
{
    let body: &[u8] = message.as_bytes();
    let mut data: Vec<u8> = Vec::new();
    encode_varint(WT_CLOSE_SESSION, &mut data);
    encode_varint(4 + body.len() as u64, &mut data);
    data.push((error_code / 0x100_0000) as u8);
    data.push((error_code / 0x1_0000 % 0x100) as u8);
    data.push((error_code / 0x100 % 0x100) as u8);
    data.push((error_code % 0x100) as u8);
    data.extend_from_slice(body);
    assert(data@ == close_capsule(error_code, message.spec_bytes()));
    data
}

proof fn lemma_big_endian_of_four(bytes: Seq<u8>)
    requires
        bytes.len() == 4,
    ensures
        big_endian(bytes) == bytes[0] * 0x100_0000 + bytes[1] * 0x1_0000 + bytes[2] * 0x100
            + bytes[3],
        big_endian(bytes) <= u32::MAX,
{
    reveal_with_fuel(big_endian, 5);
    let three = bytes.drop_last();
    let two = three.drop_last();
    let one = two.drop_last();
    assert(one.drop_last().len() == 0);
    assert(big_endian(one) == bytes[0]);
    assert(big_endian(two) == bytes[0] * 0x100 + bytes[1]);
    assert(big_endian(three) == bytes[0] * 0x1_0000 + bytes[1] * 0x100 + bytes[2]);
}

/// Collects the capsules of one CONNECT stream as they arrive in pieces.
#[derive(Debug)]
pub struct CapsuleReader {
    buf: Vec<u8>,
}

impl View for CapsuleReader {
    type V = Seq<u8>;

    closed spec fn view(&self) -> Seq<u8> {
        self.buf@
    }
}

impl CapsuleReader {
    /// A reader that has seen nothing.
    pub fn new() -> (reader: Self)
        ensures
            reader@ == Seq::<u8>::empty(),
    {
        CapsuleReader { buf: Vec::new() }
    }

    /// Keeps `bytes` for a later [`read`](Self::read).
    pub fn hold(&mut self, bytes: &[u8])
        ensures
            final(self)@ == old(self)@ + bytes@,
    {
        self.buf.extend_from_slice(bytes);
        assert(self.buf@ == old(self)@ + bytes@);
    }

    /// Forgets everything that was held.
    pub fn clear(&mut self)
        ensures
            final(self)@ == Seq::<u8>::empty(),
    {
        self.buf.clear();
    }

    /// How many bytes are held.
    pub fn len(&self) -> (count: usize)
        ensures
            count == self@.len(),
    {
        self.buf.len()
    }

    /// Reads what is held, up to the capsule that closes the session. What was
    /// read is dropped; after a close the reader holds what came behind it.
    pub fn read(&mut self) -> (read: CapsuleRead)
        ensures
            match scan_capsules(old(self)@) {
                CapsuleScan::Waiting { rest } => read == CapsuleRead::Waiting && final(self)@
                    == rest,
                CapsuleScan::Closed { error_code, message, rest } => {
                    &&& read matches CapsuleRead::Closed { error_code: code, message: text }
                    &&& code == error_code
                    &&& text@ == message
                    &&& final(self)@ == rest
                },
                CapsuleScan::Malformed => read == CapsuleRead::Malformed && final(self)@
                    == Seq::<u8>::empty(),
            },
    {
        loop
            invariant
                scan_capsules(self@) == scan_capsules(old(self)@),
            decreases self@.len(),
        {
            assert(self@.skip(0) == self@);
            let (kind, first) = match decode_varint(&self.buf, 0) {
                None => {
                    return CapsuleRead::Waiting;
                },
                Some(front) => front,
            };
            let (body_len, start) = match decode_varint(&self.buf, first) {
                None => {
                    return CapsuleRead::Waiting;
                },
                Some(front) => front,
            };
            let is_close = kind == WT_CLOSE_SESSION;
            if is_close && (body_len < 4 || body_len > 4 + MAX_CLOSE_MESSAGE_LEN as u64) {
                self.buf.clear();
                return CapsuleRead::Malformed;
            }
            let available: usize = self.buf.len() - start;
            if (available as u64) < body_len {
                return CapsuleRead::Waiting;
            }
            let end: usize = start + body_len as usize;
            if !is_close {
                let rest = copy_range(&self.buf, end, self.buf.len());
                assert(rest@ == self@.skip(end as int));
                self.buf = rest;
                continue;
            }
            let ghost body = self@;
            let message = copy_range(&self.buf, start + 4, end);
            let code = copy_range(&self.buf, start, start + 4);
            proof {
                lemma_big_endian_of_four(code@);
            }
            let error_code: u32 = code[0] as u32 * 0x100_0000 + code[1] as u32 * 0x1_0000 + code[2]
                as u32 * 0x100 + code[3] as u32;
            match string_from_utf8(message) {
                None => {
                    self.buf.clear();
                    return CapsuleRead::Malformed;
                },
                Some(text) => {
                    let rest = copy_range(&self.buf, end, self.buf.len());
                    assert(rest@ == self@.skip(end as int));
                    self.buf = rest;
                    proof {
                        encode_utf8_decode_utf8(text@);
                    }
                    return CapsuleRead::Closed { error_code, message: text };
                },
            }
        }
    }
}

/// The four bytes of an error code spell it.
proof fn lemma_code_is_read_back(error_code: u32)
    ensures
        big_endian(error_code_bytes(error_code)) == error_code,
        error_code_bytes(error_code).len() == 4,
{
    lemma_big_endian_of_four(error_code_bytes(error_code));
}

/// Where the pieces of a capsule stand in it.
proof fn lemma_pieces(
    kind: Seq<u8>,
    len: Seq<u8>,
    code: Seq<u8>,
    body: Seq<u8>,
    rest: Seq<u8>,
)
    requires
        code.len() == 4,
    ensures
        ({
            let all = kind + len + code + body + rest;
            let tail = code + body + rest;
            let start = (kind.len() + len.len()) as int;
            let end = start + 4 + body.len();
            &&& all == kind + (len + tail)
            &&& all.skip(kind.len() as int) == len + tail
            &&& all.subrange(start, start + 4) == code
            &&& all.subrange(start + 4, end) == body
            &&& all.skip(end) == rest
            &&& all.len() == end + rest.len()
        }),
{
    let all = kind + len + code + body + rest;
    let tail = code + body + rest;
    let start = (kind.len() + len.len()) as int;
    let end = start + 4 + body.len();
    assert(all =~= kind + (len + tail));
    assert(all.skip(kind.len() as int) =~= len + tail);
    assert(all.subrange(start, start + 4) =~= code);
    assert(all.subrange(start + 4, end) =~= body);
    assert(all.skip(end) =~= rest);
}

/// A written close capsule is read back with its error code and message.
pub proof fn lemma_close_capsule_round_trip(error_code: u32, message: Seq<char>, rest: Seq<u8>)
    requires
        encode_utf8(message).len() <= MAX_CLOSE_MESSAGE_LEN,
    ensures
        scan_capsules(close_capsule(error_code, encode_utf8(message)) + rest)
            == (CapsuleScan::Closed { error_code, message, rest }),
{
    let body = encode_utf8(message);
    let body_len = (4 + body.len()) as u64;
    let kind = varint_bytes(WT_CLOSE_SESSION);
    let len = varint_bytes(body_len);
    let code = error_code_bytes(error_code);
    let tail = code + body + rest;
    lemma_code_is_read_back(error_code);
    lemma_pieces(kind, len, code, body, rest);
    lemma_varint_round_trip(WT_CLOSE_SESSION, len + tail);
    lemma_varint_round_trip(body_len, tail);
    encode_utf8_valid_utf8(message);
    encode_utf8_decode_utf8(message);
}

/// The close capsule at the front of `bytes`, whatever the length of its message: the
/// error code, the message and what follows. Nothing while the capsule is not whole.
pub open spec fn close_front(bytes: Seq<u8>) -> Option<(u32, Seq<char>, Seq<u8>)> {
    match varint_front(bytes) {
        None => None,
        Some((kind, first)) => match varint_front(bytes.skip(first as int)) {
            None => None,
            Some((body_len, second)) => {
                let start = (first + second) as int;
                let end = start + body_len as int;
                if kind != WT_CLOSE_SESSION || body_len < 4 || bytes.len() < end || !valid_utf8(
                    bytes.subrange(start + 4, end),
                ) {
                    None
                } else {
                    Some((
                        big_endian(bytes.subrange(start, start + 4)) as u32,
                        decode_utf8(bytes.subrange(start + 4, end)),
                        bytes.skip(end),
                    ))
                }
            },
        },
    }
}

/// Every close capsule that can be written says its error code and message, and where
/// it ends.
pub proof fn lemma_close_capsule_is_exact(error_code: u32, message: Seq<char>, rest: Seq<u8>)
    requires
        4 + encode_utf8(message).len() <= MAX_VARINT,
    ensures
        close_front(close_capsule(error_code, encode_utf8(message)) + rest) == Some(
            (error_code, message, rest),
        ),
{
    let body = encode_utf8(message);
    let body_len = (4 + body.len()) as u64;
    let kind = varint_bytes(WT_CLOSE_SESSION);
    let len = varint_bytes(body_len);
    let code = error_code_bytes(error_code);
    let tail = code + body + rest;
    lemma_code_is_read_back(error_code);
    lemma_pieces(kind, len, code, body, rest);
    lemma_varint_round_trip(WT_CLOSE_SESSION, len + tail);
    lemma_varint_round_trip(body_len, tail);
    encode_utf8_valid_utf8(message);
    encode_utf8_decode_utf8(message);
}

/// Two close capsules are the same bytes only if they say the same.
pub proof fn lemma_close_capsule_is_injective(
    error_code: u32,
    message: Seq<char>,
    other_code: u32,
    other_message: Seq<char>,
)
    requires
        4 + encode_utf8(message).len() <= MAX_VARINT,
        4 + encode_utf8(other_message).len() <= MAX_VARINT,
    ensures
        close_capsule(error_code, encode_utf8(message)) == close_capsule(
            other_code,
            encode_utf8(other_message),
        ) <==> error_code == other_code && message == other_message,
{
    let rest = Seq::<u8>::empty();
    lemma_close_capsule_is_exact(error_code, message, rest);
    lemma_close_capsule_is_exact(other_code, other_message, rest);
}

/// A close capsule that was cut short is not whole, wherever it was cut.
pub proof fn lemma_cut_close_capsule_is_not_whole(error_code: u32, message: Seq<char>, cut: int)
    requires
        4 + encode_utf8(message).len() <= MAX_VARINT,
        0 <= cut < close_capsule(error_code, encode_utf8(message)).len(),
    ensures
        close_front(close_capsule(error_code, encode_utf8(message)).take(cut)) is None,
{
    let body = encode_utf8(message);
    let body_len = (4 + body.len()) as u64;
    let kind = varint_bytes(WT_CLOSE_SESSION);
    let len = varint_bytes(body_len);
    let tail = error_code_bytes(error_code) + body;
    let all = close_capsule(error_code, body);
    let part = all.take(cut);
    lemma_varint_round_trip(WT_CLOSE_SESSION, Seq::empty());
    lemma_varint_round_trip(body_len, Seq::empty());
    assert(all =~= kind + (len + tail));
    if cut < kind.len() {
        lemma_varint_prefix_is_incomplete(WT_CLOSE_SESSION, cut);
        assert(part =~= kind.take(cut));
    } else {
        let after_kind = (len + tail).take(cut - kind.len());
        assert(part =~= kind + after_kind);
        lemma_varint_round_trip(WT_CLOSE_SESSION, after_kind);
        assert(part.skip(kind.len() as int) =~= after_kind);
        if after_kind.len() < len.len() {
            lemma_varint_prefix_is_incomplete(body_len, after_kind.len() as int);
            assert(after_kind =~= len.take(after_kind.len() as int));
        } else {
            let after_len = tail.take(after_kind.len() - len.len());
            assert(after_kind =~= len + after_len);
            lemma_varint_round_trip(body_len, after_len);
        }
    }
}

/// It does not matter how the bytes of a CONNECT stream are cut into pieces:
/// reading the rest of one piece together with the next one comes to the same
/// as reading both at once.
pub proof fn lemma_capsule_fragmentation(bytes: Seq<u8>, more: Seq<u8>)
    ensures
        match scan_capsules(bytes) {
            CapsuleScan::Waiting { rest } => scan_capsules(rest + more) == scan_capsules(
                bytes + more,
            ),
            CapsuleScan::Closed { error_code, message, rest } => scan_capsules(bytes + more)
                == (CapsuleScan::Closed { error_code, message, rest: rest + more }),
            CapsuleScan::Malformed => scan_capsules(bytes + more) == CapsuleScan::Malformed,
        },
    decreases bytes.len(),
{
    if varint_front(bytes) is Some {
        let (kind, first) = varint_front(bytes)->Some_0;
        lemma_varint_front_is_stable(bytes, more);
        let tail = bytes.skip(first as int);
        assert((bytes + more).skip(first as int) == tail + more);
        if varint_front(tail) is Some {
            let (body_len, second) = varint_front(tail)->Some_0;
            lemma_varint_front_is_stable(tail, more);
            let start = (first + second) as int;
            let end = start + body_len as int;
            if bytes.len() >= end {
                assert((bytes + more).skip(end) == bytes.skip(end) + more);
                if kind != WT_CLOSE_SESSION {
                    lemma_capsule_fragmentation(bytes.skip(end), more);
                } else if is_close_length(body_len as int) {
                    assert((bytes + more).subrange(start, start + 4) == bytes.subrange(
                        start,
                        start + 4,
                    ));
                    assert((bytes + more).subrange(start + 4, end) == bytes.subrange(
                        start + 4,
                        end,
                    ));
                }
            }
        }
    }
}

} // verus!
