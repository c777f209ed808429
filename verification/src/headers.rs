//! Header fields, and what the driver reads out of them.

use vstd::prelude::*;
use vstd::string::*;

verus! {

/// A header field.
#[derive(Clone, Debug, PartialEq, Eq)]
pub struct Header {
    pub name: Vec<u8>,
    pub value: Vec<u8>,
}

impl View for Header {
    type V = (Seq<u8>, Seq<u8>);

    open spec fn view(&self) -> (Seq<u8>, Seq<u8>) {
        (self.name@, self.value@)
    }
}

/// The names and values of a list of header fields.
pub open spec fn fields(headers: Seq<Header>) -> Seq<(Seq<u8>, Seq<u8>)> {
    Seq::new(headers.len(), |i: int| headers[i]@)
}

/// A field as two texts.
pub open spec fn field(name: &str, value: &str) -> (Seq<u8>, Seq<u8>) {
    (name.spec_bytes(), value.spec_bytes())
}

/// A copy of `bytes`.
pub fn copy_bytes(bytes: &[u8]) -> (copy: Vec<u8>)
    ensures
        copy@ == bytes@,
{
    let mut copy: Vec<u8> = Vec::new();
    copy.extend_from_slice(bytes);
    assert(copy@ == bytes@);
    copy
}

/// Whether two byte strings are the same.
pub fn same_bytes(a: &[u8], b: &[u8]) -> (same: bool)
    ensures
        same == (a@ == b@),
{
    if a.len() != b.len() {
        return false;
    }
    let mut i: usize = 0;
    while i < a.len()
        invariant
            i <= a@.len(),
            a@.len() == b@.len(),
            forall|k: int| 0 <= k < i ==> a@[k] == b@[k],
        decreases a@.len() - i,
    {
        if a[i] != b[i] {
            assert(a@[i as int] != b@[i as int]);
            return false;
        }
        i += 1;
    }
    assert(a@ == b@);
    true
}

impl Header {
    /// A field with the given name and value.
    pub fn new(name: &str, value: &str) -> (header: Self)
        ensures
            header@ == field(name, value),
    {
        Header { name: copy_bytes(name.as_bytes()), value: copy_bytes(value.as_bytes()) }
    }

    /// A field with the given name and value.
    pub fn with_value(name: &str, value: Vec<u8>) -> (header: Self)
        ensures
            header@ == (name.spec_bytes(), value@),
    {
        Header { name: copy_bytes(name.as_bytes()), value }
    }
}

/// The value of the first field called `name`.
pub open spec fn value_of(list: Seq<(Seq<u8>, Seq<u8>)>, name: Seq<u8>) -> Option<Seq<u8>>
    decreases list.len(),
{
    if list.len() == 0 {
        None
    } else if list[0].0 == name {
        Some(list[0].1)
    } else {
        value_of(list.skip(1), name)
    }
}

/// The value of the first field called `name`.
pub fn find_value<'a>(headers: &'a Vec<Header>, name: &str) -> (value: Option<&'a Vec<u8>>)
    ensures
        match value_of(fields(headers@), name.spec_bytes()) {
            Some(bytes) => value matches Some(v) && v@ == bytes,
            None => value is None,
        },
{
    let ghost list = fields(headers@);
    let mut i: usize = 0;
    assert(list.skip(0) == list);
    while i < headers.len()
        invariant
            i <= headers@.len(),
            list == fields(headers@),
            value_of(list, name.spec_bytes()) == value_of(list.skip(i as int), name.spec_bytes()),
        decreases headers@.len() - i,
    {
        assert(list.skip(i as int)[0] == headers@[i as int]@);
        assert(list.skip(i as int).skip(1) == list.skip(i + 1));
        if same_bytes(headers[i].name.as_slice(), name.as_bytes()) {
            return Some(&headers[i].value);
        }
        i += 1;
    }
    None
}

/// The number that decimal digits spell, if they spell one below 65,536.
pub open spec fn parse_decimal(digits: Seq<u8>) -> Option<nat>
    decreases digits.len(),
{
    if digits.len() == 0 {
        None
    } else if !(48 <= digits.last() <= 57) {
        None
    } else {
        let low = (digits.last() - 48) as nat;
        let all = if digits.len() == 1 {
            Some(low)
        } else {
            match parse_decimal(digits.drop_last()) {
                Some(high) => Some(high * 10 + low),
                None => None,
            }
        };
        match all {
            Some(n) => if n <= 0xffff {
                Some(n)
            } else {
                None
            },
            None => None,
        }
    }
}

/// The decimal digits of a number.
pub open spec fn decimal(n: nat) -> Seq<u8>
    decreases n,
{
    if n < 10 {
        seq![(48 + n) as u8]
    } else {
        decimal(n / 10).push((48 + n % 10) as u8)
    }
}

/// The decimal digits of `n`.
pub fn decimal_digits(n: u16) -> (digits: Vec<u8>)
    ensures
        digits@ == decimal(n as nat),
    decreases n,
{
    if n < 10 {
        let mut digits: Vec<u8> = Vec::new();
        digits.push(48 + n as u8);
        assert(digits@ == decimal(n as nat));
        digits
    } else {
        let mut digits = decimal_digits(n / 10);
        digits.push(48 + (n % 10) as u8);
        digits
    }
}

/// Reads a decimal number.
pub fn read_decimal(digits: &Vec<u8>) -> (number: Option<u16>)
    ensures
        match parse_decimal(digits@) {
            Some(n) => number == Some(n as u16),
            None => number is None,
        },
{
    let mut i: usize = 0;
    let mut n: u32 = 0;
    while i < digits.len()
        invariant
            i <= digits@.len(),
            i > 0 ==> parse_decimal(digits@.take(i as int)) == Some(n as nat),
            n <= 0xffff,
            i == 0 ==> n == 0,
        decreases digits@.len() - i,
    {
        let ghost front = digits@.take(i as int);
        let ghost next = digits@.take(i + 1);
        assert(next.drop_last() == front);
        assert(next.last() == digits@[i as int]);
        if digits[i] < 48 || digits[i] > 57 {
            proof {
                lemma_bad_decimal_prefix(digits@, i + 1);
            }
            return None;
        }
        let low: u32 = (digits[i] - 48) as u32;
        if n * 10 + low > 0xffff {
            proof {
                assert(parse_decimal(next) is None);
                lemma_bad_decimal_prefix(digits@, i + 1);
            }
            return None;
        }
        n = n * 10 + low;
        i += 1;
    }
    assert(digits@.take(i as int) == digits@);
    if i == 0 {
        None
    } else {
        Some(n as u16)
    }
}

proof fn lemma_bad_decimal_prefix(digits: Seq<u8>, cut: int)
    requires
        0 < cut <= digits.len(),
        parse_decimal(digits.take(cut)) is None,
    ensures
        parse_decimal(digits) is None,
    decreases digits.len(),
{
    if cut < digits.len() {
        assert(digits.drop_last().take(cut) == digits.take(cut));
        lemma_bad_decimal_prefix(digits.drop_last(), cut);
    } else {
        assert(digits.take(cut) == digits);
    }
}

/// A number is read back from its digits.
pub proof fn lemma_decimal_round_trip(n: nat)
    requires
        n <= 0xffff,
    ensures
        parse_decimal(decimal(n)) == Some(n),
        decimal(n).len() > 0,
    decreases n,
{
    if n >= 10 {
        lemma_decimal_round_trip(n / 10);
        assert(decimal(n).drop_last() == decimal(n / 10));
    } else {
        assert(decimal(n).last() == 48 + n);
    }
}

/// The status of a response.
pub open spec fn status_of(list: Seq<(Seq<u8>, Seq<u8>)>) -> Option<nat> {
    match value_of(list, ":status".spec_bytes()) {
        Some(digits) => parse_decimal(digits),
        None => None,
    }
}

/// The status of a response.
pub fn response_status(headers: &Vec<Header>) -> (status: Option<u16>)
    ensures
        match status_of(fields(headers@)) {
            Some(n) => status == Some(n as u16),
            None => status is None,
        },
{
    match find_value(headers, ":status") {
        Some(digits) => read_decimal(digits),
        None => None,
    }
}

/// Whether a request asks for a WebTransport session.
pub open spec fn asks_for_session(list: Seq<(Seq<u8>, Seq<u8>)>) -> bool {
    value_of(list, ":method".spec_bytes()) == Some("CONNECT".spec_bytes()) && value_of(
        list,
        ":protocol".spec_bytes(),
    ) == Some("webtransport-h3".spec_bytes())
}

/// Whether a request asks for a WebTransport session.
pub fn is_webtransport_connect(headers: &Vec<Header>) -> (asks: bool)
    ensures
        asks == asks_for_session(fields(headers@)),
{
    let method = match find_value(headers, ":method") {
        Some(value) => same_bytes(value.as_slice(), "CONNECT".as_bytes()),
        None => false,
    };
    let protocol = match find_value(headers, ":protocol") {
        Some(value) => same_bytes(value.as_slice(), "webtransport-h3".as_bytes()),
        None => false,
    };
    method && protocol
}

/// The datagram flow that a request names.
pub open spec fn flow_of(list: Seq<(Seq<u8>, Seq<u8>)>) -> Option<nat> {
    match value_of(list, "datagram-flow-id".spec_bytes()) {
        Some(digits) => parse_decimal(digits),
        None => None,
    }
}

/// The datagram flow that a request names.
pub fn datagram_flow_id(headers: &Vec<Header>) -> (flow_id: Option<u64>)
    ensures
        match flow_of(fields(headers@)) {
            Some(n) => flow_id == Some(n as u64),
            None => flow_id is None,
        },
{
    match find_value(headers, "datagram-flow-id") {
        Some(digits) => match read_decimal(digits) {
            Some(n) => Some(n as u64),
            None => None,
        },
        None => None,
    }
}

/// The fields of a response with the given status.
#[verifier::opaque]
pub open spec fn response_fields(status: u16) -> Seq<(Seq<u8>, Seq<u8>)> {
    seq![(":status".spec_bytes(), decimal(status as nat)), field("server", "quiche-test")]
}

/// A response with the given status.
pub fn response_headers(status: u16) -> (headers: Vec<Header>)
    ensures
        fields(headers@) == response_fields(status),
        status_of(fields(headers@)) == Some(status as nat),
{
    proof {
        reveal(response_fields);
    }
    let mut headers: Vec<Header> = Vec::new();
    headers.push(Header::with_value(":status", decimal_digits(status)));
    headers.push(Header::new("server", "quiche-test"));
    proof {
        assert(fields(headers@) == response_fields(status));
        lemma_decimal_round_trip(status as nat);
    }
    headers
}

/// The fields of an ordinary request.
pub open spec fn request_fields(method: &str) -> Seq<(Seq<u8>, Seq<u8>)> {
    seq![
        field(":method", method),
        field(":scheme", "https"),
        field(":authority", "quic.tech"),
        field(":path", "/"),
    ]
}

/// An ordinary request.
pub fn make_request_headers(method: &str) -> (headers: Vec<Header>)
    ensures
        fields(headers@) == request_fields(method),
{
    let mut headers: Vec<Header> = Vec::new();
    headers.push(Header::new(":method", method));
    headers.push(Header::new(":scheme", "https"));
    headers.push(Header::new(":authority", "quic.tech"));
    headers.push(Header::new(":path", "/"));
    assert(fields(headers@) == request_fields(method));
    headers
}

/// The fields of a request for a WebTransport session.
#[verifier::opaque]
pub open spec fn session_request_fields() -> Seq<(Seq<u8>, Seq<u8>)> {
    seq![
        field(":method", "CONNECT"),
        field(":scheme", "https"),
        field(":authority", "quic.tech"),
        field(":path", "/wt"),
        field(":protocol", "webtransport-h3"),
    ]
}

/// A request for a WebTransport session.
pub fn session_request_headers() -> (headers: Vec<Header>)
    ensures
        fields(headers@) == session_request_fields(),
{
    proof {
        reveal(session_request_fields);
    }
    let mut headers: Vec<Header> = Vec::new();
    headers.push(Header::new(":method", "CONNECT"));
    headers.push(Header::new(":scheme", "https"));
    headers.push(Header::new(":authority", "quic.tech"));
    headers.push(Header::new(":path", "/wt"));
    headers.push(Header::new(":protocol", "webtransport-h3"));
    assert(fields(headers@) == session_request_fields());
    headers
}

/// The fields of a request that opens the datagram flow 0.
#[verifier::opaque]
pub open spec fn flow_request_fields() -> Seq<(Seq<u8>, Seq<u8>)> {
    seq![
        field(":method", "CONNECT-UDP"),
        field(":scheme", "https"),
        field(":authority", "quic.tech"),
        field(":path", "/"),
        field("datagram-flow-id", "0"),
    ]
}

/// A request that opens the datagram flow 0.
pub fn flow_request_headers() -> (headers: Vec<Header>)
    ensures
        fields(headers@) == flow_request_fields(),
{
    proof {
        reveal(flow_request_fields);
    }
    let mut headers: Vec<Header> = Vec::new();
    headers.push(Header::new(":method", "CONNECT-UDP"));
    headers.push(Header::new(":scheme", "https"));
    headers.push(Header::new(":authority", "quic.tech"));
    headers.push(Header::new(":path", "/"));
    headers.push(Header::new("datagram-flow-id", "0"));
    assert(fields(headers@) == flow_request_fields());
    headers
}

/// An ASCII text has one byte for each character.
proof fn lemma_ascii_len(text: &str)
    requires
        is_ascii(text),
    ensures
        text.spec_bytes().len() == text@.len(),
        forall|i: int| 0 <= i < text@.len() ==> text.spec_bytes()[i] == text@[i] as u8,
{
    is_ascii_spec_bytes(text);
}

proof fn lemma_field_names()
    ensures
        ":method".spec_bytes().len() == 7,
        ":scheme".spec_bytes().len() == 7,
        ":authority".spec_bytes().len() == 10,
        ":path".spec_bytes().len() == 5,
        ":protocol".spec_bytes().len() == 9,
        ":status".spec_bytes().len() == 7,
        "datagram-flow-id".spec_bytes().len() == 16,
        "0".spec_bytes() == seq![48u8],
{
    reveal_strlit(":method");
    reveal_strlit(":scheme");
    reveal_strlit(":authority");
    reveal_strlit(":path");
    reveal_strlit(":protocol");
    reveal_strlit(":status");
    reveal_strlit("datagram-flow-id");
    reveal_strlit("0");
    lemma_ascii_len(":method");
    lemma_ascii_len(":scheme");
    lemma_ascii_len(":authority");
    lemma_ascii_len(":path");
    lemma_ascii_len(":protocol");
    lemma_ascii_len(":status");
    lemma_ascii_len("datagram-flow-id");
    lemma_ascii_len("0");
    assert("0".spec_bytes() == seq![48u8]);
}

/// A session request asks for a session, and no flow request or ordinary
/// request does; a flow request names the flow 0, and no other one a flow.
pub proof fn lemma_request_kinds(method: &str)
    ensures
        asks_for_session(session_request_fields()),
        !asks_for_session(flow_request_fields()),
        !asks_for_session(request_fields(method)),
        flow_of(session_request_fields()) is None,
        flow_of(flow_request_fields()) == Some(0nat),
        flow_of(request_fields(method)) is None,
{
    lemma_field_names();
    reveal_with_fuel(value_of, 6);
    reveal(session_request_fields);
    reveal(flow_request_fields);
    let session = session_request_fields();
    let flow = flow_request_fields();
    let request = request_fields(method);
    assert(session.skip(1).skip(1).skip(1).skip(1)[0] == session[4]);
    assert(session.skip(1).skip(1).skip(1)[0] == session[3]);
    assert(session.skip(1).skip(1)[0] == session[2]);
    assert(session.skip(1)[0] == session[1]);
    assert(flow.skip(1).skip(1).skip(1).skip(1)[0] == flow[4]);
    assert(flow.skip(1).skip(1).skip(1)[0] == flow[3]);
    assert(flow.skip(1).skip(1)[0] == flow[2]);
    assert(flow.skip(1)[0] == flow[1]);
    assert(request.skip(1).skip(1).skip(1)[0] == request[3]);
    assert(request.skip(1).skip(1)[0] == request[2]);
    assert(request.skip(1)[0] == request[1]);
    assert(seq![48u8].last() == 48);
}

} // verus!
