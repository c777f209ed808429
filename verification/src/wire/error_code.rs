//! The part of the HTTP/3 error code space that carries WebTransport
//! application error codes.
//!
//! The 2^32 application codes map onto a range of HTTP/3 codes that steps over
//! every code that HTTP/3 reserves for greasing.

use vstd::prelude::*;

verus! {

/// The HTTP/3 code of application error 0.
pub const WT_ERROR_FIRST: u64 = 0x52e4_a40f_a8db;

/// The HTTP/3 code of application error 0xffff_ffff.
pub const WT_ERROR_LAST: u64 = 0x52e5_ac98_3162;

/// The HTTP/3 code of an application error: codes count up from
/// [`WT_ERROR_FIRST`], and one is skipped after every thirty.
pub open spec fn wire_code(application_error: u32) -> int {
    WT_ERROR_FIRST + application_error + application_error as int / 30
}

/// Whether HTTP/3 reserves `code` for greasing.
pub open spec fn is_grease_code(code: int) -> bool {
    code >= 0x21 && (code - 0x21) % 0x1f == 0
}

/// Whether `code` carries an application error.
pub open spec fn carries_application_error(code: u64) -> bool {
    WT_ERROR_FIRST <= code <= WT_ERROR_LAST && !is_grease_code(code as int)
}

/// The application error that an HTTP/3 error code carries, if it carries one.
pub open spec fn application_error(code: u64) -> Option<u32> {
    if carries_application_error(code) {
        let shifted = code - WT_ERROR_FIRST;
        Some((shifted - shifted / 31) as u32)
    } else {
        None
    }
}

/// The HTTP/3 error code that stands for a WebTransport application error.
pub fn webtransport_error_to_http3(application_error: u32) -> (code: u64)
    ensures
        code == wire_code(application_error),
        carries_application_error(code),
{
    WT_ERROR_FIRST + application_error as u64 + application_error as u64 / 30
}

/// The application error that an HTTP/3 error code carries, if it carries one.
pub fn http3_error_to_webtransport(code: u64) -> (error: Option<u32>)
    ensures
        error == application_error(code),
        error matches Some(e) ==> wire_code(e) == code,
{
    if code < WT_ERROR_FIRST || code > WT_ERROR_LAST || (code - 0x21) % 0x1f == 0 {
        return None;
    }
    let shifted: u64 = code - WT_ERROR_FIRST;
    Some((shifted - shifted / 31) as u32)
}

/// A code carries exactly the application error that maps onto it.
pub proof fn lemma_wire_code_round_trip(error: u32)
    ensures
        application_error(wire_code(error) as u64) == Some(error),
{
}

/// Two application errors never share an HTTP/3 code.
pub proof fn lemma_wire_code_is_injective(a: u32, b: u32)
    requires
        wire_code(a) == wire_code(b),
    ensures
        a == b,
{
}

/// A greater application error has a greater HTTP/3 code.
pub proof fn lemma_wire_code_is_increasing(a: u32, b: u32)
    requires
        a < b,
    ensures
        wire_code(a) < wire_code(b),
{
}

/// The codes of application errors are exactly the codes of the range that
/// HTTP/3 does not reserve for greasing.
pub proof fn lemma_wire_codes_fill_the_range(code: u64)
    ensures
        carries_application_error(code) <==> exists|error: u32| wire_code(error) == code,
{
    if carries_application_error(code) {
        let shifted = code - WT_ERROR_FIRST;
        let error = (shifted - shifted / 31) as u32;
        assert(wire_code(error) == code);
    }
    assert forall|error: u32| wire_code(error) == code implies carries_application_error(code) by {
    }
}

} // verus!
