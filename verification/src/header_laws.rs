//! What the fields of requests and responses say.

use vstd::prelude::*;
use vstd::string::*;

use crate::headers::{
    asks_for_session, decimal, field, flow_of, lemma_decimal_round_trip, parse_decimal,
    request_fields, response_fields, session_request_fields, status_of, value_of,
};

verus! {

/// The value of a field is that of the first field of its name, and there is none where no
/// field has the name.
pub proof fn lemma_first_field_counts(list: Seq<(Seq<u8>, Seq<u8>)>, name: Seq<u8>)
    ensures
        value_of(list, name) is None <==> (forall|i: int|
            0 <= i < list.len() ==> (#[trigger] list[i]).0 != name),
        value_of(list, name) matches Some(value) ==> exists|i: int|
            0 <= i < list.len() && #[trigger] list[i] == (name, value) && (forall|j: int|
                0 <= j < i ==> (#[trigger] list[j]).0 != name),
    decreases list.len(),
{
    if list.len() > 0 {
        if list[0].0 == name {
            assert(list[0] == (name, list[0].1));
        } else {
            let rest = list.skip(1);
            lemma_first_field_counts(rest, name);
            if let Some(value) = value_of(rest, name) {
                let at = choose|i: int|
                    0 <= i < rest.len() && #[trigger] rest[i] == (name, value) && (forall|j: int|
                        0 <= j < i ==> (#[trigger] rest[j]).0 != name);
                assert(list[at + 1] == (name, value));
                assert forall|j: int| 0 <= j < at + 1 implies (#[trigger] list[j]).0 != name by {
                    if j > 0 {
                        assert(rest[j - 1] == list[j]);
                    }
                }
            } else {
                assert forall|i: int| 0 <= i < list.len() implies (#[trigger] list[i]).0
                    != name by {
                    if i > 0 {
                        assert(rest[i - 1] == list[i]);
                    }
                }
            }
        }
    }
}

/// The number that digits spell in base ten, most significant first.
pub open spec fn spelled(digits: Seq<u8>) -> int
    decreases digits.len(),
{
    if digits.len() == 0 {
        0
    } else {
        10 * spelled(digits.drop_last()) + (digits.last() - 0x30)
    }
}

/// Whether every byte is a digit.
pub open spec fn are_digits(digits: Seq<u8>) -> bool {
    forall|i: int| 0 <= i < digits.len() ==> 0x30 <= #[trigger] digits[i] <= 0x39
}

proof fn lemma_spelled_is_not_negative(digits: Seq<u8>)
    requires
        are_digits(digits),
    ensures
        spelled(digits) >= 0,
    decreases digits.len(),
{
    if digits.len() > 0 {
        let front = digits.drop_last();
        assert(are_digits(front)) by {
            assert forall|i: int| 0 <= i < front.len() implies 0x30 <= #[trigger] front[i]
                <= 0x39 by {
                assert(front[i] == digits[i]);
            }
        }
        lemma_spelled_is_not_negative(front);
        assert(0x30 <= digits[digits.len() - 1]);
    }
}

/// A number is read from one or more digits and nothing else, if it is below 65,536, and it
/// is the one that they spell.
pub proof fn lemma_digits_are_read_as_their_number(digits: Seq<u8>)
    ensures
        parse_decimal(digits) is Some <==> digits.len() > 0 && are_digits(digits) && spelled(
            digits,
        ) < 65_536,
        parse_decimal(digits) matches Some(n) ==> n == spelled(digits),
    decreases digits.len(),
{
    if digits.len() > 0 {
        let front = digits.drop_last();
        lemma_digits_are_read_as_their_number(front);
        if are_digits(digits) {
            assert(are_digits(front)) by {
                assert forall|i: int| 0 <= i < front.len() implies 0x30 <= #[trigger] front[i]
                    <= 0x39 by {
                    assert(front[i] == digits[i]);
                }
            }
            lemma_spelled_is_not_negative(front);
            assert(0x30 <= digits[digits.len() - 1] <= 0x39);
        } else if are_digits(front) && 0x30 <= digits.last() <= 0x39 {
            assert forall|i: int| 0 <= i < digits.len() implies 0x30 <= #[trigger] digits[i]
                <= 0x39 by {
                if i < front.len() {
                    assert(front[i] == digits[i]);
                }
            }
        }
        if front.len() == 0 {
            assert(spelled(front) == 0);
        }
    }
}

/// The digits of a number spell it.
pub proof fn lemma_number_is_spelled_by_its_digits(n: nat)
    requires
        n < 65_536,
    ensures
        spelled(decimal(n)) == n,
        are_digits(decimal(n)),
        decimal(n).len() > 0,
{
    lemma_decimal_round_trip(n);
    lemma_digits_are_read_as_their_number(decimal(n));
}

/// The status, the flow and the request for a session are read from the fields that are
/// named so: the status and the flow as numbers, and a session is asked for by the method
/// and the protocol together.
pub proof fn lemma_fields_say_what_they_are_named_for(list: Seq<(Seq<u8>, Seq<u8>)>)
    ensures
        status_of(list) == (match value_of(list, ":status".spec_bytes()) {
            Some(digits) => parse_decimal(digits),
            None => None,
        }),
        flow_of(list) == (match value_of(list, "datagram-flow-id".spec_bytes()) {
            Some(digits) => parse_decimal(digits),
            None => None,
        }),
        asks_for_session(list) <==> value_of(list, ":method".spec_bytes()) == Some(
            "CONNECT".spec_bytes(),
        ) && value_of(list, ":protocol".spec_bytes()) == Some("webtransport-h3".spec_bytes()),
{
}

/// A response carries its status, as its first field, and a request its method.
pub proof fn lemma_messages_carry_their_first_line(status: u16, method: &str)
    ensures
        status_of(response_fields(status)) == Some(status as nat),
        response_fields(status)[0].0 == ":status".spec_bytes(),
        request_fields(method)[0] == field(":method", method),
        request_fields(method).len() == 4,
        session_request_fields().len() == 5,
{
    reveal(response_fields);
    reveal(session_request_fields);
    lemma_decimal_round_trip(status as nat);
    reveal_with_fuel(value_of, 2);
}

} // verus!
