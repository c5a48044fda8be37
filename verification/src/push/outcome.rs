//! What a push service answered, and how it is reported.

use vstd::prelude::*;

use crate::text::{decimal, decimal_string};

verus! {

/// What a push service answered.
#[derive(Debug, Clone, Copy, PartialEq, Eq, Structural)]
pub enum Outcome {
    Sent,
    Gone,
    Rejected,
    TooLarge,
    Throttled(Option<u64>),
    Other(u16),
}

/// What an HTTP status from a push service means (RFC 8030 section 5).
pub open spec fn outcome_of(status: u16, retry_after: Option<u64>) -> Outcome {
    if status == 201 {
        Outcome::Sent
    } else if status == 404 || status == 410 {
        Outcome::Gone
    } else if status == 403 {
        Outcome::Rejected
    } else if status == 413 {
        Outcome::TooLarge
    } else if status == 429 {
        Outcome::Throttled(retry_after)
    } else {
        Outcome::Other(status)
    }
}

/// Reads a push service's answer.
///
/// # Arguments
///
/// * `status` - The HTTP status it answered with.
/// * `retry_after` - Seconds its `Retry-After` header asks to wait, if it gave a number.
pub fn classify(status: u16, retry_after: Option<u64>) -> (r: Outcome)
    ensures
        r == outcome_of(status, retry_after),
{
    if status == 201 {
        Outcome::Sent
    } else if status == 404 || status == 410 {
        Outcome::Gone
    } else if status == 403 {
        Outcome::Rejected
    } else if status == 413 {
        Outcome::TooLarge
    } else if status == 429 {
        Outcome::Throttled(retry_after)
    } else {
        Outcome::Other(status)
    }
}

/// The words an answer is reported in.
pub open spec fn description(outcome: Outcome) -> Seq<char> {
    match outcome {
        Outcome::Sent => "accepted"@,
        Outcome::Gone => "the subscription no longer exists"@,
        Outcome::Rejected => "signed with the wrong key"@,
        Outcome::TooLarge => "the payload is over the service's limit"@,
        Outcome::Throttled(Some(seconds)) => "sending too fast, retry after "@ + decimal(seconds as nat) + "s"@,
        Outcome::Throttled(None) => "sending too fast"@,
        Outcome::Other(status) => "answered "@ + decimal(status as nat),
    }
}

/// What one push service answered, in words.
pub fn describe(outcome: &Outcome) -> (r: String)
    ensures
        r@ == description(*outcome),
{
    match outcome {
        Outcome::Sent => String::from_str("accepted"),
        Outcome::Gone => String::from_str("the subscription no longer exists"),
        Outcome::Rejected => String::from_str("signed with the wrong key"),
        Outcome::TooLarge => String::from_str("the payload is over the service's limit"),
        Outcome::Throttled(seconds) => match seconds {
            Some(seconds) => {
                let mut text = String::from_str("sending too fast, retry after ");
                let number = decimal_string(*seconds);
                text.append(number.as_str());
                text.append("s");
                text
            },
            None => String::from_str("sending too fast"),
        },
        Outcome::Other(status) => {
            let mut text = String::from_str("answered ");
            let number = decimal_string(*status as u64);
            text.append(number.as_str());
            text
        },
    }
}

/// The number decimal digits spell.
pub open spec fn digits_value(d: Seq<char>) -> nat
    decreases d.len(),
{
    if d.len() == 0 {
        0
    } else {
        digits_value(d.drop_last()) * 10 + ((d.last() as int - 48) as nat)
    }
}

/// What `str::parse::<u64>` reads from a text: an optional `+`, then one or
/// more ASCII digits whose value fits in 64 bits.
pub open spec fn parsed_u64(s: Seq<char>) -> Option<u64> {
    let d = if s.len() > 0 && s[0] == '+' { s.skip(1) } else { s };
    if d.len() > 0 && (forall|i: int| 0 <= i < d.len() ==> '0' <= #[trigger] d[i] <= '9') && digits_value(d) <= u64::MAX {
        Some(digits_value(d) as u64)
    } else {
        None
    }
}

/// Calls `str::parse::<u64>`, keeping the number when it parsed.
#[verifier::external_body]
fn parse_u64(s: &str) -> (r: Option<u64>)
    ensures
        r == parsed_u64(s@),
{
    s.parse().ok()
}

/// Seconds a push service asked to wait for in its `Retry-After` header. A
/// date, or anything else that is not a number of seconds, reads as `None`.
///
/// # Arguments
///
/// * `header` - The header's text.
pub fn retry_after(header: &str) -> (r: Option<u64>)
    ensures
        r == parsed_u64(header@),
{
    parse_u64(header)
}

} // verus!
