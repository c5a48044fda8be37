//! Account, room and message ids: 128-bit values written in the usual uuid
//! forms.

use vstd::prelude::*;
use crate::text::{hex_lower, hex_value};

verus! {

/// Whether a position of the 36-character form holds a hyphen.
pub open spec fn hyphen_position(i: int) -> bool {
    i == 8 || i == 13 || i == 18 || i == 23
}

/// Where the `k`-th of the 32 hex digits stands in the 36-character form.
pub open spec fn digit_position(k: int) -> int {
    if k < 8 {
        k
    } else if k < 12 {
        k + 1
    } else if k < 16 {
        k + 2
    } else if k < 20 {
        k + 3
    } else {
        k + 4
    }
}

/// Hex digits read as one big-endian number.
pub open spec fn hex_number(digits: Seq<char>) -> int
    decreases digits.len(),
{
    if digits.len() == 0 {
        0
    } else {
        16 * hex_number(digits.drop_last()) + hex_value(digits.last())->0
    }
}

/// A 36-character text read as a hyphenated uuid (`8-4-4-4-12` hex digits of
/// either case), `None` when it is not one.
pub open spec fn hyphenated_uuid(s: Seq<char>) -> Option<u128> {
    if s.len() == 36 && (forall|i: int|
        0 <= i < 36 ==> (if hyphen_position(i) {
            s[i] == '-'
        } else {
            (#[trigger] hex_value(s[i])) is Some
        }))
    {
        Some(hex_number(Seq::new(32, |k: int| s[digit_position(k)])) as u128)
    } else {
        None
    }
}

/// The 16 bytes of an id, most significant first.
pub open spec fn id_bytes(id: u128) -> Seq<u8> {
    Seq::new(16, |i: int| ((id as int / vstd::arithmetic::power2::pow2((8 * (15 - i)) as nat) as int) % 256) as u8)
}

/// An id in the 32-digit lower-case form.
pub open spec fn simple_text(id: u128) -> Seq<char> {
    hex_lower(id_bytes(id))
}

/// Reads a 36-character text as a hyphenated uuid.
///
/// Calls `uuid::Uuid::try_parse`, which for a text of 36 bytes accepts exactly
/// hyphens at positions 8, 13, 18 and 23 and hex digits of either case
/// elsewhere, reading the digits big-endian. A 36-character text that is not
/// all ASCII is more than 36 bytes and fails every form `try_parse` accepts.
#[verifier::external_body]
pub(crate) fn parse_hyphenated_uuid(s: &str) -> (r: Option<u128>)
    requires
        s@.len() == 36,
    ensures
        r == hyphenated_uuid(s@),
{
    uuid::Uuid::try_parse(s).ok().map(|u| u.as_u128())
}

/// Writes an id in the 32-digit lower-case form.
///
/// Calls `uuid::Uuid::simple` and its `Display`, which write the 16 bytes most
/// significant first as lower-case hex with no hyphens.
#[verifier::external_body]
pub(crate) fn simple_uuid_text(id: u128) -> (s: String)
    ensures
        s@ == simple_text(id),
{
    uuid::Uuid::from_u128(id).simple().to_string()
}

/// Whether an id is in a list.
pub fn id_in(ids: &[u128], id: u128) -> (r: bool)
    ensures
        r == ids@.contains(id),
{
    let mut i: usize = 0;
    while i < ids.len()
        invariant
            i <= ids.len(),
            forall|j: int| 0 <= j < i ==> ids@[j] != id,
        decreases ids.len() - i,
    {
        if ids[i] == id {
            return true;
        }
        i = i + 1;
    }
    false
}

} // verus!
