//! Who may open the sidecar's socket: a request carrying the configured secret
//! as a bearer token.

use vstd::prelude::*;

use crate::text::chars_of;

verus! {

/// Whether two secrets are the same, comparing every byte so the time taken
/// does not reveal how many matched.
///
/// # Arguments
///
/// * `sent` - What the request presented.
/// * `expected` - What the config holds.
pub fn matches(sent: &str, expected: &str) -> (r: bool)
    ensures
        r == (vstd::utf8::encode_utf8(sent@) == vstd::utf8::encode_utf8(expected@)),
{
    let a = sent.as_bytes();
    let b = expected.as_bytes();
    if a.len() != b.len() {
        return false;
    }
    let mut differences: u8 = 0;
    let mut i: usize = 0;
    while i < b.len()
        invariant
            i <= b.len(),
            a@.len() == b@.len(),
            differences == 0 <==> forall|j: int| 0 <= j < i ==> a@[j] == b@[j],
        decreases b.len() - i,
    {
        let x = a[i];
        let y = b[i];
        let d = differences;
        assert((d | (x ^ y)) == 0 <==> (d == 0 && x == y)) by (bit_vector);
        differences = differences | (x ^ y);
        i = i + 1;
    }
    let r = differences == 0;
    proof {
        if r {
            assert(a@ =~= b@);
        }
    }
    r
}

/// The token a bearer `Authorization` header carries: what follows `Bearer `.
pub open spec fn bearer_token(header: Seq<char>) -> Option<Seq<char>> {
    if header.len() >= 7 && header.take(7) == "Bearer "@ {
        Some(header.skip(7))
    } else {
        None
    }
}

/// Whether the sidecar's request may open its socket: a secret is configured,
/// and the request's bearer token is exactly that secret.
pub open spec fn sidecar_admitted(expected: Seq<char>, header: Option<Seq<char>>) -> bool {
    &&& expected.len() > 0
    &&& header is Some
    &&& bearer_token(header->0) is Some
    &&& vstd::utf8::encode_utf8(bearer_token(header->0)->0) == vstd::utf8::encode_utf8(expected)
}

/// Decides whether the sidecar's connection is accepted. An unset secret
/// refuses every connection.
///
/// # Arguments
///
/// * `expected` - The secret the config holds.
/// * `header` - The request's `Authorization` header, if it has one that is text.
pub fn admit_sidecar(expected: &str, header: Option<&str>) -> (r: bool)
    ensures
        r == sidecar_admitted(expected@, match header { Some(h) => Some(h@), None => None }),
{
    if expected.is_empty() {
        return false;
    }
    let header = match header {
        Some(h) => h,
        None => return false,
    };
    let len = header.unicode_len();
    if len < 7 {
        return false;
    }
    let prefix = header.substring_char(0, 7);
    let prefix_chars = chars_of(prefix);
    let bearer = chars_of("Bearer ");
    let mut same = prefix_chars.len() == bearer.len();
    let mut i: usize = 0;
    while same && i < prefix_chars.len()
        invariant
            i <= prefix_chars.len(),
            prefix_chars@ == prefix@,
            bearer@ == "Bearer "@,
            same ==> prefix_chars@.len() == bearer@.len() && forall|j: int| 0 <= j < i ==> prefix_chars@[j] == bearer@[j],
            !same ==> prefix@ != "Bearer "@,
        decreases prefix_chars.len() - i,
    {
        if prefix_chars[i] != bearer[i] {
            same = false;
        }
        i = i + 1;
    }
    if !same {
        return false;
    }
    assert(prefix@ =~= "Bearer "@);
    let token = header.substring_char(7, len);
    assert(token@ =~= header@.skip(7));
    matches(token, expected)
}

} // verus!
