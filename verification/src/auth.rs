//! Session tokens, registration codes, password hashing and session expiry.

use argon2::password_hash::{PasswordHasher, PasswordVerifier, SaltString};
use rand_core::RngCore;
use sha2::Digest;
use vstd::prelude::*;

use crate::text::{hex_decode, hex_decoded, hex_encode, hex_lower, string_from_chars, law_hex_round_trip};

verus! {

/// How many bytes a session token carries.
pub const SESSION_TOKEN_BYTES: usize = 32;

/// One day in milliseconds.
pub const DAY: i64 = 86400000;

/// How many characters a registration code has.
pub const CODE_LEN: usize = 12;

/// A session token in both the form the client keeps and the form the server stores.
pub struct SessionToken {
    /// Goes to the client, never stored on the server
    pub secret: String,
    /// Goes in `sessions.token_hash`, never leaves the server
    pub hash: [u8; 32],
}

// Outside calls //

/// The SHA-256 digest of some bytes.
pub uninterp spec fn sha256(data: Seq<u8>) -> Seq<u8>;

/// Calls `sha2::Sha256::digest`, whose 32 bytes are taken as the SHA-256 of
/// `data`; nothing is claimed of them but that they depend on `data` alone.
#[verifier::external_body]
fn sha256_digest(data: &[u8]) -> (r: [u8; 32])
    ensures
        r@ == sha256(data@),
{
    sha2::Sha256::digest(data).into()
}

/// Calls `rand_core::OsRng::fill_bytes`: 32 bytes from the operating system's
/// random source, of which nothing is claimed.
#[verifier::external_body]
fn random_token_bytes() -> (r: [u8; 32]) {
    let mut bytes = [0u8; 32];
    rand_core::OsRng.fill_bytes(&mut bytes);
    bytes
}

/// Calls `rand_core::OsRng::next_u32`: a number from the operating system's
/// random source, of which nothing is claimed.
#[verifier::external_body]
fn random_u32() -> (r: u32) {
    rand_core::OsRng.next_u32()
}

#[verifier::external_type_specification]
#[verifier::external_body]
pub struct ExPasswordHashError(argon2::password_hash::Error);

/// Calls `Argon2::default().hash_password` with a salt from
/// `SaltString::generate(&mut OsRng)` and renders the PHC string. The salt is
/// random, so the string itself is not claimed; only that the same Argon2
/// parses it and finds the password it was made from. With the default
/// parameters and a 16-byte salt, the one input Argon2 refuses is a password
/// longer than `0xFFFFFFFF` bytes.
#[verifier::external_body]
fn argon2_hash(password: &str) -> (r: Result<String, argon2::password_hash::Error>)
    ensures
        r matches Ok(h) ==> argon2_outcome(password@, h@) == Some(true),
        r is Ok <==> vstd::utf8::encode_utf8(password@).len() <= 0xFFFF_FFFF,
{
    let salt = SaltString::generate(&mut rand_core::OsRng);
    argon2::Argon2::default().hash_password(password.as_bytes(), &salt).map(|h| h.to_string())
}

/// What checking a password against a stored PHC string with Argon2 gives:
/// whether it matches, or `None` when the string is unreadable or the
/// algorithm cannot run.
pub uninterp spec fn argon2_outcome(password: Seq<char>, stored_hash: Seq<char>) -> Option<bool>;

/// Calls `PasswordHash::new` on the stored string and then
/// `Argon2::default().verify_password`; `Ok(false)` is its
/// `Error::Password`, any other error is passed on. Claims only that the answer
/// depends on the two texts alone.
#[verifier::external_body]
fn argon2_verify(password: &str, stored_hash: &str) -> (r: Result<bool, argon2::password_hash::Error>)
    ensures
        match r {
            Ok(b) => argon2_outcome(password@, stored_hash@) == Some(b),
            Err(_) => argon2_outcome(password@, stored_hash@) is None,
        },
{
    let parsed = argon2::PasswordHash::new(stored_hash)?;
    match argon2::Argon2::default().verify_password(password.as_bytes(), &parsed) {
        Ok(()) => Ok(true),
        Err(argon2::password_hash::Error::Password) => Ok(false),
        Err(e) => Err(e),
    }
}

// Session tokens //

/// The stored form of a token the client presents: the SHA-256 of its bytes
/// when it is the hex of exactly 32 bytes.
pub open spec fn presented_hash(secret: Seq<char>) -> Option<Seq<u8>> {
    match hex_decoded(secret) {
        Some(bytes) => if bytes.len() == SESSION_TOKEN_BYTES { Some(sha256(bytes)) } else { None },
        None => None,
    }
}

/// Builds the token for 32 bytes: the client keeps their hex, the server their hash.
pub fn session_token_from(bytes: [u8; 32]) -> (r: SessionToken)
    ensures
        r.secret@ == hex_lower(bytes@),
        r.hash@ == sha256(bytes@),
{
    SessionToken { hash: sha256_digest(&bytes), secret: hex_encode(&bytes) }
}

/// Generates a session token and its stored hash.
pub fn generate_session_token() -> (r: SessionToken)
    ensures
        r.secret@.len() == 2 * SESSION_TOKEN_BYTES,
        presented_hash(r.secret@) == Some(r.hash@),
        exists|b: Seq<u8>| b.len() == SESSION_TOKEN_BYTES && r.secret@ == #[trigger] hex_lower(b) && r.hash@ == sha256(b),
{
    let bytes = random_token_bytes();
    let token = session_token_from(bytes);
    proof {
        law_session_token_round_trip(bytes@);
    }
    token
}

/// Hashes a session token the client presented, matching the stored form.
///
/// # Arguments
///
/// * `secret` - Session token as the client sent it.
pub fn hash_session_token(secret: &str) -> (r: Option<[u8; 32]>)
    ensures
        match r {
            Some(h) => presented_hash(secret@) == Some(h@),
            None => presented_hash(secret@) is None,
        },
{
    let bytes = hex_decode(secret)?;
    if bytes.len() != SESSION_TOKEN_BYTES {
        return None;
    }
    Some(sha256_digest(bytes.as_slice()))
}

/// A token the server hands out hashes, when the client presents it, to
/// exactly the hash the server stored for it.
pub proof fn law_session_token_round_trip(bytes: Seq<u8>)
    requires
        bytes.len() == SESSION_TOKEN_BYTES,
    ensures
        presented_hash(hex_lower(bytes)) == Some(sha256(bytes)),
{
    law_hex_round_trip(bytes);
}

// Registration codes //

/// The character a registration code uses for a number below 36: the digits,
/// then the upper-case letters.
pub open spec fn code_char(i: int) -> char {
    if i < 10 {
        (48 + i) as char
    } else {
        (55 + i) as char
    }
}

/// Whether a character is one a registration code is made of.
pub open spec fn code_alphabet(c: char) -> bool {
    ('0' <= c && c <= '9') || ('A' <= c && c <= 'Z')
}

/// The registration code drawn from the given random numbers: each picks
/// `code_char(r % 36)`.
pub open spec fn code_from(randoms: Seq<u32>) -> Seq<char> {
    Seq::new(randoms.len(), |i: int| code_char((randoms[i] % 36) as int))
}

fn alphabet_char(i: u32) -> (c: char)
    requires
        i < 36,
    ensures
        c == code_char(i as int),
        code_alphabet(c),
{
    if i < 10 {
        ((48 + i) as u8) as char
    } else {
        ((55 + i) as u8) as char
    }
}

/// Builds a registration code from random numbers, one character per number.
pub fn invite_code_from(randoms: &[u32]) -> (r: String)
    ensures
        r@ == code_from(randoms@),
{
    let mut chars: Vec<char> = Vec::new();
    let mut i: usize = 0;
    while i < randoms.len()
        invariant
            i <= randoms.len(),
            chars@ == code_from(randoms@).take(i as int),
        decreases randoms.len() - i,
    {
        let c = alphabet_char(randoms[i] % 36);
        chars.push(c);
        proof {
            assert(chars@ =~= code_from(randoms@).take(i as int + 1));
        }
        i = i + 1;
    }
    assert(chars@ =~= code_from(randoms@));
    string_from_chars(&chars)
}

/// Generates a registration code from upper-case alphanumerics.
pub fn generate_invite_code() -> (r: String)
    ensures
        r@.len() == CODE_LEN,
        forall|i: int| 0 <= i < r@.len() ==> code_alphabet(#[trigger] r@[i]),
{
    let mut randoms: Vec<u32> = Vec::new();
    let mut i: usize = 0;
    while i < CODE_LEN
        invariant
            i <= CODE_LEN,
            randoms@.len() == i,
        decreases CODE_LEN - i,
    {
        randoms.push(random_u32());
        i = i + 1;
    }
    let code = invite_code_from(&randoms);
    proof {
        assert forall|i: int| 0 <= i < code@.len() implies code_alphabet(#[trigger] code@[i]) by {
            let v = randoms@[i] % 36;
            assert(code@[i] == code_char(v as int));
        }
    }
    code
}

// Passwords //

/// Hashes a password with Argon2id and a fresh random salt, returning a PHC string.
///
/// # Errors
///
/// Passes on the error of the algorithm, which refuses only a password
/// longer than `0xFFFFFFFF` bytes.
pub fn hash_password(password: &str) -> (r: Result<String, argon2::password_hash::Error>)
    ensures
        r matches Ok(h) ==> argon2_outcome(password@, h@) == Some(true),
        r is Ok <==> vstd::utf8::encode_utf8(password@).len() <= 0xFFFF_FFFF,
{
    argon2_hash(password)
}

/// Reports whether a password matches a stored hash.
///
/// # Errors
///
/// Passes on the error when the stored hash is unreadable or the algorithm
/// cannot run.
pub fn verify_password(password: &str, stored_hash: &str) -> (r: Result<bool, argon2::password_hash::Error>)
    ensures
        match r {
            Ok(b) => argon2_outcome(password@, stored_hash@) == Some(b),
            Err(_) => argon2_outcome(password@, stored_hash@) is None,
        },
{
    argon2_verify(password, stored_hash)
}

/// Burns the CPU time a password verification costs, against a fixed hash.
/// An unknown username runs this, so it takes the same time as a wrong
/// password; the answer is thrown away.
///
/// # Arguments
///
/// * `password` - Password to verify against the decoy hash.
/// * `decoy_hash` - PHC string of a password no account has.
pub fn burn_verify(password: &str, decoy_hash: &str) {
    let _ = verify_password(password, decoy_hash);
}

// Expiry //

/// Whether an active session is extended: its expiry is more than the
/// renewal interval short of a full lifetime from now.
pub open spec fn renewal_due(expires_at: int, now: int, lifetime_days: int, renew_days: int) -> bool {
    expires_at < now + lifetime_days * DAY - renew_days * DAY
}

/// Reports whether a session's expiry is pushed out on this use.
///
/// # Arguments
///
/// * `expires_at` - When the session expires, in milliseconds.
/// * `now` - The current time, in milliseconds.
/// * `lifetime_days` - How long a session survives without activity.
/// * `renew_days` - Days that must elapse before a session is extended again.
pub fn needs_renewal(expires_at: i64, now: i64, lifetime_days: i64, renew_days: i64) -> (r: bool)
    requires
        i64::MIN <= lifetime_days * DAY <= i64::MAX,
        i64::MIN <= renew_days * DAY <= i64::MAX,
        i64::MIN <= now + lifetime_days * DAY <= i64::MAX,
        i64::MIN <= now + lifetime_days * DAY - renew_days * DAY <= i64::MAX,
    ensures
        r == renewal_due(expires_at as int, now as int, lifetime_days as int, renew_days as int),
{
    let lifetime = lifetime_days * DAY;
    let renew = renew_days * DAY;
    expires_at < now + lifetime - renew
}

/// When a session opened now expires, in milliseconds.
pub fn session_expiry(now: i64, lifetime_days: i64) -> (r: i64)
    requires
        i64::MIN <= now + lifetime_days * DAY <= i64::MAX,
        i64::MIN <= lifetime_days * DAY <= i64::MAX,
    ensures
        r == now + lifetime_days * DAY,
{
    now + lifetime_days * DAY
}

/// The sum of two times, held at the ends of the range instead of overflowing.
pub open spec fn saturating_sum(a: int, b: int) -> int {
    if a + b > i64::MAX {
        i64::MAX as int
    } else if a + b < i64::MIN {
        i64::MIN as int
    } else {
        a + b
    }
}

/// When a registration code issued now expires: `lifetime` milliseconds on,
/// held at the end of the range, or never.
pub fn invite_expiry(now: i64, lifetime: Option<i64>) -> (r: Option<i64>)
    ensures
        match lifetime {
            Some(ms) => r == Some(saturating_sum(now as int, ms as int) as i64),
            None => r is None,
        },
{
    match lifetime {
        Some(ms) => {
            if ms > 0 && now > i64::MAX - ms {
                Some(i64::MAX)
            } else if ms < 0 && now < i64::MIN - ms {
                Some(i64::MIN)
            } else {
                Some(now + ms)
            }
        },
        None => None,
    }
}

/// When a ban or room invite issued now expires: `delta` milliseconds on, or
/// never.
pub fn grant_expiry(now: i64, delta: Option<i64>) -> (r: Option<i64>)
    requires
        delta matches Some(d) ==> i64::MIN <= now + d <= i64::MAX,
    ensures
        match delta {
            Some(d) => r == Some((now + d) as i64),
            None => r is None,
        },
{
    match delta {
        Some(d) => Some(now + d),
        None => None,
    }
}

} // verus!
