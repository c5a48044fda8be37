//! What one push request carries: the token, the encrypted body and the TTL.
//! Posting it, and reading the answer, is the caller's part.

use vstd::prelude::*;

use crate::push::encrypt::{body_parts_sized, encrypt, push_body, EncryptError, SALT_LEN, SEAL_MAX};
use crate::push::keys::{sec1_point, valid_secret};
use crate::push::vapid::{authorization_text, VapidKey};
use crate::text::{decimal, decimal_string};

verus! {

/// Seconds a signed token stays valid.
pub const TOKEN_SECONDS: u64 = 3600;

/// The origin of a URL as `Url::origin().ascii_serialization()` writes it:
/// scheme, host and any port that is not the default, or `null` for a URL
/// with an opaque origin; `None` when it does not parse.
pub uninterp spec fn url_origin(url: Seq<char>) -> Option<Seq<char>>;

/// Calls `reqwest::Url::parse`, then `origin().ascii_serialization()`.
#[verifier::external_body]
fn endpoint_origin(endpoint: &str) -> (r: Option<String>)
    ensures
        match r {
            Some(o) => url_origin(endpoint@) == Some(o@),
            None => url_origin(endpoint@) is None,
        },
{
    match reqwest::Url::parse(endpoint) {
        Ok(url) => Some(url.origin().ascii_serialization()),
        Err(_) => None,
    }
}

/// Why a push request could not be prepared.
#[derive(Debug, Clone, Copy, PartialEq, Eq, Structural)]
pub enum PrepareError {
    /// The endpoint is not a URL
    BadEndpoint,
    /// The clock is before 1970
    Clock,
    /// The message could not be encrypted for this subscription
    Encrypt(EncryptError),
}

/// A push request ready to post to a subscription's endpoint.
pub struct PushRequest {
    /// The `Authorization` header
    pub authorization: String,
    /// The `TTL` header
    pub ttl: String,
    /// The encrypted body, sent with `Content-Encoding: aes128gcm`
    pub body: Vec<u8>,
}

/// Encrypts a message and signs a token for one subscription, ready to post.
/// The token names the endpoint's origin, so it cannot be used against another
/// service.
///
/// # Arguments
///
/// * `key` - The signing key.
/// * `subject` - Contact URI for this server, `mailto:` or `https:`.
/// * `endpoint` - Push resource the browser was given.
/// * `p256dh` - Subscription's public key, 65 bytes.
/// * `auth` - Subscription's authentication secret, 16 bytes.
/// * `plaintext` - What the browser receives.
/// * `ttl` - Seconds the push service keeps the message for.
pub fn prepare(
    key: &VapidKey,
    subject: &str,
    endpoint: &str,
    p256dh: &[u8],
    auth: &[u8],
    plaintext: &[u8],
    ttl: u32,
) -> (r: Result<PushRequest, PrepareError>)
    ensures
        match r {
            Ok(req) => {
                &&& url_origin(endpoint@) is Some
                &&& sec1_point(p256dh@) && plaintext@.len() < SEAL_MAX
                &&& req.body@.len() == 16 + 4 + 1 + 65 + plaintext@.len() + 1 + 16 && req.body@[21] == 4
                &&& exists|now: u64| now + TOKEN_SECONDS <= u64::MAX
                    && req.authorization@ == #[trigger] authorization_text(key@, url_origin(endpoint@)->0, subject@, (now + TOKEN_SECONDS) as u64)
                &&& exists|secret: Seq<u8>, salt: Seq<u8>|
                    valid_secret(secret) && salt.len() == SALT_LEN
                    && req.body@ == #[trigger] push_body(p256dh@, auth@, plaintext@, secret, salt)
                    && body_parts_sized(p256dh@, auth@, plaintext@, secret, salt)
                &&& req.ttl@ == decimal(ttl as nat)
            },
            Err(PrepareError::BadEndpoint) => url_origin(endpoint@) is None,
            Err(PrepareError::Clock) => url_origin(endpoint@) is Some,
            Err(PrepareError::Encrypt(EncryptError::BadBrowserKey)) => url_origin(endpoint@) is Some && !sec1_point(p256dh@),
            Err(PrepareError::Encrypt(EncryptError::TooLong)) => url_origin(endpoint@) is Some && sec1_point(p256dh@)
                && plaintext@.len() >= SEAL_MAX,
        },
{
    let origin = match endpoint_origin(endpoint) {
        Some(o) => o,
        None => return Err(PrepareError::BadEndpoint),
    };
    let token = match key.authorization(origin.as_str(), subject, TOKEN_SECONDS) {
        Ok(t) => t,
        Err(_) => return Err(PrepareError::Clock),
    };
    proof {
        let now = choose|now: u64| now + TOKEN_SECONDS <= u64::MAX
            && token@ == #[trigger] authorization_text(key@, origin@, subject@, (now + TOKEN_SECONDS) as u64);
        assert(authorization_text(key@, url_origin(endpoint@)->0, subject@, (now + TOKEN_SECONDS) as u64) == token@);
    }
    let body = match encrypt(p256dh, auth, plaintext) {
        Ok(b) => b,
        Err(e) => return Err(PrepareError::Encrypt(e)),
    };
    let ttl_text = decimal_string(ttl as u64);
    Ok(PushRequest { authorization: token, ttl: ttl_text, body })
}

} // verus!
