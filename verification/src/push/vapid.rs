//! The signing key, and the token sent with every push request.
//!
//! The key pair, the header, and the claims are defined by RFC 8292 section 2.

use base64::Engine;
use vstd::prelude::*;

use crate::push::keys::{es256_sign, es256_signature, p256_public, public_point, random_secret, secret_from_slice, secret_key_from_slice, valid_secret};
use crate::text::{append_text, decimal, decimal_string, lower_hex_digit, string_from_chars, trim_end, trim_start, trim_text, trimmed, white_space};

verus! {

/// File the signing key is stored in, relative to the working directory.
pub const KEY_FILE: &'static str = "vapid.key";

/// The only header VAPID allows, ECDSA on P-256.
pub const HEADER: &'static str = "{\"typ\":\"JWT\",\"alg\":\"ES256\"}";

/// The signing key: a P-256 secret scalar.
pub struct VapidKey {
    secret: [u8; 32],
}

impl View for VapidKey {
    type V = Seq<u8>;

    closed spec fn view(&self) -> Seq<u8> {
        self.secret@
    }
}

impl VapidKey {
    #[verifier::type_invariant]
    spec fn holds_valid_secret(self) -> bool {
        valid_secret(self.secret@)
    }
}

/// Why a stored signing key could not be read.
#[derive(Debug, Clone, Copy, PartialEq, Eq, Structural)]
pub enum KeyError {
    /// The text is not base64url without padding
    NotBase64,
    /// The bytes are not a P-256 secret key
    NotAKey,
}

/// Why a token could not be built.
#[derive(Debug, Clone, Copy, PartialEq, Eq, Structural)]
pub enum VapidError {
    /// The clock is before 1970, or the expiry does not fit in 64 bits
    Clock,
}

// Base64url //

/// The base64url digit for a value below 64.
pub open spec fn b64_digit(v: int) -> char {
    if v < 26 {
        (65 + v) as char
    } else if v < 52 {
        (97 + v - 26) as char
    } else if v < 62 {
        (48 + v - 52) as char
    } else if v == 62 {
        '-'
    } else {
        '_'
    }
}

/// Bytes in base64url with the padding left off (RFC 4648 section 5).
pub open spec fn b64url(b: Seq<u8>) -> Seq<char>
    decreases b.len(),
{
    if b.len() == 0 {
        seq![]
    } else {
        let x = b[0] as int;
        let y = if b.len() > 1 { b[1] as int } else { 0 };
        let z = if b.len() > 2 { b[2] as int } else { 0 };
        if b.len() == 1 {
            seq![b64_digit(x / 4), b64_digit((x % 4) * 16)]
        } else if b.len() == 2 {
            seq![b64_digit(x / 4), b64_digit((x % 4) * 16 + y / 16), b64_digit((y % 16) * 4)]
        } else {
            seq![
                b64_digit(x / 4),
                b64_digit((x % 4) * 16 + y / 16),
                b64_digit((y % 16) * 4 + z / 64),
                b64_digit(z % 64),
            ] + b64url(b.skip(3))
        }
    }
}

/// Calls `URL_SAFE_NO_PAD.encode`.
#[verifier::external_body]
fn b64url_encode(bytes: &[u8]) -> (r: String)
    ensures
        r@ == b64url(bytes@),
{
    base64::engine::general_purpose::URL_SAFE_NO_PAD.encode(bytes)
}

/// Calls `URL_SAFE_NO_PAD.decode`. That engine refuses padding, a length of
/// one past a multiple of four, characters outside the alphabet and nonzero
/// trailing bits, so it accepts exactly the texts that encoding gives.
#[verifier::external_body]
fn b64url_decode(text: &str) -> (r: Option<Vec<u8>>)
    ensures
        match r {
            Some(b) => b64url(b@) == text@,
            None => forall|b: Seq<u8>| #[trigger] b64url(b) != text@,
        },
{
    base64::engine::general_purpose::URL_SAFE_NO_PAD.decode(text).ok()
}

// JSON //

/// How a JSON string writes one character: quote and backslash escaped, the
/// control characters by their short escapes or as `\u00xx`.
pub open spec fn json_escape(c: char) -> Seq<char> {
    if c == '"' {
        seq!['\\', '"']
    } else if c == '\\' {
        seq!['\\', '\\']
    } else if c == '\u{8}' {
        seq!['\\', 'b']
    } else if c == '\t' {
        seq!['\\', 't']
    } else if c == '\n' {
        seq!['\\', 'n']
    } else if c == '\u{c}' {
        seq!['\\', 'f']
    } else if c == '\r' {
        seq!['\\', 'r']
    } else if (c as u32) < 0x20 {
        seq!['\\', 'u', '0', '0', lower_hex_digit((c as int) / 16), lower_hex_digit((c as int) % 16)]
    } else {
        seq![c]
    }
}

/// The escaped characters of a text.
pub open spec fn json_escaped(s: Seq<char>) -> Seq<char>
    decreases s.len(),
{
    if s.len() == 0 {
        seq![]
    } else {
        json_escaped(s.drop_last()) + json_escape(s.last())
    }
}

/// A text as a JSON string, quotes included.
pub open spec fn json_quoted(s: Seq<char>) -> Seq<char> {
    seq!['"'] + json_escaped(s) + seq!['"']
}

/// Calls `serde_json::to_string` on a text, which writes it as a JSON string
/// and cannot fail for one.
#[verifier::external_body]
fn json_string(s: &str) -> (r: String)
    ensures
        r@ == json_quoted(s@),
{
    match serde_json::to_string(s) {
        Ok(text) => text,
        Err(_) => String::new(),
    }
}

// Tokens //

/// The claims a token states, as JSON: audience, expiry and subject.
pub open spec fn claims_json(audience: Seq<char>, expires: u64, subject: Seq<char>) -> Seq<char> {
    "{\"aud\":"@ + json_quoted(audience) + ",\"exp\":"@ + decimal(expires as nat) + ",\"sub\":"@
        + json_quoted(subject) + "}"@
}

/// What the signature covers: header and claims in base64url, joined by a period.
pub open spec fn signed_part(audience: Seq<char>, expires: u64, subject: Seq<char>) -> Seq<char> {
    b64url(vstd::utf8::encode_utf8(HEADER@)) + "."@
        + b64url(vstd::utf8::encode_utf8(claims_json(audience, expires, subject)))
}

/// The `Authorization` header for a key, audience, subject and expiry
/// (RFC 8292 section 3): the signed token, then the public key.
pub open spec fn authorization_text(secret: Seq<u8>, audience: Seq<char>, subject: Seq<char>, expires: u64) -> Seq<char> {
    let signed = signed_part(audience, expires, subject);
    "vapid t="@ + signed + "."@ + b64url(es256_signature(secret, vstd::utf8::encode_utf8(signed))) + ", k="@
        + b64url(p256_public(secret))
}

/// Calls `SystemTime::now().duration_since(UNIX_EPOCH)`, in whole seconds;
/// `None` when the clock is before 1970. The time is not claimed.
#[verifier::external_body]
fn now_secs() -> (r: Option<u64>) {
    match std::time::SystemTime::now().duration_since(std::time::UNIX_EPOCH) {
        Ok(d) => Some(d.as_secs()),
        Err(_) => None,
    }
}

impl VapidKey {
    /// Draws a new signing key.
    pub fn generate() -> (r: VapidKey)
        ensures
            valid_secret(r@),
    {
        VapidKey { secret: random_secret() }
    }

    /// The key for 32 bytes, when they are a P-256 secret scalar.
    pub fn from_bytes(bytes: [u8; 32]) -> (r: Option<VapidKey>)
        ensures
            match r {
                Some(k) => k@ == bytes@,
                None => !valid_secret(bytes@),
            },
    {
        match secret_key_from_slice(&bytes) {
            Some(k) => {
                proof {
                    assert(Seq::new(0nat, |i: int| 0u8) + bytes@ =~= bytes@);
                }
                Some(VapidKey { secret: k })
            },
            None => {
                proof {
                    assert(Seq::new(0nat, |i: int| 0u8) + bytes@ =~= bytes@);
                }
                None
            },
        }
    }

    /// Reads a key as it is stored: base64url without padding, whitespace
    /// around it ignored, 24 to 32 bytes of scalar.
    ///
    /// # Arguments
    ///
    /// * `text` - What the key file holds.
    pub fn read(text: &str) -> (r: Result<VapidKey, KeyError>)
        ensures
            match r {
                Ok(k) => exists|b: Seq<u8>| b64url(b) == trimmed(text@) && secret_from_slice(b) == Some(k@),
                Err(KeyError::NotBase64) => forall|b: Seq<u8>| #[trigger] b64url(b) != trimmed(text@),
                Err(KeyError::NotAKey) => exists|b: Seq<u8>| b64url(b) == trimmed(text@) && secret_from_slice(b) is None,
            },
    {
        let trimmed_text = trim_text(text);
        let bytes = match b64url_decode(trimmed_text.as_str()) {
            Some(b) => b,
            None => return Err(KeyError::NotBase64),
        };
        match secret_key_from_slice(bytes.as_slice()) {
            Some(k) => {
                proof {
                    assert(valid_secret(k@));
                }
                Ok(VapidKey { secret: k })
            },
            None => Err(KeyError::NotAKey),
        }
    }

    /// The key as it is stored: its 32 bytes in base64url without padding.
    pub fn to_text(&self) -> (r: String)
        ensures
            r@ == b64url(self@),
    {
        b64url_encode(&self.secret)
    }

    /// The public half as its 65 bytes, which is what Xenon stores.
    pub fn public_key_bytes(&self) -> (r: Vec<u8>)
        ensures
            r@ == p256_public(self@),
            r@.len() == 65,
    {
        proof {
            use_type_invariant(self);
        }
        public_point(&self.secret)
    }

    /// The public half, in the form a browser passes as `applicationServerKey`.
    pub fn public_key(&self) -> (r: String)
        ensures
            r@ == b64url(p256_public(self@)),
    {
        let bytes = self.public_key_bytes();
        b64url_encode(bytes.as_slice())
    }

    /// Builds the `Authorization` header for one push request that expires at
    /// a given time.
    ///
    /// # Arguments
    ///
    /// * `audience` - Origin of the push resource URL, scheme and host only.
    /// * `subject` - Contact URI for this server, `mailto:` or `https:`.
    /// * `expires` - Seconds since 1970 at which the token lapses.
    pub fn authorization_at(&self, audience: &str, subject: &str, expires: u64) -> (r: String)
        ensures
            r@ == authorization_text(self@, audience@, subject@, expires),
    {
        proof {
            use_type_invariant(self);
        }
        let mut claims: Vec<char> = Vec::new();
        append_text(&mut claims, "{\"aud\":");
        let aud = json_string(audience);
        append_text(&mut claims, aud.as_str());
        append_text(&mut claims, ",\"exp\":");
        let exp = decimal_string(expires);
        append_text(&mut claims, exp.as_str());
        append_text(&mut claims, ",\"sub\":");
        let sub = json_string(subject);
        append_text(&mut claims, sub.as_str());
        append_text(&mut claims, "}");
        assert(claims@ =~= claims_json(audience@, expires, subject@));
        let claims_text = string_from_chars(claims.as_slice());

        let mut signed: Vec<char> = Vec::new();
        let head = b64url_encode(HEADER.as_bytes());
        append_text(&mut signed, head.as_str());
        append_text(&mut signed, ".");
        let body = b64url_encode(claims_text.as_str().as_bytes());
        append_text(&mut signed, body.as_str());
        assert(signed@ =~= signed_part(audience@, expires, subject@));
        let signed_text = string_from_chars(signed.as_slice());

        let signature = es256_sign(&self.secret, signed_text.as_str().as_bytes());
        let token = b64url_encode(signature.as_slice());
        let public = self.public_key();

        let mut out: Vec<char> = Vec::new();
        append_text(&mut out, "vapid t=");
        append_text(&mut out, signed_text.as_str());
        append_text(&mut out, ".");
        append_text(&mut out, token.as_str());
        append_text(&mut out, ", k=");
        append_text(&mut out, public.as_str());
        assert(out@ =~= authorization_text(self@, audience@, subject@, expires));
        string_from_chars(out.as_slice())
    }

    /// Builds the `Authorization` header for one push request, valid for some
    /// seconds from now.
    ///
    /// # Arguments
    ///
    /// * `audience` - Origin of the push resource URL, scheme and host only.
    /// * `subject` - Contact URI for this server, `mailto:` or `https:`.
    /// * `seconds` - How long the token stays valid, at most 86400.
    pub fn authorization(&self, audience: &str, subject: &str, seconds: u64) -> (r: Result<String, VapidError>)
        ensures
            match r {
                Ok(text) => exists|now: u64| now + seconds <= u64::MAX
                    && text@ == #[trigger] authorization_text(self@, audience@, subject@, (now + seconds) as u64),
                Err(_) => true,
            },
    {
        let now = match now_secs() {
            Some(n) => n,
            None => return Err(VapidError::Clock),
        };
        self.authorization_from(audience, subject, now, seconds)
    }

    /// Builds the `Authorization` header for one push request made at a given
    /// time, valid for some seconds after it; refused when the expiry does not
    /// fit in 64 bits.
    ///
    /// # Arguments
    ///
    /// * `audience` - Origin of the push resource URL, scheme and host only.
    /// * `subject` - Contact URI for this server, `mailto:` or `https:`.
    /// * `now` - Seconds since 1970 at which the request is made.
    /// * `seconds` - How long the token stays valid, at most 86400.
    pub fn authorization_from(&self, audience: &str, subject: &str, now: u64, seconds: u64) -> (r: Result<String, VapidError>)
        ensures
            match r {
                Ok(text) => now + seconds <= u64::MAX
                    && text@ == authorization_text(self@, audience@, subject@, (now + seconds) as u64),
                Err(e) => now + seconds > u64::MAX && e == VapidError::Clock,
            },
    {
        match now.checked_add(seconds) {
            Some(expires) => Ok(self.authorization_at(audience, subject, expires)),
            None => Err(VapidError::Clock),
        }
    }
}

} // verus!

verus! {

// Reading back what was stored //

proof fn lemma_b64_digit_code(v: int)
    requires
        0 <= v < 64,
    ensures
        v < 26 ==> b64_digit(v) as int == 65 + v,
        26 <= v < 52 ==> b64_digit(v) as int == 71 + v,
        52 <= v < 62 ==> b64_digit(v) as int == v - 4,
        v == 62 ==> b64_digit(v) as int == 45,
        v == 63 ==> b64_digit(v) as int == 95,
        !white_space(b64_digit(v)),
{
}

proof fn lemma_b64_digit_injective(v: int, w: int)
    requires
        0 <= v < 64,
        0 <= w < 64,
        b64_digit(v) == b64_digit(w),
    ensures
        v == w,
{
    lemma_b64_digit_code(v);
    lemma_b64_digit_code(w);
}

proof fn lemma_b64url_shape(b: Seq<u8>)
    ensures
        b64url(b).len() == 4 * (b.len() / 3) + (if b.len() % 3 == 0 { 0 } else { b.len() % 3 + 1 }),
        forall|i: int| 0 <= i < b64url(b).len() ==> !white_space(#[trigger] b64url(b)[i]),
    decreases b.len(),
{
    if b.len() == 0 {
    } else {
        let x = b[0] as int;
        let y = if b.len() > 1 { b[1] as int } else { 0 };
        let z = if b.len() > 2 { b[2] as int } else { 0 };
        lemma_b64_digit_code(x / 4);
        lemma_b64_digit_code((x % 4) * 16 + y / 16);
        lemma_b64_digit_code((y % 16) * 4 + z / 64);
        lemma_b64_digit_code((x % 4) * 16);
        lemma_b64_digit_code((y % 16) * 4);
        lemma_b64_digit_code(z % 64);
        if b.len() >= 3 {
            lemma_b64url_shape(b.skip(3));
            let head = seq![
                b64_digit(x / 4),
                b64_digit((x % 4) * 16 + y / 16),
                b64_digit((y % 16) * 4 + z / 64),
                b64_digit(z % 64),
            ];
            assert(b64url(b) == head + b64url(b.skip(3)));
            assert forall|i: int| 0 <= i < b64url(b).len() implies !white_space(#[trigger] b64url(b)[i]) by {
                if i >= 4 {
                    assert(b64url(b)[i] == b64url(b.skip(3))[i - 4]);
                }
            }
        }
    }
}

proof fn lemma_group_bytes(x: u8, y: u8, z: u8, p: u8, q: u8, t: u8)
    requires
        x / 4 == p / 4,
        (x % 4) * 16 + y / 16 == (p % 4) * 16 + q / 16,
        (y % 16) * 4 + z / 64 == (q % 16) * 4 + t / 64,
        z % 64 == t % 64,
    ensures
        x == p,
        y == q,
        z == t,
{
    assert(x == p && y == q && z == t) by (bit_vector)
        requires
            x / 4 == p / 4,
            (x % 4) * 16 + y / 16 == (p % 4) * 16 + q / 16,
            (y % 16) * 4 + z / 64 == (q % 16) * 4 + t / 64,
            z % 64 == t % 64,
    ;
}

proof fn lemma_b64url_injective(a: Seq<u8>, b: Seq<u8>)
    requires
        b64url(a) == b64url(b),
    ensures
        a == b,
    decreases a.len(),
{
    lemma_b64url_shape(a);
    lemma_b64url_shape(b);
    assert(a.len() == b.len());
    if a.len() == 0 {
        assert(a =~= b);
    } else {
        let (x, p) = (a[0], b[0]);
        let y = if a.len() > 1 { a[1] } else { 0u8 };
        let q = if b.len() > 1 { b[1] } else { 0u8 };
        let z = if a.len() > 2 { a[2] } else { 0u8 };
        let t = if b.len() > 2 { b[2] } else { 0u8 };
        let ea = b64url(a);
        let eb = b64url(b);
        assert(ea[0] == eb[0] && ea[1] == eb[1]);
        lemma_b64_digit_injective(x as int / 4, p as int / 4);
        if a.len() == 1 {
            lemma_b64_digit_injective((x as int % 4) * 16, (p as int % 4) * 16);
            assert(x == p) by (bit_vector)
                requires
                    x / 4 == p / 4,
                    (x % 4) * 16 == (p % 4) * 16,
            ;
            assert(a =~= b);
        } else if a.len() == 2 {
            assert(ea[2] == eb[2]);
            lemma_b64_digit_injective((x as int % 4) * 16 + y as int / 16, (p as int % 4) * 16 + q as int / 16);
            lemma_b64_digit_injective((y as int % 16) * 4, (q as int % 16) * 4);
            assert(x == p && y == q) by (bit_vector)
                requires
                    x / 4 == p / 4,
                    (x % 4) * 16 + y / 16 == (p % 4) * 16 + q / 16,
                    (y % 16) * 4 == (q % 16) * 4,
            ;
            assert(a =~= b);
        } else {
            assert(ea[2] == eb[2] && ea[3] == eb[3]);
            lemma_b64_digit_injective((x as int % 4) * 16 + y as int / 16, (p as int % 4) * 16 + q as int / 16);
            lemma_b64_digit_injective((y as int % 16) * 4 + z as int / 64, (q as int % 16) * 4 + t as int / 64);
            lemma_b64_digit_injective(z as int % 64, t as int % 64);
            lemma_group_bytes(x, y, z, p, q, t);
            assert(b64url(a.skip(3)) =~= ea.skip(4));
            assert(b64url(b.skip(3)) =~= eb.skip(4));
            lemma_b64url_injective(a.skip(3), b.skip(3));
            assert forall|i: int| 0 <= i < a.len() implies a[i] == b[i] by {
                if i >= 3 {
                    assert(a[i] == a.skip(3)[i - 3]);
                    assert(b[i] == b.skip(3)[i - 3]);
                }
            }
            assert(a =~= b);
        }
    }
}

proof fn lemma_trim_start_keeps(s: Seq<char>)
    requires
        s.len() == 0 || !white_space(s[0]),
    ensures
        trim_start(s) == s,
{
}

proof fn lemma_trim_end_keeps(s: Seq<char>)
    requires
        s.len() == 0 || !white_space(s.last()),
    ensures
        trim_end(s) == s,
{
}

/// A stored key reads back as itself: its text has no whitespace to trim,
/// only its own bytes encode to that text, and those bytes are a key.
pub proof fn law_stored_key_reads_back(secret: Seq<u8>)
    requires
        valid_secret(secret),
    ensures
        trimmed(b64url(secret)) == b64url(secret),
        forall|b: Seq<u8>| #[trigger] b64url(b) == b64url(secret) ==> b == secret,
        secret_from_slice(secret) == Some(secret),
{
    lemma_b64url_shape(secret);
    let e = b64url(secret);
    lemma_trim_start_keeps(e);
    lemma_trim_end_keeps(e);
    assert forall|b: Seq<u8>| #[trigger] b64url(b) == b64url(secret) implies b == secret by {
        lemma_b64url_injective(b, secret);
    }
    assert(Seq::new(0nat, |i: int| 0u8) + secret =~= secret);
}

} // verus!
