//! Encrypts one push message.
//!
//! Key derivation is RFC 8291 section 3.4. Header and record layout are
//! RFC 8188 section 2. Only sending is implemented, and RFC 8291 section 4
//! allows a single record, so multiple records and padding are not.

use aes_gcm::aead::Aead;
use aes_gcm::KeyInit;
use rand_core::RngCore;
use vstd::prelude::*;

use crate::push::keys::{ecdh, is_sec1_point, p256_ecdh, p256_public, public_point, random_secret, sec1_point, valid_secret};
use crate::text::append_bytes;

verus! {

/// Bytes of salt at the front of the header.
pub const SALT_LEN: usize = 16;

/// Ends the last record.
pub const DELIMITER: u8 = 2;

/// Bytes the authentication tag adds to the ciphertext.
pub const TAG_LEN: usize = 16;

/// The longest plaintext AES-GCM seals, 2^36 bytes.
pub const SEAL_MAX: u64 = 68719476736;

/// Why a message could not be encrypted.
#[derive(Debug, Clone, Copy, PartialEq, Eq, Structural)]
pub enum EncryptError {
    /// The subscription's key is not a point of P-256
    BadBrowserKey,
    /// The record is longer than AES-GCM seals
    TooLong,
}

// Outside calls //

/// HKDF with SHA-256: `len` bytes expanded from `ikm` under `salt` and `info`.
pub uninterp spec fn hkdf_sha256(salt: Seq<u8>, ikm: Seq<u8>, info: Seq<u8>, len: nat) -> Seq<u8>;

/// AES-128-GCM with no associated data: the ciphertext, then its 16-byte tag.
pub uninterp spec fn aes128gcm(key: Seq<u8>, nonce: Seq<u8>, plaintext: Seq<u8>) -> Seq<u8>;

/// Calls `hkdf::Hkdf::<Sha256>::new` then `expand` into `len` bytes, which
/// fails only past 255 blocks of 32 bytes.
#[verifier::external_body]
fn hkdf(salt: &[u8], ikm: &[u8], info: &[u8], len: usize) -> (r: Vec<u8>)
    requires
        len <= 8160,
    ensures
        r@ == hkdf_sha256(salt@, ikm@, info@, len as nat),
        r@.len() == len,
{
    let mut okm = vec![0u8; len];
    hkdf::Hkdf::<sha2::Sha256>::new(Some(salt), ikm).expand(info, &mut okm).expect("within 255 blocks");
    okm
}

/// Calls `Aes128Gcm::new` on the key then `Aead::encrypt`, which refuses a
/// plaintext over 2^36 bytes and otherwise appends a 16-byte tag.
#[verifier::external_body]
#[allow(deprecated)]
fn seal(key: &[u8], nonce: &[u8], plaintext: &[u8]) -> (r: Option<Vec<u8>>)
    requires
        key@.len() == 16,
        nonce@.len() == 12,
    ensures
        match r {
            Some(c) => plaintext@.len() <= SEAL_MAX && c@ == aes128gcm(key@, nonce@, plaintext@)
                && c@.len() == plaintext@.len() + 16,
            None => plaintext@.len() > SEAL_MAX,
        },
{
    let cipher = aes_gcm::Aes128Gcm::new(aes_gcm::Key::<aes_gcm::Aes128Gcm>::from_slice(key));
    cipher.encrypt(aes_gcm::Nonce::from_slice(nonce), plaintext).ok()
}

/// Calls `rand_core::OsRng::fill_bytes`: a salt from the operating system's
/// random source, of which nothing is claimed.
#[verifier::external_body]
fn random_salt() -> (r: [u8; 16]) {
    let mut salt = [0u8; 16];
    rand_core::OsRng.fill_bytes(&mut salt);
    salt
}

// Layout //

/// `WebPush: info` and a zero byte, which starts `key_info`.
pub open spec fn info_label() -> Seq<u8> {
    seq![87u8, 101, 98, 80, 117, 115, 104, 58, 32, 105, 110, 102, 111, 0]
}

/// `Content-Encoding: aes128gcm` and a zero byte, the info for the content key.
pub open spec fn key_label() -> Seq<u8> {
    seq![67u8, 111, 110, 116, 101, 110, 116, 45, 69, 110, 99, 111, 100, 105, 110, 103, 58, 32,
        97, 101, 115, 49, 50, 56, 103, 99, 109, 0]
}

/// `Content-Encoding: nonce` and a zero byte, the info for the nonce.
pub open spec fn nonce_label() -> Seq<u8> {
    seq![67u8, 111, 110, 116, 101, 110, 116, 45, 69, 110, 99, 111, 100, 105, 110, 103, 58, 32,
        110, 111, 110, 99, 101, 0]
}

/// What the keying material is bound to: both public keys, the browser's first.
pub open spec fn key_info(p256dh: Seq<u8>, server_public: Seq<u8>) -> Seq<u8> {
    info_label() + p256dh + server_public
}

/// A number's four bytes, most significant first.
pub open spec fn be_u32(x: u32) -> Seq<u8> {
    seq![(x / 0x1000000) as u8, (x / 0x10000 % 256) as u8, (x / 0x100 % 256) as u8, (x % 256) as u8]
}

/// The record size the header states for a plaintext: the plaintext, the
/// delimiter, the tag and one more, kept to 32 bits.
pub open spec fn record_size(len: nat) -> u32 {
    ((len + 18) % 0x1_0000_0000) as u32
}

/// The keying material both sides derive from the shared secret, salted by
/// the subscription's authentication secret.
pub open spec fn keying_material(p256dh: Seq<u8>, auth: Seq<u8>, secret: Seq<u8>) -> Seq<u8> {
    hkdf_sha256(auth, p256_ecdh(secret, p256dh), key_info(p256dh, p256_public(secret)), 32)
}

/// The record sealed for a message: the plaintext and the delimiter under
/// AES-128-GCM, with the content key and nonce derived from the salt.
pub open spec fn sealed_record(p256dh: Seq<u8>, auth: Seq<u8>, plaintext: Seq<u8>, secret: Seq<u8>, salt: Seq<u8>) -> Seq<u8> {
    let ikm = keying_material(p256dh, auth, secret);
    let key = hkdf_sha256(salt, ikm, key_label(), 16);
    let nonce = hkdf_sha256(salt, ikm, nonce_label(), 12);
    aes128gcm(key, nonce, plaintext.push(DELIMITER))
}

/// The request body for a message: salt, record size, key length and the
/// server's public key, then the sealed record.
pub open spec fn push_body(p256dh: Seq<u8>, auth: Seq<u8>, plaintext: Seq<u8>, secret: Seq<u8>, salt: Seq<u8>) -> Seq<u8> {
    salt + be_u32(record_size(plaintext.len())) + seq![65u8] + p256_public(secret)
        + sealed_record(p256dh, auth, plaintext, secret, salt)
}

/// What the parts of a body are known to measure: a 65-byte uncompressed
/// public key, tagged 4, and a sealed record 17 bytes longer than the plaintext.
pub open spec fn body_parts_sized(p256dh: Seq<u8>, auth: Seq<u8>, plaintext: Seq<u8>, secret: Seq<u8>, salt: Seq<u8>) -> bool {
    &&& p256_public(secret).len() == 65
    &&& p256_public(secret)[0] == 4
    &&& sealed_record(p256dh, auth, plaintext, secret, salt).len() == plaintext.len() + 17
}

/// The four bytes of a number, most significant first.
fn be_bytes(x: u32) -> (r: [u8; 4])
    ensures
        r@ == be_u32(x),
{
    let r = [(x / 0x1000000) as u8, (x / 0x10000 % 256) as u8, (x / 0x100 % 256) as u8, (x % 256) as u8];
    assert(r@ =~= be_u32(x));
    r
}

/// Encrypts a message for one subscription with a given server key and salt,
/// returning the request body.
///
/// # Arguments
///
/// * `p256dh` - Subscription's public key, 65 bytes.
/// * `auth` - Subscription's authentication secret, 16 bytes.
/// * `plaintext` - What the browser receives.
/// * `server_secret` - The key pair used for this message alone.
/// * `salt` - Never reused against the same keying material.
pub fn encrypt_with(p256dh: &[u8], auth: &[u8], plaintext: &[u8], server_secret: [u8; 32], salt: [u8; 16]) -> (r: Result<Vec<u8>, EncryptError>)
    requires
        valid_secret(server_secret@),
    ensures
        match r {
            Ok(body) => sec1_point(p256dh@) && plaintext@.len() < SEAL_MAX
                && body@ == push_body(p256dh@, auth@, plaintext@, server_secret@, salt@)
                && body_parts_sized(p256dh@, auth@, plaintext@, server_secret@, salt@)
                && body@.len() == 16 + 4 + 1 + 65 + plaintext@.len() + 1 + 16
                && body@[21] == 4,
            Err(EncryptError::BadBrowserKey) => !sec1_point(p256dh@),
            Err(EncryptError::TooLong) => sec1_point(p256dh@) && plaintext@.len() >= SEAL_MAX,
        },
{
    if !is_sec1_point(p256dh) {
        return Err(EncryptError::BadBrowserKey);
    }
    let server_public = public_point(&server_secret);
    let shared = ecdh(&server_secret, p256dh);

    let mut info: Vec<u8> = Vec::new();
    let label: [u8; 14] = [87, 101, 98, 80, 117, 115, 104, 58, 32, 105, 110, 102, 111, 0];
    append_bytes(&mut info, &label);
    append_bytes(&mut info, p256dh);
    append_bytes(&mut info, server_public.as_slice());
    assert(label@ =~= info_label());
    assert(info@ =~= key_info(p256dh@, server_public@));

    let ikm = hkdf(auth, &shared, info.as_slice(), 32);

    let key_info_label: [u8; 28] = [67, 111, 110, 116, 101, 110, 116, 45, 69, 110, 99, 111, 100, 105, 110, 103, 58, 32,
        97, 101, 115, 49, 50, 56, 103, 99, 109, 0];
    let nonce_info_label: [u8; 24] = [67, 111, 110, 116, 101, 110, 116, 45, 69, 110, 99, 111, 100, 105, 110, 103, 58, 32,
        110, 111, 110, 99, 101, 0];
    assert(key_info_label@ =~= key_label());
    assert(nonce_info_label@ =~= nonce_label());
    let key = hkdf(&salt, ikm.as_slice(), &key_info_label, 16);
    let nonce = hkdf(&salt, ikm.as_slice(), &nonce_info_label, 12);

    let mut record: Vec<u8> = Vec::new();
    append_bytes(&mut record, plaintext);
    record.push(DELIMITER);
    assert(record@ =~= plaintext@.push(DELIMITER));

    let ciphertext = match seal(key.as_slice(), nonce.as_slice(), record.as_slice()) {
        Some(c) => c,
        None => return Err(EncryptError::TooLong),
    };

    let size: u64 = plaintext.len() as u64 + 18;
    let record_size_value: u32 = (size % 0x1_0000_0000) as u32;
    let size_bytes = be_bytes(record_size_value);

    let mut body: Vec<u8> = Vec::new();
    append_bytes(&mut body, &salt);
    append_bytes(&mut body, &size_bytes);
    body.push(65u8);
    append_bytes(&mut body, server_public.as_slice());
    append_bytes(&mut body, ciphertext.as_slice());
    assert(body@ =~= push_body(p256dh@, auth@, plaintext@, server_secret@, salt@));
    Ok(body)
}

/// Encrypts a message for one subscription, returning the request body. A new
/// key pair and salt are drawn for every message.
///
/// # Arguments
///
/// * `p256dh` - Subscription's public key, 65 bytes.
/// * `auth` - Subscription's authentication secret, 16 bytes.
/// * `plaintext` - What the browser receives.
pub fn encrypt(p256dh: &[u8], auth: &[u8], plaintext: &[u8]) -> (r: Result<Vec<u8>, EncryptError>)
    ensures
        match r {
            Ok(body) => sec1_point(p256dh@) && plaintext@.len() < SEAL_MAX
                && body@.len() == 16 + 4 + 1 + 65 + plaintext@.len() + 1 + 16
                && body@[21] == 4
                && exists|secret: Seq<u8>, salt: Seq<u8>|
                    valid_secret(secret) && salt.len() == SALT_LEN
                    && body@ == #[trigger] push_body(p256dh@, auth@, plaintext@, secret, salt)
                    && body_parts_sized(p256dh@, auth@, plaintext@, secret, salt),
            Err(EncryptError::BadBrowserKey) => !sec1_point(p256dh@),
            Err(EncryptError::TooLong) => sec1_point(p256dh@) && plaintext@.len() >= SEAL_MAX,
        },
{
    let server_secret = random_secret();
    let salt = random_salt();
    let r = encrypt_with(p256dh, auth, plaintext, server_secret, salt);
    proof {
        if r is Ok {
            assert(r->Ok_0@ == push_body(p256dh@, auth@, plaintext@, server_secret@, salt@));
        }
    }
    r
}

} // verus!
