//! P-256 keys as bytes: which 32 bytes are a secret key, and what the curve
//! computes from one.

use p256::ecdsa::signature::Signer;
use p256::elliptic_curve::sec1::ToEncodedPoint;
use vstd::prelude::*;

verus! {

/// The order of P-256's base point, which every secret scalar stays below.
pub open spec fn p256_order() -> nat {
    0xFFFFFFFF00000000FFFFFFFFFFFFFFFFBCE6FAADA7179E84F3B9CAC2FC632551nat
}

/// The number some bytes spell, most significant first.
pub open spec fn big_endian(bytes: Seq<u8>) -> nat
    decreases bytes.len(),
{
    if bytes.len() == 0 {
        0
    } else {
        big_endian(bytes.drop_last()) * 256 + bytes.last() as nat
    }
}

/// Whether 32 bytes are a P-256 secret key: a scalar above zero and below the order.
pub open spec fn valid_secret(bytes: Seq<u8>) -> bool {
    bytes.len() == 32 && 0 < big_endian(bytes) && big_endian(bytes) < p256_order()
}

/// The secret key a byte string of 24 to 32 bytes holds, zeros filling it out
/// to 32 on the left, when the scalar is valid.
pub open spec fn secret_from_slice(bytes: Seq<u8>) -> Option<Seq<u8>> {
    if 24 <= bytes.len() <= 32 {
        let padded = Seq::new((32 - bytes.len()) as nat, |i: int| 0u8) + bytes;
        if valid_secret(padded) {
            Some(padded)
        } else {
            None
        }
    } else {
        None
    }
}

/// Whether some bytes are the SEC1 encoding of a point of P-256 other than the identity.
pub uninterp spec fn sec1_point(bytes: Seq<u8>) -> bool;

/// The public key of a secret, as the 65 bytes of its uncompressed SEC1 encoding.
pub uninterp spec fn p256_public(secret: Seq<u8>) -> Seq<u8>;

/// The x coordinate of the point a secret scalar and a public point agree on.
pub uninterp spec fn p256_ecdh(secret: Seq<u8>, point: Seq<u8>) -> Seq<u8>;

/// The ES256 signature of a message under a secret key, `r` then `s`.
pub uninterp spec fn es256_signature(secret: Seq<u8>, message: Seq<u8>) -> Seq<u8>;

/// Calls `p256::SecretKey::random` with the operating system's random source.
/// The scalar is random; the claim is only that `SecretKey` holds a nonzero
/// scalar below the order, so its bytes are a valid secret.
#[verifier::external_body]
pub(crate) fn random_secret() -> (r: [u8; 32])
    ensures
        valid_secret(r@),
{
    p256::SecretKey::random(&mut rand_core::OsRng).to_bytes().into()
}

/// Calls `p256::SecretKey::from_slice`, which left-pads 24 to 31 bytes with
/// zeros, refuses other lengths, and accepts a scalar above zero and below
/// the order; `to_bytes` gives the 32 bytes back.
#[verifier::external_body]
pub(crate) fn secret_key_from_slice(bytes: &[u8]) -> (r: Option<[u8; 32]>)
    ensures
        match r {
            Some(k) => secret_from_slice(bytes@) == Some(k@),
            None => secret_from_slice(bytes@) is None,
        },
{
    match p256::SecretKey::from_slice(bytes) {
        Ok(key) => Some(key.to_bytes().into()),
        Err(_) => None,
    }
}

/// Calls `p256::PublicKey::from_sec1_bytes` and reports whether it accepted the bytes.
#[verifier::external_body]
pub(crate) fn is_sec1_point(bytes: &[u8]) -> (r: bool)
    ensures
        r == sec1_point(bytes@),
{
    p256::PublicKey::from_sec1_bytes(bytes).is_ok()
}

/// Calls `public_key().to_encoded_point(false)` on the secret key: the
/// uncompressed encoding, a `0x04` tag then both 32-byte coordinates.
#[verifier::external_body]
pub(crate) fn public_point(secret: &[u8; 32]) -> (r: Vec<u8>)
    requires
        valid_secret(secret@),
    ensures
        r@ == p256_public(secret@),
        r@.len() == 65,
        r@[0] == 4,
{
    let key = p256::SecretKey::from_bytes(&(*secret).into()).expect("a valid scalar");
    key.public_key().to_encoded_point(false).as_bytes().to_vec()
}

/// Calls `p256::ecdh::diffie_hellman` on the secret scalar and the parsed
/// point, returning `raw_secret_bytes`: 32 bytes that depend on the two inputs alone.
#[verifier::external_body]
pub(crate) fn ecdh(secret: &[u8; 32], point: &[u8]) -> (r: [u8; 32])
    requires
        valid_secret(secret@),
        sec1_point(point@),
    ensures
        r@ == p256_ecdh(secret@, point@),
{
    let key = p256::SecretKey::from_bytes(&(*secret).into()).expect("a valid scalar");
    let public = p256::PublicKey::from_sec1_bytes(point).expect("a valid point");
    let shared = p256::ecdh::diffie_hellman(key.to_nonzero_scalar(), public.as_affine());
    (*shared.raw_secret_bytes()).into()
}

/// Calls `Signer::sign` on `p256::ecdsa::SigningKey::from` the secret key,
/// returning `Signature::to_bytes`. The nonce is derived by RFC 6979, so the
/// 64 bytes depend on the key and the message alone.
#[verifier::external_body]
pub(crate) fn es256_sign(secret: &[u8; 32], message: &[u8]) -> (r: Vec<u8>)
    requires
        valid_secret(secret@),
    ensures
        r@ == es256_signature(secret@, message@),
        r@.len() == 64,
{
    let key = p256::SecretKey::from_bytes(&(*secret).into()).expect("a valid scalar");
    let signature: p256::ecdsa::Signature = p256::ecdsa::SigningKey::from(&key).sign(message);
    signature.to_bytes().to_vec()
}

} // verus!
