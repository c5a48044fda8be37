use aes_gcm::aead::Aead;
use aes_gcm::KeyInit;
use base64::Engine;
use p256::ecdsa::signature::Verifier;
use p256::elliptic_curve::sec1::ToEncodedPoint;

use xenon::events::Subscription;
use xenon::push::config::{PushConfig, PushConfigError};
use xenon::push::encrypt::{encrypt, encrypt_with, EncryptError};
use xenon::push::outcome::{classify, describe, retry_after, Outcome};
use xenon::push::send::{prepare, PrepareError};
use xenon::push::store::Store;
use xenon::push::vapid::{KeyError, VapidKey};

const B64: base64::engine::GeneralPurpose = base64::engine::general_purpose::URL_SAFE_NO_PAD;

fn counting_secret() -> [u8; 32] {
    let mut s = [0u8; 32];
    for (i, b) in s.iter_mut().enumerate() {
        *b = i as u8;
    }
    s
}

fn browser() -> (p256::SecretKey, Vec<u8>) {
    let mut bytes = [7u8; 32];
    bytes[0] = 1;
    let secret = p256::SecretKey::from_slice(&bytes).unwrap();
    let public = secret.public_key().to_encoded_point(false).as_bytes().to_vec();
    (secret, public)
}

/// Decrypts a push body the way a browser does (RFC 8291 section 3.4).
fn open_body(body: &[u8], browser_secret: &p256::SecretKey, browser_public: &[u8], auth: &[u8]) -> Vec<u8> {
    let salt = &body[0..16];
    let id_len = body[20] as usize;
    let key_id = &body[21..21 + id_len];
    let ciphertext = &body[21 + id_len..];
    let server_public = p256::PublicKey::from_sec1_bytes(key_id).unwrap();
    let shared = p256::ecdh::diffie_hellman(browser_secret.to_nonzero_scalar(), server_public.as_affine());
    let mut info = b"WebPush: info\0".to_vec();
    info.extend_from_slice(browser_public);
    info.extend_from_slice(key_id);
    let mut ikm = [0u8; 32];
    hkdf::Hkdf::<sha2::Sha256>::new(Some(auth), shared.raw_secret_bytes()).expand(&info, &mut ikm).unwrap();
    let derived = hkdf::Hkdf::<sha2::Sha256>::new(Some(salt), &ikm);
    let mut key = [0u8; 16];
    derived.expand(b"Content-Encoding: aes128gcm\0", &mut key).unwrap();
    let mut nonce = [0u8; 12];
    derived.expand(b"Content-Encoding: nonce\0", &mut nonce).unwrap();
    let cipher = aes_gcm::Aes128Gcm::new(&key.into());
    cipher.decrypt(&nonce.into(), ciphertext).unwrap()
}

#[test]
fn encrypt_with_lays_out_header_and_record() {
    let (_, public) = browser();
    let auth = [9u8; 16];
    let salt = [5u8; 16];
    let body = encrypt_with(&public, &auth, b"hello", counting_secret(), salt).unwrap();
    assert_eq!(body.len(), 16 + 4 + 1 + 65 + 5 + 1 + 16);
    assert_eq!(&body[0..16], &salt);
    assert_eq!(&body[16..20], &[0, 0, 0, 23]);
    assert_eq!(body[20], 65);
    let key = VapidKey::from_bytes(counting_secret()).unwrap();
    assert_eq!(&body[21..86], key.public_key_bytes().as_slice());
}

#[test]
fn encrypt_with_is_a_function_of_its_inputs() {
    let (_, public) = browser();
    let a = encrypt_with(&public, &[1u8; 16], b"same", counting_secret(), [3u8; 16]).unwrap();
    let b = encrypt_with(&public, &[1u8; 16], b"same", counting_secret(), [3u8; 16]).unwrap();
    let c = encrypt_with(&public, &[1u8; 16], b"same", counting_secret(), [4u8; 16]).unwrap();
    assert_eq!(a, b);
    assert_ne!(a[86..], c[86..]);
}

#[test]
fn browser_decrypts_what_encrypt_sends() {
    let (secret, public) = browser();
    let auth = [0x42u8; 16];
    let body = encrypt(&public, &auth, b"{\"body\":\"hi\"}").unwrap();
    let record = open_body(&body, &secret, &public, &auth);
    assert_eq!(record, b"{\"body\":\"hi\"}\x02".to_vec());
}

#[test]
fn encrypt_refuses_a_key_off_the_curve() {
    let mut bad = vec![4u8];
    bad.extend_from_slice(&[1u8; 64]);
    assert_eq!(encrypt(&bad, &[0u8; 16], b"x"), Err(EncryptError::BadBrowserKey));
    assert_eq!(encrypt(&[], &[0u8; 16], b"x"), Err(EncryptError::BadBrowserKey));
}

#[test]
fn stored_key_text_is_base64url() {
    let key = VapidKey::from_bytes(counting_secret()).unwrap();
    assert_eq!(key.to_text(), "AAECAwQFBgcICQoLDA0ODxAREhMUFRYXGBkaGxwdHh8");
}

#[test]
fn stored_key_reads_back() {
    let key = VapidKey::from_bytes(counting_secret()).unwrap();
    let text = format!("  {}\n", key.to_text());
    let read = VapidKey::read(&text).unwrap();
    assert_eq!(read.to_text(), key.to_text());
    assert_eq!(read.public_key_bytes(), key.public_key_bytes());
}

#[test]
fn generated_key_reads_back() {
    let key = VapidKey::generate();
    let read = VapidKey::read(&key.to_text()).unwrap();
    assert_eq!(read.public_key(), key.public_key());
}

#[test]
fn key_text_with_padding_is_not_base64() {
    assert!(matches!(VapidKey::read("AAAA="), Err(KeyError::NotBase64)));
    assert!(matches!(VapidKey::read("not base64!"), Err(KeyError::NotBase64)));
}

#[test]
fn zero_or_short_key_is_not_a_key() {
    assert!(matches!(VapidKey::read("AAAAAAAAAAAAAAAAAAAAAAAAAAAAAAAAAAAAAAAAAAA"), Err(KeyError::NotAKey)));
    assert!(matches!(VapidKey::read("AAAAAAAAAAAAAA"), Err(KeyError::NotAKey)));
    assert!(VapidKey::from_bytes([0u8; 32]).is_none());
    assert!(VapidKey::from_bytes([0xffu8; 32]).is_none());
}

#[test]
fn public_key_is_the_uncompressed_point() {
    let key = VapidKey::from_bytes(counting_secret()).unwrap();
    let expected = p256::SecretKey::from_slice(&counting_secret()).unwrap().public_key().to_encoded_point(false);
    assert_eq!(key.public_key_bytes(), expected.as_bytes().to_vec());
    assert_eq!(key.public_key(), B64.encode(expected.as_bytes()));
}

#[test]
fn authorization_token_verifies_and_states_the_claims() {
    let key = VapidKey::from_bytes(counting_secret()).unwrap();
    let header = key.authorization_at("https://push.example.com", "mailto:admin@example.com", 1700000000);
    let rest = header.strip_prefix("vapid t=").unwrap();
    let (token, public) = rest.split_once(", k=").unwrap();
    assert_eq!(public, key.public_key());
    let parts: Vec<&str> = token.split('.').collect();
    assert_eq!(parts.len(), 3);
    assert_eq!(parts[0], "eyJ0eXAiOiJKV1QiLCJhbGciOiJFUzI1NiJ9");
    let claims = String::from_utf8(B64.decode(parts[1]).unwrap()).unwrap();
    assert_eq!(claims, "{\"aud\":\"https://push.example.com\",\"exp\":1700000000,\"sub\":\"mailto:admin@example.com\"}");
    let signature = p256::ecdsa::Signature::from_slice(&B64.decode(parts[2]).unwrap()).unwrap();
    let verifying = p256::ecdsa::VerifyingKey::from_sec1_bytes(&key.public_key_bytes()).unwrap();
    let signed = format!("{}.{}", parts[0], parts[1]);
    assert!(verifying.verify(signed.as_bytes(), &signature).is_ok());
}

#[test]
fn authorization_claims_escape_json() {
    let key = VapidKey::from_bytes(counting_secret()).unwrap();
    let header = key.authorization_at("a\"b\\c\n", "x", 5);
    let token = header.strip_prefix("vapid t=").unwrap().split(", k=").next().unwrap();
    let claims_b64 = token.split('.').nth(1).unwrap();
    let claims = String::from_utf8(B64.decode(claims_b64).unwrap()).unwrap();
    assert_eq!(claims, "{\"aud\":\"a\\\"b\\\\c\\n\",\"exp\":5,\"sub\":\"x\"}");
}

#[test]
fn authorization_now_signs_a_token() {
    let key = VapidKey::from_bytes(counting_secret()).unwrap();
    let header = key.authorization("https://push.example.com", "mailto:a@b.c", 3600).unwrap();
    assert!(header.starts_with("vapid t=eyJ0eXAiOiJKV1QiLCJhbGciOiJFUzI1NiJ9."));
    assert!(header.ends_with(&format!(", k={}", key.public_key())));
}

#[test]
fn prepare_names_the_endpoint_origin() {
    let key = VapidKey::from_bytes(counting_secret()).unwrap();
    let (secret, public) = browser();
    let auth = [1u8; 16];
    let req = prepare(&key, "mailto:a@b.c", "https://push.example.com:8443/send/abc?x=1", &public, &auth, b"hi", 86400).unwrap();
    assert_eq!(req.ttl, "86400");
    let token = req.authorization.strip_prefix("vapid t=").unwrap().split(", k=").next().unwrap();
    let claims = String::from_utf8(B64.decode(token.split('.').nth(1).unwrap()).unwrap()).unwrap();
    assert!(claims.starts_with("{\"aud\":\"https://push.example.com:8443\",\"exp\":"));
    assert_eq!(open_body(&req.body, &secret, &public, &auth), b"hi\x02".to_vec());
}

#[test]
fn prepare_refuses_a_bad_endpoint_or_key() {
    let key = VapidKey::from_bytes(counting_secret()).unwrap();
    let (_, public) = browser();
    assert!(matches!(prepare(&key, "s", "not a url", &public, &[0u8; 16], b"hi", 1), Err(PrepareError::BadEndpoint)));
    assert!(matches!(
        prepare(&key, "s", "https://push.example.com/x", &[4u8, 1, 2], &[0u8; 16], b"hi", 1),
        Err(PrepareError::Encrypt(EncryptError::BadBrowserKey))
    ));
}

#[test]
fn classify_reads_each_status() {
    assert_eq!(classify(201, None), Outcome::Sent);
    assert_eq!(classify(404, None), Outcome::Gone);
    assert_eq!(classify(410, None), Outcome::Gone);
    assert_eq!(classify(403, None), Outcome::Rejected);
    assert_eq!(classify(413, None), Outcome::TooLarge);
    assert_eq!(classify(429, Some(30)), Outcome::Throttled(Some(30)));
    assert_eq!(classify(500, Some(30)), Outcome::Other(500));
}

#[test]
fn describe_words_each_outcome() {
    assert_eq!(describe(&Outcome::Sent), "accepted");
    assert_eq!(describe(&Outcome::Gone), "the subscription no longer exists");
    assert_eq!(describe(&Outcome::Rejected), "signed with the wrong key");
    assert_eq!(describe(&Outcome::TooLarge), "the payload is over the service's limit");
    assert_eq!(describe(&Outcome::Throttled(Some(12))), "sending too fast, retry after 12s");
    assert_eq!(describe(&Outcome::Throttled(None)), "sending too fast");
    assert_eq!(describe(&Outcome::Other(502)), "answered 502");
}

#[test]
fn retry_after_reads_seconds_only() {
    assert_eq!(retry_after("120"), Some(120));
    assert_eq!(retry_after("+7"), Some(7));
    assert_eq!(retry_after("Wed, 21 Oct 2015 07:28:00 GMT"), None);
    assert_eq!(retry_after(""), None);
    assert_eq!(retry_after("-1"), None);
    assert_eq!(retry_after("18446744073709551616"), None);
}

#[test]
fn push_config_needs_a_secret() {
    let mut config = PushConfig::default();
    assert_eq!(config.xenon, "ws://127.0.0.1:3000/push/ws");
    assert_eq!(config.ttl, 86400);
    assert_eq!(config.check(), Err(PushConfigError::SecretUnset));
    config.secret = "s3cret".to_string();
    assert_eq!(config.check(), Ok(()));
}

fn subscription(endpoint: &str, tag: u8) -> Subscription {
    Subscription { endpoint: endpoint.to_string(), p256dh: vec![tag; 65], auth: vec![tag; 16] }
}

#[test]
fn store_keeps_one_entry_per_endpoint() {
    let mut store = Store::new();
    store.upsert("alice", &subscription("https://a/1", 1));
    store.upsert("bob", &subscription("https://a/1", 2));
    store.upsert("alice", &subscription("https://a/2", 3));
    assert_eq!(store.stored().len(), 2);
    let alice = store.subscriptions_for(&["alice".to_string()]);
    assert_eq!(alice.len(), 1);
    assert_eq!(alice[0].endpoint, "https://a/2");
    let bob = store.subscriptions_for(&["bob".to_string()]);
    assert_eq!(bob.len(), 1);
    assert_eq!(bob[0].p256dh, vec![2u8; 65]);
}

#[test]
fn store_removes_only_the_owners_entry() {
    let mut store = Store::new();
    store.upsert("alice", &subscription("https://a/1", 1));
    assert!(!store.remove("bob", "https://a/1"));
    assert!(store.remove("alice", "https://a/1"));
    assert!(!store.remove_by_endpoint("https://a/1"));
    store.upsert("carol", &subscription("https://a/9", 9));
    assert!(store.remove_by_endpoint("https://a/9"));
    assert_eq!(store.stored().len(), 0);
}

#[test]
fn authorization_from_adds_the_lifetime_or_refuses_overflow() {
    let key = VapidKey::from_bytes(counting_secret()).unwrap();
    let header = key.authorization_from("https://a.example", "mailto:x@y.z", 1000, 3600).unwrap();
    assert_eq!(header, key.authorization_at("https://a.example", "mailto:x@y.z", 4600));
    assert!(key.authorization_from("https://a.example", "s", u64::MAX, 1).is_err());
}
