use base64::engine::general_purpose::{STANDARD, URL_SAFE_NO_PAD};
use base64::Engine;
use blog_auth::token::{
    decode_token, generate, generate_at, verify, verify_at, IssueError, KeyError, SigningAlgorithm,
    SigningKey, TokenError, VerifyingKey,
};
use ring::signature::{Ed25519KeyPair, KeyPair};

fn pem(tag: &str, der: &[u8]) -> String {
    format!("-----BEGIN {tag}-----\n{}\n-----END {tag}-----\n", STANDARD.encode(der))
}

fn key_pair(seed_byte: u8) -> (SigningKey, VerifyingKey) {
    let seed = [seed_byte; 32];
    let mut pkcs8 = vec![
        0x30, 0x2e, 0x02, 0x01, 0x00, 0x30, 0x05, 0x06, 0x03, 0x2b, 0x65, 0x70, 0x04, 0x22, 0x04, 0x20,
    ];
    pkcs8.extend_from_slice(&seed);
    let pair = Ed25519KeyPair::from_seed_unchecked(&seed).unwrap();
    let mut spki = vec![0x30, 0x2a, 0x30, 0x05, 0x06, 0x03, 0x2b, 0x65, 0x70, 0x03, 0x21, 0x00];
    spki.extend_from_slice(pair.public_key().as_ref());
    let private_text = STANDARD.encode(pem("PRIVATE KEY", &pkcs8));
    let public_text = STANDARD.encode(pem("PUBLIC KEY", &spki));
    (
        SigningKey::from_base64_pem(&private_text, SigningAlgorithm::EdDsa).unwrap(),
        VerifyingKey::from_base64_pem(&public_text, SigningAlgorithm::EdDsa).unwrap(),
    )
}

const USER: &[u8] = b"65f0c1a2b3c4d5e6f7a8b9c0";

#[test]
fn issued_token_is_accepted_with_matching_key() {
    let (sk, vk) = key_pair(7);
    let d = generate(USER, 3600, &sk).unwrap();
    assert_eq!(d.user_id, USER.to_vec());
    assert_eq!(d.expires_at, d.issued_at + 3600);
    assert_eq!(d.token_id.len(), 32);
    let v = verify(&d.token, &vk).unwrap();
    assert_eq!(v.user_id, USER.to_vec());
    assert_eq!(v.token_id, d.token_id);
    assert_eq!(v.issued_at, d.issued_at);
    assert_eq!(v.expires_at, d.expires_at);
    assert_eq!(v.token, d.token);
}

#[test]
fn issued_token_is_rejected_with_other_key_pair() {
    let (sk, _) = key_pair(7);
    let (_, other_vk) = key_pair(8);
    let d = generate(USER, 3600, &sk).unwrap();
    assert_eq!(verify(&d.token, &other_vk).unwrap_err(), TokenError::InvalidSignature);
}

#[test]
fn token_ids_differ_between_issuances() {
    let (sk, _) = key_pair(7);
    let a = generate_at(USER, 60, &sk, 1000).unwrap();
    let b = generate_at(USER, 60, &sk, 1000).unwrap();
    assert_ne!(a.token_id, b.token_id);
    assert_ne!(a.token, b.token);
}

#[test]
fn token_has_three_parts_and_fixed_header() {
    let (sk, _) = key_pair(7);
    let d = generate_at(USER, 60, &sk, 1000).unwrap();
    let text = String::from_utf8(d.token.clone()).unwrap();
    let parts: Vec<&str> = text.split('.').collect();
    assert_eq!(parts.len(), 3);
    assert_eq!(URL_SAFE_NO_PAD.decode(parts[0]).unwrap(), b"{\"typ\":\"JWT\",\"alg\":\"EdDSA\"}".to_vec());
    let claims = URL_SAFE_NO_PAD.decode(parts[1]).unwrap();
    let expected = format!(
        "{{\"sub\":\"65f0c1a2b3c4d5e6f7a8b9c0\",\"jti\":\"{}\",\"iat\":1000,\"exp\":1060}}",
        String::from_utf8(d.token_id.clone()).unwrap()
    );
    assert_eq!(String::from_utf8(claims).unwrap(), expected);
}

#[test]
fn token_is_a_standard_jwt() {
    let (sk, _) = key_pair(9);
    let seed = [9u8; 32];
    let pair = Ed25519KeyPair::from_seed_unchecked(&seed).unwrap();
    let d = generate(USER, 3600, &sk).unwrap();
    let text = String::from_utf8(d.token.clone()).unwrap();
    let key = jsonwebtoken::DecodingKey::from_ed_der(pair.public_key().as_ref());
    let validation = jsonwebtoken::Validation::new(jsonwebtoken::Algorithm::EdDSA);
    let data = jsonwebtoken::decode::<serde_json::Value>(&text, &key, &validation).unwrap();
    assert_eq!(data.claims["sub"], serde_json::Value::from("65f0c1a2b3c4d5e6f7a8b9c0"));
    assert_eq!(data.claims["exp"], serde_json::Value::from(d.expires_at));
}

#[test]
fn expired_token_is_rejected() {
    let (sk, vk) = key_pair(7);
    let d = generate_at(USER, 60, &sk, 1000).unwrap();
    assert!(verify_at(&d.token, &vk, 1059).is_ok());
    assert_eq!(verify_at(&d.token, &vk, 1060).unwrap_err(), TokenError::Expired);
    assert_eq!(verify_at(&d.token, &vk, 5000).unwrap_err(), TokenError::Expired);
}

#[test]
fn short_ttl_token_accepted_then_rejected() {
    let (sk, vk) = key_pair(7);
    let d = generate_at(USER, 1, &sk, 2000).unwrap();
    assert!(verify_at(&d.token, &vk, 2000).is_ok());
    assert_eq!(verify_at(&d.token, &vk, 2001).unwrap_err(), TokenError::Expired);
    let live = generate(USER, 5, &sk).unwrap();
    assert!(verify(&live.token, &vk).is_ok());
}

#[test]
fn bad_signature_wins_over_expiry() {
    let (sk, _) = key_pair(7);
    let (_, other_vk) = key_pair(8);
    let d = generate_at(USER, 1, &sk, 100).unwrap();
    assert_eq!(verify_at(&d.token, &other_vk, 500).unwrap_err(), TokenError::InvalidSignature);
}

#[test]
fn garbage_is_malformed() {
    let (_, vk) = key_pair(7);
    for t in [&b""[..], b"abc", b"a.b", b"a.b.c", b"..", b"a.b.c.d"] {
        assert_eq!(verify_at(t, &vk, 0).unwrap_err(), TokenError::Malformed);
    }
}

#[test]
fn tampered_claims_fail_signature() {
    let (sk, vk) = key_pair(7);
    let d = generate_at(USER, 60, &sk, 1000).unwrap();
    let text = String::from_utf8(d.token.clone()).unwrap();
    let parts: Vec<&str> = text.split('.').collect();
    let forged_claims = format!(
        "{{\"sub\":\"someone-else\",\"jti\":\"{}\",\"iat\":1000,\"exp\":1060}}",
        String::from_utf8(d.token_id.clone()).unwrap()
    );
    let forged = format!("{}.{}.{}", parts[0], URL_SAFE_NO_PAD.encode(forged_claims), parts[2]);
    assert!(decode_token(forged.as_bytes(), SigningAlgorithm::EdDsa).is_ok());
    assert_eq!(verify_at(forged.as_bytes(), &vk, 1000).unwrap_err(), TokenError::InvalidSignature);
}

#[test]
fn claims_with_missing_field_are_malformed() {
    let (_, vk) = key_pair(7);
    let header = URL_SAFE_NO_PAD.encode("{\"typ\":\"JWT\",\"alg\":\"EdDSA\"}");
    let claims = URL_SAFE_NO_PAD.encode("{\"sub\":\"u\",\"iat\":1,\"exp\":2}");
    let t = format!("{header}.{claims}.c2ln");
    assert_eq!(verify_at(t.as_bytes(), &vk, 0).unwrap_err(), TokenError::Malformed);
}

#[test]
fn other_algorithm_header_is_malformed() {
    let (sk, _) = key_pair(7);
    let d = generate_at(USER, 60, &sk, 1000).unwrap();
    assert_eq!(decode_token(&d.token, SigningAlgorithm::Rs256).err(), Some(TokenError::Malformed));
}

#[test]
fn bad_subject_is_refused() {
    let (sk, _) = key_pair(7);
    assert_eq!(generate_at(b"bad id", 60, &sk, 0).err(), Some(IssueError::InvalidSubject));
    assert_eq!(generate_at(b"", 60, &sk, 0).err(), Some(IssueError::InvalidSubject));
    assert_eq!(generate_at(b"a\"b", 60, &sk, 0).err(), Some(IssueError::InvalidSubject));
}

#[test]
fn expiry_overflow_is_refused() {
    let (sk, _) = key_pair(7);
    assert_eq!(generate_at(USER, u64::MAX, &sk, 10).err(), Some(IssueError::ExpiryOutOfRange));
    assert!(generate_at(USER, u64::MAX - 10, &sk, 10).is_ok());
}

#[test]
fn unreadable_keys_are_refused() {
    assert_eq!(SigningKey::from_base64_pem("not base64 !!", SigningAlgorithm::EdDsa).err(), Some(KeyError::NotBase64));
    let junk = STANDARD.encode("hello");
    assert_eq!(SigningKey::from_base64_pem(&junk, SigningAlgorithm::Rs256).err(), Some(KeyError::NotAKey));
    assert_eq!(VerifyingKey::from_base64_pem(&junk, SigningAlgorithm::EdDsa).err(), Some(KeyError::NotAKey));
}

#[test]
fn key_of_wrong_kind_is_refused() {
    let seed = [4u8; 32];
    let mut pkcs8 = vec![
        0x30, 0x2e, 0x02, 0x01, 0x00, 0x30, 0x05, 0x06, 0x03, 0x2b, 0x65, 0x70, 0x04, 0x22, 0x04, 0x20,
    ];
    pkcs8.extend_from_slice(&seed);
    let text = STANDARD.encode(pem("PRIVATE KEY", &pkcs8));
    assert!(SigningKey::from_base64_pem(&text, SigningAlgorithm::EdDsa).is_ok());
    assert_eq!(SigningKey::from_base64_pem(&text, SigningAlgorithm::Rs256).err(), Some(KeyError::NotAKey));
}

#[test]
fn issued_tokens_with_same_claims_and_key_are_identical() {
    let (sk, vk) = key_pair(7);
    let d = generate_at(USER, 60, &sk, 1000).unwrap();
    let again = verify_at(&d.token, &vk, 1000).unwrap();
    let twice = verify_at(&d.token, &vk, 1000).unwrap();
    assert_eq!(again.token_id, twice.token_id);
    assert_eq!(again.token, twice.token);
}
