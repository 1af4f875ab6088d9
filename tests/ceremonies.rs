use base64::Engine;
use p256::ecdsa::signature::Signer;
use p256::ecdsa::{Signature, SigningKey};
use proxy_auth::ceremony::{
    check_assertion, check_client_data, check_registration, check_relying_party, contains_id,
    parse_attested_credential, parse_signature_counter, verify_attestation, AssertionResponse,
    RegistrationResponse, RelyingParty,
};
use proxy_auth::challenges::{Ceremony, CeremonyKind, ChallengeRegistry};
use proxy_auth::crypto::verify_signature;
use proxy_auth::error::AuthError;
use sha2::Digest;
use sha2::Sha256;

const ORIGIN: &str = "http://localhost";

fn rp() -> RelyingParty {
    RelyingParty { id: "localhost".to_string(), origin: ORIGIN.to_string() }
}

fn rp_hash(id: &str) -> Vec<u8> {
    Sha256::digest(id.as_bytes()).to_vec()
}

fn client_data(kind: &str, challenge: &[u8], origin: &str) -> Vec<u8> {
    let encoded = base64::engine::general_purpose::URL_SAFE_NO_PAD.encode(challenge);
    format!("{{\"type\":\"{}\",\"challenge\":\"{}\",\"origin\":\"{}\",\"crossOrigin\":false}}", kind, encoded, origin)
        .into_bytes()
}

fn registration_data(rp_id: &str, id: &[u8], key: &[u8]) -> Vec<u8> {
    let mut d = rp_hash(rp_id);
    d.push(0x41);
    d.extend_from_slice(&[0, 0, 0, 0]);
    d.extend_from_slice(&[0u8; 16]);
    d.push((id.len() / 256) as u8);
    d.push((id.len() % 256) as u8);
    d.extend_from_slice(id);
    d.extend_from_slice(key);
    d
}

fn auth_data(rp_id: &str, counter: u32) -> Vec<u8> {
    let mut d = rp_hash(rp_id);
    d.push(0x05);
    d.extend_from_slice(&counter.to_be_bytes());
    d
}

const CHALLENGE: [u8; 4] = [10, 20, 30, 40];

fn ceremony(kind: CeremonyKind, allowed: Vec<Vec<u8>>) -> Ceremony {
    Ceremony {
        kind,
        user_id: 1,
        challenge: CHALLENGE.to_vec(),
        allowed_credentials: allowed,
        created_at: 0,
        expires_at: 300,
    }
}

fn registration(challenge: &[u8], origin: &str) -> RegistrationResponse {
    RegistrationResponse {
        client_data_json: client_data("webauthn.create", challenge, origin),
        authenticator_data: registration_data("localhost", &[7, 7], &[1, 2, 3]),
        signature: vec![0xAA],
    }
}

fn assertion(credential_id: Vec<u8>, challenge: &[u8], counter: u32) -> AssertionResponse {
    AssertionResponse {
        credential_id,
        client_data_json: client_data("webauthn.get", challenge, ORIGIN),
        authenticator_data: auth_data("localhost", counter),
        signature: vec![0xAA],
    }
}

#[test]
fn attested_credential_parses() {
    let (id, key) = parse_attested_credential(&registration_data("x", &[1, 2, 3], &[4, 5])).unwrap();
    assert_eq!(id, vec![1, 2, 3]);
    assert_eq!(key, vec![4, 5]);
}

#[test]
fn attested_credential_malformed() {
    assert!(matches!(parse_attested_credential(&vec![0u8; 54]), Err(AuthError::MalformedAttestation)));
    assert!(matches!(parse_attested_credential(&registration_data("x", &[1, 2], &[])), Err(AuthError::MalformedAttestation)));
    assert!(matches!(parse_attested_credential(&registration_data("x", &[], &[1])), Err(AuthError::MalformedAttestation)));
    let mut long = registration_data("x", &[1], &[2]);
    long[54] = 200;
    assert!(matches!(parse_attested_credential(&long), Err(AuthError::MalformedAttestation)));
}

#[test]
fn counter_read_big_endian() {
    assert_eq!(parse_signature_counter(&auth_data("x", 0x01020304)), Ok(0x01020304));
    assert_eq!(parse_signature_counter(&auth_data("x", u32::MAX)), Ok(u32::MAX));
    assert_eq!(parse_signature_counter(&vec![0u8; 36]), Err(AuthError::Validation));
}

#[test]
fn contains_id_finds_exact_bytes() {
    let ids = vec![vec![1, 2], vec![3]];
    assert!(contains_id(&ids, &vec![3]));
    assert!(!contains_id(&ids, &vec![1]));
}

#[test]
fn client_data_must_name_ceremony_and_origin() {
    let c = ceremony(CeremonyKind::Registration, vec![]);
    let origin = ORIGIN.to_string();
    assert_eq!(check_client_data(&client_data("webauthn.create", &CHALLENGE, ORIGIN), &c, &origin), Ok(()));
    let closed = format!("{{\"type\":\"webauthn.create\",\"challenge\":\"ChQeKA\",\"origin\":\"{}\"}}", ORIGIN).into_bytes();
    assert_eq!(check_client_data(&closed, &c, &origin), Ok(()));
    assert_eq!(check_client_data(&client_data("webauthn.get", &CHALLENGE, ORIGIN), &c, &origin), Err(AuthError::ChallengeMismatch));
    assert_eq!(check_client_data(&client_data("webauthn.create", &[10, 20, 30], ORIGIN), &c, &origin), Err(AuthError::ChallengeMismatch));
    assert_eq!(check_client_data(&client_data("webauthn.create", &CHALLENGE, "http://localhost.evil"), &c, &origin), Err(AuthError::OriginMismatch));
    assert_eq!(check_client_data(&client_data("webauthn.create", &CHALLENGE, "http://localhost:8080"), &c, &origin), Err(AuthError::OriginMismatch));
    assert_eq!(check_client_data(&b"{}".to_vec(), &c, &origin), Err(AuthError::ChallengeMismatch));
}

#[test]
fn relying_party_hash_checked() {
    assert!(check_relying_party(&auth_data("localhost", 1), &"localhost".to_string()));
    assert!(!check_relying_party(&auth_data("evil.example", 1), &"localhost".to_string()));
    assert!(!check_relying_party(&vec![0u8; 10], &"localhost".to_string()));
}

#[test]
fn registration_accepted_when_all_match() {
    let c = ceremony(CeremonyKind::Registration, vec![]);
    let (id, key) = check_registration(&c, &rp(), &registration(&CHALLENGE, ORIGIN), true).unwrap();
    assert_eq!(id, vec![7, 7]);
    assert_eq!(key, vec![1, 2, 3]);
}

#[test]
fn flipped_challenge_byte_mismatches() {
    let c = ceremony(CeremonyKind::Registration, vec![]);
    for i in 0..4 {
        let mut ch = CHALLENGE.to_vec();
        ch[i] ^= 0x01;
        let r = check_registration(&c, &rp(), &registration(&ch, ORIGIN), true);
        assert!(matches!(r, Err(AuthError::ChallengeMismatch)));
    }
}

#[test]
fn wrong_type_or_origin_rejected() {
    let c = ceremony(CeremonyKind::Registration, vec![]);
    let mut r = registration(&CHALLENGE, ORIGIN);
    r.client_data_json = client_data("webauthn.get", &CHALLENGE, ORIGIN);
    assert!(matches!(check_registration(&c, &rp(), &r, true), Err(AuthError::ChallengeMismatch)));
    let r = registration(&CHALLENGE, "http://localhost:8080");
    assert!(matches!(check_registration(&c, &rp(), &r, true), Err(AuthError::OriginMismatch)));
    let mut r = registration(&CHALLENGE, ORIGIN);
    r.authenticator_data = registration_data("evil.example", &[7, 7], &[1]);
    assert!(matches!(check_registration(&c, &rp(), &r, true), Err(AuthError::OriginMismatch)));
    let mut r = registration(&CHALLENGE, ORIGIN);
    r.authenticator_data = auth_data("localhost", 1);
    assert!(matches!(check_registration(&c, &rp(), &r, true), Err(AuthError::MalformedAttestation)));
}

#[test]
fn registration_with_bad_signature_rejected() {
    let c = ceremony(CeremonyKind::Registration, vec![]);
    let r = registration(&CHALLENGE, ORIGIN);
    assert!(matches!(check_registration(&c, &rp(), &r, false), Err(AuthError::SignatureInvalid)));
    assert_eq!(AuthError::SignatureInvalid.registration_finish_status(), 400);
    assert_eq!(AuthError::ChallengeMismatch.registration_finish_status(), 400);
    assert_eq!(AuthError::OriginMismatch.registration_finish_status(), 400);
    assert_eq!(AuthError::MalformedAttestation.registration_finish_status(), 400);
}

#[test]
fn self_attestation_verifies_under_attested_key() {
    let key = SigningKey::from_slice(&[7u8; 32]).unwrap();
    let public = key.verifying_key().to_encoded_point(false).as_bytes().to_vec();
    let mut r = registration(&CHALLENGE, ORIGIN);
    r.authenticator_data = registration_data("localhost", &[7, 7], &public);
    let mut message = r.authenticator_data.clone();
    message.extend_from_slice(&Sha256::digest(&r.client_data_json));
    let signature: Signature = key.sign(&message);
    r.signature = signature.to_der().as_bytes().to_vec();
    assert!(verify_attestation(&r));
    assert!(verify_signature(&public, &r.authenticator_data, &r.client_data_json, &r.signature));
    assert!(!verify_signature(&public, &r.authenticator_data, &b"{ }".to_vec(), &r.signature));
    r.signature[10] ^= 1;
    assert!(!verify_attestation(&r));
    r.authenticator_data = vec![0u8; 3];
    assert!(!verify_attestation(&r));
}

#[test]
fn assertion_checks_in_order() {
    let c = ceremony(CeremonyKind::Authentication, vec![vec![7, 7]]);
    assert_eq!(check_assertion(&c, &rp(), &assertion(vec![7, 7], &CHALLENGE, 9), true), Ok(9));
    assert_eq!(check_assertion(&c, &rp(), &assertion(vec![8], &CHALLENGE, 9), true), Err(AuthError::UnknownCredential));
    assert_eq!(check_assertion(&c, &rp(), &assertion(vec![7, 7], &CHALLENGE, 9), false), Err(AuthError::SignatureInvalid));
    assert_eq!(check_assertion(&c, &rp(), &assertion(vec![7, 7], &[10, 20, 30, 41], 9), true), Err(AuthError::ChallengeMismatch));
    let mut a = assertion(vec![7, 7], &CHALLENGE, 9);
    a.client_data_json = client_data("webauthn.get", &CHALLENGE, "https://evil.example");
    assert_eq!(check_assertion(&c, &rp(), &a, true), Err(AuthError::OriginMismatch));
    let mut a = assertion(vec![7, 7], &CHALLENGE, 9);
    a.authenticator_data = auth_data("evil.example", 9);
    assert_eq!(check_assertion(&c, &rp(), &a, true), Err(AuthError::OriginMismatch));
    assert_eq!(AuthError::ReplayDetected.authentication_finish_status(), 409);
    assert_eq!(AuthError::OriginMismatch.authentication_finish_status(), 401);
}

#[test]
fn ceremony_taken_only_once() {
    let mut reg = ChallengeRegistry::new(300);
    assert_eq!(reg.insert(42, CeremonyKind::Registration, 1, vec![1], vec![], 0), Ok(()));
    assert_eq!(reg.insert(42, CeremonyKind::Registration, 1, vec![1], vec![], 0), Err(AuthError::Conflict));
    let c = reg.take_and_remove(42, 10).unwrap();
    assert_eq!(c.user_id, 1);
    assert_eq!(c.expires_at, 300);
    assert!(matches!(reg.take_and_remove(42, 10), Err(AuthError::InvalidCeremony)));
}

#[test]
fn expired_ceremony_is_invalid_and_removed() {
    let mut reg = ChallengeRegistry::new(300);
    reg.insert(5, CeremonyKind::Authentication, 2, vec![1], vec![vec![9]], 0).unwrap();
    assert!(matches!(reg.take_and_remove(5, 301), Err(AuthError::InvalidCeremony)));
    assert!(reg.entries.is_empty());
}

#[test]
fn sweep_drops_only_expired() {
    let mut reg = ChallengeRegistry::new(100);
    reg.insert(1, CeremonyKind::Registration, 1, vec![1], vec![], 0).unwrap();
    reg.insert(2, CeremonyKind::Registration, 1, vec![1], vec![], 50).unwrap();
    reg.insert(3, CeremonyKind::Registration, 1, vec![1], vec![], 10).unwrap();
    reg.sweep(105);
    let ids: Vec<u128> = reg.entries.iter().map(|e| e.id).collect();
    assert_eq!(ids, vec![2, 3]);
}

#[test]
fn put_draws_fresh_ids() {
    let mut reg = ChallengeRegistry::new(100);
    let a = reg.put(CeremonyKind::Registration, 1, vec![1], vec![], 0).unwrap();
    let b = reg.put(CeremonyKind::Registration, 1, vec![1], vec![], 0).unwrap();
    assert_ne!(a, b);
    assert_eq!(reg.entries.len(), 2);
}
