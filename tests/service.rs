use base64::Engine;
use proxy_auth::ceremony::{AssertionResponse, RegistrationResponse};
use proxy_auth::error::{AuthError, ErrorKind};
use proxy_auth::password::{hash_password, verify_password};
use proxy_auth::service::{id_to_uuid, AuthService};
use p256::ecdsa::signature::Signer;
use p256::ecdsa::{Signature, SigningKey};
use sha2::Digest;
use sha2::Sha256;

const ORIGIN: &str = "http://localhost";

fn signing_key() -> SigningKey {
    SigningKey::from_slice(&[9u8; 32]).unwrap()
}

fn public_key() -> Vec<u8> {
    signing_key().verifying_key().to_encoded_point(false).as_bytes().to_vec()
}

fn sign(data: &[u8], client_data_json: &[u8]) -> Vec<u8> {
    let mut message = data.to_vec();
    message.extend_from_slice(&Sha256::digest(client_data_json));
    let signature: Signature = signing_key().sign(&message);
    signature.to_der().as_bytes().to_vec()
}

fn client_data(kind: &str, challenge: &[u8]) -> Vec<u8> {
    let encoded = base64::engine::general_purpose::URL_SAFE_NO_PAD.encode(challenge);
    format!("{{\"type\":\"{}\",\"challenge\":\"{}\",\"origin\":\"{}\",\"crossOrigin\":false}}", kind, encoded, ORIGIN)
        .into_bytes()
}

fn rp_hash() -> Vec<u8> {
    Sha256::digest(b"localhost").to_vec()
}

fn registration(challenge: Vec<u8>, credential_id: &[u8]) -> RegistrationResponse {
    let authenticator_data = attested(credential_id, &public_key());
    let client_data_json = client_data("webauthn.create", &challenge);
    let signature = sign(&authenticator_data, &client_data_json);
    RegistrationResponse { client_data_json, authenticator_data, signature }
}

fn service() -> AuthService {
    AuthService::with_cost("localhost".to_string(), ORIGIN.to_string(), 4).unwrap()
}

fn attested(id: &[u8], key: &[u8]) -> Vec<u8> {
    let mut d = rp_hash();
    d.push(0x41);
    d.extend_from_slice(&[0, 0, 0, 0]);
    d.extend_from_slice(&[0u8; 16]);
    d.push((id.len() / 256) as u8);
    d.push((id.len() % 256) as u8);
    d.extend_from_slice(id);
    d.extend_from_slice(key);
    d
}

fn auth_data(counter: u32) -> Vec<u8> {
    let mut d = rp_hash();
    d.push(0x05);
    d.extend_from_slice(&counter.to_be_bytes());
    d
}

fn enrol(svc: &mut AuthService, name: &str, credential_id: &[u8]) {
    svc.register_password(name, "pw").unwrap();
    let ch = svc.webauthn_register_start(name, 0).unwrap();
    let response = registration(ch.challenge.clone(), credential_id);
    svc.webauthn_register_finish(ch.ceremony_id, &response, 1).unwrap();
}

fn assertion(credential_id: &[u8], challenge: Vec<u8>, counter: u32) -> AssertionResponse {
    let client_data_json = client_data("webauthn.get", &challenge);
    let authenticator_data = auth_data(counter);
    let signature = sign(&authenticator_data, &client_data_json);
    AssertionResponse { credential_id: credential_id.to_vec(), client_data_json, authenticator_data, signature }
}

#[test]
fn assertion_for_other_ceremony_rejected() {
    let mut svc = service();
    enrol(&mut svc, "uma", &[5]);
    let first = svc.webauthn_login_start("uma", 0).unwrap();
    let second = svc.webauthn_login_start("uma", 0).unwrap();
    let signed_for_first = assertion(&[5], first.challenge.clone(), 1);
    let r = svc.webauthn_login_finish(second.ceremony_id, &signed_for_first, 1);
    assert!(matches!(r, Err(AuthError::ChallengeMismatch)));
    assert_eq!(AuthError::ChallengeMismatch.authentication_finish_status(), 401);
}

#[test]
fn registration_finish_failures_are_bad_requests() {
    let mut svc = service();
    svc.register_password("vic", "pw").unwrap();
    let ch = svc.webauthn_register_start("vic", 0).unwrap();
    let mut response = registration(ch.challenge.clone(), &[4]);
    response.signature = sign(&[9], &response.client_data_json);
    let e = svc.webauthn_register_finish(ch.ceremony_id, &response, 1).unwrap_err();
    assert_eq!(e, AuthError::SignatureInvalid);
    assert_eq!(e.registration_finish_status(), 400);
    assert_eq!(AuthError::Conflict.password_registration_status(), 400);
}

#[test]
fn register_alice_twice_conflicts() {
    let mut svc = service();
    assert!(svc.register_password("alice", "pw").is_ok());
    assert!(matches!(svc.register_password("alice", "other"), Err(AuthError::Conflict)));
}

#[test]
fn bob_password_login_and_session_check() {
    let mut svc = service();
    svc.register_password("bob", "correct horse").unwrap();
    let session = svc.login_password("bob", "correct horse", 1000).unwrap();
    let wrong = svc.login_password("bob", "wrong", 1001);
    assert!(matches!(wrong, Err(AuthError::BadCredentials)));
    assert_eq!(AuthError::BadCredentials.status_code(), 401);
    assert_eq!(svc.auth(&session.token, 1002), Ok("bob".to_string()));
}

#[test]
fn login_of_unknown_user_is_refused() {
    let mut svc = service();
    assert!(matches!(svc.login_password("nobody", "x", 0), Err(AuthError::BadCredentials)));
}

#[test]
fn carol_without_credentials_gets_no_credentials() {
    let mut svc = service();
    svc.register_password("carol", "pw").unwrap();
    assert!(matches!(svc.webauthn_login_start("carol", 0), Err(AuthError::NoCredentials)));
    assert_eq!(AuthError::NoCredentials.status_code(), 404);
}

#[test]
fn ceremony_start_for_unknown_user() {
    let mut svc = service();
    assert!(matches!(svc.webauthn_register_start("zed", 0), Err(AuthError::UnknownUser)));
    assert!(matches!(svc.webauthn_login_start("zed", 0), Err(AuthError::UnknownUser)));
}

#[test]
fn registration_ceremony_binds_credential() {
    let mut svc = service();
    let user = svc.register_password("dan", "pw").unwrap();
    let ch = svc.webauthn_register_start("dan", 0).unwrap();
    assert_eq!(ch.challenge.len(), 32);
    assert_eq!(ch.user_handle, id_to_uuid(user.id));
    assert_eq!(ch.rp_id, "localhost");
    let response = registration(ch.challenge.clone(), &[5, 5]);
    assert_eq!(svc.webauthn_register_finish(ch.ceremony_id, &response, 1), Ok(()));
    assert_eq!(svc.store.find_credential(&vec![5, 5]).unwrap().owner, user.id);
    assert_eq!(svc.webauthn_register_finish(ch.ceremony_id, &response, 2), Err(AuthError::InvalidCeremony));
}

#[test]
fn failed_registration_still_consumes_ceremony() {
    let mut svc = service();
    svc.register_password("erin", "pw").unwrap();
    let ch = svc.webauthn_register_start("erin", 0).unwrap();
    let mut challenge = ch.challenge.clone();
    challenge[0] ^= 0xFF;
    let response = registration(challenge, &[6]);
    assert_eq!(svc.webauthn_register_finish(ch.ceremony_id, &response, 1), Err(AuthError::ChallengeMismatch));
    assert!(svc.ceremonies.entries.is_empty());
}

#[test]
fn registration_with_forged_signature_rejected() {
    let mut svc = service();
    svc.register_password("rae", "pw").unwrap();
    let ch = svc.webauthn_register_start("rae", 0).unwrap();
    let mut response = registration(ch.challenge.clone(), &[8]);
    response.signature = sign(&[1, 2, 3], &response.client_data_json);
    assert_eq!(svc.webauthn_register_finish(ch.ceremony_id, &response, 1), Err(AuthError::SignatureInvalid));
    assert!(matches!(svc.store.find_credential(&vec![8]), Err(AuthError::NotFound)));
}

#[test]
fn finish_with_given_verdicts() {
    let mut svc = service();
    enrol(&mut svc, "sam", &[6, 6]);
    let ch = svc.webauthn_login_start("sam", 0).unwrap();
    let r = svc.finish_authentication(ch.ceremony_id, &assertion(&[6, 6], ch.challenge.clone(), 3), false, 1);
    assert!(matches!(r, Err(AuthError::SignatureInvalid)));
    let ch = svc.webauthn_login_start("sam", 2).unwrap();
    let s = svc.finish_authentication(ch.ceremony_id, &assertion(&[6, 6], ch.challenge.clone(), 3), true, 3).unwrap();
    assert_eq!(svc.auth(&s.token, 4), Ok("sam".to_string()));
    svc.register_password("tia", "pw").unwrap();
    let ch = svc.webauthn_register_start("tia", 5).unwrap();
    let response = registration(ch.challenge.clone(), &[7]);
    assert_eq!(svc.finish_registration(ch.ceremony_id, &response, false, 6), Err(AuthError::SignatureInvalid));
}

#[test]
fn fresh_service_accepts_first_user() {
    let mut svc = service();
    let u = svc.register_password("alice", "pw").unwrap();
    assert_eq!(u.id, 1);
    assert_eq!(svc.store.users.len(), 1);
    let h = u.password_hash.unwrap();
    assert_eq!(h.len(), 60);
    assert!(h.starts_with("$2b$"));
    assert_ne!(h, "pw");
}

#[test]
fn credential_of_other_account_is_duplicate() {
    let mut svc = service();
    enrol(&mut svc, "fay", &[3, 3]);
    svc.register_password("gus", "pw").unwrap();
    let ch = svc.webauthn_register_start("gus", 0).unwrap();
    let response = registration(ch.challenge.clone(), &[3, 3]);
    assert_eq!(svc.webauthn_register_finish(ch.ceremony_id, &response, 1), Err(AuthError::DuplicateCredential));
}

#[test]
fn passkey_login_then_replay_detected() {
    let mut svc = service();
    enrol(&mut svc, "hal", &[4, 4]);
    let ch = svc.webauthn_login_start("hal", 10).unwrap();
    assert_eq!(ch.allowed_credentials, vec![vec![4u8, 4]]);
    let session = svc.webauthn_login_finish(ch.ceremony_id, &assertion(&[4, 4], ch.challenge.clone(), 5), 11).unwrap();
    assert_eq!(svc.auth(&session.token, 12), Ok("hal".to_string()));
    let again = svc.webauthn_login_start("hal", 20).unwrap();
    let replay = svc.webauthn_login_finish(again.ceremony_id, &assertion(&[4, 4], again.challenge.clone(), 5), 21);
    assert!(matches!(replay, Err(AuthError::ReplayDetected)));
    assert_eq!(AuthError::ReplayDetected.kind(), ErrorKind::ReplayDetected);
    assert_eq!(AuthError::ReplayDetected.status_code(), 409);
}

#[test]
fn passkey_login_with_bad_signature() {
    let mut svc = service();
    enrol(&mut svc, "ida", &[2]);
    let ch = svc.webauthn_login_start("ida", 10).unwrap();
    let mut forged = assertion(&[2], ch.challenge.clone(), 1);
    forged.authenticator_data[36] = 2;
    let r = svc.webauthn_login_finish(ch.ceremony_id, &forged, 11);
    assert!(matches!(r, Err(AuthError::SignatureInvalid)));
    let r = svc.webauthn_login_finish(ch.ceremony_id, &assertion(&[2], ch.challenge.clone(), 1), 12);
    assert!(matches!(r, Err(AuthError::InvalidCeremony)));
}

#[test]
fn registration_ceremony_cannot_finish_login() {
    let mut svc = service();
    svc.register_password("jo", "pw").unwrap();
    let ch = svc.webauthn_register_start("jo", 0).unwrap();
    let r = svc.webauthn_login_finish(ch.ceremony_id, &assertion(&[1], ch.challenge.clone(), 1), 1);
    assert!(matches!(r, Err(AuthError::InvalidCeremony)));
}

#[test]
fn expired_ceremony_refused() {
    let mut svc = service();
    enrol(&mut svc, "kim", &[9]);
    let ch = svc.webauthn_login_start("kim", 0).unwrap();
    let r = svc.webauthn_login_finish(ch.ceremony_id, &assertion(&[9], ch.challenge.clone(), 1), 301);
    assert!(matches!(r, Err(AuthError::InvalidCeremony)));
}

#[test]
fn revoked_session_is_refused() {
    let mut svc = service();
    svc.register_password("lou", "pw").unwrap();
    let s = svc.login_password("lou", "pw", 0).unwrap();
    svc.revoke_session(&s.token);
    assert_eq!(svc.auth(&s.token, 1), Err(AuthError::InvalidToken));
}

#[test]
fn cost_outside_range_refused() {
    assert!(matches!(AuthService::with_cost("a".to_string(), "b".to_string(), 3), Err(AuthError::Validation)));
    assert!(matches!(AuthService::with_cost("a".to_string(), "b".to_string(), 32), Err(AuthError::Validation)));
    assert!(matches!(hash_password("pw", 2), Err(AuthError::Validation)));
}

#[test]
fn hash_is_not_the_password_and_verifies() {
    let h = hash_password("s3cret", 4).unwrap();
    assert_ne!(h, "s3cret");
    assert!(h.starts_with("$2b$04$"));
    assert!(verify_password("s3cret", &h));
    assert!(!verify_password("S3cret", &h));
    assert!(!verify_password("s3cret", "not a hash"));
}

#[test]
fn public_handle_of_account() {
    assert_eq!(id_to_uuid(7), 7u128);
}

#[test]
fn status_codes_by_kind() {
    assert_eq!(AuthError::MalformedAttestation.status_code(), 400);
    assert_eq!(AuthError::InvalidCeremony.status_code(), 404);
    assert_eq!(AuthError::Conflict.status_code(), 409);
    assert_eq!(AuthError::OriginMismatch.status_code(), 401);
    assert_eq!(AuthError::Internal.status_code(), 500);
    assert_eq!(AuthError::ExpiredToken.message(), "expired session");
}

#[test]
fn header_check_needs_live_session() {
    let mut svc = service();
    svc.register_password("mia", "pw").unwrap();
    assert!(svc.isUserInDatabase("mia"));
    assert!(!svc.isUserInDatabase("max"));
    assert_eq!(svc.authenticate_header(None, 0), Err(AuthError::InvalidToken));
    assert_eq!(svc.authenticate_header(Some(&vec![0u8; 16]), 0), Err(AuthError::InvalidToken));
    let s = svc.login_password("mia", "pw", 0).unwrap();
    assert_eq!(svc.authenticate_header(Some(&s.token), 1), Ok("mia".to_string()));
    assert_eq!(AuthError::InvalidToken.status_code(), 401);
}

#[test]
fn begin_registration_is_exact() {
    let mut svc = service();
    let user = svc.register_password("nia", "pw").unwrap();
    let ch = svc.begin_registration("nia", 77, vec![1, 2, 3], 50).unwrap();
    assert_eq!(ch.ceremony_id, 77);
    assert_eq!(ch.challenge, vec![1, 2, 3]);
    assert_eq!(ch.user_name, "nia");
    assert_eq!(ch.user_handle, user.id as u128);
    assert_eq!(svc.ceremonies.entries.len(), 1);
    assert_eq!(svc.ceremonies.entries[0].ceremony.expires_at, 350);
    assert!(matches!(svc.begin_registration("nia", 77, vec![4], 50), Err(AuthError::Conflict)));
    assert!(matches!(svc.begin_registration("nobody", 78, vec![4], 50), Err(AuthError::UnknownUser)));
    assert_eq!(svc.ceremonies.entries.len(), 1);
}

#[test]
fn begin_authentication_allows_owned_credentials() {
    let mut svc = service();
    enrol(&mut svc, "oli", &[1]);
    enrol(&mut svc, "pat", &[2]);
    let ch = svc.begin_authentication("oli", 5, vec![9, 9], 0).unwrap();
    assert_eq!(ch.ceremony_id, 5);
    assert_eq!(ch.challenge, vec![9, 9]);
    assert_eq!(ch.allowed_credentials, vec![vec![1u8]]);
    let r = svc.webauthn_login_finish(5, &assertion(&[2], vec![9, 9], 1), 1);
    assert!(matches!(r, Err(AuthError::UnknownCredential)));
}

#[test]
fn concealed_login_start_for_unknown_user() {
    let mut svc = service();
    svc.conceal_unknown_users = true;
    let ch = svc.webauthn_login_start("quinn", 0).unwrap();
    assert!(ch.allowed_credentials.is_empty());
    assert_eq!(ch.challenge.len(), 32);
    let r = svc.webauthn_login_finish(ch.ceremony_id, &assertion(&[1], ch.challenge.clone(), 1), 1);
    assert!(matches!(r, Err(AuthError::UnknownCredential)));
    svc.register_password("carol", "pw").unwrap();
    let ch = svc.webauthn_login_start("carol", 2).unwrap();
    assert!(ch.allowed_credentials.is_empty());
}
