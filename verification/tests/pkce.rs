use base64::Engine;
use positron::passkey::credential_key;
use positron::pkce::{device_login_accepts, exchange_code, pkce_challenge, retrieve_token, AppCodeError, PendingCode};
use sha2::Digest;

fn expected_challenge(verifier: &str) -> String {
    base64::engine::general_purpose::URL_SAFE_NO_PAD.encode(sha2::Sha256::digest(verifier.as_bytes()))
}

#[test]
fn pkce_challenge_of_rfc_example() {
    // the example of RFC 7636, appendix B
    let verifier = "dBjftJeZ4CVP-mB92K27uhbUJU1p1r_wW1gFWFOEjXk";
    assert_eq!(pkce_challenge(verifier), "E9Melhoa2OwvFrEMTJguCHaoeK1t8URWbuGJSstw-cM");
    assert_eq!(pkce_challenge(verifier), expected_challenge(verifier));
}

#[test]
fn exchange_code_checks_entry_and_verifier() {
    let verifier = "some-verifier";
    let entry = PendingCode { user: 5, challenge: expected_challenge(verifier) };
    assert_eq!(exchange_code(Some(&entry), verifier), Ok(5));
    assert_eq!(exchange_code(Some(&entry), "other"), Err(AppCodeError::InvalidVerifier));
    assert_eq!(exchange_code(None, verifier), Err(AppCodeError::InvalidCode));
}

#[test]
fn retrieve_token_needs_a_64_byte_verifier() {
    let verifier = "a".repeat(64);
    let entry = PendingCode { user: 9, challenge: expected_challenge(&verifier) };
    assert_eq!(retrieve_token(Some(&entry), &verifier), Ok(9));
    assert_eq!(retrieve_token(Some(&entry), "short"), Err(AppCodeError::InvalidVerifierLength));
    assert_eq!(retrieve_token(Some(&entry), &"b".repeat(64)), Err(AppCodeError::InvalidVerifier));
    assert_eq!(retrieve_token(None, &verifier), Err(AppCodeError::AuthCodeNotFound));
}

#[test]
fn device_login_needs_a_challenge() {
    assert!(device_login_accepts("abc"));
    assert!(!device_login_accepts(""));
}

#[test]
fn credential_key_is_standard_base64() {
    assert_eq!(credential_key(&vec![0xfb, 0xff]), "+/8=");
    assert_eq!(credential_key(&vec![]), "");
    assert_eq!(credential_key(&b"hello".to_vec()), "aGVsbG8=");
}
