use base64::Engine;
use positron::app_login::{code_is_live, AppState};
use positron::pkce::AppCodeError;
use sha2::Digest;

fn challenge(verifier: &str) -> String {
    base64::engine::general_purpose::URL_SAFE_NO_PAD.encode(sha2::Sha256::digest(verifier.as_bytes()))
}

const MIN: u64 = 60_000_000;

#[test]
fn requested_code_redeems_once() {
    let mut state = AppState::init();
    state.request_code(1, 42, challenge("verifier"), 0);
    assert_eq!(state.check_code(1, "verifier"), Ok(42));
    assert_eq!(state.check_code(1, "other"), Err(AppCodeError::InvalidVerifier));
    assert_eq!(state.check_code(2, "verifier"), Err(AppCodeError::InvalidCode));
    state.consume_code(1);
    assert_eq!(state.check_code(1, "verifier"), Err(AppCodeError::InvalidCode));
}

#[test]
fn requesting_again_replaces_the_entry() {
    let mut state = AppState::init();
    state.request_code(1, 42, challenge("a"), 0);
    state.request_code(1, 43, challenge("b"), 0);
    assert_eq!(state.check_code(1, "b"), Ok(43));
    assert_eq!(state.check_code(1, "a"), Err(AppCodeError::InvalidVerifier));
}

#[test]
fn approved_code_needs_a_64_byte_verifier() {
    let mut state = AppState::init();
    let verifier = "v".repeat(64);
    state.approve(7, 99, challenge(&verifier), 0);
    assert_eq!(state.check_approved(7, &verifier), Ok(99));
    assert_eq!(state.check_approved(7, "short"), Err(AppCodeError::InvalidVerifierLength));
    assert_eq!(state.check_approved(8, &verifier), Err(AppCodeError::AuthCodeNotFound));
    // requested and approved codes are kept apart
    assert_eq!(state.check_code(7, &verifier), Err(AppCodeError::InvalidCode));
    state.consume_approved(7);
    assert_eq!(state.check_approved(7, &verifier), Err(AppCodeError::AuthCodeNotFound));
}

#[test]
fn sweep_drops_codes_of_ten_minutes_or_more() {
    let mut state = AppState::init();
    state.request_code(1, 1, challenge("x"), 0);
    state.request_code(2, 2, challenge("x"), 5 * MIN);
    state.approve(3, 3, challenge(&"x".repeat(64)), 0);
    state.sweep(10 * MIN);
    assert_eq!(state.check_code(1, "x"), Err(AppCodeError::InvalidCode));
    assert_eq!(state.check_code(2, "x"), Ok(2));
    assert_eq!(state.check_approved(3, &"x".repeat(64)), Err(AppCodeError::AuthCodeNotFound));
}

#[test]
fn liveness_boundaries() {
    assert!(code_is_live(0, 10 * MIN - 1));
    assert!(!code_is_live(0, 10 * MIN));
    // a clock reading before the code counts as no time at all
    assert!(code_is_live(5 * MIN, 0));
}

#[test]
fn exchange_uses_the_code_up_only_after_a_token_was_made() {
    let mut state = AppState::init();
    state.request_code(1, 42, challenge("verifier"), 0);
    // a wrong verifier keeps the code
    assert_eq!(state.finish_exchange(1, "other", true), Err(AppCodeError::InvalidVerifier));
    // a failed token keeps the code
    assert_eq!(state.finish_exchange(1, "verifier", false), Ok(42));
    assert_eq!(state.check_code(1, "verifier"), Ok(42));
    assert_eq!(state.finish_exchange(1, "verifier", true), Ok(42));
    assert_eq!(state.finish_exchange(1, "verifier", true), Err(AppCodeError::InvalidCode));
}

#[test]
fn retrieve_uses_the_approved_code_up_only_on_success() {
    let mut state = AppState::init();
    let verifier = "w".repeat(64);
    state.approve(5, 9, challenge(&verifier), 0);
    assert_eq!(state.finish_retrieve(5, "short", true), Err(AppCodeError::InvalidVerifierLength));
    assert_eq!(state.finish_retrieve(5, &verifier, true), Ok(9));
    assert_eq!(state.finish_retrieve(5, &verifier, true), Err(AppCodeError::AuthCodeNotFound));
}
