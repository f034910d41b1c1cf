use crate::base64_text::base64_text;
use base64::Engine;
use sha2::Digest;
use vstd::prelude::*;
use vstd::string::StringSliceAdditionalSpecFns;

verus! {

/// The SHA-256 digest of `data`.
pub uninterp spec fn spec_sha256(data: Seq<u8>) -> Seq<u8>;

/// Hashes `data` with `sha2::Sha256`. The contract names the digest and
/// states its length, 32 bytes, as the crate's output size fixes it; the
/// digest itself is not restated.
#[verifier::external_body]
fn sha256(data: &[u8]) -> (digest: Vec<u8>)
    ensures
        digest@ == spec_sha256(data@),
        digest@.len() == 32,
{
    sha2::Sha256::digest(data).to_vec()
}

/// Encodes `data` with the `base64` crate's `URL_SAFE_NO_PAD` engine: the
/// base64 text in the URL-safe alphabet without padding, four characters
/// for every three bytes and two or three for a last group of one or two.
#[verifier::external_body]
fn base64_url_no_pad(data: &[u8]) -> (text: String)
    requires
        data@.len() <= usize::MAX / 4,
    ensures
        text@ == base64_text(data@, true, false),
        text@.len() == (4 * data@.len() + 2) / 3,
{
    base64::engine::general_purpose::URL_SAFE_NO_PAD.encode(data)
}

/// The PKCE challenge that belongs to `verifier`: the URL-safe, unpadded
/// base64 text of the SHA-256 digest of its UTF-8 bytes.
pub open spec fn spec_pkce_challenge(verifier: Seq<char>) -> Seq<char> {
    base64_text(spec_sha256(vstd::utf8::encode_utf8(verifier)), true, false)
}

/// Computes the PKCE challenge of `verifier`; it is 43 characters long.
pub fn pkce_challenge(verifier: &str) -> (challenge: String)
    ensures
        challenge@ == spec_pkce_challenge(verifier@),
        challenge@.len() == 43,
{
    let digest = sha256(verifier.as_bytes());
    base64_url_no_pad(digest.as_slice())
}

/// Why an app login code could not be redeemed.
#[derive(Debug, Clone, Copy, PartialEq, Eq, Structural)]
pub enum AppCodeError {
    /// No pending login code with that id.
    InvalidCode,
    /// No approved device-login code with that id.
    AuthCodeNotFound,
    /// A device-login verifier must be exactly 64 bytes long.
    InvalidVerifierLength,
    /// The verifier does not hash to the stored challenge.
    InvalidVerifier,
}

/// A stored login code: the user it was issued for and the PKCE challenge
/// it was requested with.
pub struct PendingCode {
    pub user: u128,
    pub challenge: String,
}

/// Redeeming a login code issued to an already signed-in app: succeeds with
/// the code's user when the code exists and `verifier` hashes to its
/// challenge.
pub fn exchange_code(entry: Option<&PendingCode>, verifier: &str) -> (r: Result<u128, AppCodeError>)
    ensures
        match entry {
            None => r == Err::<u128, AppCodeError>(AppCodeError::InvalidCode),
            Some(e) => if e.challenge@ == spec_pkce_challenge(verifier@) {
                r == Ok::<u128, AppCodeError>(e.user)
            } else {
                r == Err::<u128, AppCodeError>(AppCodeError::InvalidVerifier)
            },
        },
{
    match entry {
        None => Err(AppCodeError::InvalidCode),
        Some(e) => {
            let expected = pkce_challenge(verifier);
            if e.challenge != expected {
                Err(AppCodeError::InvalidVerifier)
            } else {
                Ok(e.user)
            }
        },
    }
}

/// Redeeming an approved device-login code: succeeds with the approving
/// user when the code exists, the verifier is 64 bytes long and it hashes
/// to the challenge the device presented.
pub fn retrieve_token(entry: Option<&PendingCode>, verifier: &str) -> (r: Result<u128, AppCodeError>)
    ensures
        match entry {
            None => r == Err::<u128, AppCodeError>(AppCodeError::AuthCodeNotFound),
            Some(e) => if verifier.spec_bytes().len() != 64 {
                r == Err::<u128, AppCodeError>(AppCodeError::InvalidVerifierLength)
            } else if e.challenge@ == spec_pkce_challenge(verifier@) {
                r == Ok::<u128, AppCodeError>(e.user)
            } else {
                r == Err::<u128, AppCodeError>(AppCodeError::InvalidVerifier)
            },
        },
{
    match entry {
        None => Err(AppCodeError::AuthCodeNotFound),
        Some(e) => {
            if verifier.as_bytes().len() != 64 {
                return Err(AppCodeError::InvalidVerifierLength);
            }
            let expected = pkce_challenge(verifier);
            if expected != e.challenge {
                Err(AppCodeError::InvalidVerifier)
            } else {
                Ok(e.user)
            }
        },
    }
}

/// A device may start a QR login only with a non-empty challenge.
pub fn device_login_accepts(challenge: &str) -> (ok: bool)
    ensures
        ok == (challenge@.len() > 0),
{
    !challenge.is_empty()
}

} // verus!
