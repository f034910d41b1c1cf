//! Passkeys are stored under the standard base64 text of their credential
//! id; this is how a credential presented at sign-in finds its record.
use crate::base64_text::base64_text;
use base64::Engine;
use vstd::prelude::*;

verus! {

/// Encodes `data` with the `base64` crate's `STANDARD` engine: the base64
/// text in the standard alphabet, padded with `=`, four characters for
/// every started group of three bytes.
#[verifier::external_body]
fn base64_standard(data: &[u8]) -> (text: String)
    requires
        data@.len() <= usize::MAX / 4,
    ensures
        text@ == base64_text(data@, false, true),
        text@.len() == 4 * ((data@.len() + 2) / 3),
{
    base64::engine::general_purpose::STANDARD.encode(data)
}

/// The key a passkey record is stored under: its credential id in standard
/// base64.
pub fn credential_key(cred_id: &Vec<u8>) -> (key: String)
    requires
        cred_id@.len() <= usize::MAX / 4,
    ensures
        key@ == base64_text(cred_id@, false, true),
        key@.len() == 4 * ((cred_id@.len() + 2) / 3),
{
    base64_standard(cred_id.as_slice())
}

} // verus!
