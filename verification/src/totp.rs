//! Second-factor settings: the issuer shown in authenticator apps, and how
//! long unfinished passkey and TOTP registrations are kept.
use vstd::prelude::*;

verus! {

/// Why the TOTP settings cannot be used.
#[derive(Debug, Clone, Copy, PartialEq, Eq, Structural)]
pub enum TotpConfigError {
    /// The issuer holds a `:`, which separates issuer and account in the
    /// provisioning URI.
    IssuerWithColon,
}

/// The TOTP settings: the issuer named in provisioning URIs.
pub struct TotpState {
    pub issuer: String,
}

/// An issuer may be used when it holds no `:`.
pub open spec fn valid_issuer(issuer: Seq<char>) -> bool {
    !issuer.contains(':')
}

impl TotpState {
    /// The settings for `issuer`; refused when the issuer holds a `:`.
    pub fn init(issuer: String) -> (r: Result<TotpState, TotpConfigError>)
        ensures
            match r {
                Ok(s) => valid_issuer(issuer@) && s.issuer@ == issuer@,
                Err(e) => !valid_issuer(issuer@) && e == TotpConfigError::IssuerWithColon,
            },
    {
        let n = issuer.as_str().unicode_len();
        let mut i: usize = 0;
        while i < n
            invariant
                i <= n,
                n == issuer@.len(),
                forall|j: int| 0 <= j < i ==> issuer@[j] != ':',
            decreases n - i,
        {
            if issuer.as_str().get_char(i) == ':' {
                assert(issuer@[i as int] == ':');
                return Err(TotpConfigError::IssuerWithColon);
            }
            i += 1;
        }
        Ok(TotpState { issuer })
    }
}

/// Seconds an unfinished passkey or TOTP registration is kept.
pub open spec fn registration_lifetime() -> u64 {
    300
}

/// An unfinished registration started `age` seconds ago is kept while it
/// is younger than five minutes.
pub fn registration_is_live(age: u64) -> (live: bool)
    ensures
        live == (age < registration_lifetime()),
{
    age < 300
}

} // verus!
