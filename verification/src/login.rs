//! Password sign-in: what a correct or wrong password leads to, and the
//! checks of the password change and of the step-up to special access.
use crate::jwt::{CookieSpec, JwtSpecial, JwtStateOther, JwtType, SameSite};
use vstd::prelude::*;

verus! {

/// Why a password request was refused.
#[derive(Debug, Clone, Copy, PartialEq, Eq, Structural)]
pub enum PasswordError {
    /// The password does not match the stored one.
    InvalidCredentials,
    /// The new password and its confirmation differ.
    PasswordsDiffer,
}

/// What a correct password leads to.
#[derive(Debug, Clone, Copy, PartialEq, Eq, Structural)]
pub enum LoginStep {
    /// The account has a TOTP secret: a token that only allows entering the
    /// TOTP code is issued, and the user stays hidden.
    TotpRequired,
    /// A session is opened for the user.
    Session(u128),
}

/// Signing in user `user` whose stored password hash is `stored`, given
/// the hash of the password sent.
pub fn password_login(stored: &String, sent: &String, user: u128, has_totp: bool) -> (r: Result<
    LoginStep,
    PasswordError,
>)
    ensures
        r == (if sent@ != stored@ {
            Err(PasswordError::InvalidCredentials)
        } else if has_totp {
            Ok(LoginStep::TotpRequired)
        } else {
            Ok(LoginStep::Session(user))
        }),
{
    if *sent != *stored {
        Err(PasswordError::InvalidCredentials)
    } else if has_totp {
        Ok(LoginStep::TotpRequired)
    } else {
        Ok(LoginStep::Session(user))
    }
}

/// The user a sign-in answer names: none while a TOTP code is owed.
pub fn login_user(step: LoginStep) -> (user: Option<u128>)
    ensures
        user == (match step {
            LoginStep::TotpRequired => None,
            LoginStep::Session(id) => Some(id),
        }),
{
    match step {
        LoginStep::TotpRequired => None,
        LoginStep::Session(id) => Some(id),
    }
}

/// A password change needs the password typed twice: the hashes of both
/// must agree.
pub fn confirm_password_change(hash: &String, hash_confirm: &String) -> (r: Result<
    (),
    PasswordError,
>)
    ensures
        r == (if hash@ == hash_confirm@ {
            Ok::<(), PasswordError>(())
        } else {
            Err(PasswordError::PasswordsDiffer)
        }),
{
    if *hash != *hash_confirm {
        Err(PasswordError::PasswordsDiffer)
    } else {
        Ok(())
    }
}

/// The cookies set when the password is confirmed for special access: the
/// special-access token, hidden from scripts, and a `special_valid=true`
/// marker that scripts may read.
pub fn special_access_cookies(
    state: &JwtStateOther,
    stored: &String,
    sent: &String,
    token: String,
) -> (r: Result<(CookieSpec, CookieSpec), PasswordError>)
    ensures
        sent@ != stored@ ==> r == Err::<(CookieSpec, CookieSpec), _>(
            PasswordError::InvalidCredentials,
        ),
        sent@ == stored@ ==> (r matches Ok((token_cookie, marker)) && {
            &&& token_cookie.name@ == JwtSpecial::spec_cookie_name()
            &&& token_cookie.value == token
            &&& token_cookie.http_only
            &&& marker.name@ == "special_valid"@
            &&& marker.value@ == "true"@
            &&& !marker.http_only
            &&& token_cookie.max_age == state.exp && marker.max_age == state.exp
            &&& token_cookie.same_site == SameSite::Lax && marker.same_site == SameSite::Lax
            &&& token_cookie.secure && marker.secure
            &&& token_cookie.path@ == "/"@ && marker.path@ == "/"@
        }),
{
    if *sent != *stored {
        return Err(PasswordError::InvalidCredentials);
    }
    let token_cookie = state.token_cookie::<JwtSpecial>(token);
    let marker = state.create_cookie("special_valid", String::from_str("true"), false);
    Ok((token_cookie, marker))
}

} // verus!
