use crate::clock::{add_seconds, now_micros, representable, spec_add_seconds, to_seconds, whole_seconds};
use vstd::prelude::*;

verus! {

/// A kind of short-lived token that travels in a cookie of its own.
pub trait JwtType: Sized + Default {
    /// The name of the cookie that carries tokens of this kind.
    spec fn spec_cookie_name() -> Seq<char>;

    /// The name of the cookie that carries tokens of this kind.
    fn cookie_name() -> (name: &'static str)
        ensures
            name@ == Self::spec_cookie_name(),
    ;
}

/// Token that grants access to sensitive account operations.
#[derive(Clone, Copy, Debug, PartialEq, Eq, Default)]
pub enum JwtSpecial {
    #[default]
    Special,
}

/// Token issued after a correct password when a TOTP code is still owed.
#[derive(Clone, Copy, Debug, PartialEq, Eq, Default)]
pub enum JwtTotpRequired {
    #[default]
    TotpRequired,
}

impl JwtType for JwtSpecial {
    open spec fn spec_cookie_name() -> Seq<char> {
        "special"@
    }

    fn cookie_name() -> (name: &'static str) {
        "special"
    }
}

impl JwtType for JwtTotpRequired {
    open spec fn spec_cookie_name() -> Seq<char> {
        "totp_required"@
    }

    fn cookie_name() -> (name: &'static str) {
        "totp_required"
    }
}

/// The claims of a token: expiry (seconds since the epoch), issuer, the
/// user it was issued to, and its kind.
pub struct JwtClaims<T: JwtType> {
    pub exp: i64,
    pub iss: String,
    pub sub: u128,
    pub type_: T,
}

/// How a browser may send a cookie along with cross-site requests.
#[derive(Debug, Clone, Copy, PartialEq, Eq, Structural)]
pub enum SameSite {
    /// Never along with requests from other sites.
    Strict,
    /// Along with top-level navigations from other sites.
    Lax,
    /// Along with every request (the `None` attribute value).
    Unrestricted,
}

/// A cookie to set: its name and value and the attributes it carries.
pub struct CookieSpec {
    pub name: String,
    pub value: String,
    pub http_only: bool,
    /// Seconds the browser keeps the cookie.
    pub max_age: i64,
    pub same_site: SameSite,
    pub secure: bool,
    pub path: String,
}

/// The parts of the short-lived token setup that decide what tokens and
/// cookies hold: the issuer, the lifetime in seconds and the key id. The
/// keys themselves sign and check tokens outside this type.
pub struct JwtStateOther {
    pub iss: String,
    pub exp: i64,
    pub kid: String,
}

impl JwtStateOther {
    /// The lifetime every short-lived token gets, in seconds.
    pub open spec fn lifetime() -> i64 {
        300
    }

    /// The setup for the given issuer and key id, with tokens that live five
    /// minutes.
    pub fn new(iss: String, kid: String) -> (s: Self)
        ensures
            s.iss == iss,
            s.kid == kid,
            s.exp == Self::lifetime(),
    {
        JwtStateOther { iss, exp: 300, kid }
    }

    /// The claims of a token of kind `T` for user `sub` issued at `now`
    /// (microseconds since the epoch): it expires `exp` seconds later, in
    /// whole seconds; `None` when that instant cannot be represented.
    pub fn claims_at<T: JwtType>(&self, sub: u128, now: i64) -> (r: Option<JwtClaims<T>>)
        requires
            -(i64::MAX / 1000) <= self.exp <= i64::MAX / 1000,
        ensures
            match r {
                Some(c) => spec_add_seconds(now, self.exp) matches Some(t) && c.exp == whole_seconds(t)
                    && c.iss == self.iss && c.sub == sub,
                None => spec_add_seconds(now, self.exp) is None,
            },
            r matches Some(c) ==> c.exp == (now + self.exp * 1_000_000) / 1_000_000,
            representable(now as int) && representable(now + self.exp * 1_000_000) ==> r is Some,
            r matches Some(c) ==> representable(now + self.exp * 1_000_000),
    {
        match add_seconds(now, self.exp) {
            Some(t) => Some(
                JwtClaims { exp: to_seconds(t), iss: self.iss.clone(), sub, type_: T::default() },
            ),
            None => None,
        }
    }

    /// The claims of a token of kind `T` for user `sub` issued now, by the
    /// clock: at the instant the clock reads (some point in time `chrono`
    /// can represent), the token expires `exp` seconds later, in whole
    /// seconds; there is no result exactly when that expiry cannot be
    /// represented.
    pub fn claims<T: JwtType>(&self, sub: u128) -> (r: Option<JwtClaims<T>>)
        requires
            -(i64::MAX / 1000) <= self.exp <= i64::MAX / 1000,
        ensures
            exists|now: i64|
                #![trigger representable(now as int)]
                representable(now as int) && (r is Some <==> representable(
                    now + self.exp * 1_000_000,
                )) && (r matches Some(c) ==> c.exp == (now + self.exp * 1_000_000) / 1_000_000),
            r matches Some(c) ==> c.iss == self.iss && c.sub == sub,
    {
        let now = now_micros();
        let r = self.claims_at(sub, now);
        assert(representable(now as int) && (r is Some <==> representable(
            now + self.exp * 1_000_000,
        )) && (r matches Some(c) ==> c.exp == (now + self.exp * 1_000_000) / 1_000_000));
        r
    }

    /// The cookie that carries a token: kept for the token's lifetime, sent
    /// only over HTTPS, on every path, along with top-level navigations from
    /// other sites, and hidden from scripts when `http_only` is set.
    pub fn create_cookie(&self, name: &str, value: String, http_only: bool) -> (c: CookieSpec)
        ensures
            c.name@ == name@,
            c.value == value,
            c.http_only == http_only,
            c.max_age == self.exp,
            c.same_site == SameSite::Lax,
            c.secure,
            c.path@ == "/"@,
    {
        CookieSpec {
            name: String::from_str(name),
            value,
            http_only,
            max_age: self.exp,
            same_site: SameSite::Lax,
            secure: true,
            path: String::from_str("/"),
        }
    }

    /// The cookie for a freshly signed token of kind `T`: named after the
    /// kind and hidden from scripts.
    pub fn token_cookie<T: JwtType>(&self, token: String) -> (c: CookieSpec)
        ensures
            c.name@ == T::spec_cookie_name(),
            c.value == token,
            c.http_only,
            c.max_age == self.exp,
            c.same_site == SameSite::Lax,
            c.secure,
            c.path@ == "/"@,
    {
        self.create_cookie(T::cookie_name(), token, true)
    }
}

} // verus!
