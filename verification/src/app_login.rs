//! Login codes of the desktop and mobile app. A signed-in browser asks for a
//! code bound to a PKCE challenge, and the app redeems it with the
//! verifier; a device that shows a QR code gets an approved code once a
//! signed-in user approves it. Codes live in concurrent maps and are swept
//! after ten minutes.
use crate::pkce::{exchange_code, retrieve_token, spec_pkce_challenge, AppCodeError, PendingCode};
use dashmap::DashMap;
use vstd::prelude::*;
use vstd::string::StringSliceAdditionalSpecFns;

verus! {

#[verifier::external_type_specification]
#[verifier::external_body]
#[verifier::reject_recursive_types(K)]
#[verifier::reject_recursive_types(V)]
#[verifier::reject_recursive_types(S)]
pub struct ExDashMap<K, V, S>(DashMap<K, V, S>);

/// A stored code: the user it stands for, the PKCE challenge it is bound
/// to, and when it was stored (microseconds on the caller's monotonic
/// clock).
pub type CodeEntry = (u128, String, u64);

/// A concurrent map from codes to their entries.
pub type CodeMap = DashMap<u128, CodeEntry>;

/// What a map of codes holds: for each code, its user, challenge and time.
pub uninterp spec fn code_entries(m: DashMap<u128, CodeEntry>) -> Map<u128, (u128, Seq<char>, u64)>;

/// An empty map from `dashmap::DashMap::new`.
#[verifier::external_body]
fn codes_new() -> (fresh: CodeMap)
    ensures
        code_entries(fresh) =~= Map::empty(),
{
    DashMap::new()
}

/// `DashMap::insert`: the code now maps to `entry`, replacing any earlier
/// entry; the other codes are untouched.
#[verifier::external_body]
fn codes_insert(m: &mut DashMap<u128, CodeEntry>, code: u128, entry: CodeEntry)
    ensures
        code_entries(*final(m)) == code_entries(*old(m)).insert(code, (entry.0, entry.1@, entry.2)),
{
    m.insert(code, entry);
}

/// `DashMap::get`, handing out a copy of the user and challenge of the
/// code's entry.
#[verifier::external_body]
fn codes_get(m: &DashMap<u128, CodeEntry>, code: u128) -> (r: Option<(u128, String)>)
    ensures
        match r {
            Some((user, challenge)) => code_entries(*m).contains_key(code) && code_entries(
                *m,
            )[code].0 == user && code_entries(*m)[code].1 == challenge@,
            None => !code_entries(*m).contains_key(code),
        },
{
    match m.get(&code) {
        Some(e) => Some((e.value().0, e.value().1.clone())),
        None => None,
    }
}

/// `DashMap::remove`: the code no longer maps to anything; the other codes
/// are untouched.
#[verifier::external_body]
fn codes_remove(m: &mut DashMap<u128, CodeEntry>, code: u128)
    ensures
        code_entries(*final(m)) == code_entries(*old(m)).remove(code),
{
    m.remove(&code);
}

/// `DashMap::retain` with `code_is_live` at `now`: exactly the entries
/// stored less than ten minutes before `now` remain, unchanged.
#[verifier::external_body]
fn codes_retain_live(m: &mut DashMap<u128, CodeEntry>, now: u64)
    ensures
        forall|c: u128|
            code_entries(*final(m)).contains_key(c) <==> (code_entries(*old(m)).contains_key(c)
                && spec_code_is_live(code_entries(*old(m))[c].2, now)),
        forall|c: u128|
            code_entries(*final(m)).contains_key(c) ==> code_entries(*final(m))[c] == code_entries(
                *old(m),
            )[c],
{
    m.retain(|_, e| code_is_live(e.2, now));
}

/// How long a code stays redeemable: ten minutes, in microseconds.
pub open spec fn code_lifetime() -> u64 {
    600_000_000
}

/// A code stored at `created` is still live at `now` when less than ten
/// minutes have passed (a clock reading before `created` counts as no
/// time at all).
pub open spec fn spec_code_is_live(created: u64, now: u64) -> bool {
    (if now >= created {
        now - created
    } else {
        0
    }) < code_lifetime()
}

/// Whether a code stored at `created` is still live at `now`.
pub fn code_is_live(created: u64, now: u64) -> (live: bool)
    ensures
        live == spec_code_is_live(created, now),
{
    let age = if now >= created {
        now - created
    } else {
        0
    };
    age < 600_000_000
}

/// The codes of app logins: those requested by signed-in browsers and
/// those approved for devices.
pub struct AppState {
    codes: DashMap<u128, CodeEntry>,
    approved_codes: DashMap<u128, CodeEntry>,
}

/// Redeeming a code of `codes` with `verifier`: the code must exist and the
/// verifier must hash to its challenge.
pub open spec fn spec_check_code(
    codes: Map<u128, (u128, Seq<char>, u64)>,
    code: u128,
    verifier: Seq<char>,
) -> Result<u128, AppCodeError> {
    if !codes.contains_key(code) {
        Err(AppCodeError::InvalidCode)
    } else if codes[code].1 == spec_pkce_challenge(verifier) {
        Ok(codes[code].0)
    } else {
        Err(AppCodeError::InvalidVerifier)
    }
}

/// Redeeming an approved code of `codes` with a verifier of `verifier_len`
/// bytes: the code must exist, the verifier must be 64 bytes long and hash
/// to the challenge.
pub open spec fn spec_check_approved(
    codes: Map<u128, (u128, Seq<char>, u64)>,
    code: u128,
    verifier: Seq<char>,
    verifier_len: nat,
) -> Result<u128, AppCodeError> {
    if !codes.contains_key(code) {
        Err(AppCodeError::AuthCodeNotFound)
    } else if verifier_len != 64 {
        Err(AppCodeError::InvalidVerifierLength)
    } else if codes[code].1 == spec_pkce_challenge(verifier) {
        Ok(codes[code].0)
    } else {
        Err(AppCodeError::InvalidVerifier)
    }
}

impl AppState {
    /// The codes requested by signed-in browsers.
    pub closed spec fn codes(&self) -> Map<u128, (u128, Seq<char>, u64)> {
        code_entries(self.codes)
    }

    /// The codes approved for devices.
    pub closed spec fn approved(&self) -> Map<u128, (u128, Seq<char>, u64)> {
        code_entries(self.approved_codes)
    }

    /// No codes at all.
    pub fn init() -> (s: Self)
        ensures
            s.codes() == Map::<u128, (u128, Seq<char>, u64)>::empty(),
            s.approved() == Map::<u128, (u128, Seq<char>, u64)>::empty(),
    {
        AppState { codes: codes_new(), approved_codes: codes_new() }
    }

    /// Stores `code` for `user`, bound to `challenge`, at time `now`.
    pub fn request_code(&mut self, code: u128, user: u128, challenge: String, now: u64)
        ensures
            final(self).codes() == old(self).codes().insert(code, (user, challenge@, now)),
            final(self).approved() == old(self).approved(),
    {
        codes_insert(&mut self.codes, code, (user, challenge, now));
    }

    /// Checks a requested code against `verifier` without using it up: the
    /// user it stands for, or why it cannot be redeemed.
    pub fn check_code(&self, code: u128, verifier: &str) -> (r: Result<u128, AppCodeError>)
        ensures
            r == spec_check_code(self.codes(), code, verifier@),
    {
        match codes_get(&self.codes, code) {
            Some((user, challenge)) => {
                let entry = PendingCode { user, challenge };
                exchange_code(Some(&entry), verifier)
            },
            None => exchange_code(None, verifier),
        }
    }

    /// Uses a requested code up.
    pub fn consume_code(&mut self, code: u128)
        ensures
            final(self).codes() == old(self).codes().remove(code),
            final(self).approved() == old(self).approved(),
    {
        codes_remove(&mut self.codes, code);
    }

    /// Stores `auth_code`, approved by `user` for a device that presented
    /// `challenge`, at time `now`.
    pub fn approve(&mut self, auth_code: u128, user: u128, challenge: String, now: u64)
        ensures
            final(self).approved() == old(self).approved().insert(auth_code, (user, challenge@, now)),
            final(self).codes() == old(self).codes(),
    {
        codes_insert(&mut self.approved_codes, auth_code, (user, challenge, now));
    }

    /// Checks an approved code against `verifier` without using it up.
    pub fn check_approved(&self, auth_code: u128, verifier: &str) -> (r: Result<u128, AppCodeError>)
        ensures
            r == spec_check_approved(
                self.approved(),
                auth_code,
                verifier@,
                verifier.spec_bytes().len(),
            ),
    {
        match codes_get(&self.approved_codes, auth_code) {
            Some((user, challenge)) => {
                let entry = PendingCode { user, challenge };
                retrieve_token(Some(&entry), verifier)
            },
            None => retrieve_token(None, verifier),
        }
    }

    /// Uses an approved code up.
    pub fn consume_approved(&mut self, auth_code: u128)
        ensures
            final(self).approved() == old(self).approved().remove(auth_code),
            final(self).codes() == old(self).codes(),
    {
        codes_remove(&mut self.approved_codes, auth_code);
    }

    /// Redeems a requested code: the result is the check of `code` against
    /// `verifier`; the code is used up exactly when the check succeeded and
    /// the session token for its user was made (`token_made`), and is kept
    /// otherwise.
    pub fn finish_exchange(&mut self, code: u128, verifier: &str, token_made: bool) -> (r: Result<
        u128,
        AppCodeError,
    >)
        ensures
            r == spec_check_code(old(self).codes(), code, verifier@),
            final(self).codes() == (if r is Ok && token_made {
                old(self).codes().remove(code)
            } else {
                old(self).codes()
            }),
            final(self).approved() == old(self).approved(),
    {
        let r = self.check_code(code, verifier);
        if r.is_ok() && token_made {
            self.consume_code(code);
        }
        r
    }

    /// Redeems an approved code: the result is the check of `auth_code`
    /// against `verifier`; the code is used up exactly when the check
    /// succeeded and the session token was made, and is kept otherwise.
    pub fn finish_retrieve(&mut self, auth_code: u128, verifier: &str, token_made: bool) -> (r:
        Result<u128, AppCodeError>)
        ensures
            r == spec_check_approved(
                old(self).approved(),
                auth_code,
                verifier@,
                verifier.spec_bytes().len(),
            ),
            final(self).approved() == (if r is Ok && token_made {
                old(self).approved().remove(auth_code)
            } else {
                old(self).approved()
            }),
            final(self).codes() == old(self).codes(),
    {
        let r = self.check_approved(auth_code, verifier);
        if r.is_ok() && token_made {
            self.consume_approved(auth_code);
        }
        r
    }

    /// Drops every code of either kind stored ten minutes or more before
    /// `now`; the others stay as they are.
    pub fn sweep(&mut self, now: u64)
        ensures
            forall|c: u128|
                final(self).codes().contains_key(c) <==> (old(self).codes().contains_key(c)
                    && spec_code_is_live(old(self).codes()[c].2, now)),
            forall|c: u128|
                final(self).codes().contains_key(c) ==> final(self).codes()[c] == old(
                    self,
                ).codes()[c],
            forall|c: u128|
                final(self).approved().contains_key(c) <==> (old(self).approved().contains_key(c)
                    && spec_code_is_live(old(self).approved()[c].2, now)),
            forall|c: u128|
                final(self).approved().contains_key(c) ==> final(self).approved()[c] == old(
                    self,
                ).approved()[c],
    {
        codes_retain_live(&mut self.codes, now);
        codes_retain_live(&mut self.approved_codes, now);
    }
}

/// A code stored for `user` with the challenge of `verifier` redeems, with
/// that verifier, to `user`, whatever other codes exist.
pub proof fn lemma_requested_code_redeems(
    codes: Map<u128, (u128, Seq<char>, u64)>,
    code: u128,
    user: u128,
    verifier: Seq<char>,
    now: u64,
)
    ensures
        spec_check_code(codes.insert(code, (user, spec_pkce_challenge(verifier), now)), code, verifier)
            == Ok::<u128, AppCodeError>(user),
{
}

/// A code that was used up cannot be redeemed again.
pub proof fn lemma_consumed_code_is_gone(
    codes: Map<u128, (u128, Seq<char>, u64)>,
    code: u128,
    verifier: Seq<char>,
)
    ensures
        spec_check_code(codes.remove(code), code, verifier) == Err::<u128, AppCodeError>(
            AppCodeError::InvalidCode,
        ),
{
}

/// Storing or using up one code changes nothing for any other code.
pub proof fn lemma_other_codes_unaffected(
    codes: Map<u128, (u128, Seq<char>, u64)>,
    code: u128,
    entry: (u128, Seq<char>, u64),
    other: u128,
    verifier: Seq<char>,
)
    requires
        other != code,
    ensures
        spec_check_code(codes.insert(code, entry), other, verifier) == spec_check_code(
            codes,
            other,
            verifier,
        ),
        spec_check_code(codes.remove(code), other, verifier) == spec_check_code(
            codes,
            other,
            verifier,
        ),
{
}

/// A code approved for a device that presented the challenge of a 64-byte
/// `verifier` redeems, with that verifier, to the approving user; once used
/// up it is gone.
pub proof fn lemma_approved_code_redeems(
    codes: Map<u128, (u128, Seq<char>, u64)>,
    code: u128,
    user: u128,
    verifier: Seq<char>,
    now: u64,
)
    ensures
        spec_check_approved(
            codes.insert(code, (user, spec_pkce_challenge(verifier), now)),
            code,
            verifier,
            64,
        ) == Ok::<u128, AppCodeError>(user),
        spec_check_approved(codes.remove(code), code, verifier, 64) == Err::<u128, AppCodeError>(
            AppCodeError::AuthCodeNotFound,
        ),
{
}

/// A code stored at `created` survives the sweeps made before ten minutes
/// have passed and is dropped by any sweep after that.
pub proof fn lemma_code_expiry(created: u64, now: u64)
    requires
        now >= created,
    ensures
        spec_code_is_live(created, now) <==> now - created < 600_000_000,
{
}

} // verus!
