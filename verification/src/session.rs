//! Login sessions: when a presented session token is honoured, and how a
//! client learns whether its token is still good and due for renewal.
use crate::clock::{now_micros, representable, to_seconds, whole_seconds};
use vstd::prelude::*;

verus! {

/// The check that a token still belongs to a live session of its user.
pub struct SessionAuth;

/// Why a session token was refused.
#[derive(Debug, Clone, Copy, PartialEq, Eq, Structural)]
pub enum SessionError {
    /// No session holds the token (it was revoked or never issued).
    SessionNotFound,
    /// The session belongs to another user than the token names.
    InvalidToken,
}

impl SessionAuth {
    /// Decides on a token whose claims name user `sub`, given the owner of
    /// the session stored under the token, if any.
    pub fn check_session(&self, session_user: Option<u128>, sub: u128) -> (r: Result<
        (),
        SessionError,
    >)
        ensures
            r == (match session_user {
                None => Err(SessionError::SessionNotFound),
                Some(owner) => if owner == sub {
                    Ok(())
                } else {
                    Err(SessionError::InvalidToken)
                },
            }),
    {
        match session_user {
            None => Err(SessionError::SessionNotFound),
            Some(owner) => if owner == sub {
                Ok(())
            } else {
                Err(SessionError::InvalidToken)
            },
        }
    }
}

/// Whether the caller's token is valid and whether it is due for renewal.
#[derive(Debug, Clone, Copy, PartialEq, Eq, Structural)]
pub struct TestTokenResponse {
    pub valid: bool,
    pub exp_short: bool,
}

/// Half of `x`, rounded towards zero as Rust's integer division rounds.
pub open spec fn half_toward_zero(x: int) -> int {
    if x >= 0 {
        x / 2
    } else {
        -((-x) / 2)
    }
}

/// A token that expires at `exp` (seconds since the epoch) is due for
/// renewal at `now` once at most half of a token lifetime of `lifetime`
/// seconds is left.
pub open spec fn expires_soon(exp: i64, now: i64, lifetime: i64) -> bool {
    exp - now <= half_toward_zero(lifetime as int)
}

/// The answer to a client asking about its token at `now` (seconds since
/// the epoch): without a valid token it is told so; with one, whether the
/// token is due for renewal.
pub fn test_token_response_at(auth_exp: Option<i64>, now: i64, lifetime: i64) -> (r:
    TestTokenResponse)
    ensures
        r == (match auth_exp {
            None => TestTokenResponse { valid: false, exp_short: false },
            Some(exp) => TestTokenResponse { valid: true, exp_short: expires_soon(exp, now, lifetime) },
        }),
{
    match auth_exp {
        None => TestTokenResponse { valid: false, exp_short: false },
        Some(exp) => {
            let left: i128 = exp as i128 - now as i128;
            let half: i64 = lifetime / 2;
            TestTokenResponse { valid: true, exp_short: left <= half as i128 }
        },
    }
}

/// The answer to a client asking about its token now, by the clock: the
/// answer at the whole second the clock reads (some point in time `chrono`
/// can represent). An absent token is reported invalid and not due for
/// renewal.
pub fn test_token_response(auth_exp: Option<i64>, lifetime: i64) -> (r: TestTokenResponse)
    ensures
        exists|now: i64|
            #![trigger representable(now as int)]
            representable(now as int) && r.exp_short == (match auth_exp {
                None => false,
                Some(exp) => expires_soon(exp, whole_seconds(now) as i64, lifetime),
            }),
        r.valid == auth_exp is Some,
        auth_exp is None ==> !r.exp_short,
{
    let micros = now_micros();
    let now = to_seconds(micros);
    let r = test_token_response_at(auth_exp, now, lifetime);
    assert(representable(micros as int) && r.exp_short == (match auth_exp {
        None => false,
        Some(exp) => expires_soon(exp, whole_seconds(micros) as i64, lifetime),
    }));
    r
}

/// A token that is due for renewal stays due as time goes on.
pub proof fn lemma_renewal_due_stays_due(exp: i64, now: i64, later: i64, lifetime: i64)
    requires
        expires_soon(exp, now, lifetime),
        now <= later,
    ensures
        expires_soon(exp, later, lifetime),
{
}

/// Bookkeeping after an invalidated token was recorded: once more than
/// 1000 tokens were recorded since the last purge, the expired records are
/// purged (the result says so) and the count starts again at zero;
/// otherwise the count goes up by one.
pub fn invalidation_counter_step(count: &mut i32) -> (purge: bool)
    ensures
        purge == (*old(count) > 1000),
        *final(count) == (if *old(count) > 1000 {
            0
        } else {
            *old(count) + 1
        }),
{
    if *count > 1000 {
        *count = 0;
        true
    } else {
        *count = *count + 1;
        false
    }
}

} // verus!
