//! Points in time as microseconds since the Unix epoch, read from and
//! computed with `chrono`.
use vstd::prelude::*;

verus! {

/// The earliest point in time `chrono` represents, -262143-01-01T00:00:00
/// UTC (`NaiveDate::MIN` at midnight), in microseconds since the epoch.
pub open spec fn earliest_micros() -> int {
    -8_334_601_315_200_000_000
}

/// The latest point in time `chrono` represents, +262142-12-31T23:59:59.999999
/// UTC (`NaiveDate::MAX` at the last microsecond of the day), in
/// microseconds since the epoch.
pub open spec fn latest_micros() -> int {
    8_210_266_876_799_999_999
}

/// A point in time, in microseconds since the epoch, that `chrono` can
/// represent.
pub open spec fn representable(t: int) -> bool {
    earliest_micros() <= t <= latest_micros()
}

/// The current time, read with `chrono::Utc::now`, as microseconds since
/// the Unix epoch. The contract states only that the value is a point in
/// time `chrono` can represent, as every `DateTime<Utc>` is, and not before
/// the epoch: `Utc::now` panics when the system clock reads a time before
/// 1970 (and, in its final `unwrap`, beyond chrono's last year), which no
/// `requires` can rule out since it depends on the machine's clock. Which
/// point it is, is whatever the system clock says.
#[verifier::external_body]
pub(crate) fn now_micros() -> (t: i64)
    ensures
        0 <= t,
        representable(t as int),
{
    chrono::Utc::now().timestamp_micros()
}

/// `at` (microseconds since the epoch) moved by `secs` seconds, as
/// `chrono` computes it: exactly `secs` seconds later when both points can
/// be represented, and nothing otherwise.
pub open spec fn spec_add_seconds(at: i64, secs: i64) -> Option<i64> {
    if representable(at as int) && representable(at + secs * 1_000_000) {
        Some((at + secs * 1_000_000) as i64)
    } else {
        None
    }
}

/// Moves a point in time by a number of seconds with
/// `chrono::DateTime::from_timestamp_micros`,
/// `chrono::DateTime::checked_add_signed` and `chrono::TimeDelta::seconds`.
/// The contract states what `chrono`'s source shows: `from_timestamp_micros`
/// fails exactly outside the range of `NaiveDate`, and adding whole seconds
/// fails exactly when the sum leaves it; otherwise the result lies exactly
/// `secs` seconds from `at`. `TimeDelta::seconds` panics beyond
/// `i64::MAX / 1000` seconds either way, so such amounts are excluded.
#[verifier::external_body]
pub(crate) fn add_seconds(at: i64, secs: i64) -> (r: Option<i64>)
    requires
        -(i64::MAX / 1000) <= secs <= i64::MAX / 1000,
    ensures
        r == spec_add_seconds(at, secs),
{
    match chrono::DateTime::from_timestamp_micros(at) {
        Some(start) => match start.checked_add_signed(chrono::TimeDelta::seconds(secs)) {
            Some(end) => Some(end.timestamp_micros()),
            None => None,
        },
        None => None,
    }
}

/// Whole seconds since the epoch of a point given in microseconds, rounded
/// towards the past, as `chrono`'s `timestamp` gives them.
pub open spec fn whole_seconds(micros: i64) -> int {
    micros as int / 1_000_000
}

/// The whole seconds of a point in time given in microseconds.
pub fn to_seconds(micros: i64) -> (s: i64)
    ensures
        s == whole_seconds(micros),
{
    if micros >= 0 {
        micros / 1_000_000
    } else {
        let m: i64 = -(micros + 1);
        let q: i64 = m / 1_000_000;
        proof {
            let t = micros as int;
            let mi = m as int;
            let qi = q as int;
            assert(0 <= mi - qi * 1_000_000 < 1_000_000);
            assert(t == (-qi - 1) * 1_000_000 + (1_000_000 - (mi - qi * 1_000_000) - 1));
            vstd::arithmetic::div_mod::lemma_fundamental_div_mod_converse(
                t,
                1_000_000,
                -qi - 1,
                1_000_000 - (mi - qi * 1_000_000) - 1,
            );
        }
        -q - 1
    }
}

} // verus!
