//! Time as the library sees it: whole milliseconds since the Unix epoch, read
//! from the system clock at the edge and passed on as plain integers.

use vstd::prelude::*;

verus! {

pub const MILLIS_PER_MINUTE: i64 = 60_000;

pub const MILLIS_PER_DAY: i64 = 86_400_000;

/// Reads the wall clock through `chrono::Utc::now` and
/// `DateTime::timestamp_millis`. Trusted: the reading is not before the Unix
/// epoch, which is all that holds of every reading (`Utc::now` refuses a
/// system time before the epoch).
#[verifier::external_body]
pub(crate) fn now_millis() -> (r: i64)
    ensures
        r >= 0,
{
    chrono::Utc::now().timestamp_millis()
}

/// `a / b` rounded toward negative infinity, for a positive `b`.
pub open spec fn div_floor(a: int, b: int) -> int {
    a / b
}

/// `a / b` rounded toward zero, for a positive `b`.
pub open spec fn div_trunc(a: int, b: int) -> int {
    if a >= 0 {
        a / b
    } else {
        -((-a) / b)
    }
}

/// Number of the UTC day that holds the instant `ms`, counted from the epoch.
pub open spec fn day_of(ms: int) -> int {
    div_floor(ms, MILLIS_PER_DAY as int)
}

/// Whole days in a span of `ms` milliseconds, rounded toward zero, as a
/// duration counts its days.
pub open spec fn whole_days(ms: int) -> int {
    div_trunc(ms, MILLIS_PER_DAY as int)
}

/// The UTC day that holds `ms`.
pub fn day_index(ms: i64) -> (r: i64)
    ensures
        r == day_of(ms as int),
{
    let q: i64 = ms / MILLIS_PER_DAY;
    let m: i64 = ms % MILLIS_PER_DAY;
    if m < 0 {
        q - 1
    } else {
        q
    }
}

/// Whole days between `from` and `to`, rounded toward zero; negative when
/// `to` lies before `from`.
pub fn days_between(from: i64, to: i64) -> (r: i64)
    ensures
        r == whole_days(to - from),
{
    let span: i128 = to as i128 - from as i128;
    let q: i128 = span / (MILLIS_PER_DAY as i128);
    q as i64
}

/// `at` moved by `days` whole days, or `None` when the result leaves the
/// range of the machine word.
pub fn add_days(at: i64, days: i64) -> (r: Option<i64>)
    ensures
        r matches Some(t) ==> t == at + days * MILLIS_PER_DAY,
        r is None <==> !(i64::MIN <= at + days * MILLIS_PER_DAY <= i64::MAX),
{
    let span: i128 = (days as i128) * 86_400_000;
    let wide: i128 = at as i128 + span;
    if wide < i64::MIN as i128 || wide > i64::MAX as i128 {
        None
    } else {
        Some(wide as i64)
    }
}

} // verus!
