//! The proleptic-Gregorian calendar arithmetic the queries rest on: the
//! instant a year begins at, and the year an instant falls in.

use vstd::prelude::*;

verus! {

/// Days from 1970-01-01 to the civil date `y-m-d` (proleptic Gregorian),
/// negative for earlier dates. `m` is 1-based, `d` is 1-based; the date is
/// assumed valid. Integer division and remainder round toward negative
/// infinity here (the divisors are positive).
pub open spec fn days_from_civil(y: int, m: int, d: int) -> int {
    let yy = if m <= 2 {
        y - 1
    } else {
        y
    };
    let era = yy / 400;
    let yoe = yy - era * 400;
    let mp = (m + 9) % 12;
    let doy = (153 * mp + 2) / 5 + d - 1;
    let doe = yoe * 365 + yoe / 4 - yoe / 100 + doy;
    era * 146097 + doe - 719468
}

/// Seconds since the epoch at 00:00:00 UTC on January 1 of year `y`.
pub open spec fn year_begin_ts(y: int) -> int {
    86400 * days_from_civil(y, 1, 1)
}

/// Seconds since the epoch at 00:00:00 UTC on December 31 of year `y`.
/// December 31 is the day before January 1 of the next year.
pub open spec fn year_end_ts(y: int) -> int {
    year_begin_ts(y + 1) - 86400
}

/// The year an instant falls in: the inverse of `days_from_civil`, applied to
/// the instant's day number (seconds rounded toward negative infinity).
pub open spec fn year_of_ts(t: int) -> int {
    let days = t / 86400;
    let z = days + 719468;
    let era = z / 146097;
    let doe = z - era * 146097;
    let yoe = (doe - doe / 1460 + doe / 36524 - doe / 146096) / 365;
    let y = yoe + era * 400;
    let doy = doe - (365 * yoe + yoe / 4 - yoe / 100);
    let mp = (5 * doy + 2) / 153;
    let m = if mp < 10 {
        mp + 3
    } else {
        mp - 9
    };
    if m <= 2 {
        y + 1
    } else {
        y
    }
}

/// First year whose January 1 the calendar library can represent.
pub const CHRONO_MIN_YEAR: i32 = -262143;

/// Last year whose December 31 the calendar library can represent.
pub const CHRONO_MAX_YEAR: i32 = 262142;

/// Instants within this bound of the epoch are comfortably inside the
/// range the calendar library accepts (about 262,000 years either way).
pub const SAFE_INSTANT_BOUND: i64 = 8_000_000_000_000;

/// The ISO 8601 week number (Monday-based weeks; week 1 holds the year's
/// first Thursday) of the day the instant falls in. A function of the
/// instant alone; what it is on given values only the calendar library says.
pub uninterp spec fn iso_week_of(t: int) -> int;

/// Relies on chrono's `TimeZone::with_ymd_and_hms` on `Utc` (backed by
/// `NaiveDate::from_ymd_opt`, which succeeds exactly when the year is within
/// chrono's representable range, January 1 and December 31 being valid in
/// every year) and on `DateTime::timestamp`, the proleptic-Gregorian second
/// count since the epoch.
#[verifier::external_body]
pub(crate) fn utc_midnight_instant(y: i32, m: u32, d: u32) -> (r: Option<i64>)
    requires
        (m == 1 && d == 1) || (m == 12 && d == 31),
    ensures
        r is Some <==> CHRONO_MIN_YEAR <= y <= CHRONO_MAX_YEAR,
        (r is Some && m == 1) ==> r->0 == year_begin_ts(y as int),
        (r is Some && m == 12) ==> r->0 == year_end_ts(y as int),
{
    chrono::TimeZone::with_ymd_and_hms(&chrono::Utc, y, m, d, 0, 0, 0).single().map(|dt| {
        dt.timestamp()
    })
}

/// Relies on chrono's `DateTime::from_timestamp` (succeeds on every instant
/// within the representable range, which contains the safe bound) and
/// `Datelike::year`: the returned year contains the instant, so it is the
/// proleptic-Gregorian year of the instant's civil date.
#[verifier::external_body]
pub(crate) fn utc_year_of_instant(t: i64) -> (r: Option<i32>)
    ensures
        -SAFE_INSTANT_BOUND <= t <= SAFE_INSTANT_BOUND ==> r is Some,
        r is Some ==> {
            &&& r->0 == year_of_ts(t as int)
            &&& CHRONO_MIN_YEAR <= r->0 <= CHRONO_MAX_YEAR
            &&& year_begin_ts(r->0 as int) <= t < year_begin_ts(r->0 + 1)
        },
{
    chrono::DateTime::from_timestamp(t, 0).map(|dt| chrono::Datelike::year(&dt))
}

/// Relies on chrono's `DateTime::from_timestamp` (succeeds on every instant
/// within the representable range, which contains the safe bound) and
/// `Datelike::iso_week` with `IsoWeek::week`, whose result is between 1 and
/// 53 and depends on the instant alone.
#[verifier::external_body]
pub(crate) fn utc_iso_week_of_instant(t: i64) -> (r: Option<u32>)
    ensures
        -SAFE_INSTANT_BOUND <= t <= SAFE_INSTANT_BOUND ==> r is Some,
        r is Some ==> r->0 == iso_week_of(t as int) && 1 <= r->0 <= 53,
{
    chrono::DateTime::from_timestamp(t, 0).map(|dt| chrono::Datelike::iso_week(&dt).week())
}

} // verus!

