use vstd::prelude::*;
use chrono::NaiveDate;

verus! {

/// The largest whole number of seconds a chrono `TimeDelta` holds:
/// `i64::MAX / 1000`, and the same below zero.
pub open spec fn max_delta_secs() -> int {
    9223372036854775
}

/// The timestamp of the first moment chrono can represent: midnight UTC on
/// January 1 of the year -262143.
pub open spec fn min_timestamp() -> int {
    -8334601228800
}

/// The timestamp of the last whole second chrono can represent: 23:59:59 UTC
/// on December 31 of the year 262142.
pub open spec fn max_timestamp() -> int {
    8210266876799
}

/// Whether `year` is a leap year of the proleptic Gregorian calendar.
pub open spec fn is_leap_year(year: int) -> bool {
    year % 4 == 0 && (year % 100 != 0 || year % 400 == 0)
}

/// The number of days in `month` of `year`.
pub open spec fn days_in_month(year: int, month: int) -> int {
    if month == 2 {
        if is_leap_year(year) {
            29
        } else {
            28
        }
    } else if month == 4 || month == 6 || month == 9 || month == 11 {
        30
    } else {
        31
    }
}

/// Whether chrono has the given day: the year lies in its range,
/// -262143 to 262142, and the month and day exist.
pub open spec fn date_exists(year: int, month: int, day: int) -> bool {
    &&& -262143 <= year <= 262142
    &&& 1 <= month <= 12
    &&& 1 <= day <= days_in_month(year, month)
}

/// The number of days from 1970-01-01 to the given day of the proleptic
/// Gregorian calendar, counted in 400-year eras from March 1 of year 0.
pub open spec fn days_from_epoch(year: int, month: int, day: int) -> int {
    let y = if month <= 2 {
        year - 1
    } else {
        year
    };
    let era = y / 400;
    let yoe = y - era * 400;
    let mp = (month + 9) % 12;
    let doy = (153 * mp + 2) / 5 + day - 1;
    let doe = yoe * 365 + yoe / 4 - yoe / 100 + doy;
    era * 146097 + doe - 719468
}

/// The timestamp, in seconds since 1970-01-01 00:00:00 UTC, of midnight at
/// the start of the given day; `None` when chrono has no such day.
pub open spec fn midnight_timestamp(year: i32, month: u32, day: u32) -> Option<int> {
    if date_exists(year as int, month as int, day as int) {
        Some(days_from_epoch(year as int, month as int, day as int) * 86400)
    } else {
        None
    }
}

/// Calls `NaiveDate::from_ymd_opt`, then `and_hms_opt(0, 0, 0)`,
/// `and_utc` and `timestamp`. The claim: chrono has the day exactly when
/// its year is in chrono's range and the month and day exist in the
/// proleptic Gregorian calendar, and the result is then midnight of that
/// day in seconds since the epoch, which lies between chrono's first and
/// last representable moments.
#[verifier::external_body]
fn date_midnight_timestamp(year: i32, month: u32, day: u32) -> (r: Option<i64>)
    ensures
        match r {
            Some(t) => midnight_timestamp(year, month, day) == Some(t as int),
            None => midnight_timestamp(year, month, day) is None,
        },
        r matches Some(t) ==> min_timestamp() <= t <= max_timestamp() - 86399,
{
    match NaiveDate::from_ymd_opt(year, month, day) {
        Some(d) => match d.and_hms_opt(0, 0, 0) {
            Some(dt) => Some(dt.and_utc().timestamp()),
            None => None,
        },
        None => None,
    }
}

/// Why `os.time` refused a date.
#[derive(Debug, Clone, Copy, PartialEq, Eq, Structural)]
pub enum DateError {
    /// No such day.
    InvalidDate,
}

/// The hour a date table means when it gives none: noon.
pub open spec fn hour_or_default(hour: Option<i64>) -> int {
    match hour {
        Some(h) => h as int,
        None => 12,
    }
}

/// A minute or second a date table means when it gives none: zero.
pub open spec fn or_zero(v: Option<i64>) -> int {
    match v {
        Some(x) => x as int,
        None => 0,
    }
}

/// Whether chrono can build the offset `hour` hours, then add `min`
/// minutes, then `sec` seconds, each step within the range of a
/// `TimeDelta`.
pub open spec fn offset_in_bounds(hour: int, min: int, sec: int) -> bool {
    let m = max_delta_secs();
    &&& -m <= hour * 3600 <= m
    &&& -m <= min * 60 <= m
    &&& -m <= sec <= m
    &&& -m <= hour * 3600 + min * 60 <= m
    &&& -m <= hour * 3600 + min * 60 + sec <= m
}

/// Whether computing `os.time` for these fields stays within what chrono
/// can represent: always when there is no such day (that is reported
/// first); otherwise when the offset and the resulting moment are in range.
pub open spec fn os_time_in_range(
    year: i32,
    month: u32,
    day: u32,
    hour: Option<i64>,
    min: Option<i64>,
    sec: Option<i64>,
) -> bool {
    let (h, mi, s) = (hour_or_default(hour), or_zero(min), or_zero(sec));
    match midnight_timestamp(year, month, day) {
        None => true,
        Some(b) => offset_in_bounds(h, mi, s) && min_timestamp() <= b + h * 3600 + mi * 60 + s
            <= max_timestamp(),
    }
}

/// What `os.time` gives for a date table: midnight of the day, plus the
/// hour (noon when not given), minutes and seconds (zero when not given),
/// as seconds since the epoch, UTC.
pub open spec fn os_time_of(
    year: i32,
    month: u32,
    day: u32,
    hour: Option<i64>,
    min: Option<i64>,
    sec: Option<i64>,
) -> Result<int, DateError> {
    match midnight_timestamp(year, month, day) {
        None => Err(DateError::InvalidDate),
        Some(b) => Ok(b + hour_or_default(hour) * 3600 + or_zero(min) * 60 + or_zero(sec)),
    }
}

/// The timestamp `os.time` gives for a date table with the given fields.
pub fn os_time(
    year: i32,
    month: u32,
    day: u32,
    hour: Option<i64>,
    min: Option<i64>,
    sec: Option<i64>,
) -> (r: Result<i64, DateError>)
    requires
        os_time_in_range(year, month, day, hour, min, sec),
    ensures
        match (r, os_time_of(year, month, day, hour, min, sec)) {
            (Ok(t), Ok(u)) => t == u,
            (Err(e), Err(f)) => e == f,
            _ => false,
        },
{
    let base = match date_midnight_timestamp(year, month, day) {
        Some(b) => b,
        None => {
            return Err(DateError::InvalidDate);
        },
    };
    let h: i64 = match hour {
        Some(x) => x,
        None => 12,
    };
    let mi: i64 = match min {
        Some(x) => x,
        None => 0,
    };
    let s: i64 = match sec {
        Some(x) => x,
        None => 0,
    };
    assert(offset_in_bounds(h as int, mi as int, s as int));
    let offset = h * 3600 + mi * 60 + s;
    Ok(base + offset)
}

/// The timestamp `os.time` gives for a date table, or `None` where the
/// offset or the resulting moment lies outside what chrono can represent.
pub fn os_time_checked(
    year: i32,
    month: u32,
    day: u32,
    hour: Option<i64>,
    min: Option<i64>,
    sec: Option<i64>,
) -> (r: Option<Result<i64, DateError>>)
    ensures
        r is None <==> !os_time_in_range(year, month, day, hour, min, sec),
        r matches Some(res) ==> match (res, os_time_of(year, month, day, hour, min, sec)) {
            (Ok(t), Ok(u)) => t == u,
            (Err(e), Err(f)) => e == f,
            _ => false,
        },
{
    let base = match date_midnight_timestamp(year, month, day) {
        Some(b) => b,
        None => {
            return Some(os_time(year, month, day, hour, min, sec));
        },
    };
    let h: i128 = match hour {
        Some(x) => x as i128,
        None => 12,
    };
    let mi: i128 = match min {
        Some(x) => x as i128,
        None => 0,
    };
    let s: i128 = match sec {
        Some(x) => x as i128,
        None => 0,
    };
    let m: i128 = 9223372036854775;
    let hs = h * 3600;
    let ms = mi * 60;
    let hm = hs + ms;
    let total = hm + s;
    let end = base as i128 + total;
    if -m <= hs && hs <= m && -m <= ms && ms <= m && -m <= s && s <= m && -m <= hm && hm <= m
        && -m <= total && total <= m && -8334601228800 <= end && end <= 8210266876799 {
        Some(os_time(year, month, day, hour, min, sec))
    } else {
        None
    }
}

} // verus!
