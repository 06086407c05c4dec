use chrono::{Duration, NaiveDate};
use fool_engine::ostime::{os_time, os_time_checked, DateError};

fn chrono_time(y: i32, mo: u32, d: u32, h: i64, mi: i64, s: i64) -> Option<i64> {
    let base = NaiveDate::from_ymd_opt(y, mo, d)?.and_hms_opt(0, 0, 0)?;
    Some((base + (Duration::hours(h) + Duration::minutes(mi) + Duration::seconds(s))).and_utc().timestamp())
}

#[test]
fn os_time_defaults_to_noon() {
    assert_eq!(os_time(1970, 1, 1, None, None, None), Ok(12 * 3600));
    assert_eq!(os_time(1970, 1, 2, Some(0), None, None), Ok(86400));
    assert_eq!(os_time(2024, 2, 29, Some(1), Some(2), Some(3)), Ok(1709168523));
}

#[test]
fn os_time_matches_chrono() {
    let cases = [
        (2000, 1, 1, 0, 0, 0),
        (1999, 12, 31, 23, 59, 59),
        (1969, 7, 20, 20, 17, 40),
        (-500, 3, 1, 12, 0, 0),
        (2024, 2, 29, -30, 125, -7),
        (262142, 12, 31, 23, 59, 59),
        (-262143, 1, 1, 0, 0, 0),
    ];
    for (y, mo, d, h, mi, s) in cases {
        let ours = os_time_checked(y, mo, d, Some(h), Some(mi), Some(s));
        assert_eq!(ours, Some(Ok(chrono_time(y, mo, d, h, mi, s).unwrap())), "{} {} {}", y, mo, d);
    }
}

#[test]
fn os_time_invalid_dates() {
    assert_eq!(os_time(2023, 2, 29, None, None, None), Err(DateError::InvalidDate));
    assert_eq!(os_time(2023, 13, 1, None, None, None), Err(DateError::InvalidDate));
    assert_eq!(os_time(2023, 1, 0, None, None, None), Err(DateError::InvalidDate));
    // an invalid date is reported before the offset is looked at
    assert_eq!(os_time_checked(2023, 4, 31, Some(i64::MAX), None, None), Some(Err(DateError::InvalidDate)));
}

#[test]
fn os_time_out_of_range_is_refused() {
    assert_eq!(os_time_checked(2000, 1, 1, Some(i64::MAX), None, None), None);
    assert_eq!(os_time_checked(262142, 12, 31, Some(24), None, None), None);
    assert_eq!(os_time_checked(-262143, 1, 1, Some(0), None, Some(-1)), None);
}

#[test]
fn representable_range_matches_chrono() {
    let min = NaiveDate::MIN.and_hms_opt(0, 0, 0).unwrap().and_utc().timestamp();
    let max = NaiveDate::MAX.and_hms_opt(23, 59, 59).unwrap().and_utc().timestamp();
    assert_eq!(min, -8334601228800);
    assert_eq!(max, 8210266876799);
    assert_eq!(Duration::MAX.num_seconds(), 9223372036854775);
}

fn leap(y: i64) -> bool {
    y.rem_euclid(4) == 0 && (y.rem_euclid(100) != 0 || y.rem_euclid(400) == 0)
}

fn days_in_month(y: i64, m: i64) -> i64 {
    match m {
        2 => if leap(y) { 29 } else { 28 },
        4 | 6 | 9 | 11 => 30,
        _ => 31,
    }
}

fn midnight(y: i64, m: i64, d: i64) -> Option<i64> {
    if !(-262143 <= y && y <= 262142 && 1 <= m && m <= 12 && 1 <= d && d <= days_in_month(y, m)) {
        return None;
    }
    let yy = if m <= 2 { y - 1 } else { y };
    let era = yy.div_euclid(400);
    let yoe = yy - era * 400;
    let mp = (m + 9).rem_euclid(12);
    let doy = (153 * mp + 2) / 5 + d - 1;
    let doe = yoe * 365 + yoe / 4 - yoe / 100 + doy;
    Some((era * 146097 + doe - 719468) * 86400)
}

#[test]
fn calendar_matches_chrono() {
    let years = [-262144, -262143, -1601, -401, -400, -101, -100, -4, -1, 0, 1, 4, 100, 1600, 1900, 1969, 1970, 2000, 2023, 2024, 2100, 262142, 262143];
    for y in years {
        for m in 0..=13u32 {
            for d in [0u32, 1, 15, 28, 29, 30, 31, 32] {
                let ours = midnight(y as i64, m as i64, d as i64);
                let theirs = NaiveDate::from_ymd_opt(y, m, d).map(|x| x.and_hms_opt(0, 0, 0).unwrap().and_utc().timestamp());
                assert_eq!(ours, theirs, "{}-{}-{}", y, m, d);
                assert_eq!(os_time(y, m, d, Some(0), None, None).ok(), theirs);
            }
        }
    }
}

#[test]
fn epoch_noon() {
    assert_eq!(os_time(1970, 1, 1, None, None, None), Ok(43200));
}
