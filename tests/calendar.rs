use gpredict::calendar::{
    day_of_the_year, fraction_of_day, julian_date_of_year, julian_timestamp, julian_to_unix,
    CivilTime, NANOS_PER_DAY, UNIX_EPOCH_JULIAN,
};

fn civil_of_tm(t: time::Tm) -> CivilTime {
    CivilTime {
        year: t.tm_year + 1900,
        month: t.tm_mon + 1,
        day: t.tm_mday,
        hour: t.tm_hour,
        minute: t.tm_min,
        second: t.tm_sec,
        nanosecond: t.tm_nsec,
    }
}

fn julian_days(j: i128) -> f64 {
    j as f64 / NANOS_PER_DAY as f64
}

fn civil(year: i32, month: i32, day: i32, hour: i32, minute: i32, second: i32, nanosecond: i32) -> CivilTime {
    CivilTime { year, month, day, hour, minute, second, nanosecond }
}

#[test]
fn test_julian_timestamp() {
    let t = time::strptime("2000-1-1 12:00:00", "%Y-%m-%d %H:%M:%S").unwrap();
    assert_eq!(julian_days(julian_timestamp(civil_of_tm(t))), 2451545.0);

    let t = time::strptime("1970-1-1 00:00:00", "%Y-%m-%d %H:%M:%S").unwrap();
    assert_eq!(julian_days(julian_timestamp(civil_of_tm(t))), 2440587.5);
}

#[test]
fn julian_timestamp_exact_values() {
    assert_eq!(julian_timestamp(civil(2000, 1, 1, 12, 0, 0, 0)), 2_451_545 * NANOS_PER_DAY);
    assert_eq!(julian_timestamp(civil(1970, 1, 1, 0, 0, 0, 0)), UNIX_EPOCH_JULIAN);
    assert_eq!(julian_timestamp(civil(1, 1, 1, 0, 0, 0, 0)), 1_721_425 * NANOS_PER_DAY + NANOS_PER_DAY / 2);
    assert_eq!(
        julian_timestamp(civil(1970, 1, 1, 0, 0, 1, 5)),
        UNIX_EPOCH_JULIAN + 1_000_000_005
    );
}

#[test]
fn year_start_values() {
    assert_eq!(julian_date_of_year(2000), 2_451_543 * NANOS_PER_DAY + NANOS_PER_DAY / 2);
    assert_eq!(julian_date_of_year(1), 1_721_424 * NANOS_PER_DAY + NANOS_PER_DAY / 2);
    // 2000 is a leap year: the next year starts 366 days later.
    assert_eq!(julian_date_of_year(2001) - julian_date_of_year(2000), 366 * NANOS_PER_DAY);
    assert_eq!(julian_date_of_year(1901) - julian_date_of_year(1900), 365 * NANOS_PER_DAY);
}

#[test]
fn day_of_year_values() {
    assert_eq!(day_of_the_year(2023, 1, 1), 1);
    assert_eq!(day_of_the_year(2023, 12, 31), 365);
    assert_eq!(day_of_the_year(2024, 12, 31), 366);
    assert_eq!(day_of_the_year(2024, 2, 29), 60);
    assert_eq!(day_of_the_year(2000, 3, 1), 61);
    assert_eq!(day_of_the_year(1900, 3, 1), 60);
    assert_eq!(day_of_the_year(2100, 3, 1), 60);
}

#[test]
fn fraction_of_day_values() {
    assert_eq!(fraction_of_day(12, 0, 0), NANOS_PER_DAY / 2);
    assert_eq!(fraction_of_day(0, 0, 1), 1_000_000_000);
    assert_eq!(fraction_of_day(23, 59, 59), NANOS_PER_DAY - 1_000_000_000);
}

#[test]
fn julian_to_unix_known_dates() {
    assert_eq!(julian_to_unix(2_451_545 * NANOS_PER_DAY), civil(2000, 1, 1, 12, 0, 0, 0));
    assert_eq!(julian_to_unix(UNIX_EPOCH_JULIAN), civil(1970, 1, 1, 0, 0, 0, 0));
    assert_eq!(julian_to_unix(UNIX_EPOCH_JULIAN - 1), civil(1969, 12, 31, 23, 59, 59, 999_999_999));
}

#[test]
fn julian_round_trip() {
    let cases = [
        civil(1957, 10, 4, 19, 28, 34, 0),
        civil(1969, 7, 20, 20, 17, 40, 123_456_789),
        civil(2000, 2, 29, 0, 0, 0, 1),
        civil(2015, 8, 31, 10, 14, 54, 0),
        civil(2024, 12, 31, 23, 59, 59, 999_999_999),
        civil(2100, 12, 31, 23, 59, 59, 0),
        civil(1, 1, 1, 0, 0, 0, 0),
        civil(9999, 12, 31, 23, 59, 59, 999_999_999),
    ];
    for t in cases.iter() {
        assert!(t.is_valid());
        assert_eq!(julian_to_unix(julian_timestamp(*t)), *t);
    }
}

#[test]
fn civil_time_validity() {
    assert!(CivilTime::new(2024, 2, 29, 0, 0, 0, 0).is_some());
    assert!(CivilTime::new(2023, 2, 29, 0, 0, 0, 0).is_none());
    assert!(CivilTime::new(1900, 2, 29, 0, 0, 0, 0).is_none());
    assert!(CivilTime::new(2000, 2, 29, 0, 0, 0, 0).is_some());
    assert!(CivilTime::new(2024, 13, 1, 0, 0, 0, 0).is_none());
    assert!(CivilTime::new(2024, 4, 31, 0, 0, 0, 0).is_none());
    assert!(CivilTime::new(0, 1, 1, 0, 0, 0, 0).is_none());
    assert!(CivilTime::new(2024, 1, 1, 24, 0, 0, 0).is_none());
    assert!(CivilTime::new(2024, 1, 1, 0, 0, 60, 0).is_none());
    assert!(CivilTime::new(2024, 1, 1, 0, 0, 0, 1_000_000_000).is_none());
    assert_eq!(CivilTime::new(2024, 1, 1, 1, 2, 3, 4), Some(civil(2024, 1, 1, 1, 2, 3, 4)));
}

#[test]
fn julian_to_unix_month_and_year_edges() {
    let cases = [
        civil(2024, 2, 28, 23, 59, 59, 0),
        civil(2024, 2, 29, 0, 0, 0, 0),
        civil(2024, 3, 1, 0, 0, 0, 0),
        civil(2023, 3, 1, 0, 0, 0, 0),
        civil(1900, 3, 1, 0, 0, 0, 0),
        civil(2000, 12, 31, 23, 59, 59, 999_999_999),
        civil(2001, 1, 1, 0, 0, 0, 0),
        civil(1957, 1, 1, 0, 0, 0, 0),
        civil(1601, 1, 1, 0, 0, 0, 0),
    ];
    for t in cases.iter() {
        assert_eq!(julian_to_unix(julian_timestamp(*t)), *t);
    }
    // One nanosecond before the next day.
    assert_eq!(
        julian_to_unix(julian_timestamp(civil(2024, 3, 1, 0, 0, 0, 0)) - 1),
        civil(2024, 2, 29, 23, 59, 59, 999_999_999)
    );
    // 387694286 seconds before the Unix epoch.
    assert_eq!(
        julian_to_unix(UNIX_EPOCH_JULIAN - 387_694_286 * 1_000_000_000),
        civil(1957, 9, 18, 19, 8, 34, 0)
    );
}
