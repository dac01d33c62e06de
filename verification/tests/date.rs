use chrono_tz::Tz;
use mactime2::date::{
    format_date, normalize_date, settle_instant, InvalidDatetime, LocalTime, MAX_TIMESTAMP,
    MIN_TIMESTAMP,
};

#[test]
fn dates_in_utc() {
    assert_eq!(format_date(0, &Tz::UTC, &Tz::UTC), "1970-01-01T00:00:00+00:00");
    assert_eq!(format_date(1577092511, &Tz::UTC, &Tz::UTC), "2019-12-23T09:15:11+00:00");
}

#[test]
fn timestamps_before_the_epoch_give_zeros() {
    assert_eq!(format_date(-1, &Tz::UTC, &Tz::UTC), "0000-00-00T00:00:00+00:00");
    assert_eq!(format_date(i64::MIN, &Tz::Europe__Berlin, &Tz::UTC), "0000-00-00T00:00:00+00:00");
}

#[test]
fn dates_move_between_zones() {
    // noon in Berlin in winter is 11:00 in UTC and 06:00 in New York
    let noon = 1577880000; // 2020-01-01T12:00:00 as a local time
    assert_eq!(format_date(noon, &Tz::Europe__Berlin, &Tz::UTC), "2020-01-01T11:00:00+00:00");
    assert_eq!(
        format_date(noon, &Tz::Europe__Berlin, &Tz::America__New_York),
        "2020-01-01T06:00:00-05:00"
    );
    assert_eq!(format_date(noon, &Tz::UTC, &Tz::Europe__Berlin), "2020-01-01T13:00:00+01:00");
    assert_eq!(normalize_date(noon, &Tz::Europe__Berlin), Ok(noon - 3600));
    assert_eq!(normalize_date(noon, &Tz::UTC), Ok(noon));
}

#[test]
fn a_local_time_that_never_was() {
    // 2020-03-29T02:30:00 did not exist in Berlin
    let gap = 1585449000;
    assert_eq!(format_date(gap, &Tz::Europe__Berlin, &Tz::UTC), "INVALID DATETIME");
    assert_eq!(normalize_date(gap, &Tz::Europe__Berlin), Err(InvalidDatetime));
    assert_eq!(InvalidDatetime.to_string(), "INVALID DATETIME");
}

#[test]
fn a_local_time_that_was_twice_is_the_earlier() {
    // 2020-10-25T02:30:00 existed twice in Berlin
    let fold = 1603593000;
    assert_eq!(normalize_date(fold, &Tz::Europe__Berlin), Ok(fold - 7200));
    assert_eq!(format_date(fold, &Tz::Europe__Berlin, &Tz::UTC), "2020-10-25T00:30:00+00:00");
}

#[test]
fn the_range_of_timestamps() {
    assert_eq!(normalize_date(MAX_TIMESTAMP, &Tz::UTC), Ok(MAX_TIMESTAMP));
    assert_eq!(normalize_date(MIN_TIMESTAMP, &Tz::UTC), Ok(MIN_TIMESTAMP));
    assert_eq!(format_date(MAX_TIMESTAMP, &Tz::UTC, &Tz::UTC), "+262142-12-31T23:59:59+00:00");
    assert!(chrono::DateTime::from_timestamp(MAX_TIMESTAMP + 1, 0).is_none());
    assert!(chrono::DateTime::from_timestamp(MIN_TIMESTAMP - 1, 0).is_none());
    // at the ends of the range a zone may have no room for the local time
    assert_eq!(normalize_date(MIN_TIMESTAMP, &Tz::Asia__Tokyo), Err(InvalidDatetime));
    assert_eq!(format_date(MAX_TIMESTAMP, &Tz::America__New_York, &Tz::UTC), "INVALID DATETIME");
    assert_eq!(
        format_date(MAX_TIMESTAMP, &Tz::Asia__Tokyo, &Tz::America__New_York),
        "+262142-12-31T09:59:59-05:00"
    );
}

#[test]
fn dates_past_the_last_day() {
    // the last second of universal time is a second of the next year further east
    assert_eq!(
        format_date(MAX_TIMESTAMP, &Tz::UTC, &Tz::Asia__Tokyo),
        "+262143-01-01T08:59:59+09:00"
    );
    assert_eq!(
        format_date(MAX_TIMESTAMP, &Tz::UTC, &Tz::Pacific__Kiritimati),
        "+262143-01-01T13:59:59+14:00"
    );
    assert_eq!(
        format_date(MAX_TIMESTAMP, &Tz::Asia__Tokyo, &Tz::Pacific__Kiritimati),
        "+262143-01-01T04:59:59+14:00"
    );
    assert_eq!(
        format_date(0, &Tz::Asia__Tokyo, &Tz::America__New_York),
        "1969-12-31T10:00:00-05:00"
    );
}

#[test]
fn settling_an_instant() {
    assert_eq!(settle_instant(LocalTime::Never), Err(InvalidDatetime));
    assert_eq!(settle_instant(LocalTime::Once(5)), Ok(5));
    assert_eq!(settle_instant(LocalTime::Twice(5, 9)), Ok(5));
}
