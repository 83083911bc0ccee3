use chrono::{Datelike, NaiveDate};
use issue_harvest::window::{
    get_since_and_until, window_around, Timestamp, WindowError, MAX_DAY, MIN_DAY, WINDOW_DAYS,
};

fn texts(since: &str, until: &str) -> Result<(String, String), WindowError> {
    Ok((since.to_string(), until.to_string()))
}

#[test]
fn the_window_is_thirty_days_to_either_side() {
    assert_eq!(WINDOW_DAYS, 30);
    assert_eq!(
        get_since_and_until("2023-05-15T00:00:00Z"),
        texts("2023-04-15T00:00:00Z", "2023-06-14T00:00:00Z")
    );
}

#[test]
fn the_window_counts_days_not_months() {
    assert_eq!(
        get_since_and_until("2023-03-31T08:30:00Z"),
        texts("2023-03-01T08:30:00Z", "2023-04-30T08:30:00Z")
    );
    assert_eq!(
        get_since_and_until("2023-03-01T00:00:00Z"),
        texts("2023-01-30T00:00:00Z", "2023-03-31T00:00:00Z")
    );
}

#[test]
fn the_window_crosses_a_leap_day() {
    assert_eq!(
        get_since_and_until("2024-03-15T12:34:56Z"),
        texts("2024-02-14T12:34:56Z", "2024-04-14T12:34:56Z")
    );
    assert_eq!(
        get_since_and_until("2024-02-29T23:59:59Z"),
        texts("2024-01-30T23:59:59Z", "2024-03-30T23:59:59Z")
    );
}

#[test]
fn the_window_crosses_the_turn_of_the_year() {
    assert_eq!(
        get_since_and_until("2022-12-20T06:00:01Z"),
        texts("2022-11-20T06:00:01Z", "2023-01-19T06:00:01Z")
    );
}

#[test]
fn the_time_of_day_is_kept_even_in_a_leap_second() {
    assert_eq!(
        get_since_and_until("2016-12-31T23:59:60Z"),
        texts("2016-12-01T23:59:60Z", "2017-01-30T23:59:60Z")
    );
}

#[test]
fn text_that_is_no_moment_is_refused() {
    assert_eq!(get_since_and_until(""), Err(WindowError::Unparseable));
    assert_eq!(get_since_and_until("yesterday"), Err(WindowError::Unparseable));
    assert_eq!(get_since_and_until("2023-05-15"), Err(WindowError::Unparseable));
    assert_eq!(get_since_and_until("2023-05-15 00:00:00"), Err(WindowError::Unparseable));
    assert_eq!(get_since_and_until("2023-05-15T00:00:00"), Err(WindowError::Unparseable));
    assert_eq!(get_since_and_until("2023-02-30T00:00:00Z"), Err(WindowError::Unparseable));
    assert_eq!(get_since_and_until("2023-05-15T24:00:00Z"), Err(WindowError::Unparseable));
    assert_eq!(get_since_and_until("2023-05-15T00:00:00Zx"), Err(WindowError::Unparseable));
}

#[test]
fn an_anchor_at_the_edge_of_time_has_no_window() {
    assert_eq!(get_since_and_until("+262142-12-31T00:00:00Z"), Err(WindowError::OutOfRange));
    assert_eq!(get_since_and_until("+262142-12-02T00:00:00Z"), Err(WindowError::OutOfRange));
    assert_eq!(get_since_and_until("-262143-01-01T00:00:00Z"), Err(WindowError::OutOfRange));
    assert_eq!(get_since_and_until("-262143-01-30T00:00:00Z"), Err(WindowError::OutOfRange));
}

#[test]
fn an_anchor_thirty_days_within_the_edge_has_a_window() {
    assert_eq!(
        get_since_and_until("+262142-12-01T00:00:00Z"),
        texts("+262142-11-01T00:00:00Z", "+262142-12-31T00:00:00Z")
    );
    assert_eq!(
        get_since_and_until("-262143-01-31T00:00:00Z"),
        texts("-262143-01-01T00:00:00Z", "-262143-03-02T00:00:00Z")
    );
}

#[test]
fn the_range_of_days_is_the_range_of_dates() {
    assert_eq!(NaiveDate::MIN.num_days_from_ce(), MIN_DAY);
    assert_eq!(NaiveDate::MAX.num_days_from_ce(), MAX_DAY);
    assert!(NaiveDate::from_num_days_from_ce_opt(MIN_DAY).is_some());
    assert!(NaiveDate::from_num_days_from_ce_opt(MIN_DAY - 1).is_none());
    assert!(NaiveDate::from_num_days_from_ce_opt(MAX_DAY).is_some());
    assert!(NaiveDate::from_num_days_from_ce_opt(MAX_DAY + 1).is_none());
}

#[test]
fn the_ends_lie_thirty_days_from_the_anchor() {
    let anchor = Timestamp { day: 738655, second: 45296, nano: 0 };
    assert_eq!(
        window_around(anchor),
        Ok((
            Timestamp { day: 738625, second: 45296, nano: 0 },
            Timestamp { day: 738685, second: 45296, nano: 0 }
        ))
    );
}

#[test]
fn the_ends_keep_the_nanoseconds() {
    let anchor = Timestamp { day: 1, second: 86399, nano: 1_999_999_999 };
    assert_eq!(
        window_around(anchor),
        Ok((
            Timestamp { day: -29, second: 86399, nano: 1_999_999_999 },
            Timestamp { day: 31, second: 86399, nano: 1_999_999_999 }
        ))
    );
}

#[test]
fn the_window_exists_up_to_thirty_days_from_the_edges() {
    let at = |day: i32| Timestamp { day, second: 0, nano: 0 };
    assert_eq!(window_around(at(MAX_DAY - 30)), Ok((at(MAX_DAY - 60), at(MAX_DAY))));
    assert_eq!(window_around(at(MAX_DAY - 29)), Err(WindowError::OutOfRange));
    assert_eq!(window_around(at(MAX_DAY)), Err(WindowError::OutOfRange));
    assert_eq!(window_around(at(MIN_DAY + 30)), Ok((at(MIN_DAY), at(MIN_DAY + 60))));
    assert_eq!(window_around(at(MIN_DAY + 29)), Err(WindowError::OutOfRange));
    assert_eq!(window_around(at(MIN_DAY)), Err(WindowError::OutOfRange));
    assert_eq!(window_around(at(i32::MAX)), Err(WindowError::OutOfRange));
    assert_eq!(window_around(at(i32::MIN)), Err(WindowError::OutOfRange));
}

#[test]
fn a_time_of_day_that_does_not_exist_has_no_window() {
    let day = 738655;
    assert_eq!(
        window_around(Timestamp { day, second: 86_400, nano: 0 }),
        Err(WindowError::OutOfRange)
    );
    assert_eq!(
        window_around(Timestamp { day, second: 0, nano: 2_000_000_000 }),
        Err(WindowError::OutOfRange)
    );
    assert_eq!(
        window_around(Timestamp { day, second: 58, nano: 1_000_000_000 }),
        Err(WindowError::OutOfRange)
    );
    assert!(window_around(Timestamp { day, second: 59, nano: 1_000_000_000 }).is_ok());
    assert!(window_around(Timestamp { day, second: 86_399, nano: 999_999_999 }).is_ok());
}
