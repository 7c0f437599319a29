use initiative::time::{Interval, Time};

fn t(days: i32, hours: u8, minutes: u8, seconds: u8) -> Time {
    Time::try_new(days, hours, minutes, seconds).unwrap()
}

fn t0() -> Time {
    t(0, 0, 0, 0)
}

fn t1() -> Time {
    t(1, 1, 1, 1)
}

fn tmax() -> Time {
    t(i32::MAX, 23, 59, 59)
}

fn i(days: i32, hours: i32, minutes: i32, seconds: i32, rounds: i32) -> Interval {
    Interval {
        days,
        hours,
        minutes,
        seconds,
        rounds,
    }
}

fn days(days: i32) -> Interval {
    i(days, 0, 0, 0, 0)
}

fn hours(hours: i32) -> Interval {
    i(0, hours, 0, 0, 0)
}

fn minutes(minutes: i32) -> Interval {
    i(0, 0, minutes, 0, 0)
}

fn seconds(seconds: i32) -> Interval {
    i(0, 0, 0, seconds, 0)
}

fn rounds(rounds: i32) -> Interval {
    i(0, 0, 0, 0, rounds)
}

#[test]
fn interval_new_test() {
    assert_eq!(
        i(100, 200, 300, 400, 500),
        Interval::new(100, 200, 300, 400, 500),
    );

    assert_eq!(i(1, 0, 0, 0, 0), Interval::new_days(1));
    assert_eq!(i(0, 1, 0, 0, 0), Interval::new_hours(1));
    assert_eq!(i(0, 0, 1, 0, 0), Interval::new_minutes(1));
    assert_eq!(i(0, 0, 0, 1, 0), Interval::new_seconds(1));
    assert_eq!(i(0, 0, 0, 0, 1), Interval::new_rounds(1));
}

#[test]
fn interval_from_str_test() {
    assert_eq!(Ok(days(10)), "10d".parse());
    assert_eq!(Ok(hours(10)), "10h".parse());
    assert_eq!(Ok(minutes(10)), "10m".parse());
    assert_eq!(Ok(seconds(10)), "10s".parse());
    assert_eq!(Ok(rounds(10)), "10r".parse());

    assert_eq!(Ok(days(10)), "10D".parse());
    assert_eq!(Ok(hours(10)), "10H".parse());
    assert_eq!(Ok(minutes(10)), "10M".parse());
    assert_eq!(Ok(seconds(10)), "10S".parse());
    assert_eq!(Ok(rounds(10)), "10R".parse());

    assert_eq!(Ok(days(1)), "d".parse());
    assert_eq!(Ok(hours(1)), "h".parse());
    assert_eq!(Ok(minutes(1)), "m".parse());
    assert_eq!(Ok(seconds(1)), "s".parse());
    assert_eq!(Ok(rounds(1)), "r".parse());

    assert_eq!(Ok(days(1)), "D".parse());
    assert_eq!(Ok(hours(1)), "H".parse());
    assert_eq!(Ok(minutes(1)), "M".parse());
    assert_eq!(Ok(seconds(1)), "S".parse());
    assert_eq!(Ok(rounds(1)), "R".parse());

    assert_eq!(Ok(days(0)), "0d".parse());
    assert_eq!(Ok(days(1)), "01d".parse());
    assert_eq!(Ok(days(i32::MAX)), format!("{}d", i32::MAX).parse());

    assert_eq!(Ok(Interval::default()), "0".parse());
    assert_eq!(Ok(i(2, 3, 4, 5, 6)), "2d3h4m5s6r".parse());
    assert_eq!(Ok(i(2, 3, 4, 5, 6)), "2d 3h 4m 5s 6r".parse());

    assert_eq!(Err(()), format!("{}d", i64::MAX).parse::<Interval>());
    assert_eq!(Err(()), "".parse::<Interval>());
    assert_eq!(Err(()), "1 d".parse::<Interval>());
    assert_eq!(Err(()), "1a".parse::<Interval>());
    assert_eq!(Err(()), "-1d".parse::<Interval>());
    assert_eq!(Err(()), "2d3h4m5s6r7p".parse::<Interval>());
    assert_eq!(Err(()), "1dd".parse::<Interval>());
    assert_eq!(Err(()), "2d1d".parse::<Interval>());
}

#[test]
fn interval_display_short_test() {
    assert_eq!("1d", days(1).display_short().to_string());
    assert_eq!("1h", hours(1).display_short().to_string());
    assert_eq!("1m", minutes(1).display_short().to_string());
    assert_eq!("1s", seconds(1).display_short().to_string());
    assert_eq!("1r", rounds(1).display_short().to_string());

    assert_eq!("0", Interval::default().display_short().to_string());
    assert_eq!(
        "2d 3h 4m 5s 6r",
        i(2, 3, 4, 5, 6).display_short().to_string(),
    );
}

#[test]
fn interval_display_long_test() {
    assert_eq!("1 day", days(1).display_long().to_string());
    assert_eq!("1 hour", hours(1).display_long().to_string());
    assert_eq!("1 minute", minutes(1).display_long().to_string());
    assert_eq!("1 second", seconds(1).display_long().to_string());
    assert_eq!("1 round", rounds(1).display_long().to_string());

    assert_eq!("nuthin'", Interval::default().display_long().to_string());

    assert_eq!(
        "2 days, 3 hours, 4 minutes, 5 seconds, 6 rounds",
        i(2, 3, 4, 5, 6).display_long().to_string(),
    );
}

#[test]
fn interval_display_skips_non_positive_fields() {
    assert_eq!("1d 4m", i(1, -2, 4, 0, -1).display_short().to_string());
    assert_eq!("0", i(-1, 0, -3, 0, 0).display_short().to_string());
    assert_eq!("nuthin'", i(0, -1, 0, 0, 0).display_long().to_string());
    assert_eq!("12 hours, 1 round", i(0, 12, 0, 0, 1).display_long().to_string());
}

#[test]
fn interval_display_short_round_trip() {
    for interval in [i(2, 3, 4, 5, 6), i(0, 0, 7, 0, 0), i(i32::MAX, 0, 0, 0, 1), i(0, 0, 0, 0, 0)] {
        assert_eq!(Ok(interval.clone()), interval.display_short().to_string().parse());
    }
}

#[test]
fn interval_from_str_whitespace_and_leading_unit() {
    assert_eq!(Ok(i(1, 5, 0, 0, 0)), "  d5h \t".parse());
    assert_eq!(Ok(days(7)), "+7d".trim_start_matches('+').parse());
    assert_eq!(Err(()), "h d".parse::<Interval>());
    assert_eq!(Err(()), "5".parse::<Interval>());
    assert_eq!(Err(()), "   ".parse::<Interval>());
}

#[test]
fn time_try_new_test() {
    assert_eq!(Ok(t(1, 2, 3, 4)), Time::try_new(1, 2, 3, 4));
    assert!(Time::try_new(i32::MAX, 23, 59, 59).is_ok());
    assert_eq!(Err(()), Time::try_new(0, 24, 0, 0));
    assert_eq!(Err(()), Time::try_new(0, 0, 60, 0));
    assert_eq!(Err(()), Time::try_new(0, 0, 0, 60));
}

#[test]
fn time_checked_add_test() {
    assert_eq!(
        t(3, 6, 9, 12),
        t(1, 2, 3, 4)
            .checked_add(&Interval::new(2, 4, 6, 8, 0))
            .unwrap(),
    );

    assert_eq!(
        t(1, 1, 1, 1),
        Time::default()
            .checked_add(&Interval::new_seconds(86400 + 3600 + 60 + 1))
            .unwrap(),
    );

    assert_eq!(
        t(1, 1, 1, 0),
        Time::default()
            .checked_add(&Interval::new_minutes(1440 + 60 + 1))
            .unwrap(),
    );

    assert_eq!(
        t(1, 1, 0, 0),
        Time::default()
            .checked_add(&Interval::new_hours(24 + 1))
            .unwrap(),
    );

    assert_eq!(
        t(2, 0, 0, 0),
        t(1, 23, 59, 59)
            .checked_add(&Interval::new_seconds(1))
            .unwrap(),
    );

    assert_eq!(
        t(0, 0, 0, 6),
        t0().checked_add(&Interval::new_rounds(1)).unwrap(),
    );
    assert_eq!(
        t(0, 0, 1, 0),
        t0().checked_add(&Interval::new_rounds(10)).unwrap(),
    );
}

#[test]
fn time_checked_add_test_limits() {
    assert!(tmax().checked_add(&Interval::new_days(1)).is_none());
    assert!(t1()
        .checked_add(&Interval::new_days(i32::MAX - 1))
        .is_some());
    assert!(t1().checked_add(&Interval::new_days(i32::MAX)).is_none());

    assert!(tmax().checked_add(&Interval::new_hours(1)).is_none());
    assert!(t1().checked_add(&Interval::new_hours(i32::MAX)).is_some());

    assert!(tmax().checked_add(&Interval::new_minutes(1)).is_none());
    assert!(t1().checked_add(&Interval::new_minutes(i32::MAX)).is_some());

    assert!(tmax().checked_add(&Interval::new_seconds(1)).is_none());
    assert!(t1().checked_add(&Interval::new_seconds(i32::MAX)).is_some());

    assert!(tmax().checked_add(&Interval::new_rounds(1)).is_none());
    assert!(t1().checked_add(&Interval::new_rounds(i32::MAX)).is_some());
}

#[test]
fn time_checked_sub_test() {
    assert_eq!(
        t(-1, 0, 0, 0),
        t0().checked_sub(&Interval::new_days(1)).unwrap(),
    );

    assert_eq!(
        t0(),
        t(0, 1, 0, 0).checked_sub(&Interval::new_hours(1)).unwrap(),
    );
    assert_eq!(
        t(-1, 23, 0, 0),
        t0().checked_sub(&Interval::new_hours(1)).unwrap(),
    );

    assert_eq!(
        t0(),
        t(0, 0, 1, 0)
            .checked_sub(&Interval::new_minutes(1))
            .unwrap(),
    );
    assert_eq!(
        t(-1, 23, 59, 0),
        t0().checked_sub(&Interval::new_minutes(1)).unwrap(),
    );

    assert_eq!(
        t0(),
        t(0, 0, 0, 1)
            .checked_sub(&Interval::new_seconds(1))
            .unwrap(),
    );
    assert_eq!(
        t(-1, 23, 59, 59),
        t0().checked_sub(&Interval::new_seconds(1)).unwrap(),
    );
}

#[test]
fn time_checked_sub_test_limits() {
    assert!(t0().checked_sub(&Interval::new_days(i32::MAX)).is_some());
    assert!(t0().checked_sub(&Interval::new_days(i32::MIN)).is_none());

    assert!(t0().checked_sub(&Interval::new_hours(i32::MAX)).is_some());
    assert!(t0().checked_sub(&Interval::new_hours(i32::MIN)).is_none());

    assert!(t0().checked_sub(&Interval::new_minutes(i32::MAX)).is_some());
    assert!(t0().checked_sub(&Interval::new_minutes(i32::MIN)).is_none());

    assert!(t0().checked_sub(&Interval::new_seconds(i32::MAX)).is_some());
    assert!(t0().checked_sub(&Interval::new_seconds(i32::MIN)).is_none());
}

#[test]
fn time_add_then_sub_round_trip() {
    let start = t(5, 17, 42, 9);
    let interval = i(3, -30, 1000, -7, 44);
    let later = start.checked_add(&interval).unwrap();
    assert_eq!(start, later.checked_sub(&interval).unwrap());
    let earlier = start.checked_sub(&interval).unwrap();
    assert_eq!(start, earlier.checked_add(&interval).unwrap());
}

#[test]
fn time_display_short_test() {
    assert_eq!("1:02:03:04", t(1, 2, 3, 4).display_short().to_string());
    assert_eq!("1:23:59:59", t(1, 23, 59, 59).display_short().to_string());
}

#[test]
fn time_display_long_test() {
    assert_eq!("day 0 at 12:00:00 am", t0().display_long().to_string());
    assert_eq!(
        "day 1 at 1:02:03 am",
        t(1, 1, 2, 3).display_long().to_string(),
    );
    assert_eq!(
        "day 2 at 11:59:59 am",
        t(2, 11, 59, 59).display_long().to_string(),
    );
    assert_eq!(
        "day 3 at 12:00:00 pm",
        t(3, 12, 0, 0).display_long().to_string(),
    );
    assert_eq!(
        "day 4 at 1:00:00 pm",
        t(4, 13, 0, 0).display_long().to_string(),
    );
    assert_eq!(
        "day 5 at 11:59:59 pm",
        t(5, 23, 59, 59).display_long().to_string(),
    );
}

#[test]
fn time_from_str_test() {
    assert_eq!(Ok(t(1, 2, 3, 4)), "1:02:03:04".parse());
    assert_eq!(Ok(t(1, 23, 59, 59)), "1:23:59:59".parse());
}

#[test]
fn time_from_str_errors_and_round_trip() {
    assert_eq!(Err(()), "1:02:03".parse::<Time>());
    assert_eq!(Err(()), "1:02:03:04:05".parse::<Time>());
    assert_eq!(Err(()), "1:24:00:00".parse::<Time>());
    assert_eq!(Err(()), "x:00:00:00".parse::<Time>());
    assert_eq!(Err(()), "1:-1:00:00".parse::<Time>());
    assert_eq!(Ok(t(-3, 4, 5, 6)), "-3:+4:05:6".parse());
    let time = t(i32::MIN, 0, 9, 59);
    assert_eq!(Ok(t(i32::MIN, 0, 9, 59)), time.display_short().to_string().parse());
}
