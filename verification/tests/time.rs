use chrono::{DateTime, SecondsFormat, Utc};
use lokin::time::{
    format_duration, format_full_timestamp, format_timestamp, Duration, Timestamp, FIRST_SECOND,
    LAST_SECOND,
};

fn instant(seconds: i64, nanos: u32) -> Timestamp {
    Timestamp::from_parts(seconds, nanos).unwrap()
}

#[test]
fn the_calendar_is_that_of_chrono() {
    assert_eq!(FIRST_SECOND, DateTime::<Utc>::MIN_UTC.timestamp());
    assert_eq!(LAST_SECOND, DateTime::<Utc>::MAX_UTC.timestamp());
    assert!(Timestamp::from_parts(FIRST_SECOND, 0).is_some());
    assert!(Timestamp::from_parts(FIRST_SECOND - 1, 0).is_none());
    assert!(Timestamp::from_parts(LAST_SECOND, 999_999_999).is_some());
    assert!(Timestamp::from_parts(LAST_SECOND + 1, 0).is_none());
    assert!(Timestamp::from_parts(0, 1_000_000_000).is_none());
}

#[test]
fn a_leap_second_is_kept() {
    let leap = DateTime::parse_from_rfc3339("2016-12-31T23:59:60.5Z")
        .unwrap()
        .to_utc();
    let (seconds, nanos) = (leap.timestamp(), leap.timestamp_subsec_nanos());
    assert_eq!(nanos, 1_500_000_000);
    let taken = instant(seconds, nanos);
    assert_eq!(taken.parts(), (seconds, nanos));
    assert_eq!(format_timestamp(taken), "2016-12-31T23:59:60Z");
    assert_eq!(
        format_full_timestamp(taken),
        "2016-12-31T23:59:60.500+00:00"
    );
    assert!(!taken.same(&instant(seconds, 500_000_000)));
    assert!(!taken.same(&instant(seconds + 1, 500_000_000)));
    for minutes in [0, 1, 25] {
        assert_eq!(
            format_full_timestamp(taken.plus_minutes(minutes).unwrap()),
            (leap + chrono::Duration::minutes(i64::from(minutes))).to_rfc3339()
        );
    }
    let repeated = instant(seconds, 500_000_000);
    assert_eq!(taken.since(&repeated).nanos, 0);
    assert!(Timestamp::from_parts(-1, 1_999_999_999).is_some());
    assert!(Timestamp::from_parts(-2, 1_000_000_000).is_none());
    assert!(Timestamp::from_parts(59, 2_000_000_000).is_none());
    assert!(Timestamp::from_parts(LAST_SECOND, 1_999_999_999).is_some());
    for seconds in -130..130 {
        assert_eq!(
            Timestamp::from_parts(seconds, 1_000_000_000).is_some(),
            DateTime::<Utc>::from_timestamp(seconds, 1_000_000_000).is_some()
        );
    }
}

#[test]
fn an_instant_keeps_its_parts() {
    for parts in [
        (0, 0),
        (-1, 1),
        (-1, 999_999_999),
        (1_760_000_000, 123_456_789),
        (FIRST_SECOND, 0),
        (LAST_SECOND, 999_999_999),
    ] {
        assert_eq!(instant(parts.0, parts.1).parts(), parts);
    }
}

#[test]
fn instants_are_shown_to_the_second() {
    assert_eq!(
        format_timestamp(instant(1_760_000_000, 999_999_999)),
        "2025-10-09T08:53:20Z"
    );
    assert_eq!(format_timestamp(instant(-1, 0)), "1969-12-31T23:59:59Z");
    for seconds in [FIRST_SECOND, LAST_SECOND, 0] {
        assert_eq!(
            format_timestamp(instant(seconds, 0)),
            DateTime::<Utc>::from_timestamp(seconds, 0)
                .unwrap()
                .to_rfc3339_opts(SecondsFormat::Secs, true)
        );
    }
}

#[test]
fn instants_are_told_in_full() {
    assert_eq!(
        format_full_timestamp(instant(1_760_000_000, 0)),
        "2025-10-09T08:53:20+00:00"
    );
    assert_eq!(
        format_full_timestamp(instant(1_760_000_000, 1_000)),
        "2025-10-09T08:53:20.000001+00:00"
    );
}

#[test]
fn spans_are_shown_in_hours_minutes_and_seconds() {
    let span = |nanos| format_duration(Duration { nanos });
    assert_eq!(span(0), "00:00:00");
    assert_eq!(span(59_999_999_999), "00:00:59");
    assert_eq!(span(3_661_000_000_000), "01:01:01");
    assert_eq!(span(360_000_000_000_000), "100:00:00");
}

#[test]
fn a_negative_span_is_shown_as_none() {
    assert_eq!(format_duration(Duration { nanos: -5 }), "00:00:00");
    assert_eq!(
        format_duration(Duration {
            nanos: -5_000_000_000
        }),
        "00:00:00"
    );
}

#[test]
fn reckoning_with_instants() {
    let start = instant(100, 5);
    let end = start.plus_minutes(2).unwrap();
    assert_eq!(end.parts(), (220, 5));
    assert_eq!(end.since(&start), Duration::minutes(2));
    assert_eq!(start.since(&end).nanos, -120_000_000_000);
    assert_eq!(start.since(&end).whole_seconds(), 0);
    assert_eq!(end.since(&start).whole_seconds(), 120);
    assert!(start.is_before(&end) && !end.is_before(&start) && !start.is_before(&start));
    assert!(start.same(&start) && !start.same(&end));
    assert_eq!(start.earlier_of(end), start);
    assert_eq!(start.later_of(end), end);
    assert!(instant(LAST_SECOND, 0).plus_minutes(1).is_none());
    assert!(instant(LAST_SECOND, 0).plus_minutes(0).is_some());
}

#[test]
fn the_clock_is_that_of_the_system() {
    let before = Utc::now().timestamp();
    let (seconds, _) = Timestamp::now().parts();
    let after = Utc::now().timestamp();
    assert!(before <= seconds && seconds <= after);
}
