use chrono::{DateTime, Utc};
use escudo::time::{Timestamp, MAX_SECS, MIN_SECS};

fn at(secs: i64, nanos: u32) -> Timestamp {
    Timestamp::new(secs, nanos).unwrap()
}

fn calendar(t: &Timestamp) -> DateTime<Utc> {
    DateTime::from_timestamp(t.secs(), t.nanos()).unwrap()
}

/// Instants of all sorts, the first, the last and leap seconds among them.
fn samples() -> Vec<Timestamp> {
    vec![
        at(MIN_SECS, 0),
        at(MIN_SECS + 59, 1_999_999_999),
        at(-86_400, 1),
        at(-1, 999_999_999),
        at(-1, 1_500_000_000),
        at(0, 0),
        at(59, 1_000_000_000),
        at(60, 0),
        at(86_399, 1_999_999_999),
        at(86_400, 0),
        at(86_400 * 7, 0),
        at(86_400 * 7 + 59, 1_000_000_001),
        at(1_714_557_600, 123_456_789),
        at(1_483_228_799, 1_250_000_000),
        at(MAX_SECS, 999_999_999),
    ]
}

#[test]
fn bounds_are_those_of_the_calendar() {
    assert_eq!(MIN_SECS, DateTime::<Utc>::MIN_UTC.timestamp());
    assert_eq!(MAX_SECS, DateTime::<Utc>::MAX_UTC.timestamp());
    for secs in [MIN_SECS - 1, MIN_SECS, -1, 0, 58, 59, 60, 119, MAX_SECS, MAX_SECS + 1, i64::MIN, i64::MAX] {
        for nanos in [0, 999_999_999, 1_000_000_000, 1_999_999_999, 2_000_000_000, u32::MAX] {
            let ours = Timestamp::new(secs, nanos);
            let theirs = DateTime::<Utc>::from_timestamp(secs, nanos);
            assert_eq!(ours.is_some(), theirs.is_some(), "{secs} {nanos}");
        }
    }
}

#[test]
fn days_agree_with_the_calendar() {
    for until in samples() {
        for since in samples() {
            assert_eq!(
                until.days_since(&since),
                calendar(&until).signed_duration_since(calendar(&since)).num_days(),
            );
            assert_eq!(until.is_after(&since), calendar(&until) > calendar(&since));
        }
    }
}

/// The nanoseconds between two instants, by the formula of the documentation.
fn formula(until: &Timestamp, since: &Timestamp) -> i128 {
    let day = 86_400;
    let (a, b) = (until.secs().rem_euclid(day), since.secs().rem_euclid(day));
    let leap = if a > b && since.nanos() >= 1_000_000_000 {
        1
    } else if a < b && until.nanos() >= 1_000_000_000 {
        -1
    } else {
        0
    };
    (until.secs() as i128 - since.secs() as i128 + leap) * 1_000_000_000 + until.nanos() as i128
        - since.nanos() as i128
}

#[test]
fn days_agree_with_the_formula() {
    for until in samples() {
        for since in samples() {
            let days = formula(&until, &since) / (86_400 * 1_000_000_000);
            assert_eq!(until.days_since(&since) as i128, days);
        }
    }
}

#[test]
fn whole_days_round_toward_zero() {
    let start = at(1_700_000_000, 0);
    assert_eq!(at(1_700_000_000 + 7 * 86_400 - 1, 999_999_999).days_since(&start), 6);
    assert_eq!(at(1_700_000_000 + 7 * 86_400, 0).days_since(&start), 7);
    assert_eq!(start.days_since(&at(1_700_000_000 + 86_399, 0)), 0);
    assert_eq!(start.days_since(&at(1_700_000_000 + 2 * 86_400, 0)), -2);
    assert_eq!(start.days_since(&start), 0);
}

#[test]
fn no_negative_age_of_earlier_instants() {
    for now in samples() {
        for then in samples() {
            if !then.is_after(&now) {
                assert!(now.days_since(&then) >= 0);
            }
        }
    }
}

#[test]
fn dates_are_read() {
    let date = Timestamp::parse("2024-05-01T10:00:00Z").unwrap();
    assert_eq!((date.secs(), date.nanos()), (1_714_557_600, 0));
    let date = Timestamp::parse("2024-05-01T12:00:00.5+02:00").unwrap();
    assert_eq!((date.secs(), date.nanos()), (1_714_557_600, 500_000_000));
    let leap = Timestamp::parse("2016-12-31T23:59:60Z").unwrap();
    assert_eq!((leap.secs(), leap.nanos()), (1_483_228_799, 1_000_000_000));
    for text in ["", "yesterday", "2024-05-01", "2024-13-01T00:00:00Z", "2024-05-01T10:00:00"] {
        assert!(Timestamp::parse(text).is_err(), "{text}");
    }
    assert_eq!(
        Timestamp::parse("yesterday").unwrap_err(),
        "yesterday".parse::<DateTime<Utc>>().unwrap_err(),
    );
}

#[test]
fn dates_are_written() {
    let date = at(1_714_557_600, 0);
    assert_eq!(date.to_rfc3339(), "2024-05-01T10:00:00+00:00");
    assert_eq!(date.to_report_date(), "2024-05-01 10:00 UTC");
    for t in samples() {
        assert_eq!(t.to_rfc3339(), calendar(&t).to_rfc3339());
        assert_eq!(t.to_report_date(), calendar(&t).format("%Y-%m-%d %H:%M UTC").to_string());
    }
}
