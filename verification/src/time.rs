//! Points in time, and what the calendar library tells of them.

use vstd::prelude::*;

use chrono::{DateTime, Utc};

verus! {

/// Nanoseconds in a second.
pub const NANOS_PER_SEC: u32 = 1_000_000_000;

/// Seconds in a day.
pub const SECS_PER_DAY: i64 = 86_400;

/// The first second that a calendar date can be given for.
pub const MIN_SECS: i64 = -8_334_601_228_800;

/// The last second that a calendar date can be given for.
pub const MAX_SECS: i64 = 8_210_266_876_799;

/// Model of a [`Timestamp`]: seconds since 1970-01-01 00:00:00 UTC, leap
/// seconds left out, and nanoseconds since that second began. Within a leap
/// second, which has the number of the second before it, the nanoseconds run on
/// past a billion.
pub struct Instant {
    pub secs: int,
    pub nanos: int,
}

impl Instant {
    /// The instant has a calendar date, and only the last second of a minute
    /// is followed by a leap second.
    pub open spec fn valid(self) -> bool {
        &&& MIN_SECS <= self.secs <= MAX_SECS
        &&& 0 <= self.nanos < 2 * NANOS_PER_SEC
        &&& self.nanos >= NANOS_PER_SEC ==> self.secs % 60 == 59
    }
}

/// `a` is later than `b`.
pub open spec fn later(a: Instant, b: Instant) -> bool {
    a.secs > b.secs || (a.secs == b.secs && a.nanos > b.nanos)
}

/// The second of the day, leap seconds left out.
pub open spec fn second_of_day(t: Instant) -> int {
    t.secs % SECS_PER_DAY as int
}

/// The nanoseconds from `since` to `until`. A leap second counts where it is
/// the earlier time of day.
pub open spec fn elapsed_nanos(until: Instant, since: Instant) -> int {
    let leap: int = if second_of_day(until) > second_of_day(since) && since.nanos
        >= NANOS_PER_SEC {
        1
    } else if second_of_day(until) < second_of_day(since) && until.nanos >= NANOS_PER_SEC {
        -1
    } else {
        0
    };
    (until.secs - since.secs + leap) * NANOS_PER_SEC + until.nanos - since.nanos
}

/// Nanoseconds in a day.
pub open spec fn nanos_per_day() -> int {
    SECS_PER_DAY * NANOS_PER_SEC
}

/// The whole days from `since` to `until`, rounded toward zero.
pub open spec fn elapsed_days(until: Instant, since: Instant) -> int {
    let nanos = elapsed_nanos(until, since);
    if nanos >= 0 {
        nanos / nanos_per_day()
    } else {
        -((-nanos) / nanos_per_day())
    }
}

/// A point in time with a calendar date.
#[derive(Debug, Clone, Copy)]
pub struct Timestamp {
    secs: i64,
    nanos: u32,
}

impl DeepView for Timestamp {
    type V = Instant;

    closed spec fn deep_view(&self) -> Instant {
        Instant { secs: self.secs as int, nanos: self.nanos as int }
    }
}

impl Timestamp {
    #[verifier::type_invariant]
    closed spec fn has_date(self) -> bool {
        self.deep_view().valid()
    }

    /// The timestamp of a second and the nanoseconds since it began, if it has
    /// a calendar date.
    pub fn new(secs: i64, nanos: u32) -> (timestamp: Option<Timestamp>)
        ensures
            match timestamp {
                Some(t) => t.deep_view() == (Instant { secs: secs as int, nanos: nanos as int })
                    && t.deep_view().valid(),
                None => !(Instant { secs: secs as int, nanos: nanos as int }).valid(),
            },
    {
        if secs < MIN_SECS || secs > MAX_SECS || nanos >= 2 * NANOS_PER_SEC {
            return None;
        }
        if nanos >= NANOS_PER_SEC && !last_of_minute(secs) {
            return None;
        }
        Some(Timestamp { secs, nanos })
    }

    /// Seconds since 1970-01-01 00:00:00 UTC.
    pub fn secs(&self) -> (secs: i64)
        ensures
            secs == self.deep_view().secs,
    {
        self.secs
    }

    /// Nanoseconds since the second began.
    pub fn nanos(&self) -> (nanos: u32)
        ensures
            nanos == self.deep_view().nanos,
    {
        self.nanos
    }

    /// Whether this is later than `other`.
    pub fn is_after(&self, other: &Timestamp) -> (after: bool)
        ensures
            after == later(self.deep_view(), other.deep_view()),
    {
        self.secs > other.secs || (self.secs == other.secs && self.nanos > other.nanos)
    }

    /// The whole days that have gone by since `earlier`.
    pub fn days_since(&self, earlier: &Timestamp) -> (days: i64)
        ensures
            days == elapsed_days(self.deep_view(), earlier.deep_view()),
    {
        proof {
            use_type_invariant(self);
            use_type_invariant(earlier);
        }
        days_between(self, earlier)
    }
}

/// Whether `secs` is the last second of its minute.
fn last_of_minute(secs: i64) -> (last: bool)
    requires
        MIN_SECS <= secs <= MAX_SECS,
    ensures
        last == (secs % 60 == 59),
{
    let shifted: i64 = secs - MIN_SECS;
    assert((MIN_SECS as int) % 60 == 0);
    shifted % 60 == 59
}

/// `chrono::DateTime::signed_duration_since`, followed by
/// `chrono::TimeDelta::num_days`: the whole days between two instants, rounded
/// toward zero. A calendar date is known for both, so the conversions succeed.
#[verifier::external_body]
fn days_between(until: &Timestamp, since: &Timestamp) -> (days: i64)
    requires
        until.deep_view().valid(),
        since.deep_view().valid(),
    ensures
        days == elapsed_days(until.deep_view(), since.deep_view()),
{
    let until: DateTime<Utc> = DateTime::from_timestamp(until.secs, until.nanos).unwrap();
    let since: DateTime<Utc> = DateTime::from_timestamp(since.secs, since.nanos).unwrap();
    until.signed_duration_since(since).num_days()
}

#[verifier::external_type_specification]
#[verifier::external_body]
pub struct ExParseError(chrono::ParseError);

/// What `chrono` reads as a date and time: the seconds and nanoseconds of the
/// instant, or nothing where the text is no date and time.
pub uninterp spec fn parsed_date(text: Seq<char>) -> Option<(int, int)>;

/// `<chrono::DateTime<Utc> as FromStr>::from_str`: reads a date and time in a
/// relaxed form of RFC 3339. Which instant a text stands for, and which texts
/// stand for none, is named, not spelled out; an instant that is read has a
/// calendar date.
#[verifier::external_body]
fn read_date(text: &str) -> (date: Result<Timestamp, chrono::ParseError>)
    ensures
        match date {
            Ok(t) => t.deep_view().valid() && parsed_date(text@) == Some(
                (t.deep_view().secs, t.deep_view().nanos),
            ),
            Err(_) => parsed_date(text@) is None,
        },
{
    let date: DateTime<Utc> = text.parse()?;
    Ok(Timestamp { secs: date.timestamp(), nanos: date.timestamp_subsec_nanos() })
}

/// How `chrono` writes an instant of UTC in RFC 3339.
pub uninterp spec fn rfc3339(secs: int, nanos: int) -> Seq<char>;

/// `chrono::DateTime::to_rfc3339`: writes the instant in RFC 3339. The text is
/// named, not spelled out.
#[verifier::external_body]
fn write_rfc3339(t: &Timestamp) -> (text: String)
    requires
        t.deep_view().valid(),
    ensures
        text@ == rfc3339(t.deep_view().secs, t.deep_view().nanos),
{
    let date: DateTime<Utc> = DateTime::from_timestamp(t.secs, t.nanos).unwrap();
    date.to_rfc3339()
}

/// How `chrono` writes an instant of UTC with a format string.
pub uninterp spec fn formatted_date(secs: int, nanos: int, format: Seq<char>) -> Seq<char>;

/// `chrono::DateTime::format`: writes the instant with the given format string.
/// The text is named, not spelled out. Only the format of report dates is let
/// in, which holds no unknown specifier.
#[verifier::external_body]
fn write_date(t: &Timestamp, format: &str) -> (text: String)
    requires
        t.deep_view().valid(),
        format@ == "%Y-%m-%d %H:%M UTC"@,
    ensures
        text@ == formatted_date(t.deep_view().secs, t.deep_view().nanos, format@),
{
    let date: DateTime<Utc> = DateTime::from_timestamp(t.secs, t.nanos).unwrap();
    date.format(format).to_string()
}

impl Timestamp {
    /// Reads a date and time such as `2024-05-01T10:00:00Z`.
    pub fn parse(text: &str) -> (date: Result<Timestamp, chrono::ParseError>)
        ensures
            match date {
                Ok(t) => t.deep_view().valid() && parsed_date(text@) == Some(
                    (t.deep_view().secs, t.deep_view().nanos),
                ),
                Err(_) => parsed_date(text@) is None,
            },
    {
        read_date(text)
    }

    /// The date and time in RFC 3339.
    pub fn to_rfc3339(&self) -> (text: String)
        ensures
            text@ == rfc3339(self.deep_view().secs, self.deep_view().nanos),
    {
        proof {
            use_type_invariant(self);
        }
        write_rfc3339(self)
    }

    /// The date and time to the minute, as reports show it.
    pub fn to_report_date(&self) -> (text: String)
        ensures
            text@ == formatted_date(
                self.deep_view().secs,
                self.deep_view().nanos,
                "%Y-%m-%d %H:%M UTC"@,
            ),
    {
        proof {
            use_type_invariant(self);
        }
        write_date(self, "%Y-%m-%d %H:%M UTC")
    }
}

/// No instant is later than itself, and of two different instants one is the
/// later.
pub proof fn later_is_a_strict_order(a: Instant, b: Instant, c: Instant)
    ensures
        !later(a, a),
        a == b || later(a, b) || later(b, a),
        later(a, b) && later(b, c) ==> later(a, c),
{
}

/// Until an instant that is not earlier, no negative number of days goes by.
pub proof fn no_negative_age(now: Instant, then: Instant)
    requires
        now.valid(),
        then.valid(),
        !later(then, now),
    ensures
        elapsed_days(now, then) >= 0,
{
    let nanos = elapsed_nanos(now, then);
    assert(nanos > -nanos_per_day());
    if nanos < 0 {
        assert((-nanos) / nanos_per_day() == 0) by (nonlinear_arith)
            requires
                0 < -nanos < nanos_per_day(),
        ;
    } else {
        assert(nanos / nanos_per_day() >= 0) by (nonlinear_arith)
            requires
                nanos >= 0,
                nanos_per_day() > 0,
        ;
    }
}

/// Fewer than `days` whole days have gone by exactly while less than `days`
/// times a day's nanoseconds has.
pub proof fn age_in_nanos(now: Instant, then: Instant, days: int)
    requires
        days > 0,
    ensures
        elapsed_days(now, then) < days <==> elapsed_nanos(now, then) < days * nanos_per_day(),
{
    let nanos = elapsed_nanos(now, then);
    let day = nanos_per_day();
    if nanos >= 0 {
        assert(nanos / day < days <==> nanos < days * day) by (nonlinear_arith)
            requires
                day > 0,
        ;
    } else {
        assert((-nanos) / day >= 0) by (nonlinear_arith)
            requires
                nanos < 0,
                day > 0,
        ;
        assert(days * day > 0) by (nonlinear_arith)
            requires
                days > 0,
                day > 0,
        ;
    }
}

/// Later means more of the time that has gone by, where every second is given
/// room for the leap second behind it.
pub proof fn later_means_more_time(a: Instant, b: Instant)
    requires
        a.valid(),
        b.valid(),
    ensures
        later(a, b) <==> a.secs * 2_000_000_000 + a.nanos > b.secs * 2_000_000_000 + b.nanos,
{
}

/// Outside leap seconds the time between two instants is their difference.
pub proof fn elapsed_is_the_difference(until: Instant, since: Instant)
    requires
        until.nanos < 1_000_000_000,
        since.nanos < 1_000_000_000,
    ensures
        elapsed_nanos(until, since) == (until.secs * 1_000_000_000 + until.nanos) - (since.secs
            * 1_000_000_000 + since.nanos),
{
}

/// From one instant to another as much time goes by as back again.
pub proof fn elapsed_is_antisymmetric(a: Instant, b: Instant)
    ensures
        elapsed_nanos(a, b) == -elapsed_nanos(b, a),
        elapsed_days(a, b) == -elapsed_days(b, a),
{
}

/// The days are the whole days of the time that has gone by: so many of them
/// fit in it, and not one more.
pub proof fn days_are_whole(until: Instant, since: Instant)
    requires
        elapsed_nanos(until, since) >= 0,
    ensures
        elapsed_days(until, since) >= 0,
        elapsed_days(until, since) * 86_400_000_000_000 <= elapsed_nanos(until, since),
        elapsed_nanos(until, since) < (elapsed_days(until, since) + 1) * 86_400_000_000_000,
{
    let nanos = elapsed_nanos(until, since);
    assert(nanos_per_day() == 86_400_000_000_000);
    assert(nanos / 86_400_000_000_000 >= 0);
}

} // verus!
