//! Instants with a UTC offset, signed spans, and the calendar arithmetic that
//! the recall features rely on.
//!
//! An [`Timestamp`] is a point on the UTC time line (nanoseconds since the Unix
//! epoch) together with the UTC offset it is displayed in. Two timestamps are
//! the same instant when their nanosecond counts agree, whatever their offsets.
use vstd::prelude::*;

verus! {

/// Nanoseconds in one second.
pub const NANOS_PER_SECOND: i128 = 1_000_000_000;

/// Seconds in one day.
pub const SECONDS_PER_DAY: i64 = 86_400;

/// Earliest supported local wall-clock second (-9999-01-01 00:00:00).
pub const MIN_LOCAL_SECOND: i64 = -377_705_116_800;

/// Latest supported local wall-clock second (9999-12-31 23:59:59).
pub const MAX_LOCAL_SECOND: i64 = 253_402_300_799;

/// Largest magnitude of a UTC offset, in seconds (25:59:59).
pub const MAX_OFFSET_SECONDS: i32 = 93_599;

/// Largest span, in nanoseconds (that of `i64::MAX` seconds
/// and 999 999 999 nanoseconds).
pub const MAX_SPAN_NANOS: i128 = 9_223_372_036_854_775_807_999_999_999;

/// Most negative span, in nanoseconds (that of `i64::MIN` seconds and
/// -999 999 999 nanoseconds).
pub const MIN_SPAN_NANOS: i128 = -9_223_372_036_854_775_808_999_999_999;

/// A point in time with the UTC offset used to display it.
#[derive(Clone, Copy, Debug, PartialEq, Eq)]
pub struct Timestamp {
    /// Nanoseconds since 1970-01-01 00:00:00 UTC.
    pub unix_nanos: i128,
    /// Offset from UTC of the local wall clock, in seconds.
    pub offset_seconds: i32,
}

/// A signed length of time, in nanoseconds.
#[derive(Clone, Copy, Debug, PartialEq, Eq)]
pub struct Span {
    pub nanos: i128,
}

/// Floor of the nanosecond count divided by one second.
pub open spec fn floor_seconds(nanos: int) -> int {
    nanos / (NANOS_PER_SECOND as int)
}

/// The local wall-clock second of an instant shown at an offset.
pub open spec fn local_second(nanos: int, offset: int) -> int {
    floor_seconds(nanos) + offset
}

/// Whether an offset is one that a UTC offset can hold.
pub open spec fn offset_ok(offset: int) -> bool {
    -(MAX_OFFSET_SECONDS as int) <= offset <= MAX_OFFSET_SECONDS as int
}

/// Whether an instant shown at an offset lies in the supported calendar range.
pub open spec fn instant_ok(nanos: int, offset: int) -> bool {
    &&& offset_ok(offset)
    &&& MIN_LOCAL_SECOND as int <= local_second(nanos, offset) <= MAX_LOCAL_SECOND as int
}

impl Timestamp {
    /// Well-formedness: the offset is a valid UTC offset and the local wall
    /// clock lies within the supported calendar range.
    pub open spec fn wf(self) -> bool {
        instant_ok(self.unix_nanos as int, self.offset_seconds as int)
    }

    /// The instant moved by `nanos`, in the same offset.
    pub open spec fn shifted(self, nanos: int) -> Timestamp {
        Timestamp { unix_nanos: (self.unix_nanos + nanos) as i128, offset_seconds: self.offset_seconds }
    }

    /// Creates a timestamp when it lies in the supported range.
    pub fn new(unix_nanos: i128, offset_seconds: i32) -> (r: Option<Timestamp>)
        ensures
            r is Some <==> instant_ok(unix_nanos as int, offset_seconds as int),
            r matches Some(t) ==> t.unix_nanos == unix_nanos && t.offset_seconds == offset_seconds,
    {
        if offset_seconds < -MAX_OFFSET_SECONDS || offset_seconds > MAX_OFFSET_SECONDS {
            return None;
        }
        let seconds = match unix_nanos.checked_div_euclid(NANOS_PER_SECOND) {
            Some(s) => s,
            None => return None,
        };
        let local = seconds + offset_seconds as i128;
        if local < MIN_LOCAL_SECOND as i128 || local > MAX_LOCAL_SECOND as i128 {
            return None;
        }
        Some(Timestamp { unix_nanos, offset_seconds })
    }

    /// Creates a timestamp from a calendar date and wall-clock time at a UTC
    /// offset; `None` when the date, the time or the offset is invalid.
    pub fn from_civil(
        year: i32,
        month: u8,
        day: u8,
        hour: u8,
        minute: u8,
        second: u8,
        offset_seconds: i32,
    ) -> (r: Option<Timestamp>)
        ensures
            r is Some <==> (civil_unix_seconds(year, month, day, hour, minute, second) is Some
                && offset_ok(offset_seconds as int)),
            r matches Some(t) ==> t.wf() && t.offset_seconds == offset_seconds
                && t.unix_nanos as int == (civil_unix_seconds(year, month, day, hour, minute, second)->0
                    - offset_seconds) * NANOS_PER_SECOND,
    {
        if offset_seconds < -MAX_OFFSET_SECONDS || offset_seconds > MAX_OFFSET_SECONDS {
            return None;
        }
        let local = match civil_to_unix_seconds(year, month, day, hour, minute, second) {
            Some(s) => s,
            None => return None,
        };
        proof { lemma_civil_seconds_in_range(year, month, day, hour, minute, second); }
        let unix_nanos = (local as i128 - offset_seconds as i128) * NANOS_PER_SECOND;
        proof {
            let s = local as int - offset_seconds as int;
            assert(unix_nanos as int == s * 1_000_000_000);
            assert((s * 1_000_000_000) / 1_000_000_000 == s) by (nonlinear_arith);
        }
        Some(Timestamp { unix_nanos, offset_seconds })
    }

    /// Whether `self` is strictly before `other` on the time line.
    pub fn is_before(&self, other: &Timestamp) -> (r: bool)
        ensures
            r == (self.unix_nanos < other.unix_nanos),
    {
        self.unix_nanos < other.unix_nanos
    }

    /// The instant `span` later, in the same offset.
    pub fn add(&self, span: Span) -> (r: Timestamp)
        requires
            self.wf(),
            span.wf(),
            self.shifted(span.nanos as int).wf(),
        ensures
            r == self.shifted(span.nanos as int),
    {
        Timestamp { unix_nanos: self.unix_nanos + span.nanos, offset_seconds: self.offset_seconds }
    }

    /// The instant `span` earlier, in the same offset.
    pub fn sub(&self, span: Span) -> (r: Timestamp)
        requires
            self.wf(),
            span.wf(),
            self.shifted(-span.nanos).wf(),
        ensures
            r == self.shifted(-span.nanos),
    {
        Timestamp { unix_nanos: self.unix_nanos - span.nanos, offset_seconds: self.offset_seconds }
    }

    /// The span from `earlier` to `self`.
    pub fn since(&self, earlier: &Timestamp) -> (r: Span)
        requires
            self.wf(),
            earlier.wf(),
        ensures
            r.nanos == self.unix_nanos - earlier.unix_nanos,
            r.wf(),
    {
        proof { lemma_wf_nanos_bounds(*self); lemma_wf_nanos_bounds(*earlier); }
        Span { nanos: self.unix_nanos - earlier.unix_nanos }
    }
}

/// Bounds on the nanosecond count of a well-formed timestamp.
pub proof fn lemma_wf_nanos_bounds(t: Timestamp)
    requires
        t.wf(),
    ensures
        -400_000_000_000 * NANOS_PER_SECOND <= t.unix_nanos <= 300_000_000_000 * NANOS_PER_SECOND,
{
    let s = floor_seconds(t.unix_nanos as int);
    assert(s * 1_000_000_000 <= t.unix_nanos < s * 1_000_000_000 + 1_000_000_000) by {
        let n = t.unix_nanos as int;
        assert(n == (n / 1_000_000_000) * 1_000_000_000 + n % 1_000_000_000);
    }
    assert(-377_705_116_800 - 93_599 <= s <= 253_402_300_799 + 93_599);
    assert(s * 1_000_000_000 >= -400_000_000_000 * 1_000_000_000) by (nonlinear_arith)
        requires s >= -400_000_000_000;
    assert((s + 1) * 1_000_000_000 <= 300_000_000_000 * 1_000_000_000) by (nonlinear_arith)
        requires s + 1 <= 300_000_000_000;
}

impl Span {
    /// Well-formedness: the span fits the range of a time span.
    pub open spec fn wf(self) -> bool {
        MIN_SPAN_NANOS <= self.nanos <= MAX_SPAN_NANOS
    }

    /// A span of whole seconds.
    pub fn seconds(seconds: i64) -> (r: Span)
        ensures
            r.nanos == seconds * NANOS_PER_SECOND,
            r.wf(),
    {
        proof {
            let x = seconds as int;
            assert(-9_223_372_036_854_775_808 * 1_000_000_000 <= x * 1_000_000_000 <= 9_223_372_036_854_775_807 * 1_000_000_000)
                by (nonlinear_arith)
                requires -9_223_372_036_854_775_808 <= x <= 9_223_372_036_854_775_807;
        }
        Span { nanos: seconds as i128 * NANOS_PER_SECOND }
    }

    /// A span of whole minutes.
    pub fn minutes(minutes: i64) -> (r: Span)
        requires
            i64::MIN <= minutes * 60 <= i64::MAX,
        ensures
            r.nanos == minutes * 60 * NANOS_PER_SECOND,
            r.wf(),
    {
        Span::seconds(minutes * 60)
    }

    /// A span of whole hours.
    pub fn hours(hours: i64) -> (r: Span)
        requires
            i64::MIN <= hours * 3600 <= i64::MAX,
        ensures
            r.nanos == hours * 3600 * NANOS_PER_SECOND,
            r.wf(),
    {
        Span::seconds(hours * 3600)
    }

    /// A span of whole days.
    pub fn days(days: i64) -> (r: Span)
        requires
            i64::MIN <= days * 86400 <= i64::MAX,
        ensures
            r.nanos == days * 86400 * NANOS_PER_SECOND,
            r.wf(),
    {
        Span::seconds(days * 86400)
    }

    /// A span of nanoseconds.
    pub fn nanoseconds(nanos: i64) -> (r: Span)
        ensures
            r.nanos == nanos,
            r.wf(),
    {
        Span { nanos: nanos as i128 }
    }

    /// Whether the span is negative.
    pub fn is_negative(&self) -> (r: bool)
        ensures
            r == (self.nanos < 0),
    {
        self.nanos < 0
    }

    /// Whether the span is zero.
    pub fn is_zero(&self) -> (r: bool)
        ensures
            r == (self.nanos == 0),
    {
        self.nanos == 0
    }

    /// The number of whole seconds, rounded toward zero.
    pub fn whole_seconds(&self) -> (r: i128)
        requires
            self.wf(),
        ensures
            r == whole_seconds_of(self.nanos as int),
    {
        if self.nanos >= 0 {
            self.nanos / NANOS_PER_SECOND
        } else {
            -((-self.nanos) / NANOS_PER_SECOND)
        }
    }
}

/// Whole seconds of a span, rounded toward zero.
pub open spec fn whole_seconds_of(nanos: int) -> int {
    if nanos >= 0 {
        nanos / (NANOS_PER_SECOND as int)
    } else {
        -((-nanos) / (NANOS_PER_SECOND as int))
    }
}

/// Whether a year is a leap year of the Gregorian calendar.
pub open spec fn is_leap_year(year: int) -> bool {
    (year % 4 == 0 && year % 100 != 0) || year % 400 == 0
}

/// The number of days in a month (1 to 12) of a year.
pub open spec fn days_in_month(year: int, month: int) -> int {
    if month == 2 {
        if is_leap_year(year) { 29 } else { 28 }
    } else if month == 4 || month == 6 || month == 9 || month == 11 {
        30
    } else {
        31
    }
}

/// Whether a calendar date exists and lies in the years -9999 to 9999.
pub open spec fn civil_date_ok(year: int, month: int, day: int) -> bool {
    &&& -9999 <= year <= 9999
    &&& 1 <= month <= 12
    &&& 1 <= day <= days_in_month(year, month)
}

/// The number of days from 1970-01-01 to a date of the proleptic Gregorian
/// calendar. Years are counted from March, so that the leap day ends a year:
/// a 400-year era has 146 097 days, and 0000-03-01 is 719 468 days before the
/// epoch.
pub open spec fn days_from_civil(year: int, month: int, day: int) -> int {
    let y = if month <= 2 { year - 1 } else { year };
    let era = y / 400;
    let year_of_era = y - era * 400;
    let month_from_march = if month > 2 { month - 3 } else { month + 9 };
    let day_of_year = (153 * month_from_march + 2) / 5 + day - 1;
    let day_of_era = year_of_era * 365 + year_of_era / 4 - year_of_era / 100 + day_of_year;
    era * 146097 + day_of_era - 719468
}

/// The second since the epoch at which a civil date and time falls when read
/// as UTC, or `None` when the date does not exist (or lies outside the years
/// -9999 to 9999) or the time is not one of a day.
pub open spec fn civil_unix_seconds(year: i32, month: u8, day: u8, hour: u8, minute: u8, second: u8) -> Option<i64> {
    if civil_date_ok(year as int, month as int, day as int) && hour < 24 && minute < 60 && second < 60 {
        Some((days_from_civil(year as int, month as int, day as int) * 86400 + hour * 3600 + minute * 60
            + second) as i64)
    } else {
        None
    }
}

/// The day count of a supported date, and so the second of a supported civil
/// date and time, lies within the supported calendar range.
pub proof fn lemma_civil_seconds_in_range(year: i32, month: u8, day: u8, hour: u8, minute: u8, second: u8)
    requires
        civil_unix_seconds(year, month, day, hour, minute, second) is Some,
    ensures
        -4_371_587 <= days_from_civil(year as int, month as int, day as int) <= 2_932_896,
        MIN_LOCAL_SECOND <= civil_unix_seconds(year, month, day, hour, minute, second)->0 <= MAX_LOCAL_SECOND,
        civil_unix_seconds(year, month, day, hour, minute, second)->0
            == days_from_civil(year as int, month as int, day as int) * 86400 + hour * 3600 + minute * 60 + second,
{
    let (yr, m, d) = (year as int, month as int, day as int);
    let y = if m <= 2 { yr - 1 } else { yr };
    let era = y / 400;
    let yoe = y - era * 400;
    let mp = if m > 2 { m - 3 } else { m + 9 };
    let doy = (153 * mp + 2) / 5 + d - 1;
    assert(y == era * 400 + yoe && 0 <= yoe < 400) by {
        assert(y == (y / 400) * 400 + y % 400);
    }
    assert(-25 <= era <= 24);
    assert(0 <= doy <= 365);
    assert(m > 2 ==> doy <= 305);
    assert(m <= 2 ==> doy >= 306);
    assert(0 <= yoe / 4 - yoe / 100 <= 99);
    let f = era * 146097 + yoe * 365 + yoe / 4 - yoe / 100;
    assert(f == 365 * y + 97 * era + yoe / 4 - yoe / 100);
    if y == -10000 {
        assert(era == -25 && yoe == 0);
    }
    if y == 9999 {
        assert(era == 24 && yoe == 399);
    }
    let days = days_from_civil(yr, m, d);
    assert(-4_371_587 <= days <= 2_932_896);
    let total = days * 86400 + hour * 3600 + minute * 60 + second;
    assert(-4_371_587 * 86400 <= days * 86400 <= 2_932_896 * 86400) by (nonlinear_arith)
        requires -4_371_587 <= days <= 2_932_896;
    assert(MIN_LOCAL_SECOND <= total <= MAX_LOCAL_SECOND);
}

/// The number of days in a month of a year, for a year in -9999 to 9999 and
/// a month in 1 to 12.
fn month_length(year: i32, month: u8) -> (r: u8)
    requires
        -9999 <= year <= 9999,
        1 <= month <= 12,
    ensures
        r == days_in_month(year as int, month as int),
{
    if month == 2 {
        // The calendar repeats every 400 years, so the shifted year is a leap
        // year exactly when the year is.
        let shifted = (year + 10000) as u32;
        proof {
            let y = year as int;
            assert(shifted as int == y + 10000);
            assert((y + 10000) % 4 == y % 4 && (y + 10000) % 100 == y % 100 && (y + 10000) % 400 == y % 400);
        }
        if (shifted % 4 == 0 && shifted % 100 != 0) || shifted % 400 == 0 { 29 } else { 28 }
    } else if month == 4 || month == 6 || month == 9 || month == 11 {
        30
    } else {
        31
    }
}

/// The second since the epoch of a date and wall-clock time read as UTC, or
/// `None` when the date does not exist in the years -9999 to 9999 or the
/// time is not one of a day.
fn civil_to_unix_seconds(year: i32, month: u8, day: u8, hour: u8, minute: u8, second: u8) -> (r: Option<i64>)
    ensures
        r == civil_unix_seconds(year, month, day, hour, minute, second),
{
    if year < -9999 || year > 9999 || month < 1 || month > 12 || hour >= 24 || minute >= 60 || second >= 60 {
        return None;
    }
    if day < 1 || day > month_length(year, month) {
        return None;
    }
    // Years counted from March, shifted by 25 eras so that they are never
    // negative.
    let y: i64 = if month <= 2 { year as i64 - 1 + 10000 } else { year as i64 + 10000 };
    let era: i64 = y / 400;
    let year_of_era: i64 = y - era * 400;
    let month_from_march: i64 = if month > 2 { month as i64 - 3 } else { month as i64 + 9 };
    let day_of_year: i64 = (153 * month_from_march + 2) / 5 + day as i64 - 1;
    let day_of_era: i64 = year_of_era * 365 + year_of_era / 4 - year_of_era / 100 + day_of_year;
    let days: i64 = (era - 25) * 146097 + day_of_era - 719468;
    proof {
        let ys = if month <= 2 { year as int - 1 } else { year as int };
        assert(y == ys + 10000);
        assert(ys == (ys / 400) * 400 + ys % 400);
        assert(y / 400 == ys / 400 + 25 && y % 400 == ys % 400);
        assert(days == days_from_civil(year as int, month as int, day as int));
        lemma_civil_seconds_in_range(year, month, day, hour, minute, second);
    }
    Some(days * 86400 + hour as i64 * 3600 + minute as i64 * 60 + second as i64)
}

/// The width of an activity bucket in seconds.
pub const ACTIVITY_BUCKET_SECONDS: i64 = 900;

/// The start of the local quarter hour that contains an instant, shown at the
/// instant's own offset.
pub open spec fn spec_floor_to_bucket(t: Timestamp) -> Timestamp {
    let local = local_second(t.unix_nanos as int, t.offset_seconds as int);
    let bucket_local = (local / 900) * 900;
    Timestamp {
        unix_nanos: ((bucket_local - t.offset_seconds) * NANOS_PER_SECOND) as i128,
        offset_seconds: t.offset_seconds,
    }
}

/// Facts about the quarter-hour floor of a well-formed instant.
pub proof fn lemma_floor_to_bucket(t: Timestamp)
    requires
        t.wf(),
    ensures
        spec_floor_to_bucket(t).unix_nanos <= t.unix_nanos,
        t.unix_nanos < spec_floor_to_bucket(t).unix_nanos + 900 * NANOS_PER_SECOND,
        spec_floor_to_bucket(t).wf() || local_second(t.unix_nanos as int, t.offset_seconds as int) < MIN_LOCAL_SECOND + 900,
        local_second(spec_floor_to_bucket(t).unix_nanos as int, t.offset_seconds as int)
            == (local_second(t.unix_nanos as int, t.offset_seconds as int) / 900) * 900,
{
    let n = t.unix_nanos as int;
    let o = t.offset_seconds as int;
    let s = n / 1_000_000_000;
    assert(s * 1_000_000_000 <= n < s * 1_000_000_000 + 1_000_000_000) by {
        assert(n == (n / 1_000_000_000) * 1_000_000_000 + n % 1_000_000_000);
    }
    let local = s + o;
    let bl = (local / 900) * 900;
    assert(bl <= local < bl + 900) by {
        assert(local == (local / 900) * 900 + local % 900);
    }
    let bu = bl - o;
    assert(bu <= s < bu + 900);
    assert(bu * 1_000_000_000 <= s * 1_000_000_000) by (nonlinear_arith)
        requires bu <= s;
    assert(s * 1_000_000_000 + 1_000_000_000 <= bu * 1_000_000_000 + 900 * 1_000_000_000) by (nonlinear_arith)
        requires s + 1 <= bu + 900;
    assert((bu * 1_000_000_000) / 1_000_000_000 == bu) by (nonlinear_arith);
}

/// Rounds an instant down to the start of its local quarter hour, keeping its
/// offset.
pub fn floor_to_activity_bucket(value: Timestamp) -> (r: Timestamp)
    requires
        value.wf(),
        local_second(value.unix_nanos as int, value.offset_seconds as int) >= MIN_LOCAL_SECOND + 900
            || local_second(value.unix_nanos as int, value.offset_seconds as int) % 900 == 0,
    ensures
        r == spec_floor_to_bucket(value),
        r.wf(),
{
    proof { lemma_floor_to_bucket(value); lemma_wf_nanos_bounds(value); }
    let seconds = value.unix_nanos.checked_div_euclid(NANOS_PER_SECOND).unwrap();
    let local = seconds + value.offset_seconds as i128;
    let bucket_local = local.checked_div_euclid(900).unwrap() * 900;
    let bucket_unix = bucket_local - value.offset_seconds as i128;
    proof {
        assert(MIN_LOCAL_SECOND - 900 <= bucket_local <= MAX_LOCAL_SECOND);
        assert(-400_000_000_000 <= bucket_unix <= 300_000_000_000);
        assert(bucket_unix * 1_000_000_000 <= 300_000_000_000 * 1_000_000_000) by (nonlinear_arith)
            requires bucket_unix <= 300_000_000_000;
        assert(bucket_unix * 1_000_000_000 >= -400_000_000_000 * 1_000_000_000) by (nonlinear_arith)
            requires bucket_unix >= -400_000_000_000;
        if local_second(value.unix_nanos as int, value.offset_seconds as int) % 900 == 0 {
            assert(local == (local / 900) * 900 + local % 900);
        }
    }
    Timestamp { unix_nanos: bucket_unix * NANOS_PER_SECOND, offset_seconds: value.offset_seconds }
}

/// The local wall-clock second of a timestamp.
pub fn local_wall_second(value: &Timestamp) -> (r: i64)
    requires
        value.wf(),
    ensures
        r == local_second(value.unix_nanos as int, value.offset_seconds as int),
{
    proof { lemma_wf_nanos_bounds(*value); }
    let seconds = value.unix_nanos.checked_div_euclid(NANOS_PER_SECOND).unwrap();
    (seconds + value.offset_seconds as i128) as i64
}

/// Two ASCII digits for a number below one hundred.
pub open spec fn two_digits(n: int) -> Seq<char> {
    seq![(('0' as int) + n / 10) as char, (('0' as int) + n % 10) as char]
}

/// The `HH:MM` wall-clock reading of an instant in its own offset.
pub open spec fn spec_clock_text(t: Timestamp) -> Seq<char> {
    let of_day = local_second(t.unix_nanos as int, t.offset_seconds as int) % 86400;
    two_digits(of_day / 3600) + seq![':'] + two_digits((of_day % 3600) / 60)
}

/// Formats the local hour and minute of an instant as `HH:MM`.
pub fn format_clock(value: &Timestamp) -> (r: String)
    requires
        value.wf(),
    ensures
        r@ == spec_clock_text(*value),
{
    let local = local_wall_second(value);
    let of_day = local.checked_rem_euclid(SECONDS_PER_DAY).unwrap();
    let hour = of_day / 3600;
    let minute = (of_day % 3600) / 60;
    let mut text = String::new();
    crate::text::push_char(&mut text, digit_char(hour / 10));
    crate::text::push_char(&mut text, digit_char(hour % 10));
    crate::text::push_char(&mut text, ':');
    crate::text::push_char(&mut text, digit_char(minute / 10));
    crate::text::push_char(&mut text, digit_char(minute % 10));
    proof {
        assert(text@ =~= spec_clock_text(*value));
    }
    text
}

/// The ASCII digit for a value below ten.
pub fn digit_char(d: i64) -> (c: char)
    requires
        0 <= d < 10,
    ensures
        c == (('0' as int) + d) as char,
{
    if d == 0 { '0' }
    else if d == 1 { '1' }
    else if d == 2 { '2' }
    else if d == 3 { '3' }
    else if d == 4 { '4' }
    else if d == 5 { '5' }
    else if d == 6 { '6' }
    else if d == 7 { '7' }
    else if d == 8 { '8' }
    else { '9' }
}

/// The local midnight that starts a calendar day and the one that ends it,
/// at a UTC offset.
pub open spec fn spec_local_day(local_midnight: int, offset: int) -> (Timestamp, Timestamp) {
    (
        Timestamp { unix_nanos: ((local_midnight - offset) * NANOS_PER_SECOND) as i128, offset_seconds: offset as i32 },
        Timestamp { unix_nanos: ((local_midnight + 86400 - offset) * NANOS_PER_SECOND) as i128, offset_seconds: offset as i32 },
    )
}

/// The start of a calendar day and of the day after it, at a UTC offset.
/// `None` when the date or offset is invalid, or the date is the last one
/// that the calendar supports (it has no next day).
pub fn local_day_bounds(year: i32, month: u8, day: u8, offset_seconds: i32) -> (r: Option<(Timestamp, Timestamp)>)
    ensures
        r is Some <==> (civil_unix_seconds(year, month, day, 0, 0, 0) is Some
            && offset_ok(offset_seconds as int)
            && civil_unix_seconds(year, month, day, 0, 0, 0)->0 + 86400 <= MAX_LOCAL_SECOND),
        r matches Some(b) ==> b == spec_local_day(civil_unix_seconds(year, month, day, 0, 0, 0)->0 as int, offset_seconds as int)
            && b.0.wf() && b.1.wf(),
{
    if offset_seconds < -MAX_OFFSET_SECONDS || offset_seconds > MAX_OFFSET_SECONDS {
        return None;
    }
    let midnight = match civil_to_unix_seconds(year, month, day, 0, 0, 0) {
        Some(s) => s,
        None => return None,
    };
    proof { lemma_civil_seconds_in_range(year, month, day, 0, 0, 0); }
    if midnight > MAX_LOCAL_SECOND - SECONDS_PER_DAY {
        return None;
    }
    let start_unix = midnight as i128 - offset_seconds as i128;
    let end_unix = start_unix + SECONDS_PER_DAY as i128;
    proof {
        assert((start_unix * 1_000_000_000) / 1_000_000_000 == start_unix) by (nonlinear_arith);
        assert((end_unix * 1_000_000_000) / 1_000_000_000 == end_unix) by (nonlinear_arith);
    }
    Some((
        Timestamp { unix_nanos: start_unix * NANOS_PER_SECOND, offset_seconds },
        Timestamp { unix_nanos: end_unix * NANOS_PER_SECOND, offset_seconds },
    ))
}

} // verus!
