//! Calendar days and instants.
//!
//! A calendar day is a day number counted from 0001-01-01 (day 1), the same
//! numbering chrono uses for `num_days_from_ce`. An instant is a Unix
//! timestamp with nanoseconds and the UTC offset it was recorded in.

use chrono::Datelike;
use vstd::prelude::*;

verus! {

/// Number of the earliest calendar day that chrono can represent.
pub const DAY_MIN: i32 = -95746129;

/// Number of the latest calendar day that chrono can represent.
pub const DAY_MAX: i32 = 95745399;

/// Day number of 1970-01-01.
pub const UNIX_EPOCH_DAY: i64 = 719163;

pub const SECS_PER_DAY: i64 = 86400;

pub const NANOS_PER_SEC: u32 = 1_000_000_000;

pub open spec fn day_in_range(day: int) -> bool {
    DAY_MIN <= day <= DAY_MAX
}

/// Day of the week of a day number, Monday = 0 ... Sunday = 6.
pub open spec fn spec_weekday(day: int) -> int {
    (day - 1) % 7
}

pub open spec fn spec_is_weekend(day: int) -> bool {
    spec_weekday(day) >= 5
}

/// Calendar day of a Unix timestamp as seen at a UTC offset (in seconds).
pub open spec fn spec_day_of(secs: int, offset: int) -> int {
    (secs + offset) / (SECS_PER_DAY as int) + UNIX_EPOCH_DAY
}

/// Division rounding toward zero, as Rust's `/` on signed integers does.
pub open spec fn trunc_div(a: int, b: int) -> int
    recommends
        b > 0,
{
    if a >= 0 {
        a / b
    } else {
        -((-a) / b)
    }
}

/// The calendar day of the instant `secs` seen at UTC offset `offset`,
/// as a day number.
fn day_of(secs: i64, offset: i32) -> (day: i32)
    requires
        -86400 < offset < 86400,
        day_in_range(spec_day_of(secs as int, 0)),
        day_in_range(spec_day_of(secs as int, offset as int)),
    ensures
        day == spec_day_of(secs as int, offset as int),
{
    proof {
        lemma_secs_in_range(secs as int);
        vstd::arithmetic::div_mod::lemma_hoist_over_denominator(secs + offset, 96465300, 86400);
    }
    // Shifted by a whole number of days, so that the dividend is not negative.
    let shifted: u64 = (secs + offset as i64 + 8334601920000) as u64;
    let days: i64 = (shifted / 86400) as i64;
    (days - 96465300 + UNIX_EPOCH_DAY) as i32
}

/// Day of the week, Monday = 0 ... Sunday = 6.
pub fn weekday(day: i32) -> (w: u32)
    requires
        day_in_range(day as int),
    ensures
        w == spec_weekday(day as int),
        w < 7,
{
    proof {
        vstd::arithmetic::div_mod::lemma_mod_multiples_vanish(13678020, day - 1, 7);
    }
    // Shifted by a whole number of weeks, so that the dividend is not negative.
    let shifted: u64 = (day as i64 - 1 + 95746140) as u64;
    (shifted % 7) as u32
}

/// Whether the day is a Saturday or a Sunday.
pub fn is_weekend(day: i32) -> (b: bool)
    requires
        day_in_range(day as int),
    ensures
        b == spec_is_weekend(day as int),
{
    weekday(day) >= 5
}

/// An instant: seconds and nanoseconds since the Unix epoch, and the UTC
/// offset (in seconds) it was recorded in.
#[derive(Clone, Copy, Debug)]
pub struct Timestamp {
    pub secs: i64,
    pub nanos: u32,
    pub offset: i32,
}

impl Timestamp {
    /// The instant can be represented by chrono both in UTC and at its
    /// offset.
    pub open spec fn wf(&self) -> bool {
        &&& self.nanos < NANOS_PER_SEC
        &&& -86400 < self.offset < 86400
        &&& day_in_range(spec_day_of(self.secs as int, 0))
        &&& day_in_range(spec_day_of(self.secs as int, self.offset as int))
    }

    /// Nanoseconds since the Unix epoch: the order of instants.
    pub open spec fn instant(&self) -> int {
        self.secs * (NANOS_PER_SEC as int) + self.nanos
    }

    /// Calendar day of the instant at its own offset.
    pub open spec fn spec_local_day(&self) -> int {
        spec_day_of(self.secs as int, self.offset as int)
    }

    /// Calendar day of the instant in UTC.
    pub open spec fn spec_utc_day(&self) -> int {
        spec_day_of(self.secs as int, 0)
    }

    /// Calendar day of the instant at its own offset.
    pub fn local_day(&self) -> (day: i32)
        requires
            self.wf(),
        ensures
            day == self.spec_local_day(),
            day_in_range(day as int),
    {
        day_of(self.secs, self.offset)
    }

    /// Calendar day of the instant in UTC.
    pub fn utc_day(&self) -> (day: i32)
        requires
            self.wf(),
        ensures
            day == self.spec_utc_day(),
            day_in_range(day as int),
    {
        day_of(self.secs, 0)
    }

    /// Whether `self` is strictly earlier than `other`.
    pub fn is_before(&self, other: &Timestamp) -> (b: bool)
        requires
            self.nanos < NANOS_PER_SEC,
            other.nanos < NANOS_PER_SEC,
        ensures
            b == (self.instant() < other.instant()),
    {
        proof {
            lemma_instant_order(self.secs as int, self.nanos as int, other.secs as int, other.nanos as int);
        }
        self.secs < other.secs || (self.secs == other.secs && self.nanos < other.nanos)
    }
}

/// Instants order first by seconds, then by nanoseconds.
pub proof fn lemma_instant_order(s1: int, n1: int, s2: int, n2: int)
    requires
        0 <= n1 < NANOS_PER_SEC,
        0 <= n2 < NANOS_PER_SEC,
    ensures
        (s1 * (NANOS_PER_SEC as int) + n1 < s2 * (NANOS_PER_SEC as int) + n2) <==> (s1 < s2 || (s1 == s2 && n1 < n2)),
        (s1 * (NANOS_PER_SEC as int) + n1 == s2 * (NANOS_PER_SEC as int) + n2) <==> (s1 == s2 && n1 == n2),
{
    if s1 < s2 {
        assert(s1 * 1000000000 + 1000000000 <= s2 * 1000000000) by (nonlinear_arith)
            requires s1 < s2;
    } else if s1 > s2 {
        assert(s2 * 1000000000 + 1000000000 <= s1 * 1000000000) by (nonlinear_arith)
            requires s2 < s1;
    }
}

/// `chrono::Utc::now`: the current instant, in UTC.
#[verifier::external_body]
pub(crate) fn utc_now() -> (t: Timestamp)
    ensures
        t.wf(),
        t.offset == 0,
{
    let now = chrono::Utc::now();
    Timestamp { secs: now.timestamp(), nanos: now.timestamp_subsec_nanos(), offset: 0 }
}

/// Division of `a` by a positive `d`, rounding toward zero.
fn div_toward_zero(a: i128, d: i128) -> (q: i128)
    requires
        d > 0,
        a > i128::MIN,
    ensures
        q == trunc_div(a as int, d as int),
{
    if a >= 0 {
        a / d
    } else {
        -((-a) / d)
    }
}

/// The whole minutes from `earlier` to `later`, as `chrono::TimeDelta`
/// counts them: whole seconds rounded toward zero, then whole minutes
/// rounded toward zero.
pub(crate) fn minutes_between(later: Timestamp, earlier: Timestamp) -> (m: i64)
    requires
        later.wf(),
        earlier.wf(),
    ensures
        m == trunc_div(trunc_div(later.instant() - earlier.instant(), NANOS_PER_SEC as int), 60),
{
    let s = seconds_between(later, earlier);
    proof {
        lemma_trunc_div_bound(s as int, 60);
    }
    div_toward_zero(s as i128, 60) as i64
}

/// `|trunc_div(a, d)| <= |a|` for a positive `d`.
proof fn lemma_trunc_div_bound(a: int, d: int)
    requires
        d > 0,
    ensures
        a >= 0 ==> 0 <= trunc_div(a, d) <= a,
        a < 0 ==> a <= trunc_div(a, d) <= 0,
{
    if a >= 0 {
        assert(a / d <= a) by (nonlinear_arith)
            requires a >= 0, d > 0;
        assert(a / d >= 0) by (nonlinear_arith)
            requires a >= 0, d > 0;
    } else {
        assert((-a) / d <= -a) by (nonlinear_arith)
            requires -a > 0, d > 0;
        assert((-a) / d >= 0) by (nonlinear_arith)
            requires -a > 0, d > 0;
    }
}

/// The whole seconds from `earlier` to `later`, rounded toward zero, as
/// `chrono::DateTime::signed_duration_since` and `TimeDelta::num_seconds`
/// count them.
pub(crate) fn seconds_between(later: Timestamp, earlier: Timestamp) -> (s: i64)
    requires
        later.wf(),
        earlier.wf(),
    ensures
        s == trunc_div(later.instant() - earlier.instant(), NANOS_PER_SEC as int),
{
    proof {
        lemma_secs_in_range(later.secs as int);
        lemma_secs_in_range(earlier.secs as int);
    }
    let ds: i128 = later.secs as i128 - earlier.secs as i128;
    let dn: i128 = later.nanos as i128 - earlier.nanos as i128;
    let d: i128 = ds * 1000000000 + dn;
    assert(d == later.instant() - earlier.instant());
    let q = div_toward_zero(d, 1000000000);
    proof {
        lemma_trunc_div_bound(d as int, 1000000000);
        let dd = d as int;
        if dd >= 0 {
            assert(dd / 1000000000 <= 17000000000000) by (nonlinear_arith)
                requires 0 <= dd <= 17000000000000000000000;
        } else {
            assert((-dd) / 1000000000 <= 17000000000000) by (nonlinear_arith)
                requires 0 < -dd <= 17000000000000000000000;
        }
    }
    q as i64
}

impl Timestamp {
    pub open spec fn spec_whole_second(self) -> Timestamp {
        Timestamp { secs: self.secs, nanos: 0, offset: self.offset }
    }

    /// The same instant without its fraction of a second.
    #[verifier::when_used_as_spec(spec_whole_second)]
    pub fn whole_second(self) -> (t: Timestamp)
        ensures
            t == self.spec_whole_second(),
            self.wf() ==> t.wf(),
    {
        Timestamp { secs: self.secs, nanos: 0, offset: self.offset }
    }
}


/// The earliest second, since the Unix epoch, that chrono can represent.
pub const SECS_MIN: i64 = -8334601228800;

/// The latest second, since the Unix epoch, that chrono can represent.
pub const SECS_MAX: i64 = 8210266876799;

/// The seconds chrono can represent are those of its calendar days.
pub proof fn lemma_secs_in_range(secs: int)
    ensures
        day_in_range(spec_day_of(secs, 0)) <==> SECS_MIN <= secs <= SECS_MAX,
{
    let q = secs / 86400;
    assert(0 <= secs - q * 86400 < 86400);
    if SECS_MIN <= secs <= SECS_MAX {
        assert(q >= -96465292 && q <= 95026236) by (nonlinear_arith)
            requires
                0 <= secs - q * 86400 < 86400,
                -8334601228800 <= secs <= 8210266876799,
        ;
    } else {
        assert(q < -96465292 || q > 95026236) by (nonlinear_arith)
            requires
                0 <= secs - q * 86400 < 86400,
                secs < -8334601228800 || secs > 8210266876799,
        ;
    }
}

/// The instant `offset_seconds` after `now` in UTC, or `now` itself without
/// an offset; `None` where the shifted instant is outside chrono's range.
pub fn shift_by(now: Timestamp, offset_seconds: Option<i64>) -> (r: Option<Timestamp>)
    requires
        now.wf(),
        now.offset == 0,
    ensures
        match offset_seconds {
            None => r == Some(now),
            Some(o) => match r {
                Some(t) => t.secs == now.secs + o && t.nanos == now.nanos && t.offset == 0 && t.wf(),
                None => !day_in_range(spec_day_of(now.secs + o, 0)),
            },
        },
{
    match offset_seconds {
        None => Some(now),
        Some(o) => {
            proof {
                lemma_secs_in_range(now.secs + o);
                lemma_secs_in_range(now.secs as int);
            }
            if o < SECS_MIN - SECS_MAX || o > SECS_MAX - SECS_MIN {
                return None;
            }
            let secs = now.secs + o;
            if secs < SECS_MIN || secs > SECS_MAX {
                None
            } else {
                Some(Timestamp { secs, nanos: now.nanos, offset: 0 })
            }
        },
    }
}

/// The current instant in UTC, shifted by `offset_seconds` where one is
/// set (the clock of a test run); `None` where the shifted instant is
/// outside chrono's range.
pub fn now_at_offset(offset_seconds: Option<i64>) -> (r: Option<Timestamp>)
    ensures
        exists|now: Timestamp|
            #![trigger now.wf()]
            now.wf() && now.offset == 0 && match offset_seconds {
                None => r == Some(now),
                Some(o) => match r {
                    Some(t) => t.secs == now.secs + o && t.nanos == now.nanos && t.offset == 0 && t.wf(),
                    None => !day_in_range(spec_day_of(now.secs + o, 0)),
                },
            },
{
    let now = utc_now();
    let r = shift_by(now, offset_seconds);
    proof {
        if let Some(o) = offset_seconds {
            if r is None {
                assert(!day_in_range(spec_day_of(now.secs + o, 0)));
            }
        }
    }
    r
}


impl Timestamp {
    /// The instant with these parts, where chrono can represent it both in
    /// UTC and at its offset.
    pub fn checked(secs: i64, nanos: u32, offset: i32) -> (r: Option<Timestamp>)
        ensures
            match r {
                Some(t) => t.secs == secs && t.nanos == nanos && t.offset == offset && t.wf(),
                None => !(Timestamp { secs, nanos, offset }).wf(),
            },
    {
        proof {
            lemma_secs_in_range(secs as int);
            lemma_secs_in_range(secs + offset);
        }
        if nanos >= NANOS_PER_SEC || offset <= -86400 || offset >= 86400 {
            return None;
        }
        if secs < SECS_MIN || secs > SECS_MAX {
            return None;
        }
        let local = secs + offset as i64;
        if local < SECS_MIN || local > SECS_MAX {
            return None;
        }
        Some(Timestamp { secs, nanos, offset })
    }

    /// Midnight UTC at the start of a calendar day.
    pub fn midnight_utc(day: i32) -> (t: Timestamp)
        requires
            day_in_range(day as int),
        ensures
            t.secs == (day - UNIX_EPOCH_DAY) * SECS_PER_DAY,
            t.nanos == 0,
            t.offset == 0,
            t.wf(),
            t.spec_utc_day() == day,
    {
        let secs = (day as i64 - UNIX_EPOCH_DAY) * SECS_PER_DAY;
        proof {
            assert(secs as int / 86400 == day - UNIX_EPOCH_DAY) by (nonlinear_arith)
                requires
                    secs == (day - 719163) * 86400,
            ;
        }
        Timestamp { secs, nanos: 0, offset: 0 }
    }
}

/// An instant as chrono parses it: Unix seconds, nanoseconds (a leap second
/// shows as nanoseconds of a billion or more) and the UTC offset in seconds.
pub type ParsedInstant = (i64, u32, i32);

/// What `chrono::DateTime::parse_from_rfc3339` makes of a text.
pub uninterp spec fn spec_parse_rfc3339(s: Seq<char>) -> Option<ParsedInstant>;

/// What `chrono::DateTime::parse_from_str` with `%Y-%m-%dT%H:%M:%S%z`
/// makes of a text.
pub uninterp spec fn spec_parse_offset_datetime(s: Seq<char>) -> Option<ParsedInstant>;

/// What `chrono::NaiveDate::parse_from_str` with `%Y-%m-%d` makes of a
/// text, as a day number.
pub uninterp spec fn spec_parse_date(s: Seq<char>) -> Option<i32>;

/// `chrono::DateTime::parse_from_rfc3339`, the result taken apart.
#[verifier::external_body]
pub(crate) fn parse_rfc3339(s: &str) -> (r: Option<ParsedInstant>)
    ensures
        r == spec_parse_rfc3339(s@),
{
    match chrono::DateTime::parse_from_rfc3339(s) {
        Ok(t) => Some((t.timestamp(), t.timestamp_subsec_nanos(), t.offset().local_minus_utc())),
        Err(_) => None,
    }
}

/// `chrono::DateTime::parse_from_str` with the format
/// `%Y-%m-%dT%H:%M:%S%z`, the result taken apart.
#[verifier::external_body]
pub(crate) fn parse_offset_datetime(s: &str) -> (r: Option<ParsedInstant>)
    ensures
        r == spec_parse_offset_datetime(s@),
{
    match chrono::DateTime::parse_from_str(s, "%Y-%m-%dT%H:%M:%S%z") {
        Ok(t) => Some((t.timestamp(), t.timestamp_subsec_nanos(), t.offset().local_minus_utc())),
        Err(_) => None,
    }
}

/// `chrono::NaiveDate::parse_from_str` with the format `%Y-%m-%d`, as a
/// day number; a `NaiveDate` always lies in chrono's range of days.
#[verifier::external_body]
pub(crate) fn parse_date(s: &str) -> (r: Option<i32>)
    ensures
        r == spec_parse_date(s@),
        r matches Some(d) ==> day_in_range(d as int),
{
    match chrono::NaiveDate::parse_from_str(s, "%Y-%m-%d") {
        Ok(d) => Some(d.num_days_from_ce()),
        Err(_) => None,
    }
}


/// The current day in UTC, shifted by `offset_seconds` where one is set;
/// `None` where the shifted instant is outside chrono's range.
pub fn today_at_offset(offset_seconds: Option<i64>) -> (r: Option<i32>)
    ensures
        exists|now: Timestamp|
            #![trigger now.wf()]
            now.wf() && now.offset == 0 && match offset_seconds {
                None => r == Some(now.spec_utc_day() as i32),
                Some(o) => match r {
                    Some(d) => day_in_range(spec_day_of(now.secs + o, 0)) && d == spec_day_of(now.secs + o, 0),
                    None => !day_in_range(spec_day_of(now.secs + o, 0)),
                },
            },
{
    match now_at_offset(offset_seconds) {
        Some(t) => Some(t.utc_day()),
        None => None,
    }
}

} // verus!
