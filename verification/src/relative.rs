//! How long ago, or how far ahead, an instant is, in words: "Just now",
//! "5 minutes ago", "in 2 hours and 1 minute", and the local date and time
//! once it is a week or more away.

use vstd::prelude::*;

use crate::text::{decimal, spec_decimal};
use crate::time::{seconds_between, trunc_div, utc_now, Timestamp, NANOS_PER_SEC, SECS_MAX, SECS_MIN};

verus! {

/// From this many seconds away on, the date and time is shown.
pub const SECS_PER_WEEK: i64 = 604800;

/// The plural ending of a count: none for exactly one.
pub open spec fn spec_plural(n: int) -> Seq<char> {
    if n == 1 {
        ""@
    } else {
        "s"@
    }
}

/// `<n> <unit>` with the unit in the plural where `n` is not one.
pub open spec fn spec_count(n: nat, unit: Seq<char>) -> Seq<char> {
    spec_decimal(n) + " "@ + unit + spec_plural(n as int)
}

/// The words for an instant `secs` whole seconds in the past (or, where
/// `secs` is negative, in the future), or `None` from a week on, where the
/// local date and time is shown instead.
pub open spec fn spec_relative(secs: int) -> Option<Seq<char>> {
    let a: nat = if secs < 0 {
        (-secs) as nat
    } else {
        secs as nat
    };
    let minutes: nat = a / 60;
    let hours: nat = a / 3600;
    let days: nat = a / 86400;
    if a < 60 {
        Some("Just now"@)
    } else if a >= 604800 {
        None
    } else if secs > 0 {
        if a < 3600 {
            Some(spec_count(minutes, "minute"@) + " ago"@)
        } else if a < 86400 {
            Some(spec_count(hours, "hour"@) + " ago"@)
        } else {
            Some(spec_count(days, "day"@) + " and "@ + spec_count(hours % 24, "hour"@) + " ago"@)
        }
    } else {
        if a < 3600 {
            Some("in "@ + spec_count(minutes, "minute"@))
        } else if a < 86400 {
            Some("in "@ + spec_count(hours, "hour"@) + " and "@ + spec_count(minutes % 60, "minute"@))
        } else {
            Some(
                "in "@ + spec_count(days, "day"@) + ", "@ + spec_count(hours % 24, "hour"@) + " and "@ + spec_count(
                    minutes % 60,
                    "minute"@,
                ),
            )
        }
    }
}

/// `n` followed by a space, the unit and, unless `n` is one, an `s`.
pub open spec fn counted(n: int, unit: Seq<char>) -> Seq<char> {
    spec_decimal(n as nat) + seq![' '] + unit + (if n == 1 { Seq::<char>::empty() } else { seq!['s'] })
}

/// Relative time is in words for anything less than a week away, either
/// way, and gives way to the date from a week on; under a minute either
/// way it is "Just now".
pub proof fn law_relative_words_within_a_week(secs: int)
    ensures
        spec_relative(secs) is None <==> (secs >= 604800 || secs <= -604800),
        -60 < secs < 60 ==> spec_relative(secs) == Some("Just now"@),
{
}

/// In the past, relative time counts whole minutes under an hour
/// ("5 minutes ago"), whole hours under a day ("1 hour ago"), and whole
/// days with the hours left over under a week ("4 days and 0 hours ago").
pub proof fn law_relative_past(secs: int)
    requires
        60 <= secs < 604800,
    ensures
        secs < 3600 ==> spec_relative(secs) == Some(counted(secs / 60, seq!['m', 'i', 'n', 'u', 't', 'e']) + seq![' ', 'a', 'g', 'o']),
        3600 <= secs < 86400 ==> spec_relative(secs) == Some(counted(secs / 3600, seq!['h', 'o', 'u', 'r']) + seq![' ', 'a', 'g', 'o']),
        86400 <= secs ==> spec_relative(secs) == Some(counted(secs / 86400, seq!['d', 'a', 'y']) + seq![' ', 'a', 'n', 'd', ' ']
            + counted((secs / 3600) % 24, seq!['h', 'o', 'u', 'r']) + seq![' ', 'a', 'g', 'o']),
{
    reveal_strlit("minute");
    reveal_strlit("hour");
    reveal_strlit("day");
    reveal_strlit(" ago");
    reveal_strlit(" and ");
    if secs < 3600 {
        lemma_counted(secs / 60, "minute"@);
        assert(spec_relative(secs)->Some_0 =~= counted(secs / 60, "minute"@) + " ago"@);
    } else if secs < 86400 {
        lemma_counted(secs / 3600, "hour"@);
        assert(spec_relative(secs)->Some_0 =~= counted(secs / 3600, "hour"@) + " ago"@);
    } else {
        lemma_counted(secs / 86400, "day"@);
        lemma_counted((secs / 3600) % 24, "hour"@);
        assert(spec_relative(secs)->Some_0 =~= counted(secs / 86400, "day"@) + " and "@ + counted((secs / 3600) % 24, "hour"@)
            + " ago"@);
    }
}

/// In the future, relative time counts whole minutes under an hour
/// ("in 5 minutes"), hours and minutes under a day ("in 2 hours and 5
/// minutes"), and days, hours and minutes under a week ("in 1 day, 1 hour
/// and 1 minute").
#[verifier::rlimit(40)]
pub proof fn law_relative_future(secs: int)
    requires
        -604800 < secs <= -60,
    ensures
        -3600 < secs ==> spec_relative(secs) == Some(seq!['i', 'n', ' '] + counted((-secs) / 60, seq!['m', 'i', 'n', 'u', 't', 'e'])),
        -86400 < secs <= -3600 ==> spec_relative(secs) == Some(seq!['i', 'n', ' '] + counted((-secs) / 3600, seq!['h', 'o', 'u', 'r'])
            + seq![' ', 'a', 'n', 'd', ' '] + counted(((-secs) / 60) % 60, seq!['m', 'i', 'n', 'u', 't', 'e'])),
        secs <= -86400 ==> spec_relative(secs) == Some(seq!['i', 'n', ' '] + counted((-secs) / 86400, seq!['d', 'a', 'y'])
            + seq![',', ' '] + counted(((-secs) / 3600) % 24, seq!['h', 'o', 'u', 'r']) + seq![' ', 'a', 'n', 'd', ' ']
            + counted(((-secs) / 60) % 60, seq!['m', 'i', 'n', 'u', 't', 'e'])),
{
    reveal_strlit("minute");
    reveal_strlit("hour");
    reveal_strlit("day");
    reveal_strlit(" and ");
    reveal_strlit("in ");
    reveal_strlit(", ");
    let a = -secs;
    if -3600 < secs {
        lemma_counted(a / 60, "minute"@);
        assert(spec_relative(secs)->Some_0 =~= "in "@ + counted(a / 60, "minute"@));
    } else if -86400 < secs {
        lemma_counted(a / 3600, "hour"@);
        lemma_counted((a / 60) % 60, "minute"@);
        assert(spec_relative(secs)->Some_0 =~= "in "@ + counted(a / 3600, "hour"@) + " and "@ + counted((a / 60) % 60, "minute"@));
    } else {
        lemma_counted(a / 86400, "day"@);
        lemma_counted((a / 3600) % 24, "hour"@);
        lemma_counted((a / 60) % 60, "minute"@);
        assert(spec_relative(secs)->Some_0 =~= "in "@ + counted(a / 86400, "day"@) + ", "@ + counted((a / 3600) % 24, "hour"@)
            + " and "@ + counted((a / 60) % 60, "minute"@));
    }
}

/// A count in words is the count, a space, the unit and the plural ending.
proof fn lemma_counted(n: int, unit: Seq<char>)
    requires
        n >= 0,
    ensures
        spec_count(n as nat, unit) == counted(n, unit),
{
    reveal_strlit(" ");
    reveal_strlit("s");
    reveal_strlit("");
    assert(spec_count(n as nat, unit) =~= counted(n, unit));
}

fn plural(n: u64) -> (s: &'static str)
    ensures
        s@ == spec_plural(n as int),
{
    proof {
        reveal_strlit("");
        reveal_strlit("s");
    }
    if n == 1 {
        ""
    } else {
        "s"
    }
}

fn count(n: u64, unit: &str) -> (s: String)
    ensures
        s@ == spec_count(n as nat, unit@),
{
    proof {
        reveal_strlit(" ");
    }
    let mut s = decimal(n);
    s.append(" ");
    s.append(unit);
    s.append(plural(n));
    s
}

/// The words for an instant `secs` whole seconds in the past (negative:
/// in the future); `None` from a week on.
pub fn relative_phrase(secs: i64) -> (r: Option<String>)
    ensures
        match r {
            Some(p) => spec_relative(secs as int) == Some(p@),
            None => spec_relative(secs as int) is None,
        },
        r is None <==> (secs >= SECS_PER_WEEK || secs <= -SECS_PER_WEEK),
{
    proof {
        law_relative_words_within_a_week(secs as int);
        reveal_strlit("Just now");
        reveal_strlit("minute");
        reveal_strlit("hour");
        reveal_strlit("day");
        reveal_strlit(" ago");
        reveal_strlit(" and ");
        reveal_strlit("in ");
        reveal_strlit(", ");
    }
    if secs <= -SECS_PER_WEEK || secs >= SECS_PER_WEEK {
        return None;
    }
    let a: u64 = if secs < 0 {
        (-secs) as u64
    } else {
        secs as u64
    };
    if a < 60 {
        return Some(String::from_str("Just now"));
    }
    let minutes = a / 60;
    let hours = a / 3600;
    let days = a / 86400;
    let mut s: String;
    if secs > 0 {
        if a < 3600 {
            s = count(minutes, "minute");
        } else if a < 86400 {
            s = count(hours, "hour");
        } else {
            s = count(days, "day");
            s.append(" and ");
            let h = count(hours % 24, "hour");
            s.append(h.as_str());
        }
        s.append(" ago");
    } else {
        s = String::from_str("in ");
        if a < 3600 {
            let m = count(minutes, "minute");
            s.append(m.as_str());
        } else if a < 86400 {
            let h = count(hours, "hour");
            s.append(h.as_str());
            s.append(" and ");
            let m = count(minutes % 60, "minute");
            s.append(m.as_str());
        } else {
            let d = count(days, "day");
            s.append(d.as_str());
            s.append(", ");
            let h = count(hours % 24, "hour");
            s.append(h.as_str());
            s.append(" and ");
            let m = count(minutes % 60, "minute");
            s.append(m.as_str());
        }
    }
    Some(s)
}

/// chrono's `%d.%m.%Y %H:%M` of the calendar date and time `secs` seconds
/// after 1970-01-01T00:00 (`NaiveDateTime::format`).
pub uninterp spec fn spec_dmy_hm(secs: int) -> Seq<char>;

/// The instant is far enough inside chrono's range that its local date
/// and time, at any UTC offset, can be rendered.
pub open spec fn displayable(t: Timestamp) -> bool {
    SECS_MIN + 86400 <= t.secs <= SECS_MAX - 86400
}

/// `chrono::DateTime::with_timezone(&Local)`, then `format("%d.%m.%Y
/// %H:%M")` and `offset().local_minus_utc()`: the instant's date and time
/// at the machine's UTC offset, with that offset (a `FixedOffset`, less
/// than a day either way). Which offset it is depends on the machine's
/// time zone and is not stated.
#[verifier::external_body]
fn local_display(t: Timestamp) -> (r: (String, i32))
    requires
        t.wf(),
        displayable(t),
    ensures
        -86400 < r.1 < 86400,
        r.0@ == spec_dmy_hm(t.secs + r.1),
{
    let local = chrono::DateTime::from_timestamp(t.secs, t.nanos).unwrap().with_timezone(&chrono::Local);
    (local.format("%d.%m.%Y %H:%M").to_string(), local.offset().local_minus_utc())
}

/// `s` is the date and time `secs` seconds after the Unix epoch at some
/// UTC offset of less than a day either way.
pub open spec fn local_rendering(secs: int, s: Seq<char>) -> bool {
    exists|off: int| -86400 < off < 86400 && s == #[trigger] spec_dmy_hm(secs + off)
}

/// The text for `then` seen at `now`: the words of [`spec_relative`], or
/// from a week on the local date and time at some UTC offset.
pub open spec fn relative_text(then: Timestamp, now: Timestamp, s: Seq<char>) -> bool {
    match spec_relative(spec_seconds_since(then, now)) {
        Some(p) => s == p,
        None => local_rendering(then.secs as int, s),
    }
}

/// Whole seconds from `then` to `now`, rounded toward zero.
pub open spec fn spec_seconds_since(then: Timestamp, now: Timestamp) -> int {
    trunc_div(now.instant() - then.instant(), NANOS_PER_SEC as int)
}

impl Timestamp {
    /// How long before (or after) `now` this instant is, in words; from a
    /// week on, the local date and time.
    pub fn to_relative_time_at(&self, now: Timestamp) -> (s: String)
        requires
            self.wf(),
            now.wf(),
            spec_relative(spec_seconds_since(*self, now)) is None ==> displayable(*self),
        ensures
            relative_text(*self, now, s@),
    {
        let secs = seconds_between(now, *self);
        match relative_phrase(secs) {
            Some(p) => p,
            None => {
                let (text, off) = local_display(*self);
                assert(local_rendering(self.secs as int, text@)) by {
                    assert(text@ == spec_dmy_hm(self.secs + off));
                }
                text
            },
        }
    }

    /// How long before (or after) the current time this instant is, in
    /// words; from a week on, the local date and time.
    pub fn to_relative_time(&self) -> (s: String)
        requires
            self.wf(),
            displayable(*self),
        ensures
            exists|now: Timestamp| #![trigger now.wf()] now.wf() && now.offset == 0 && relative_text(*self, now, s@),
    {
        let now = utc_now();
        self.to_relative_time_at(now)
    }
}

} // verus!
