//! The task model: priorities, time estimates, availability, status,
//! dates, the validated text fields, and the task itself.

use indexmap::IndexMap;
use vstd::prelude::*;

use crate::text::{
    spec_to_lowercase, spec_to_uppercase, spec_trim, starts_with_char, str_eq, str_to_lowercase, str_to_uppercase,
    str_trim,
};
use crate::time::{
    day_in_range, is_weekend, parse_date, parse_offset_datetime, parse_rfc3339, spec_is_weekend, spec_parse_date,
    spec_parse_offset_datetime, spec_parse_rfc3339, spec_weekday, ParsedInstant, Timestamp, DAY_MIN, SECS_PER_DAY,
    UNIX_EPOCH_DAY,
};

verus! {

// ---------------------------------------------------------------- Priority

/// Priority of a task; `A` is the most urgent.
#[derive(Clone, Copy, Debug, PartialEq, Eq, Structural)]
pub enum Priority {
    A,
    B,
    C,
}

impl Default for Priority {
    fn default() -> (p: Self)
        ensures
            p == Priority::C,
    {
        Priority::C
    }
}

/// The priority named by an already normalized (trimmed, upper-case) label.
pub open spec fn spec_priority_from_label(s: Seq<char>) -> Option<Priority> {
    if s == "A"@ {
        Some(Priority::A)
    } else if s == "B"@ {
        Some(Priority::B)
    } else if s == "C"@ {
        Some(Priority::C)
    } else {
        None
    }
}

impl Priority {
    /// Position in the urgency order: A = 0, B = 1, C = 2.
    pub open spec fn spec_rank(self) -> u8 {
        match self {
            Priority::A => 0,
            Priority::B => 1,
            Priority::C => 2,
        }
    }

    pub fn rank(self) -> (r: u8)
        ensures
            r == self.spec_rank(),
    {
        match self {
            Priority::A => 0,
            Priority::B => 1,
            Priority::C => 2,
        }
    }

    /// The upper-case letter the priority is shown as.
    pub fn label(self) -> (s: &'static str)
        ensures
            s@ == match self {
                Priority::A => "A"@,
                Priority::B => "B"@,
                Priority::C => "C"@,
            },
    {
        match self {
            Priority::A => "A",
            Priority::B => "B",
            Priority::C => "C",
        }
    }

    /// The priority named by a normalized label ("A", "B" or "C").
    pub fn from_label(s: &str) -> (p: Option<Priority>)
        ensures
            p == spec_priority_from_label(s@),
    {
        if str_eq(s, "A") {
            Some(Priority::A)
        } else if str_eq(s, "B") {
            Some(Priority::B)
        } else if str_eq(s, "C") {
            Some(Priority::C)
        } else {
            None
        }
    }

    /// Parses user input: surrounding whitespace is ignored and the letter
    /// may be given in either case.
    pub fn parse(s: &str) -> (r: Result<Priority, &'static str>)
        ensures
            match spec_priority_from_label(spec_to_uppercase(spec_trim(s@))) {
                Some(p) => r == Ok::<Priority, &'static str>(p),
                None => r.is_err() && r->Err_0@ == "priority must be A, B, or C"@,
            },
    {
        let trimmed = str_trim(s);
        let upper = str_to_uppercase(trimmed);
        match Priority::from_label(upper.as_str()) {
            Some(p) => Ok(p),
            None => Err("priority must be A, B, or C"),
        }
    }
}

// ----------------------------------------------------------- TimeEstimate

/// Rough time a task takes.
#[derive(Clone, Copy, Debug, PartialEq, Eq, Structural)]
pub enum TimeEstimate {
    Min15,
    Min30,
    Min45,
    Hours1,
    Hours2,
    HalfDay,
    Day1,
    Day2,
}

impl TimeEstimate {
    /// Position in ascending order of duration.
    pub open spec fn spec_rank(self) -> u8 {
        match self {
            TimeEstimate::Min15 => 0,
            TimeEstimate::Min30 => 1,
            TimeEstimate::Min45 => 2,
            TimeEstimate::Hours1 => 3,
            TimeEstimate::Hours2 => 4,
            TimeEstimate::HalfDay => 5,
            TimeEstimate::Day1 => 6,
            TimeEstimate::Day2 => 7,
        }
    }

    pub fn rank(self) -> (r: u8)
        ensures
            r == self.spec_rank(),
    {
        match self {
            TimeEstimate::Min15 => 0,
            TimeEstimate::Min30 => 1,
            TimeEstimate::Min45 => 2,
            TimeEstimate::Hours1 => 3,
            TimeEstimate::Hours2 => 4,
            TimeEstimate::HalfDay => 5,
            TimeEstimate::Day1 => 6,
            TimeEstimate::Day2 => 7,
        }
    }

    /// The estimate with the given rank.
    pub fn from_rank(r: u8) -> (e: TimeEstimate)
        requires
            r < 8,
        ensures
            e.spec_rank() == r,
    {
        match r {
            0 => TimeEstimate::Min15,
            1 => TimeEstimate::Min30,
            2 => TimeEstimate::Min45,
            3 => TimeEstimate::Hours1,
            4 => TimeEstimate::Hours2,
            5 => TimeEstimate::HalfDay,
            6 => TimeEstimate::Day1,
            _ => TimeEstimate::Day2,
        }
    }

    pub open spec fn spec_short_label(self) -> Seq<char> {
        match self {
            TimeEstimate::Min15 => "15m"@,
            TimeEstimate::Min30 => "30m"@,
            TimeEstimate::Min45 => "45m"@,
            TimeEstimate::Hours1 => "1h"@,
            TimeEstimate::Hours2 => "2h"@,
            TimeEstimate::HalfDay => "½d"@,
            TimeEstimate::Day1 => "1d"@,
            TimeEstimate::Day2 => "2d"@,
        }
    }

    /// Compact label, e.g. "15m" or "½d".
    pub fn short_label(self) -> (s: &'static str)
        ensures
            s@ == self.spec_short_label(),
    {
        match self {
            TimeEstimate::Min15 => "15m",
            TimeEstimate::Min30 => "30m",
            TimeEstimate::Min45 => "45m",
            TimeEstimate::Hours1 => "1h",
            TimeEstimate::Hours2 => "2h",
            TimeEstimate::HalfDay => "½d",
            TimeEstimate::Day1 => "1d",
            TimeEstimate::Day2 => "2d",
        }
    }

    pub open spec fn spec_label(self) -> Seq<char> {
        match self {
            TimeEstimate::Min15 => "15 minutes"@,
            TimeEstimate::Min30 => "30 minutes"@,
            TimeEstimate::Min45 => "45 minutes"@,
            TimeEstimate::Hours1 => "1 hour"@,
            TimeEstimate::Hours2 => "2 hours"@,
            TimeEstimate::HalfDay => "½ day"@,
            TimeEstimate::Day1 => "1 day"@,
            TimeEstimate::Day2 => "2 days"@,
        }
    }

    /// Long label, e.g. "15 minutes" or "½ day".
    pub fn label(self) -> (s: &'static str)
        ensures
            s@ == self.spec_label(),
    {
        match self {
            TimeEstimate::Min15 => "15 minutes",
            TimeEstimate::Min30 => "30 minutes",
            TimeEstimate::Min45 => "45 minutes",
            TimeEstimate::Hours1 => "1 hour",
            TimeEstimate::Hours2 => "2 hours",
            TimeEstimate::HalfDay => "½ day",
            TimeEstimate::Day1 => "1 day",
            TimeEstimate::Day2 => "2 days",
        }
    }

    pub open spec fn spec_lead_days(self) -> u32 {
        match self {
            TimeEstimate::Day1 => 1,
            TimeEstimate::Day2 => 2,
            _ => 0,
        }
    }

    /// Days needed before the due date to complete the task; sub-day
    /// estimates need none.
    pub fn lead_days(self) -> (d: u32)
        ensures
            d == self.spec_lead_days(),
    {
        match self {
            TimeEstimate::Min15 | TimeEstimate::Min30 | TimeEstimate::Min45 | TimeEstimate::Hours1
            | TimeEstimate::Hours2 | TimeEstimate::HalfDay => 0,
            TimeEstimate::Day1 => 1,
            TimeEstimate::Day2 => 2,
        }
    }

    pub open spec fn spec_from_minutes(m: int) -> TimeEstimate {
        if m < 20 {
            TimeEstimate::Min15
        } else if m < 35 {
            TimeEstimate::Min30
        } else if m < 50 {
            TimeEstimate::Min45
        } else if m < 70 {
            TimeEstimate::Hours1
        } else if m < 135 {
            TimeEstimate::Hours2
        } else if m < 740 {
            TimeEstimate::HalfDay
        } else if m < 1500 {
            TimeEstimate::Day1
        } else {
            TimeEstimate::Day2
        }
    }

    /// The estimate nearest to a duration given in whole seconds.
    pub fn from_secs(secs: u64) -> (e: TimeEstimate)
        ensures
            e == TimeEstimate::spec_from_minutes(secs as int / 60),
    {
        let m = secs / 60;
        if m < 20 {
            TimeEstimate::Min15
        } else if m < 35 {
            TimeEstimate::Min30
        } else if m < 50 {
            TimeEstimate::Min45
        } else if m < 70 {
            TimeEstimate::Hours1
        } else if m < 135 {
            TimeEstimate::Hours2
        } else if m < 740 {
            TimeEstimate::HalfDay
        } else if m < 1500 {
            TimeEstimate::Day1
        } else {
            TimeEstimate::Day2
        }
    }

    /// The estimate whose short or long label equals an already normalized
    /// (trimmed, lower-case) text.
    pub open spec fn spec_from_label(s: Seq<char>) -> Option<TimeEstimate> {
        if s == "15m"@ || s == "15 minutes"@ {
            Some(TimeEstimate::Min15)
        } else if s == "30m"@ || s == "30 minutes"@ {
            Some(TimeEstimate::Min30)
        } else if s == "45m"@ || s == "45 minutes"@ {
            Some(TimeEstimate::Min45)
        } else if s == "1h"@ || s == "1 hour"@ {
            Some(TimeEstimate::Hours1)
        } else if s == "2h"@ || s == "2 hours"@ {
            Some(TimeEstimate::Hours2)
        } else if s == "½d"@ || s == "½ day"@ {
            Some(TimeEstimate::HalfDay)
        } else if s == "1d"@ || s == "1 day"@ {
            Some(TimeEstimate::Day1)
        } else if s == "2d"@ || s == "2 days"@ {
            Some(TimeEstimate::Day2)
        } else {
            None
        }
    }

    pub fn from_label(s: &str) -> (e: Option<TimeEstimate>)
        ensures
            e == TimeEstimate::spec_from_label(s@),
    {
        if str_eq(s, "15m") || str_eq(s, "15 minutes") {
            Some(TimeEstimate::Min15)
        } else if str_eq(s, "30m") || str_eq(s, "30 minutes") {
            Some(TimeEstimate::Min30)
        } else if str_eq(s, "45m") || str_eq(s, "45 minutes") {
            Some(TimeEstimate::Min45)
        } else if str_eq(s, "1h") || str_eq(s, "1 hour") {
            Some(TimeEstimate::Hours1)
        } else if str_eq(s, "2h") || str_eq(s, "2 hours") {
            Some(TimeEstimate::Hours2)
        } else if str_eq(s, "½d") || str_eq(s, "½ day") {
            Some(TimeEstimate::HalfDay)
        } else if str_eq(s, "1d") || str_eq(s, "1 day") {
            Some(TimeEstimate::Day1)
        } else if str_eq(s, "2d") || str_eq(s, "2 days") {
            Some(TimeEstimate::Day2)
        } else {
            None
        }
    }

    /// Parses user input: surrounding whitespace is ignored, case is
    /// ignored, and both the short and the long label are accepted.
    pub fn parse(s: &str) -> (r: Result<TimeEstimate, &'static str>)
        ensures
            match TimeEstimate::spec_from_label(spec_to_lowercase(spec_trim(s@))) {
                Some(e) => r == Ok::<TimeEstimate, &'static str>(e),
                None => r.is_err() && r->Err_0@ == "unknown time estimate"@,
            },
    {
        let trimmed = str_trim(s);
        let lower = str_to_lowercase(trimmed);
        match TimeEstimate::from_label(lower.as_str()) {
            Some(e) => Ok(e),
            None => Err("unknown time estimate"),
        }
    }

    /// Reads an estimate stored as a free-text guess by older versions:
    /// what `parse` accepts, and two days for anything else.
    pub fn from_legacy_guess(s: &str) -> (e: TimeEstimate)
        ensures
            e == match TimeEstimate::spec_from_label(spec_to_lowercase(spec_trim(s@))) {
                Some(e) => e,
                None => TimeEstimate::Day2,
            },
    {
        match TimeEstimate::parse(s) {
            Ok(e) => e,
            Err(_) => TimeEstimate::Day2,
        }
    }
}

// ----------------------------------------------------------- Availability

/// On which days of the week a task can be worked on.
#[derive(Clone, Copy, Debug, PartialEq, Eq, Structural)]
pub enum Availability {
    Anytime,
    WeekdayOnly,
    WeekendOnly,
}

impl Default for Availability {
    fn default() -> (a: Self)
        ensures
            a == Availability::Anytime,
    {
        Availability::Anytime
    }
}

/// Whether the day can be worked on under the availability.
pub open spec fn spec_is_eligible(avail: Availability, day: int) -> bool {
    match avail {
        Availability::Anytime => true,
        Availability::WeekdayOnly => !spec_is_weekend(day),
        Availability::WeekendOnly => spec_is_weekend(day),
    }
}

/// The latest eligible day strictly before `day`.
pub open spec fn spec_prev_eligible(avail: Availability, day: int) -> int {
    let w = spec_weekday(day - 1);
    match avail {
        Availability::Anytime => day - 1,
        Availability::WeekdayOnly => if w == 6 {
            day - 3
        } else if w == 5 {
            day - 2
        } else {
            day - 1
        },
        Availability::WeekendOnly => if w >= 5 {
            day - 1
        } else {
            day - 2 - w
        },
    }
}

/// The `n`-th eligible day counting backward from `day` (exclusive);
/// `day` itself when `n` is zero.
pub open spec fn spec_back_eligible(avail: Availability, day: int, n: nat) -> int
    decreases n,
{
    if n == 0 {
        day
    } else {
        spec_back_eligible(avail, spec_prev_eligible(avail, day), (n - 1) as nat)
    }
}

/// `spec_prev_eligible` is the latest eligible day before `day`.
pub proof fn lemma_prev_eligible(avail: Availability, day: int)
    ensures
        spec_prev_eligible(avail, day) < day,
        spec_prev_eligible(avail, day) >= day - 7,
        spec_is_eligible(avail, spec_prev_eligible(avail, day)),
        forall|x: int| spec_prev_eligible(avail, day) < x < day ==> !spec_is_eligible(avail, x),
{
    let p = spec_prev_eligible(avail, day);
    assert(forall|x: int| day - 7 <= x < day ==> #[trigger] spec_weekday(x) == (spec_weekday(day - 1) + 7 - (day - 1 - x)) % 7);
}

/// Counting back `n` eligible days lands strictly before `day` (for `n`
/// positive), on an eligible day, at most a week per day counted.
pub proof fn lemma_back_eligible_bounds(avail: Availability, day: int, n: nat)
    ensures
        spec_back_eligible(avail, day, n) <= day,
        spec_back_eligible(avail, day, n) >= day - 7 * n,
        n > 0 ==> spec_back_eligible(avail, day, n) < day,
        n > 0 ==> spec_is_eligible(avail, spec_back_eligible(avail, day, n)),
    decreases n,
{
    if n > 0 {
        lemma_prev_eligible(avail, day);
        lemma_back_eligible_bounds(avail, spec_prev_eligible(avail, day), (n - 1) as nat);
    }
}

impl Availability {
    pub fn is_default(&self) -> (b: bool)
        ensures
            b == (*self == Availability::Anytime),
    {
        match self {
            Availability::Anytime => true,
            _ => false,
        }
    }

    /// Whether the day can be worked on under this availability.
    pub fn is_eligible(self, day: i32) -> (b: bool)
        requires
            day_in_range(day as int),
        ensures
            b == spec_is_eligible(self, day as int),
    {
        match self {
            Availability::Anytime => true,
            Availability::WeekdayOnly => !is_weekend(day),
            Availability::WeekendOnly => is_weekend(day),
        }
    }

    /// Counts back `lead` eligible days from `due` (exclusive) as
    /// [`Availability::count_back`] does, or `None` where that would leave
    /// the calendar.
    pub fn count_back_checked(self, due: i32, lead: u32) -> (r: Option<i32>)
        requires
            day_in_range(due as int),
        ensures
            match r {
                Some(day) => day == spec_back_eligible(self, due as int, lead as nat) && day_in_range(day as int),
                None => !day_in_range(spec_back_eligible(self, due as int, lead as nat)),
            },
    {
        let ghost target = spec_back_eligible(self, due as int, lead as nat);
        let mut remaining = lead;
        let mut date = due;
        while remaining > 0
            invariant
                target == spec_back_eligible(self, due as int, lead as nat),
                spec_back_eligible(self, date as int, remaining as nat) == target,
                day_in_range(date as int),
            decreases date - DAY_MIN,
        {
            if date == DAY_MIN {
                proof {
                    lemma_back_eligible_bounds(self, date as int, remaining as nat);
                }
                return None;
            }
            let ghost prev_date = date as int;
            date = date - 1;
            proof {
                lemma_prev_eligible(self, prev_date);
            }
            if self.is_eligible(date) {
                proof {
                    assert(spec_prev_eligible(self, prev_date) == date);
                }
                remaining -= 1;
            } else {
                proof {
                    lemma_prev_eligible(self, date as int);
                    assert(spec_prev_eligible(self, prev_date) == spec_prev_eligible(self, date as int)) by {
                        let p1 = spec_prev_eligible(self, prev_date);
                        let p2 = spec_prev_eligible(self, date as int);
                        if p1 < p2 {
                            assert(!spec_is_eligible(self, p2));
                        } else if p2 < p1 {
                            assert(p1 != date);
                            assert(!spec_is_eligible(self, p1));
                        }
                    }
                }
            }
        }
        Some(date)
    }

    /// Counts back `lead` eligible days from `due` (exclusive), one
    /// calendar day at a time.
    pub fn count_back(self, due: i32, lead: u32) -> (day: i32)
        requires
            day_in_range(due as int),
            day_in_range(spec_back_eligible(self, due as int, lead as nat)),
        ensures
            day == spec_back_eligible(self, due as int, lead as nat),
    {
        let ghost target = spec_back_eligible(self, due as int, lead as nat);
        proof {
            lemma_back_eligible_bounds(self, due as int, lead as nat);
        }
        let mut remaining = lead;
        let mut date = due;
        while remaining > 0
            invariant
                target == spec_back_eligible(self, due as int, lead as nat),
                day_in_range(target),
                spec_back_eligible(self, date as int, remaining as nat) == target,
                target <= date <= due,
                remaining > 0 ==> target < date,
                day_in_range(due as int),
            decreases date - target,
        {
            let ghost prev_date = date as int;
            date = date - 1;
            proof {
                lemma_prev_eligible(self, prev_date);
            }
            if self.is_eligible(date) {
                proof {
                    assert(spec_prev_eligible(self, prev_date) == date);
                }
                remaining -= 1;
            } else {
                proof {
                    lemma_prev_eligible(self, date as int);
                    assert(spec_prev_eligible(self, prev_date) == spec_prev_eligible(self, date as int)) by {
                        let p1 = spec_prev_eligible(self, prev_date);
                        let p2 = spec_prev_eligible(self, date as int);
                        if p1 < p2 {
                            assert(!spec_is_eligible(self, p2));
                        } else if p2 < p1 {
                            assert(p1 != date);
                            assert(!spec_is_eligible(self, p1));
                        }
                    }
                }
            }
            proof {
                lemma_back_eligible_bounds(self, date as int, remaining as nat);
            }
        }
        date
    }
}

// ------------------------------------------------------------ Status, Date

/// Whether a task is open or done, and since when.
#[derive(Clone, Copy, Debug)]
pub enum Status {
    ToDo { since: Timestamp },
    Done { since: Timestamp },
}

impl Status {
    pub open spec fn spec_since(self) -> Timestamp {
        match self {
            Status::ToDo { since } => since,
            Status::Done { since } => since,
        }
    }

    pub open spec fn spec_is_done(self) -> bool {
        self is Done
    }

    pub fn is_done(&self) -> (b: bool)
        ensures
            b == self.spec_is_done(),
    {
        match self {
            Status::ToDo { .. } => false,
            Status::Done { .. } => true,
        }
    }

    /// When the task reached its current status.
    pub fn since(&self) -> (t: Timestamp)
        ensures
            t == self.spec_since(),
    {
        match self {
            Status::ToDo { since } => *since,
            Status::Done { since } => *since,
        }
    }
}

/// A due or start date. `soft` marks dates that were only guessed.
#[derive(Clone, Copy, Debug)]
pub struct Date {
    pub date: Timestamp,
    pub soft: bool,
}

impl Date {
    /// The calendar day of the date, at the offset it was given in.
    pub open spec fn spec_day(self) -> int {
        self.date.spec_local_day()
    }

    /// The date of a legacy "guess" entry: the text as an RFC 3339 date
    /// and time, else as `%Y-%m-%dT%H:%M:%S%z`, else as a plain
    /// `%Y-%m-%d` date at midnight UTC; each marked soft. `None` where none
    /// of them reads it.
    pub open spec fn spec_from_legacy_guess(s: Seq<char>) -> Option<Date> {
        let accept = |p: Option<ParsedInstant>|
            p matches Some(x) && (Timestamp { secs: x.0, nanos: x.1, offset: x.2 }).wf();
        if accept(spec_parse_rfc3339(s)) {
            let x = spec_parse_rfc3339(s)->Some_0;
            Some(Date { date: Timestamp { secs: x.0, nanos: x.1, offset: x.2 }, soft: true })
        } else if accept(spec_parse_offset_datetime(s)) {
            let x = spec_parse_offset_datetime(s)->Some_0;
            Some(Date { date: Timestamp { secs: x.0, nanos: x.1, offset: x.2 }, soft: true })
        } else {
            match spec_parse_date(s) {
                Some(d) => Some(
                    Date {
                        date: Timestamp { secs: ((d - UNIX_EPOCH_DAY) * SECS_PER_DAY) as i64, nanos: 0, offset: 0 },
                        soft: true,
                    },
                ),
                None => None,
            }
        }
    }

    /// Reads the date of a legacy "guess" entry; see
    /// [`Date::spec_from_legacy_guess`].
    pub fn from_legacy_guess(s: &str) -> (r: Option<Date>)
        ensures
            r == Date::spec_from_legacy_guess(s@),
            r matches Some(d) ==> d.date.wf(),
    {
        if let Some((secs, nanos, offset)) = parse_rfc3339(s) {
            if let Some(t) = Timestamp::checked(secs, nanos, offset) {
                return Some(Date { date: t, soft: true });
            }
        }
        if let Some((secs, nanos, offset)) = parse_offset_datetime(s) {
            if let Some(t) = Timestamp::checked(secs, nanos, offset) {
                return Some(Date { date: t, soft: true });
            }
        }
        match parse_date(s) {
            Some(d) => Some(Date { date: Timestamp::midnight_utc(d), soft: true }),
            None => None,
        }
    }

    /// The date of a legacy "precise" entry: the instant itself, not soft.
    pub fn precise(date: Timestamp) -> (d: Date)
        ensures
            d.date == date,
            !d.soft,
    {
        Date { date, soft: false }
    }

    pub fn day(&self) -> (d: i32)
        requires
            self.date.wf(),
        ensures
            d == self.spec_day(),
            day_in_range(d as int),
    {
        self.date.local_day()
    }
}

// ------------------------------------------------------------ text fields

/// Name of the group a task belongs to; never empty.
#[derive(Debug)]
pub struct Category {
    name: String,
}

/// Short description of a task; never empty.
#[derive(Debug)]
pub struct Summary {
    text: String,
}

/// A situation a task needs (e.g. "@phone"); never empty, starts with '@'.
#[derive(Debug)]
pub struct Context {
    name: String,
}

impl View for Category {
    type V = Seq<char>;

    closed spec fn view(&self) -> Seq<char> {
        self.name@
    }
}

impl View for Summary {
    type V = Seq<char>;

    closed spec fn view(&self) -> Seq<char> {
        self.text@
    }
}

impl View for Context {
    type V = Seq<char>;

    closed spec fn view(&self) -> Seq<char> {
        self.name@
    }
}

impl Clone for Category {
    fn clone(&self) -> (c: Self)
        ensures
            c@ == self@,
    {
        Category { name: self.name.clone() }
    }
}

impl Clone for Summary {
    fn clone(&self) -> (c: Self)
        ensures
            c@ == self@,
    {
        Summary { text: self.text.clone() }
    }
}

impl Clone for Context {
    fn clone(&self) -> (c: Self)
        ensures
            c@ == self@,
    {
        Context { name: self.name.clone() }
    }
}

pub open spec fn spec_context_ok(s: Seq<char>) -> bool {
    s.len() > 0 && s[0] == '@'
}

impl Category {
    pub open spec fn wf(&self) -> bool {
        self@.len() > 0
    }

    /// The category of tasks that were not sorted yet: "Inbox".
    pub fn inbox() -> (c: Category)
        ensures
            c@ == "Inbox"@,
            c.wf(),
    {
        proof {
            reveal_strlit("Inbox");
        }
        Category { name: String::from_str("Inbox") }
    }

    /// A category with the given name; the name must not be empty.
    pub fn parse(s: &str) -> (r: Result<Category, &'static str>)
        ensures
            s@.len() > 0 ==> r is Ok && r->Ok_0@ == s@ && r->Ok_0.wf(),
            s@.len() == 0 ==> r is Err && r->Err_0@ == "category must not be empty"@,
    {
        if s.unicode_len() == 0 {
            Err("category must not be empty")
        } else {
            Ok(Category { name: String::from_str(s) })
        }
    }

    /// Reads a stored category: an empty name stands for the inbox.
    pub fn lenient(s: &str) -> (c: Category)
        ensures
            c@ == if s@.len() == 0 {
                "Inbox"@
            } else {
                s@
            },
            c.wf(),
    {
        match Category::parse(s) {
            Ok(c) => c,
            Err(_) => Category::inbox(),
        }
    }

    pub fn as_str(&self) -> (s: &str)
        ensures
            s@ == self@,
    {
        self.name.as_str()
    }

    /// Whether the names are the same.
    pub fn same(&self, other: &Category) -> (b: bool)
        ensures
            b == (self@ == other@),
    {
        self.name == other.name
    }

    /// Whether this name sorts before the other, as `String`s sort.
    pub fn less(&self, other: &Category) -> (b: bool)
        ensures
            b == crate::text::text_lt(self@, other@),
    {
        crate::text::text_less(self.name.as_str(), other.name.as_str())
    }
}

impl Default for Category {
    fn default() -> (c: Self)
        ensures
            c@ == "Inbox"@,
    {
        Category::inbox()
    }
}

impl Summary {
    pub open spec fn wf(&self) -> bool {
        self@.len() > 0
    }

    /// A summary with the given text; the text must not be empty.
    pub fn parse(s: &str) -> (r: Result<Summary, &'static str>)
        ensures
            s@.len() > 0 ==> r is Ok && r->Ok_0@ == s@ && r->Ok_0.wf(),
            s@.len() == 0 ==> r is Err && r->Err_0@ == "summary must not be empty"@,
    {
        if s.unicode_len() == 0 {
            Err("summary must not be empty")
        } else {
            Ok(Summary { text: String::from_str(s) })
        }
    }

    pub fn as_str(&self) -> (s: &str)
        ensures
            s@ == self@,
    {
        self.text.as_str()
    }
}

impl Context {
    pub open spec fn wf(&self) -> bool {
        spec_context_ok(self@)
    }

    /// A context with the given name; the name must not be empty and must
    /// start with '@'.
    pub fn parse(s: &str) -> (r: Result<Context, &'static str>)
        ensures
            spec_context_ok(s@) ==> r is Ok && r->Ok_0@ == s@ && r->Ok_0.wf(),
            s@.len() == 0 ==> r is Err && r->Err_0@ == "context must not be empty"@,
            s@.len() > 0 && s@[0] != '@' ==> r is Err && r->Err_0@ == "context must start with '@'"@,
    {
        if s.unicode_len() == 0 {
            Err("context must not be empty")
        } else if !crate::text::starts_with_char(s, '@') {
            Err("context must start with '@'")
        } else {
            Ok(Context { name: String::from_str(s) })
        }
    }

    pub fn as_str(&self) -> (s: &str)
        ensures
            s@ == self@,
    {
        self.name.as_str()
    }

    pub fn same(&self, other: &Context) -> (b: bool)
        ensures
            b == (self@ == other@),
    {
        self.name == other.name
    }

    /// Whether this name sorts before the other, as `String`s sort.
    pub fn less(&self, other: &Context) -> (b: bool)
        ensures
            b == crate::text::text_lt(self@, other@),
    {
        crate::text::text_less(self.name.as_str(), other.name.as_str())
    }
}

/// The names of a list of contexts.
pub open spec fn context_names(cs: Seq<Context>) -> Seq<Seq<char>> {
    cs.map_values(|c: Context| c@)
}

/// No name occurs twice.
pub open spec fn names_distinct(names: Seq<Seq<char>>) -> bool {
    forall|i: int, j: int| 0 <= i < j < names.len() ==> names[i] != names[j]
}

/// `base` followed by those of `more` that are not yet present, each once,
/// in order: what extending an insertion-ordered set gives.
pub open spec fn spec_extend_names(base: Seq<Seq<char>>, more: Seq<Seq<char>>) -> Seq<Seq<char>>
    decreases more.len(),
{
    if more.len() == 0 {
        base
    } else {
        let prefix = spec_extend_names(base, more.drop_last());
        if prefix.contains(more.last()) {
            prefix
        } else {
            prefix.push(more.last())
        }
    }
}

pub proof fn lemma_extend_names_distinct(base: Seq<Seq<char>>, more: Seq<Seq<char>>)
    requires
        names_distinct(base),
    ensures
        names_distinct(spec_extend_names(base, more)),
    decreases more.len(),
{
    if more.len() > 0 {
        lemma_extend_names_distinct(base, more.drop_last());
        let prefix = spec_extend_names(base, more.drop_last());
        if !prefix.contains(more.last()) {
            assert forall|i: int, j: int| 0 <= i < j < prefix.len() + 1 implies prefix.push(more.last())[i]
                != prefix.push(more.last())[j] by {
                if j == prefix.len() {
                    assert(prefix[i] != more.last());
                }
            }
        }
    }
}

/// Appends to `cs` the contexts of `more` whose names are not present yet.
fn extend_contexts_vec(cs: &mut Vec<Context>, more: &Vec<Context>)
    ensures
        context_names(final(cs)@) == spec_extend_names(context_names(old(cs)@), context_names(more@)),
{
    let ghost base = context_names(cs@);
    let mut k: usize = 0;
    while k < more.len()
        invariant
            k <= more.len(),
            base == context_names(old(cs)@),
            context_names(cs@) == spec_extend_names(base, context_names(more@).take(k as int)),
        decreases more.len() - k,
    {
        let ghost before = context_names(cs@);
        let mut present = false;
        let mut i: usize = 0;
        while i < cs.len()
            invariant
                i <= cs.len(),
                before == context_names(cs@),
                present == exists|j: int| 0 <= j < i && cs@[j]@ == more@[k as int]@,
                k < more.len(),
            decreases cs.len() - i,
        {
            if cs[i].same(&more[k]) {
                present = true;
            }
            i += 1;
        }
        assert(context_names(more@).take(k + 1).drop_last() =~= context_names(more@).take(k as int));
        assert(context_names(more@).take(k + 1).last() == more@[k as int]@);
        if !present {
            assert(!before.contains(more@[k as int]@)) by {
                if before.contains(more@[k as int]@) {
                    let j = choose|j: int| 0 <= j < before.len() && before[j] == more@[k as int]@;
                    assert(cs@[j]@ == more@[k as int]@);
                }
            }
            cs.push(more[k].clone());
            assert(context_names(cs@) =~= before.push(more@[k as int]@));
        } else {
            assert(before.contains(more@[k as int]@)) by {
                let j = choose|j: int| 0 <= j < i && cs@[j]@ == more@[k as int]@;
                assert(before[j] == more@[k as int]@);
            }
        }
        k += 1;
    }
    assert(context_names(more@).take(more.len() as int) =~= context_names(more@));
}

// ------------------------------------------------------------------ Infos

/// What a task is: summary, status, category, contexts and priority.
#[derive(Debug)]
pub struct Infos {
    summary: Summary,
    status: Status,
    category: Category,
    contexts: Vec<Context>,
    priority: Option<Priority>,
}

impl Infos {
    pub closed spec fn spec_summary(&self) -> Seq<char> {
        self.summary@
    }

    pub closed spec fn spec_status(&self) -> Status {
        self.status
    }

    pub closed spec fn spec_category(&self) -> Seq<char> {
        self.category@
    }

    pub closed spec fn spec_contexts(&self) -> Seq<Seq<char>> {
        context_names(self.contexts@)
    }

    pub closed spec fn spec_priority(&self) -> Option<Priority> {
        self.priority
    }

    pub open spec fn spec_is_done(&self) -> bool {
        self.spec_status().spec_is_done()
    }

    /// Rank used for ordering: A = 0, B = 1, C = 2, no priority = 255.
    pub open spec fn spec_priority_rank(&self) -> u8 {
        match self.spec_priority() {
            Some(p) => p.spec_rank(),
            None => 255,
        }
    }

    /// The same information: every field holds the same value.
    pub open spec fn same_as(&self, other: &Infos) -> bool {
        &&& self.spec_summary() == other.spec_summary()
        &&& self.spec_status() == other.spec_status()
        &&& self.spec_category() == other.spec_category()
        &&& self.spec_contexts() == other.spec_contexts()
        &&& self.spec_priority() == other.spec_priority()
    }

    pub open spec fn wf(&self) -> bool {
        &&& self.spec_summary().len() > 0
        &&& self.spec_category().len() > 0
        &&& names_distinct(self.spec_contexts())
        &&& forall|i: int| 0 <= i < self.spec_contexts().len() ==> spec_context_ok(#[trigger] self.spec_contexts()[i])
        &&& self.spec_status().spec_since().wf()
    }

    /// An open task in the inbox, without contexts or priority, opened at
    /// `now` (to the second).
    pub fn new_at(summary: Summary, now: Timestamp) -> (i: Infos)
        requires
            summary.wf(),
            now.wf(),
        ensures
            i.wf(),
            i.spec_summary() == summary@,
            i.spec_status() == (Status::ToDo { since: now.whole_second() }),
            i.spec_category() == "Inbox"@,
            i.spec_contexts() == Seq::<Seq<char>>::empty(),
            i.spec_priority() == None::<Priority>,
    {
        let i = Infos {
            summary,
            status: Status::ToDo { since: now.whole_second() },
            category: Category::inbox(),
            contexts: Vec::new(),
            priority: None,
        };
        assert(i.spec_contexts() =~= Seq::<Seq<char>>::empty());
        i
    }

    pub fn summary(&self) -> (s: &str)
        ensures
            s@ == self.spec_summary(),
    {
        self.summary.as_str()
    }

    pub fn rename(&mut self, summary: Summary)
        requires
            old(self).wf(),
            summary.wf(),
        ensures
            final(self).wf(),
            final(self).spec_summary() == summary@,
            final(self).spec_status() == old(self).spec_status(),
            final(self).spec_category() == old(self).spec_category(),
            final(self).spec_contexts() == old(self).spec_contexts(),
            final(self).spec_priority() == old(self).spec_priority(),
    {
        self.summary = summary;
    }

    pub fn status(&self) -> (s: Status)
        ensures
            s == self.spec_status(),
    {
        self.status
    }

    pub fn change_status(&mut self, status: Status)
        requires
            old(self).wf(),
            status.spec_since().wf(),
        ensures
            final(self).wf(),
            final(self).spec_status() == status,
            final(self).spec_summary() == old(self).spec_summary(),
            final(self).spec_category() == old(self).spec_category(),
            final(self).spec_contexts() == old(self).spec_contexts(),
            final(self).spec_priority() == old(self).spec_priority(),
    {
        self.status = status;
    }

    pub fn is_done(&self) -> (b: bool)
        ensures
            b == self.spec_is_done(),
    {
        self.status.is_done()
    }

    /// When the task reached its current status.
    pub fn since(&self) -> (t: Timestamp)
        ensures
            t == self.spec_status().spec_since(),
    {
        self.status.since()
    }

    pub fn category(&self) -> (c: &Category)
        ensures
            c@ == self.spec_category(),
    {
        &self.category
    }

    pub fn set_category(&mut self, category: Category)
        requires
            old(self).wf(),
            category.wf(),
        ensures
            final(self).wf(),
            final(self).spec_category() == category@,
            final(self).spec_summary() == old(self).spec_summary(),
            final(self).spec_status() == old(self).spec_status(),
            final(self).spec_contexts() == old(self).spec_contexts(),
            final(self).spec_priority() == old(self).spec_priority(),
    {
        self.category = category;
    }

    pub fn contexts(&self) -> (cs: &Vec<Context>)
        ensures
            context_names(cs@) == self.spec_contexts(),
    {
        &self.contexts
    }

    /// Replaces the contexts; a name given twice is kept once, at its first
    /// place.
    pub fn set_contexts(&mut self, contexts: Vec<Context>)
        requires
            old(self).wf(),
            forall|i: int| 0 <= i < contexts@.len() ==> (#[trigger] contexts@[i]).wf(),
        ensures
            final(self).wf(),
            final(self).spec_contexts() == spec_extend_names(Seq::empty(), context_names(contexts@)),
            final(self).spec_summary() == old(self).spec_summary(),
            final(self).spec_status() == old(self).spec_status(),
            final(self).spec_category() == old(self).spec_category(),
            final(self).spec_priority() == old(self).spec_priority(),
    {
        let mut cs: Vec<Context> = Vec::new();
        assert(context_names(cs@) =~= Seq::<Seq<char>>::empty());
        extend_contexts_vec(&mut cs, &contexts);
        proof {
            lemma_extend_names_distinct(Seq::empty(), context_names(contexts@));
            lemma_extend_names_contained(Seq::empty(), context_names(contexts@));
        }
        self.contexts = cs;
    }

    /// Adds the contexts whose names are not present yet, in order.
    pub fn extend_contexts(&mut self, contexts: Vec<Context>)
        requires
            old(self).wf(),
            forall|i: int| 0 <= i < contexts@.len() ==> (#[trigger] contexts@[i]).wf(),
        ensures
            final(self).wf(),
            final(self).spec_contexts() == spec_extend_names(old(self).spec_contexts(), context_names(contexts@)),
            final(self).spec_summary() == old(self).spec_summary(),
            final(self).spec_status() == old(self).spec_status(),
            final(self).spec_category() == old(self).spec_category(),
            final(self).spec_priority() == old(self).spec_priority(),
    {
        extend_contexts_vec(&mut self.contexts, &contexts);
        proof {
            lemma_extend_names_distinct(old(self).spec_contexts(), context_names(contexts@));
            lemma_extend_names_contained(old(self).spec_contexts(), context_names(contexts@));
        }
    }

    pub fn priority(&self) -> (p: Option<Priority>)
        ensures
            p == self.spec_priority(),
    {
        self.priority
    }

    pub fn priority_rank(&self) -> (r: u8)
        ensures
            r == self.spec_priority_rank(),
    {
        match self.priority {
            Some(p) => p.rank(),
            None => 255,
        }
    }

    pub fn set_priority(&mut self, priority: Priority)
        requires
            old(self).wf(),
        ensures
            final(self).wf(),
            final(self).spec_priority() == Some(priority),
            final(self).spec_summary() == old(self).spec_summary(),
            final(self).spec_status() == old(self).spec_status(),
            final(self).spec_category() == old(self).spec_category(),
            final(self).spec_contexts() == old(self).spec_contexts(),
    {
        self.priority = Some(priority);
    }

    pub fn clear_priority(&mut self)
        requires
            old(self).wf(),
        ensures
            final(self).wf(),
            final(self).spec_priority() == None::<Priority>,
            final(self).spec_summary() == old(self).spec_summary(),
            final(self).spec_status() == old(self).spec_status(),
            final(self).spec_category() == old(self).spec_category(),
            final(self).spec_contexts() == old(self).spec_contexts(),
    {
        self.priority = None;
    }

    /// Whether every one of `names` is among the task's contexts.
    pub fn has_all_contexts(&self, names: &Vec<String>) -> (b: bool)
        ensures
            b == forall|i: int| 0 <= i < names@.len() ==> self.spec_contexts().contains(#[trigger] names@[i]@),
    {
        let mut k: usize = 0;
        while k < names.len()
            invariant
                k <= names.len(),
                forall|i: int| 0 <= i < k ==> self.spec_contexts().contains(#[trigger] names@[i]@),
            decreases names.len() - k,
        {
            let mut found = false;
            let mut j: usize = 0;
            while j < self.contexts.len()
                invariant
                    j <= self.contexts.len(),
                    k < names.len(),
                    found == exists|m: int| 0 <= m < j && self.contexts@[m]@ == names@[k as int]@,
                decreases self.contexts.len() - j,
            {
                if crate::text::str_eq(self.contexts[j].as_str(), names[k].as_str()) {
                    found = true;
                }
                j += 1;
            }
            if !found {
                proof {
                    if self.spec_contexts().contains(names@[k as int]@) {
                        let m = choose|m: int| 0 <= m < self.spec_contexts().len() && self.spec_contexts()[m] == names@[k as int]@;
                        assert(self.contexts@[m]@ == names@[k as int]@);
                    }
                }
                return false;
            }
            proof {
                let m = choose|m: int| 0 <= m < j && self.contexts@[m]@ == names@[k as int]@;
                assert(self.spec_contexts()[m] == names@[k as int]@);
            }
            k += 1;
        }
        true
    }
}

/// The values of the fields of [`Infos`].
pub type InfosView = (Seq<char>, Status, Seq<char>, Seq<Seq<char>>, Option<Priority>);

impl View for Infos {
    type V = InfosView;

    open spec fn view(&self) -> InfosView {
        (self.spec_summary(), self.spec_status(), self.spec_category(), self.spec_contexts(), self.spec_priority())
    }
}

impl Clone for Infos {
    fn clone(&self) -> (c: Self)
        ensures
            c.same_as(self),
            c@ == self@,
    {
        let mut contexts: Vec<Context> = Vec::new();
        let mut k: usize = 0;
        while k < self.contexts.len()
            invariant
                k <= self.contexts.len(),
                context_names(contexts@) =~= context_names(self.contexts@).take(k as int),
            decreases self.contexts.len() - k,
        {
            let c = self.contexts[k].clone();
            let ghost before = contexts@;
            contexts.push(c);
            assert(context_names(contexts@) =~= context_names(before).push(self.contexts@[k as int]@));
            assert(context_names(self.contexts@).take(k + 1) =~= context_names(self.contexts@).take(
                k as int,
            ).push(self.contexts@[k as int]@));
            k += 1;
        }
        assert(context_names(self.contexts@).take(self.contexts.len() as int) =~= context_names(self.contexts@));
        Infos {
            summary: self.summary.clone(),
            status: self.status,
            category: self.category.clone(),
            contexts,
            priority: self.priority,
        }
    }
}

/// Names the extension adds all come from `base` or `more`.
proof fn lemma_extend_names_contained(base: Seq<Seq<char>>, more: Seq<Seq<char>>)
    ensures
        forall|i: int| 0 <= i < spec_extend_names(base, more).len() ==> (base.contains(
            #[trigger] spec_extend_names(base, more)[i],
        ) || more.contains(spec_extend_names(base, more)[i])),
    decreases more.len(),
{
    if more.len() > 0 {
        lemma_extend_names_contained(base, more.drop_last());
        let prefix = spec_extend_names(base, more.drop_last());
        assert forall|i: int| 0 <= i < spec_extend_names(base, more).len() implies (base.contains(
            #[trigger] spec_extend_names(base, more)[i],
        ) || more.contains(spec_extend_names(base, more)[i])) by {
            if i < prefix.len() {
                let x = prefix[i];
                if more.drop_last().contains(x) {
                    let j = choose|j: int| 0 <= j < more.drop_last().len() && more.drop_last()[j] == x;
                    assert(more[j] == x);
                }
            } else {
                assert(more[more.len() - 1] == more.last());
            }
        }
    }
}

// ---------------------------------------------------------------- Details

/// When and how a task is to be done.
#[derive(Debug)]
pub struct Details {
    due_date: Option<Date>,
    start_date: Option<Date>,
    time_estimate: Option<TimeEstimate>,
    availability: Availability,
    notes: Option<String>,
}

/// Changes to some fields of [`Details`]; `None` leaves a field as it is.
#[derive(Debug)]
pub struct DetailsPatch {
    pub due_date: Option<Option<Date>>,
    pub start_date: Option<Option<Date>>,
    pub time_estimate: Option<Option<TimeEstimate>>,
    pub availability: Option<Availability>,
    pub notes: Option<Option<String>>,
}

pub open spec fn opt_date_wf(d: Option<Date>) -> bool {
    match d {
        Some(d) => d.date.wf(),
        None => true,
    }
}

pub open spec fn opt_text(s: Option<String>) -> Option<Seq<char>> {
    match s {
        Some(s) => Some(s@),
        None => None,
    }
}

/// The day to start working on a task: the start date when there is one;
/// otherwise the due date moved back by the estimate's lead days, counting
/// only days the availability allows; nothing without either date.
pub open spec fn spec_attention_date(
    due: Option<Date>,
    start: Option<Date>,
    estimate: Option<TimeEstimate>,
    avail: Availability,
) -> Option<int> {
    match start {
        Some(s) => Some(s.spec_day()),
        None => match due {
            None => None,
            Some(d) => Some(spec_back_eligible(avail, d.spec_day(), spec_lead(estimate) as nat)),
        },
    }
}

/// Lead days of an optional estimate; none without an estimate.
pub open spec fn spec_lead(estimate: Option<TimeEstimate>) -> u32 {
    match estimate {
        Some(e) => e.spec_lead_days(),
        None => 0,
    }
}

impl Details {
    pub closed spec fn spec_due_date(&self) -> Option<Date> {
        self.due_date
    }

    pub closed spec fn spec_start_date(&self) -> Option<Date> {
        self.start_date
    }

    pub closed spec fn spec_time_estimate(&self) -> Option<TimeEstimate> {
        self.time_estimate
    }

    pub closed spec fn spec_availability(&self) -> Availability {
        self.availability
    }

    pub closed spec fn spec_notes(&self) -> Option<Seq<char>> {
        opt_text(self.notes)
    }

    pub open spec fn wf(&self) -> bool {
        opt_date_wf(self.spec_due_date()) && opt_date_wf(self.spec_start_date())
    }

    pub open spec fn same_as(&self, other: &Details) -> bool {
        &&& self.spec_due_date() == other.spec_due_date()
        &&& self.spec_start_date() == other.spec_start_date()
        &&& self.spec_time_estimate() == other.spec_time_estimate()
        &&& self.spec_availability() == other.spec_availability()
        &&& self.spec_notes() == other.spec_notes()
    }

    pub fn new(
        due_date: Option<Date>,
        start_date: Option<Date>,
        time_estimate: Option<TimeEstimate>,
        availability: Availability,
        notes: Option<String>,
    ) -> (d: Details)
        ensures
            d.spec_due_date() == due_date,
            d.spec_start_date() == start_date,
            d.spec_time_estimate() == time_estimate,
            d.spec_availability() == availability,
            d.spec_notes() == opt_text(notes),
    {
        Details { due_date, start_date, time_estimate, availability, notes }
    }

    /// Whether the dates are instants chrono can represent; see
    /// [`Details::wf`].
    pub fn is_valid(&self) -> (b: bool)
        ensures
            b == self.wf(),
    {
        opt_date_ok(self.due_date) && opt_date_ok(self.start_date)
    }

    pub fn due_date(&self) -> (d: Option<Date>)
        ensures
            d == self.spec_due_date(),
    {
        self.due_date
    }

    pub fn start_date(&self) -> (d: Option<Date>)
        ensures
            d == self.spec_start_date(),
    {
        self.start_date
    }

    pub fn time_estimate(&self) -> (e: Option<TimeEstimate>)
        ensures
            e == self.spec_time_estimate(),
    {
        self.time_estimate
    }

    pub fn availability(&self) -> (a: Availability)
        ensures
            a == self.spec_availability(),
    {
        self.availability
    }

    pub fn notes(&self) -> (n: Option<&str>)
        ensures
            match n {
                Some(s) => self.spec_notes() == Some(s@),
                None => self.spec_notes() is None,
            },
    {
        match &self.notes {
            Some(s) => Some(s.as_str()),
            None => None,
        }
    }

    pub fn set_due_date(&mut self, date: Option<Date>)
        ensures
            final(self).spec_due_date() == date,
            final(self).spec_start_date() == old(self).spec_start_date(),
            final(self).spec_time_estimate() == old(self).spec_time_estimate(),
            final(self).spec_availability() == old(self).spec_availability(),
            final(self).spec_notes() == old(self).spec_notes(),
    {
        self.due_date = date;
    }

    pub fn set_start_date(&mut self, date: Option<Date>)
        ensures
            final(self).spec_start_date() == date,
            final(self).spec_due_date() == old(self).spec_due_date(),
            final(self).spec_time_estimate() == old(self).spec_time_estimate(),
            final(self).spec_availability() == old(self).spec_availability(),
            final(self).spec_notes() == old(self).spec_notes(),
    {
        self.start_date = date;
    }

    pub fn set_time_estimate(&mut self, estimate: Option<TimeEstimate>)
        ensures
            final(self).spec_time_estimate() == estimate,
            final(self).spec_due_date() == old(self).spec_due_date(),
            final(self).spec_start_date() == old(self).spec_start_date(),
            final(self).spec_availability() == old(self).spec_availability(),
            final(self).spec_notes() == old(self).spec_notes(),
    {
        self.time_estimate = estimate;
    }

    pub fn set_availability(&mut self, availability: Availability)
        ensures
            final(self).spec_availability() == availability,
            final(self).spec_due_date() == old(self).spec_due_date(),
            final(self).spec_start_date() == old(self).spec_start_date(),
            final(self).spec_time_estimate() == old(self).spec_time_estimate(),
            final(self).spec_notes() == old(self).spec_notes(),
    {
        self.availability = availability;
    }

    pub fn set_notes(&mut self, notes: Option<String>)
        ensures
            final(self).spec_notes() == opt_text(notes),
            final(self).spec_due_date() == old(self).spec_due_date(),
            final(self).spec_start_date() == old(self).spec_start_date(),
            final(self).spec_time_estimate() == old(self).spec_time_estimate(),
            final(self).spec_availability() == old(self).spec_availability(),
    {
        self.notes = notes;
    }

    /// Sets the fields the patch carries and leaves the others.
    pub fn apply_patch(&mut self, patch: DetailsPatch)
        ensures
            final(self).spec_due_date() == match patch.due_date {
                Some(d) => d,
                None => old(self).spec_due_date(),
            },
            final(self).spec_start_date() == match patch.start_date {
                Some(d) => d,
                None => old(self).spec_start_date(),
            },
            final(self).spec_time_estimate() == match patch.time_estimate {
                Some(e) => e,
                None => old(self).spec_time_estimate(),
            },
            final(self).spec_availability() == match patch.availability {
                Some(a) => a,
                None => old(self).spec_availability(),
            },
            final(self).spec_notes() == match patch.notes {
                Some(n) => opt_text(n),
                None => old(self).spec_notes(),
            },
    {
        if let Some(v) = patch.due_date {
            self.due_date = v;
        }
        if let Some(v) = patch.start_date {
            self.start_date = v;
        }
        if let Some(v) = patch.time_estimate {
            self.time_estimate = v;
        }
        if let Some(v) = patch.availability {
            self.availability = v;
        }
        if let Some(v) = patch.notes {
            self.notes = v;
        }
    }

    pub open spec fn spec_attention(&self) -> Option<int> {
        spec_attention_date(
            self.spec_due_date(),
            self.spec_start_date(),
            self.spec_time_estimate(),
            self.spec_availability(),
        )
    }

    /// Counting back from the due date stays within the calendar.
    pub open spec fn attention_in_range(&self) -> bool {
        match self.spec_due_date() {
            Some(d) => day_in_range(
                spec_back_eligible(self.spec_availability(), d.spec_day(), spec_lead(self.spec_time_estimate()) as nat),
            ),
            None => true,
        }
    }

    /// Earliest day to begin working on the task; see
    /// [`spec_attention_date`].
    pub fn attention_date(&self) -> (d: Option<i32>)
        requires
            self.wf(),
            self.attention_in_range(),
        ensures
            match d {
                Some(d) => self.spec_attention() == Some(d as int),
                None => self.spec_attention() is None,
            },
    {
        if let Some(start) = self.start_date {
            return Some(start.day());
        }
        let due = match self.due_date {
            Some(d) => d.day(),
            None => return None,
        };
        let lead = match self.time_estimate {
            Some(e) => e.lead_days(),
            None => 0,
        };
        Some(self.availability.count_back(due, lead))
    }
}

impl Default for Details {
    fn default() -> (d: Self)
        ensures
            d.spec_due_date() is None,
            d.spec_start_date() is None,
            d.spec_time_estimate() is None,
            d.spec_availability() == Availability::Anytime,
            d.spec_notes() is None,
    {
        Details {
            due_date: None,
            start_date: None,
            time_estimate: None,
            availability: Availability::Anytime,
            notes: None,
        }
    }
}

impl Clone for Details {
    fn clone(&self) -> (c: Self)
        ensures
            c.same_as(self),
    {
        let notes = match &self.notes {
            Some(s) => Some(s.clone()),
            None => None,
        };
        Details {
            due_date: self.due_date,
            start_date: self.start_date,
            time_estimate: self.time_estimate,
            availability: self.availability,
            notes,
        }
    }
}

// ------------------------------------------------------------------- Task

/// Who edited a task, and when: each author with their edit times.
pub type AuthorsView = Seq<(Seq<char>, Seq<Timestamp>)>;

pub open spec fn author_names(a: AuthorsView) -> Seq<Seq<char>> {
    a.map_values(|e: (Seq<char>, Seq<Timestamp>)| e.0)
}

pub open spec fn authors_wf(a: AuthorsView) -> bool {
    &&& names_distinct(author_names(a))
    &&& forall|i: int, j: int| 0 <= i < a.len() && 0 <= j < a[i].1.len() ==> (#[trigger] a[i].1[j]).wf()
}

/// Edits less than five whole minutes apart count as one.
pub open spec fn spec_debounced(now: Timestamp, last: Timestamp) -> bool {
    crate::time::trunc_div(
        crate::time::trunc_div(now.instant() - last.instant(), crate::time::NANOS_PER_SEC as int),
        60,
    ) < 5
}

/// An author's edit times after an edit at `now`: the last time moves to
/// `now` when it was less than five minutes ago, else `now` is appended.
pub open spec fn spec_record_edit(ts: Seq<Timestamp>, now: Timestamp) -> Seq<Timestamp> {
    if ts.len() > 0 && spec_debounced(now, ts.last()) {
        ts.update(ts.len() - 1, now)
    } else {
        ts.push(now)
    }
}

/// The author log after `actor` edited the task at `now`.
pub open spec fn spec_add_author(a: AuthorsView, actor: Seq<char>, now: Timestamp) -> AuthorsView {
    if exists|i: int| 0 <= i < a.len() && a[i].0 == actor {
        let i = choose|i: int| 0 <= i < a.len() && a[i].0 == actor;
        a.update(i, (actor, spec_record_edit(a[i].1, now)))
    } else {
        a.push((actor, seq![now]))
    }
}

/// A task: its information, its details and who edited it when.
#[derive(Debug)]
pub struct Task {
    info: Infos,
    details: Details,
    authors: IndexMap<String, Vec<Timestamp>>,
    assignee: Option<String>,
}

pub open spec fn author_entry_view(e: (String, Vec<Timestamp>)) -> (Seq<char>, Seq<Timestamp>) {
    (e.0@, e.1@)
}

/// The view of a list of authors with their edit times.
pub open spec fn authors_view(a: Seq<(String, Vec<Timestamp>)>) -> AuthorsView {
    a.map_values(|e: (String, Vec<Timestamp>)| author_entry_view(e))
}

/// Position of the author `name` in the log, if present.
pub open spec fn author_index(a: AuthorsView, name: Seq<char>) -> Option<int> {
    if exists|i: int| 0 <= i < a.len() && a[i].0 == name {
        Some(choose|i: int| 0 <= i < a.len() && a[i].0 == name)
    } else {
        None
    }
}

/// The entries of an author map, in the map's order: each author's name
/// with their edit times.
pub uninterp spec fn author_map_entries(m: IndexMap<String, Vec<Timestamp>>) -> AuthorsView;

/// `IndexMap::new` for the author log.
#[verifier::external_body]
fn authors_new() -> (m: IndexMap<String, Vec<Timestamp>>)
    ensures
        author_map_entries(m) == AuthorsView::empty(),
{
    IndexMap::new()
}

/// `IndexMap::len` of the author log.
#[verifier::external_body]
fn authors_len(m: &IndexMap<String, Vec<Timestamp>>) -> (n: usize)
    ensures
        n == author_map_entries(*m).len(),
{
    m.len()
}

/// `IndexMap::get_index` of the author log: the entry at a position.
#[verifier::external_body]
fn authors_get_index(m: &IndexMap<String, Vec<Timestamp>>, i: usize) -> (e: Option<(&String, &Vec<Timestamp>)>)
    ensures
        match e {
            Some((k, v)) => i < author_map_entries(*m).len() && k@ == author_map_entries(*m)[i as int].0 && v@
                == author_map_entries(*m)[i as int].1,
            None => i >= author_map_entries(*m).len(),
        },
{
    m.get_index(i)
}

/// `IndexMap::get_index_of` of the author log: the position of a name.
#[verifier::external_body]
fn authors_get_index_of(m: &IndexMap<String, Vec<Timestamp>>, name: &str) -> (i: Option<usize>)
    ensures
        match i {
            Some(i) => i < author_map_entries(*m).len() && author_map_entries(*m)[i as int].0 == name@,
            None => author_index(author_map_entries(*m), name@) is None,
        },
{
    m.get_index_of(name)
}

/// `IndexMap::insert` of the author log: replaces the edit times of a
/// present name in place, or appends a new entry.
#[verifier::external_body]
fn authors_insert(m: &mut IndexMap<String, Vec<Timestamp>>, name: String, times: Vec<Timestamp>)
    ensures
        match author_index(author_map_entries(*old(m)), name@) {
            Some(i) => author_map_entries(*final(m)) == author_map_entries(*old(m)).update(i, (name@, times@)),
            None => author_map_entries(*final(m)) == author_map_entries(*old(m)).push((name@, times@)),
        },
{
    m.insert(name, times);
}

/// `IndexMap::clone` of the author log: the same names with the same edit
/// times, in the same order.
#[verifier::external_body]
fn authors_clone(m: &IndexMap<String, Vec<Timestamp>>) -> (c: IndexMap<String, Vec<Timestamp>>)
    ensures
        author_map_entries(c) == author_map_entries(*m),
{
    m.clone()
}

/// The author log as a list, in its order.
fn author_list(m: &IndexMap<String, Vec<Timestamp>>) -> (v: Vec<(String, Vec<Timestamp>)>)
    ensures
        authors_view(v@) == author_map_entries(*m),
{
    let ghost a = author_map_entries(*m);
    let n = authors_len(m);
    let mut v: Vec<(String, Vec<Timestamp>)> = Vec::new();
    let mut k: usize = 0;
    while k < n
        invariant
            a == author_map_entries(*m),
            n == a.len(),
            k <= n,
            authors_view(v@) =~= a.take(k as int),
        decreases n - k,
    {
        let (name, ts) = authors_get_index(m, k).unwrap();
        let name = name.clone();
        let ts = ts.clone();
        assert(ts@ =~= a[k as int].1);
        let ghost before = v@;
        v.push((name, ts));
        assert(a.take(k + 1) =~= a.take(k as int).push(a[k as int]));
        assert(authors_view(v@) =~= authors_view(before).push(author_entry_view((name, ts))));
        k += 1;
    }
    assert(a.take(n as int) =~= a);
    v
}

/// An author log holding the given authors, in order; no name may occur
/// twice.
fn author_map(v: &Vec<(String, Vec<Timestamp>)>) -> (m: IndexMap<String, Vec<Timestamp>>)
    requires
        names_distinct(author_names(authors_view(v@))),
    ensures
        author_map_entries(m) == authors_view(v@),
{
    let ghost a = authors_view(v@);
    let mut m = authors_new();
    let mut k: usize = 0;
    while k < v.len()
        invariant
            a == authors_view(v@),
            names_distinct(author_names(a)),
            k <= v.len(),
            author_map_entries(m) =~= a.take(k as int),
        decreases v.len() - k,
    {
        let name = v[k].0.clone();
        let ts = v[k].1.clone();
        assert(ts@ =~= a[k as int].1);
        proof {
            let e = a.take(k as int);
            if exists|i: int| 0 <= i < e.len() && e[i].0 == name@ {
                let i = choose|i: int| 0 <= i < e.len() && e[i].0 == name@;
                assert(author_names(a)[i] == author_names(a)[k as int]);
            }
        }
        authors_insert(&mut m, name, ts);
        assert(a.take(k + 1) =~= a.take(k as int).push(a[k as int]));
        k += 1;
    }
    assert(a.take(v.len() as int) =~= a);
    m
}

impl Task {
    pub closed spec fn spec_info(&self) -> Infos {
        self.info
    }

    pub closed spec fn spec_details(&self) -> Details {
        self.details
    }

    /// Who the task is assigned to, if anyone.
    pub closed spec fn spec_assignee(&self) -> Option<Seq<char>> {
        opt_text(self.assignee)
    }

    /// Who the task is assigned to, if anyone.
    pub fn assignee(&self) -> (a: Option<&str>)
        ensures
            match a {
                Some(x) => self.spec_assignee() == Some(x@),
                None => self.spec_assignee() is None,
            },
    {
        match &self.assignee {
            Some(x) => Some(x.as_str()),
            None => None,
        }
    }

    pub closed spec fn spec_authors(&self) -> AuthorsView {
        author_map_entries(self.authors)
    }

    pub open spec fn wf(&self) -> bool {
        &&& self.spec_info().wf()
        &&& self.spec_details().wf()
        &&& authors_wf(self.spec_authors())
    }

    /// The same task: equal information, details and author log.
    pub open spec fn same_as(&self, other: &Task) -> bool {
        &&& self.spec_info().same_as(&other.spec_info())
        &&& self.spec_details().same_as(&other.spec_details())
        &&& self.spec_authors() == other.spec_authors()
        &&& self.spec_assignee() == other.spec_assignee()
    }

    /// A new open task with default details and no authors, opened at
    /// `now` (to the second).
    pub fn new_at(summary: Summary, now: Timestamp) -> (t: Task)
        requires
            summary.wf(),
            now.wf(),
        ensures
            t.wf(),
            t.spec_info().spec_summary() == summary@,
            t.spec_info().spec_status() == (Status::ToDo { since: now.whole_second() }),
            t.spec_info().spec_category() == "Inbox"@,
            t.spec_info().spec_contexts() == Seq::<Seq<char>>::empty(),
            t.spec_info().spec_priority() == None::<Priority>,
            t.spec_details().spec_due_date() is None,
            t.spec_details().spec_start_date() is None,
            t.spec_details().spec_time_estimate() is None,
            t.spec_details().spec_availability() == Availability::Anytime,
            t.spec_details().spec_notes() is None,
            t.spec_authors() == AuthorsView::empty(),
    {
        Task { info: Infos::new_at(summary, now), details: Details::default(), authors: authors_new(), assignee: None }
    }

    /// A new open task, opened now.
    pub fn new(summary: Summary) -> (t: Task)
        requires
            summary.wf(),
        ensures
            t.wf(),
            exists|now: Timestamp| now.wf() && #[trigger] t.spec_info().spec_status() == (Status::ToDo { since: now.whole_second() }),
            t.spec_info().spec_summary() == summary@,
            t.spec_info().spec_category() == "Inbox"@,
            t.spec_info().spec_contexts() == Seq::<Seq<char>>::empty(),
            t.spec_info().spec_priority() == None::<Priority>,
            t.spec_details().spec_due_date() is None,
            t.spec_details().spec_start_date() is None,
            t.spec_details().spec_time_estimate() is None,
            t.spec_details().spec_availability() == Availability::Anytime,
            t.spec_details().spec_notes() is None,
            t.spec_authors() == AuthorsView::empty(),
    {
        let now = crate::time::utc_now();
        Task::new_at(summary, now)
    }

    /// The same task in another category.
    pub fn with_category(self, category: Category) -> (t: Task)
        requires
            self.wf(),
            category.wf(),
        ensures
            t.wf(),
            t.spec_info().spec_category() == category@,
            t.spec_info().spec_summary() == self.spec_info().spec_summary(),
            t.spec_info().spec_status() == self.spec_info().spec_status(),
            t.spec_info().spec_contexts() == self.spec_info().spec_contexts(),
            t.spec_info().spec_priority() == self.spec_info().spec_priority(),
            t.spec_details() == self.spec_details(),
            t.spec_authors() == self.spec_authors(),
    {
        let mut t = self;
        t.info.set_category(category);
        t
    }

    /// The same task with other contexts (a repeated name is kept once).
    pub fn with_contexts(self, contexts: Vec<Context>) -> (t: Task)
        requires
            self.wf(),
            forall|i: int| 0 <= i < contexts@.len() ==> (#[trigger] contexts@[i]).wf(),
        ensures
            t.wf(),
            t.spec_info().spec_contexts() == spec_extend_names(Seq::empty(), context_names(contexts@)),
            t.spec_info().spec_summary() == self.spec_info().spec_summary(),
            t.spec_info().spec_status() == self.spec_info().spec_status(),
            t.spec_info().spec_category() == self.spec_info().spec_category(),
            t.spec_info().spec_priority() == self.spec_info().spec_priority(),
            t.spec_details() == self.spec_details(),
            t.spec_authors() == self.spec_authors(),
    {
        let mut t = self;
        t.info.set_contexts(contexts);
        t
    }

    /// The same task with other details.
    pub fn with_details(self, details: Details) -> (t: Task)
        requires
            self.wf(),
            details.wf(),
        ensures
            t.wf(),
            t.spec_details() == details,
            t.spec_info() == self.spec_info(),
            t.spec_authors() == self.spec_authors(),
    {
        let mut t = self;
        t.details = details;
        t
    }

    pub fn info(&self) -> (i: &Infos)
        ensures
            *i == self.spec_info(),
    {
        &self.info
    }

    pub fn details(&self) -> (d: &Details)
        ensures
            *d == self.spec_details(),
    {
        &self.details
    }

    pub fn set_details(&mut self, details: Details)
        requires
            old(self).wf(),
            details.wf(),
        ensures
            final(self).wf(),
            final(self).spec_details() == details,
            final(self).spec_info() == old(self).spec_info(),
            final(self).spec_authors() == old(self).spec_authors(),
    {
        self.details = details;
    }

    /// Changes the detail fields the patch names and keeps the others.
    pub fn patch_details(&mut self, patch: DetailsPatch)
        requires
            old(self).wf(),
            TaskEdit::PatchDetails(patch).wf(),
        ensures
            final(self).wf(),
            details_fields(final(self).spec_details()) == TaskEdit::PatchDetails(patch).details_after(
                old(self).spec_details(),
            ),
            final(self).spec_info() == old(self).spec_info(),
            final(self).spec_authors() == old(self).spec_authors(),
    {
        self.details.apply_patch(patch);
    }

    /// The authors with their edit times, in the order they first edited.
    pub fn authors(&self) -> (a: Vec<(String, Vec<Timestamp>)>)
        ensures
            authors_view(a@) == self.spec_authors(),
    {
        author_list(&self.authors)
    }

    /// Records that `actor` edited the task at `now`; see
    /// [`spec_add_author`].
    pub fn add_author_at(&mut self, actor: &str, now: Timestamp)
        requires
            old(self).wf(),
            now.wf(),
        ensures
            final(self).wf(),
            final(self).spec_authors() == spec_add_author(old(self).spec_authors(), actor@, now),
            final(self).spec_info() == old(self).spec_info(),
            final(self).spec_details() == old(self).spec_details(),
    {
        let ghost a = self.spec_authors();
        match authors_get_index_of(&self.authors, actor) {
            Some(i) => {
                let mut ts = authors_get_index(&self.authors, i).unwrap().1.clone();
                assert(ts@ =~= a[i as int].1);
                let n = ts.len();
                if n > 0 {
                    assert(a[i as int].1[n - 1].wf());
                }
                if n > 0 && crate::time::minutes_between(now, ts[n - 1]) < 5 {
                    ts.set(n - 1, now);
                } else {
                    ts.push(now);
                }
                assert(ts@ == spec_record_edit(a[i as int].1, now));
                proof {
                    let j = choose|j: int| 0 <= j < a.len() && a[j].0 == actor@;
                    if j != i {
                        assert(author_names(a)[j] == author_names(a)[i as int]);
                    }
                    assert(author_index(a, actor@) == Some(i as int));
                }
                authors_insert(&mut self.authors, String::from_str(actor), ts);
                proof {
                    let new_a = spec_add_author(a, actor@, now);
                    assert(new_a == a.update(i as int, (actor@, spec_record_edit(a[i as int].1, now))));
                    assert(author_names(new_a) =~= author_names(a));
                    assert forall|x: int, y: int| 0 <= x < new_a.len() && 0 <= y < new_a[x].1.len() implies (#[trigger] new_a[x].1[y]).wf() by {
                        if x != i {
                            assert(new_a[x] == a[x]);
                        }
                    }
                }
            },
            None => {
                let mut ts: Vec<Timestamp> = Vec::new();
                ts.push(now);
                assert(ts@ =~= seq![now]);
                authors_insert(&mut self.authors, String::from_str(actor), ts);
                proof {
                    let new_a = spec_add_author(a, actor@, now);
                    assert(new_a == a.push((actor@, seq![now])));
                    assert(author_names(new_a) =~= author_names(a).push(actor@));
                    assert forall|x: int, y: int| 0 <= x < new_a.len() && 0 <= y < new_a[x].1.len() implies (#[trigger] new_a[x].1[y]).wf() by {
                        if x < a.len() {
                            assert(new_a[x] == a[x]);
                        }
                    }
                }
            },
        }
    }

    /// Records that `actor` edited the task just now (to the second).
    pub fn add_author(&mut self, actor: &str)
        requires
            old(self).wf(),
        ensures
            final(self).wf(),
            exists|now: Timestamp|
                now.wf() && now.nanos == 0 && now.offset == 0 && #[trigger] final(self).spec_authors()
                    == spec_add_author(old(self).spec_authors(), actor@, now),
            final(self).spec_info() == old(self).spec_info(),
            final(self).spec_details() == old(self).spec_details(),
    {
        let now = crate::time::utc_now().whole_second();
        self.add_author_at(actor, now);
    }
}

// ------------------------------------------------------------------ edits

/// One change to a task, as the views, the RPC service and the MCP tools
/// make them.
#[derive(Debug)]
pub enum TaskEdit {
    Rename(Summary),
    SetDetails(Details),
    PatchDetails(DetailsPatch),
    Complete,
    Reopen,
    SetCategory(Category),
    SetContexts(Vec<Context>),
    AddContexts(Vec<Context>),
    SetPriority(Option<Priority>),
    SetDueDate(Option<Date>),
    SetStartDate(Option<Date>),
    SetTimeEstimate(Option<TimeEstimate>),
    SetAvailability(Availability),
    SetNotes(Option<String>),
    /// Sets or clears who the task is assigned to.
    SetAssignee(Option<String>),
}

/// The values of the detail fields.
pub type DetailsFields = (Option<Date>, Option<Date>, Option<TimeEstimate>, Availability, Option<Seq<char>>);

pub open spec fn details_fields(d: Details) -> DetailsFields {
    (d.spec_due_date(), d.spec_start_date(), d.spec_time_estimate(), d.spec_availability(), d.spec_notes())
}

impl TaskEdit {
    /// The edit carries well-formed values.
    pub open spec fn wf(&self) -> bool {
        match self {
            TaskEdit::Rename(s) => s.wf(),
            TaskEdit::SetDetails(d) => d.wf(),
            TaskEdit::PatchDetails(p) => (match p.due_date {
                Some(d) => opt_date_wf(d),
                None => true,
            }) && (match p.start_date {
                Some(d) => opt_date_wf(d),
                None => true,
            }),
            TaskEdit::SetCategory(c) => c.wf(),
            TaskEdit::SetContexts(cs) => forall|i: int| 0 <= i < cs@.len() ==> (#[trigger] cs@[i]).wf(),
            TaskEdit::AddContexts(cs) => forall|i: int| 0 <= i < cs@.len() ==> (#[trigger] cs@[i]).wf(),
            TaskEdit::SetDueDate(d) => opt_date_wf(*d),
            TaskEdit::SetStartDate(d) => opt_date_wf(*d),
            _ => true,
        }
    }

    /// Whether the edit carries well-formed values; see [`TaskEdit::wf`].
    pub fn is_valid(&self) -> (b: bool)
        ensures
            b == self.wf(),
    {
        match self {
            TaskEdit::Rename(s) => s.as_str().unicode_len() > 0,
            TaskEdit::SetDetails(d) => opt_date_ok(d.due_date()) && opt_date_ok(d.start_date()),
            TaskEdit::PatchDetails(p) => (match p.due_date {
                Some(d) => opt_date_ok(d),
                None => true,
            }) && (match p.start_date {
                Some(d) => opt_date_ok(d),
                None => true,
            }),
            TaskEdit::SetCategory(c) => c.as_str().unicode_len() > 0,
            TaskEdit::SetContexts(cs) => contexts_ok(cs),
            TaskEdit::AddContexts(cs) => contexts_ok(cs),
            TaskEdit::SetDueDate(d) => opt_date_ok(*d),
            TaskEdit::SetStartDate(d) => opt_date_ok(*d),
            _ => true,
        }
    }

    /// The detail fields after the edit.
    pub open spec fn details_after(self, old: Details) -> DetailsFields {
        let f = details_fields(old);
        match self {
            TaskEdit::SetDetails(d) => details_fields(d),
            TaskEdit::PatchDetails(p) => (
                match p.due_date {
                    Some(d) => d,
                    None => f.0,
                },
                match p.start_date {
                    Some(d) => d,
                    None => f.1,
                },
                match p.time_estimate {
                    Some(e) => e,
                    None => f.2,
                },
                match p.availability {
                    Some(a) => a,
                    None => f.3,
                },
                match p.notes {
                    Some(n) => opt_text(n),
                    None => f.4,
                },
            ),
            TaskEdit::SetDueDate(d) => (d, f.1, f.2, f.3, f.4),
            TaskEdit::SetStartDate(d) => (f.0, d, f.2, f.3, f.4),
            TaskEdit::SetTimeEstimate(e) => (f.0, f.1, e, f.3, f.4),
            TaskEdit::SetAvailability(a) => (f.0, f.1, f.2, a, f.4),
            TaskEdit::SetNotes(n) => (f.0, f.1, f.2, f.3, opt_text(n)),
            _ => f,
        }
    }
}

/// `new` is `old` after `edit`, made at `now`: the edited field takes the
/// new value and every other field keeps its value.
pub open spec fn spec_edited(old: Task, new: Task, edit: TaskEdit, now: Timestamp) -> bool {
    let oi = old.spec_info();
    let ni = new.spec_info();
    &&& new.spec_authors() == old.spec_authors()
    &&& ni.spec_summary() == match edit {
        TaskEdit::Rename(s) => s@,
        _ => oi.spec_summary(),
    }
    &&& ni.spec_status() == match edit {
        TaskEdit::Complete => Status::Done { since: now },
        TaskEdit::Reopen => Status::ToDo { since: now },
        _ => oi.spec_status(),
    }
    &&& ni.spec_category() == match edit {
        TaskEdit::SetCategory(c) => c@,
        _ => oi.spec_category(),
    }
    &&& ni.spec_contexts() == match edit {
        TaskEdit::SetContexts(cs) => spec_extend_names(Seq::empty(), context_names(cs@)),
        TaskEdit::AddContexts(cs) => spec_extend_names(oi.spec_contexts(), context_names(cs@)),
        _ => oi.spec_contexts(),
    }
    &&& ni.spec_priority() == match edit {
        TaskEdit::SetPriority(p) => p,
        _ => oi.spec_priority(),
    }
    &&& details_fields(new.spec_details()) == edit.details_after(old.spec_details())
    &&& new.spec_assignee() == match edit {
        TaskEdit::SetAssignee(a) => opt_text(a),
        _ => old.spec_assignee(),
    }
}

impl Task {
    /// Applies one edit made at `now`; see [`spec_edited`].
    pub fn apply_edit_at(&mut self, edit: TaskEdit, now: Timestamp)
        requires
            old(self).wf(),
            edit.wf(),
            now.wf(),
        ensures
            final(self).wf(),
            spec_edited(*old(self), *final(self), edit, now),
    {
        let ghost e = edit;
        match edit {
            TaskEdit::Rename(s) => self.info.rename(s),
            TaskEdit::SetDetails(d) => self.details = d,
            TaskEdit::PatchDetails(p) => self.details.apply_patch(p),
            TaskEdit::Complete => self.info.change_status(Status::Done { since: now }),
            TaskEdit::Reopen => self.info.change_status(Status::ToDo { since: now }),
            TaskEdit::SetCategory(c) => self.info.set_category(c),
            TaskEdit::SetContexts(cs) => self.info.set_contexts(cs),
            TaskEdit::AddContexts(cs) => self.info.extend_contexts(cs),
            TaskEdit::SetPriority(p) => match p {
                Some(p) => self.info.set_priority(p),
                None => self.info.clear_priority(),
            },
            TaskEdit::SetDueDate(d) => self.details.set_due_date(d),
            TaskEdit::SetStartDate(d) => self.details.set_start_date(d),
            TaskEdit::SetTimeEstimate(est) => self.details.set_time_estimate(est),
            TaskEdit::SetAvailability(a) => self.details.set_availability(a),
            TaskEdit::SetNotes(n) => self.details.set_notes(n),
            TaskEdit::SetAssignee(a) => self.assignee = a,
        }
    }
}

impl Clone for Task {
    fn clone(&self) -> (c: Self)
        ensures
            c.same_as(self),
    {
        let authors = authors_clone(&self.authors);
        let assignee = match &self.assignee {
            Some(a) => Some(a.clone()),
            None => None,
        };
        Task { info: self.info.clone(), details: self.details.clone(), authors, assignee }
    }
}



/// Whether chrono can represent the instant; see [`Timestamp::wf`].
fn instant_ok(t: Timestamp) -> (b: bool)
    ensures
        b == t.wf(),
{
    Timestamp::checked(t.secs, t.nanos, t.offset).is_some()
}

fn opt_date_ok(d: Option<Date>) -> (b: bool)
    ensures
        b == opt_date_wf(d),
{
    match d {
        Some(d) => instant_ok(d.date),
        None => true,
    }
}

/// Whether stored authors are well formed: each named once, each edit an
/// instant chrono can represent.
fn authors_ok(authors: &Vec<(String, Vec<Timestamp>)>) -> (b: bool)
    ensures
        b == authors_wf(authors_view(authors@)),
{
    let ghost a = authors_view(authors@);
    let mut i: usize = 0;
    while i < authors.len()
        invariant
            i <= authors.len(),
            a == authors_view(authors@),
            forall|x: int, y: int| 0 <= x < y < i ==> author_names(a)[x] != author_names(a)[y],
            forall|x: int, j: int| 0 <= x < i && 0 <= j < a[x].1.len() ==> (#[trigger] a[x].1[j]).wf(),
        decreases authors.len() - i,
    {
        let mut j: usize = 0;
        while j < i
            invariant
                i < authors.len(),
                j <= i,
                a == authors_view(authors@),
                forall|x: int| 0 <= x < j ==> author_names(a)[x] != author_names(a)[i as int],
            decreases i - j,
        {
            if str_eq(authors[j].0.as_str(), authors[i].0.as_str()) {
                assert(author_names(a)[j as int] == author_names(a)[i as int]);
                return false;
            }
            j += 1;
        }
        let edits = &authors[i].1;
        let mut k: usize = 0;
        while k < edits.len()
            invariant
                i < authors.len(),
                k <= edits.len(),
                a == authors_view(authors@),
                *edits == authors@[i as int].1,
                forall|j: int| 0 <= j < k ==> (#[trigger] a[i as int].1[j]).wf(),
            decreases edits.len() - k,
        {
            if !instant_ok(edits[k]) {
                assert(!a[i as int].1[k as int].wf());
                return false;
            }
            k += 1;
        }
        i += 1;
    }
    true
}

impl Task {
    /// Whether the parts of a stored task make a well-formed task.
    pub open spec fn restorable(
        summary: Seq<char>,
        status: Status,
        category: Seq<char>,
        contexts: Seq<Seq<char>>,
        details: Details,
        authors: AuthorsView,
    ) -> bool {
        &&& summary.len() > 0
        &&& category.len() > 0
        &&& forall|i: int| 0 <= i < contexts.len() ==> spec_context_ok(#[trigger] contexts[i])
        &&& status.spec_since().wf()
        &&& details.wf()
        &&& authors_wf(authors)
    }

    /// A stored task, read back from its parts; repeated contexts count
    /// once. `None` where the parts do not make a well-formed task (an
    /// empty summary or category, a context without '@', an instant chrono
    /// cannot represent, an author named twice).
    pub fn restore(
        summary: Summary,
        status: Status,
        category: Category,
        contexts: Vec<Context>,
        priority: Option<Priority>,
        details: Details,
        authors: Vec<(String, Vec<Timestamp>)>,
        assignee: Option<String>,
    ) -> (r: Option<Task>)
        ensures
            match r {
                Some(t) => {
                    &&& t.wf()
                    &&& t.spec_info().spec_summary() == summary@
                    &&& t.spec_info().spec_status() == status
                    &&& t.spec_info().spec_category() == category@
                    &&& t.spec_info().spec_contexts() == spec_extend_names(Seq::empty(), context_names(contexts@))
                    &&& t.spec_info().spec_priority() == priority
                    &&& t.spec_details().same_as(&details)
                    &&& t.spec_authors() == authors_view(authors@)
                    &&& t.spec_assignee() == opt_text(assignee)
                },
                None => !Task::restorable(
                    summary@,
                    status,
                    category@,
                    context_names(contexts@),
                    details,
                    authors_view(authors@),
                ),
            },
    {
        if summary.as_str().unicode_len() == 0 || category.as_str().unicode_len() == 0 {
            return None;
        }
        let mut k: usize = 0;
        while k < contexts.len()
            invariant
                k <= contexts.len(),
                forall|i: int| 0 <= i < k ==> spec_context_ok(#[trigger] context_names(contexts@)[i]),
            decreases contexts.len() - k,
        {
            if !starts_with_char(contexts[k].as_str(), '@') {
                assert(!spec_context_ok(context_names(contexts@)[k as int]));
                return None;
            }
            k += 1;
        }
        if !instant_ok(status.since()) || !opt_date_ok(details.due_date()) || !opt_date_ok(details.start_date()) {
            return None;
        }
        if !authors_ok(&authors) {
            return None;
        }
        let mut cs: Vec<Context> = Vec::new();
        extend_contexts_vec(&mut cs, &contexts);
        proof {
            assert(context_names(Seq::<Context>::empty()) =~= Seq::<Seq<char>>::empty());
            let more = context_names(contexts@);
            let names = spec_extend_names(Seq::empty(), more);
            lemma_extend_names_distinct(Seq::empty(), more);
            lemma_extend_names_contained(Seq::empty(), more);
            assert forall|i: int| 0 <= i < names.len() implies spec_context_ok(#[trigger] names[i]) by {
                assert(more.contains(names[i]));
                let j = choose|j: int| 0 <= j < more.len() && more[j] == names[i];
                assert(spec_context_ok(more[j]));
            }
        }
        let info = Infos { summary, status, category, contexts: cs, priority };
        let authors = author_map(&authors);
        let t = Task { info, details, authors, assignee };
        Some(t)
    }
}


/// Whether every context starts with '@'.
fn contexts_ok(cs: &Vec<Context>) -> (b: bool)
    ensures
        b == forall|i: int| 0 <= i < cs@.len() ==> (#[trigger] cs@[i]).wf(),
{
    let mut k: usize = 0;
    while k < cs.len()
        invariant
            k <= cs.len(),
            forall|i: int| 0 <= i < k ==> (#[trigger] cs@[i]).wf(),
        decreases cs.len() - k,
    {
        if !starts_with_char(cs[k].as_str(), '@') {
            assert(!cs@[k as int].wf());
            return false;
        }
        k += 1;
    }
    true
}


/// Whose tasks a view asks for: everyone's (`None`), or those assigned to
/// one person (`Some(Some(name))`) or to nobody (`Some(None)`).
pub type WhoView = Option<Option<Seq<char>>>;

pub open spec fn who_view(who: Option<Option<&str>>) -> WhoView {
    match who {
        None => None,
        Some(None) => Some(None),
        Some(Some(a)) => Some(Some(a@)),
    }
}

/// The task is one the view asks for.
pub open spec fn assigned_to(t: Task, who: WhoView) -> bool {
    match who {
        None => true,
        Some(a) => t.spec_assignee() == a,
    }
}

/// The entries whose tasks the view asks for, in cache order.
pub open spec fn assigned(entries: Seq<(u128, Task)>, who: WhoView) -> Seq<(u128, Task)>
    decreases entries.len(),
{
    if entries.len() == 0 {
        Seq::empty()
    } else {
        let prev = assigned(entries.drop_last(), who);
        if assigned_to(entries.last().1, who) {
            prev.push(entries.last())
        } else {
            prev
        }
    }
}

/// Asking for everyone's tasks keeps every entry.
pub proof fn lemma_assigned_everyone(entries: Seq<(u128, Task)>)
    ensures
        assigned(entries, None) == entries,
    decreases entries.len(),
{
    if entries.len() > 0 {
        lemma_assigned_everyone(entries.drop_last());
        assert(entries.drop_last().push(entries.last()) =~= entries);
    }
}

/// The entries a view asks for are entries of the cache.
pub proof fn lemma_assigned_from(entries: Seq<(u128, Task)>, who: WhoView)
    ensures
        forall|k: int| 0 <= k < assigned(entries, who).len() ==> entries.contains(#[trigger] assigned(entries, who)[k]),
    decreases entries.len(),
{
    if entries.len() > 0 {
        let prev = entries.drop_last();
        lemma_assigned_from(prev, who);
        let a = assigned(entries, who);
        assert forall|k: int| 0 <= k < a.len() implies entries.contains(#[trigger] a[k]) by {
            if k < assigned(prev, who).len() {
                let j = choose|j: int| 0 <= j < prev.len() && prev[j] == assigned(prev, who)[k];
                assert(entries[j] == prev[j]);
            } else {
                assert(entries[entries.len() - 1] == entries.last());
            }
        }
    }
}

impl Task {
    /// Whether the task is assigned as the filter asks.
    pub fn is_assigned_to(&self, who: Option<Option<&str>>) -> (b: bool)
        ensures
            b == assigned_to(*self, who_view(who)),
    {
        match who {
            None => true,
            Some(None) => self.assignee().is_none(),
            Some(Some(a)) => match self.assignee() {
                Some(x) => str_eq(x, a),
                None => false,
            },
        }
    }
}

} // verus!
