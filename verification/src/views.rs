//! The grouping rules of the task-list views: Upcoming (by urgency), Quick
//! Wins (by estimate), All Open and What I Finished (by category), and
//! Recent Changes (by last change).

use vstd::prelude::*;

use crate::cache::TaskCache;
use crate::sort::{is_sorted_permutation, sort_indices, SortKey};
use crate::task::{
    spec_back_eligible, spec_is_eligible, spec_lead, Availability, Infos, InfosView, Task,
    TimeEstimate,
};
use crate::time::{day_in_range, spec_weekday, weekday, DAY_MAX, DAY_MIN};

verus! {

/// How urgent an open task with a date is.
#[derive(Clone, Copy, Debug, PartialEq, Eq, Structural)]
pub enum DeadlineGroup {
    Overdue,
    Today,
    Tomorrow,
    ThisWeek,
    NextWeek,
    Later,
    ReadyToStart,
}

impl DeadlineGroup {
    /// Position in the order the groups are shown in.
    pub open spec fn spec_rank(self) -> u8 {
        match self {
            DeadlineGroup::Overdue => 0,
            DeadlineGroup::Today => 1,
            DeadlineGroup::Tomorrow => 2,
            DeadlineGroup::ThisWeek => 3,
            DeadlineGroup::NextWeek => 4,
            DeadlineGroup::Later => 5,
            DeadlineGroup::ReadyToStart => 6,
        }
    }

    pub fn rank(self) -> (r: u8)
        ensures
            r == self.spec_rank(),
    {
        match self {
            DeadlineGroup::Overdue => 0,
            DeadlineGroup::Today => 1,
            DeadlineGroup::Tomorrow => 2,
            DeadlineGroup::ThisWeek => 3,
            DeadlineGroup::NextWeek => 4,
            DeadlineGroup::Later => 5,
            DeadlineGroup::ReadyToStart => 6,
        }
    }

    /// Heading of the group.
    pub fn label(self) -> (s: &'static str)
        ensures
            s@ == match self {
                DeadlineGroup::Overdue => "Overdue"@,
                DeadlineGroup::Today => "Today"@,
                DeadlineGroup::Tomorrow => "Tomorrow"@,
                DeadlineGroup::ThisWeek => "This Week"@,
                DeadlineGroup::NextWeek => "Next Week"@,
                DeadlineGroup::Later => "Later"@,
                DeadlineGroup::ReadyToStart => "Ready to Start"@,
            },
    {
        match self {
            DeadlineGroup::Overdue => "Overdue",
            DeadlineGroup::Today => "Today",
            DeadlineGroup::Tomorrow => "Tomorrow",
            DeadlineGroup::ThisWeek => "This Week",
            DeadlineGroup::NextWeek => "Next Week",
            DeadlineGroup::Later => "Later",
            DeadlineGroup::ReadyToStart => "Ready to Start",
        }
    }

    /// Heading of the group when every task in it falls on a weekend: the
    /// week groups then read "This Weekend" and "Next Weekend".
    pub open spec fn spec_display_label(self, all_weekend: bool) -> Seq<char> {
        match self {
            DeadlineGroup::ThisWeek => if all_weekend {
                "This Weekend"@
            } else {
                "This Week"@
            },
            DeadlineGroup::NextWeek => if all_weekend {
                "Next Weekend"@
            } else {
                "Next Week"@
            },
            DeadlineGroup::Overdue => "Overdue"@,
            DeadlineGroup::Today => "Today"@,
            DeadlineGroup::Tomorrow => "Tomorrow"@,
            DeadlineGroup::Later => "Later"@,
            DeadlineGroup::ReadyToStart => "Ready to Start"@,
        }
    }

    /// See [`DeadlineGroup::spec_display_label`].
    pub fn display_label(self, all_weekend: bool) -> (s: &'static str)
        ensures
            s@ == self.spec_display_label(all_weekend),
    {
        match self {
            DeadlineGroup::ThisWeek => if all_weekend {
                "This Weekend"
            } else {
                "This Week"
            },
            DeadlineGroup::NextWeek => if all_weekend {
                "Next Weekend"
            } else {
                "Next Week"
            },
            _ => self.label(),
        }
    }

    /// The two week groups, whose tasks can all fall on a weekend.
    pub open spec fn spec_is_week(self) -> bool {
        self == DeadlineGroup::ThisWeek || self == DeadlineGroup::NextWeek
    }

    pub fn is_overdue(self) -> (b: bool)
        ensures
            b == (self == DeadlineGroup::Overdue),
    {
        match self {
            DeadlineGroup::Overdue => true,
            _ => false,
        }
    }
}

/// The Sunday that ends the ISO week of `today` (Monday starts a week).
pub open spec fn spec_this_sunday(today: int) -> int {
    today + 6 - spec_weekday(today)
}

/// The Sunday after that.
pub open spec fn spec_next_sunday(today: int) -> int {
    spec_this_sunday(today) + 7
}

/// `today` lies far enough inside the calendar for the week ahead.
pub open spec fn today_in_range(today: int) -> bool {
    DAY_MIN <= today && today + 14 <= DAY_MAX
}

/// End of this week and of next week, seen from `today`.
pub fn week_bounds(today: i32) -> (b: (i32, i32))
    requires
        today_in_range(today as int),
    ensures
        b.0 == spec_this_sunday(today as int),
        b.1 == spec_next_sunday(today as int),
{
    let w = weekday(today);
    let this_sunday = today + (6 - w as i32);
    (this_sunday, this_sunday + 7)
}

/// The group of a day seen from `today`: today or before, tomorrow, up to
/// this Sunday, up to next Sunday, or later.
pub open spec fn spec_bucket(day: int, today: int, this_sunday: int, next_sunday: int) -> DeadlineGroup {
    if day <= today {
        DeadlineGroup::Today
    } else if day == today + 1 {
        DeadlineGroup::Tomorrow
    } else if day <= this_sunday {
        DeadlineGroup::ThisWeek
    } else if day <= next_sunday {
        DeadlineGroup::NextWeek
    } else {
        DeadlineGroup::Later
    }
}

pub fn bucket(day: i32, today: i32, this_sunday: i32, next_sunday: i32) -> (g: DeadlineGroup)
    requires
        today < i32::MAX,
    ensures
        g == spec_bucket(day as int, today as int, this_sunday as int, next_sunday as int),
{
    if day <= today {
        DeadlineGroup::Today
    } else if day == today + 1 {
        DeadlineGroup::Tomorrow
    } else if day <= this_sunday {
        DeadlineGroup::ThisWeek
    } else if day <= next_sunday {
        DeadlineGroup::NextWeek
    } else {
        DeadlineGroup::Later
    }
}

/// The group of a task due on `due`: overdue when the due day has passed;
/// otherwise the group of its attention day (the due day moved back by the
/// estimate's lead days, counting only eligible days).
pub open spec fn spec_deadline_group(
    due: int,
    estimate: Option<TimeEstimate>,
    availability: Availability,
    today: int,
    this_sunday: int,
    next_sunday: int,
) -> DeadlineGroup {
    if due < today {
        DeadlineGroup::Overdue
    } else {
        spec_bucket(
            spec_back_eligible(availability, due, spec_lead(estimate) as nat),
            today,
            this_sunday,
            next_sunday,
        )
    }
}

pub fn deadline_group(
    due_date: i32,
    estimate: Option<TimeEstimate>,
    availability: Availability,
    today: i32,
    this_sunday: i32,
    next_sunday: i32,
) -> (g: DeadlineGroup)
    requires
        day_in_range(due_date as int),
        today < i32::MAX,
        due_date >= today ==> day_in_range(spec_back_eligible(availability, due_date as int, spec_lead(estimate) as nat)),
    ensures
        g == spec_deadline_group(due_date as int, estimate, availability, today as int, this_sunday as int, next_sunday as int),
{
    if due_date < today {
        return DeadlineGroup::Overdue;
    }
    let lead = match estimate {
        Some(e) => e.lead_days(),
        None => 0,
    };
    let group_date = availability.count_back(due_date, lead);
    bucket(group_date, today, this_sunday, next_sunday)
}

/// The earliest eligible day on or after `day`.
pub open spec fn spec_next_eligible(avail: Availability, day: int) -> int {
    let w = spec_weekday(day);
    match avail {
        Availability::Anytime => day,
        Availability::WeekdayOnly => if w == 5 {
            day + 2
        } else if w == 6 {
            day + 1
        } else {
            day
        },
        Availability::WeekendOnly => if w >= 5 {
            day
        } else {
            day + 5 - w
        },
    }
}

/// `spec_next_eligible` is the earliest eligible day from `day` on.
pub proof fn lemma_next_eligible(avail: Availability, day: int)
    ensures
        day <= spec_next_eligible(avail, day) <= day + 6,
        spec_is_eligible(avail, spec_next_eligible(avail, day)),
        forall|x: int| day <= x < spec_next_eligible(avail, day) ==> !spec_is_eligible(avail, x),
{
    assert(forall|x: int| day <= x <= day + 6 ==> #[trigger] spec_weekday(x) == (spec_weekday(day) + (x - day)) % 7);
}

/// Walks forward from `day` to the first eligible day.
pub fn next_eligible(avail: Availability, day: i32) -> (d: i32)
    requires
        day_in_range(day as int),
        day as int + 6 <= DAY_MAX,
    ensures
        d == spec_next_eligible(avail, day as int),
{
    proof {
        lemma_next_eligible(avail, day as int);
    }
    let mut eff = day;
    while !avail.is_eligible(eff)
        invariant
            day <= eff <= spec_next_eligible(avail, day as int),
            day_in_range(day as int),
            day as int + 6 <= DAY_MAX,
            forall|x: int| day <= x < spec_next_eligible(avail, day as int) ==> !spec_is_eligible(avail, x),
            spec_is_eligible(avail, spec_next_eligible(avail, day as int)),
            spec_next_eligible(avail, day as int) <= day + 6,
        decreases spec_next_eligible(avail, day as int) - eff,
    {
        eff = eff + 1;
    }
    eff
}

// ---------------------------------------------------------------- Upcoming

pub open spec fn opt_day(d: Option<i32>) -> Option<int> {
    match d {
        Some(x) => Some(x as int),
        None => None,
    }
}

/// Where an open task with a date goes in the Upcoming view: its group,
/// the day it is sorted by, the "start by" day shown when lead time moved
/// it, and whether only its start date pulled it into the group.
#[derive(Clone, Copy, Debug)]
pub struct Placement {
    pub group: DeadlineGroup,
    pub sort_day: i32,
    pub label: Option<i32>,
    pub soft: bool,
}

pub type PlacementView = (DeadlineGroup, int, Option<int>, bool);

impl View for Placement {
    type V = PlacementView;

    open spec fn view(&self) -> PlacementView {
        (self.group, self.sort_day as int, opt_day(self.label), self.soft)
    }
}

pub open spec fn spec_max(a: int, b: int) -> int {
    if a >= b {
        a
    } else {
        b
    }
}

/// The placement of an open task in the Upcoming view, or `None` when it
/// belongs to the backlog (no due date, and no start date that has come).
///
/// With a due date the group is its deadline group. A start date earlier
/// than the attention day pulls the task into the group of the first
/// eligible day from the start date (or today, if later), when that group
/// comes earlier; such a task is marked soft. An overdue task stays
/// overdue. Without a due date, a start date that has come puts the task
/// into "Ready to Start".
pub open spec fn spec_place(
    due: Option<int>,
    start: Option<int>,
    estimate: Option<TimeEstimate>,
    avail: Availability,
    today: int,
    this_sunday: int,
    next_sunday: int,
) -> Option<PlacementView> {
    match due {
        None => match start {
            Some(s) => if s <= today {
                Some((DeadlineGroup::ReadyToStart, s, None, false))
            } else {
                None
            },
            None => None,
        },
        Some(d) => {
            let ag = spec_deadline_group(d, estimate, avail, today, this_sunday, next_sunday);
            let lead = spec_lead(estimate);
            let effective = spec_back_eligible(avail, d, lead as nat);
            let pulled = match start {
                Some(sd) => sd < effective && ag != DeadlineGroup::Overdue && spec_bucket(
                    spec_next_eligible(avail, spec_max(sd, today)),
                    today,
                    this_sunday,
                    next_sunday,
                ).spec_rank() < ag.spec_rank(),
                None => false,
            };
            let group = if pulled {
                spec_bucket(
                    spec_next_eligible(avail, spec_max(start->Some_0, today)),
                    today,
                    this_sunday,
                    next_sunday,
                )
            } else {
                ag
            };
            let label = if lead > 0 && effective != d {
                Some(effective)
            } else {
                None
            };
            Some((group, d, label, pulled))
        },
    }
}

pub open spec fn due_day(t: Task) -> Option<int> {
    match t.spec_details().spec_due_date() {
        Some(d) => Some(d.spec_day()),
        None => None,
    }
}

pub open spec fn start_day(t: Task) -> Option<int> {
    match t.spec_details().spec_start_date() {
        Some(d) => Some(d.spec_day()),
        None => None,
    }
}

/// The placement of a task seen from `today`.
pub open spec fn spec_task_place(t: Task, today: int) -> Option<PlacementView> {
    spec_place(
        due_day(t),
        start_day(t),
        t.spec_details().spec_time_estimate(),
        t.spec_details().spec_availability(),
        today,
        spec_this_sunday(today),
        spec_next_sunday(today),
    )
}

/// The dates of the task leave room in the calendar for placing it:
/// counting back lead days from the due day, and walking up to a week
/// forward from the start day.
pub open spec fn placeable(t: Task) -> bool {
    &&& match due_day(t) {
        Some(d) => day_in_range(
            spec_back_eligible(
                t.spec_details().spec_availability(),
                d,
                spec_lead(t.spec_details().spec_time_estimate()) as nat,
            ),
        ),
        None => true,
    }
    &&& match start_day(t) {
        Some(s) => s + 6 <= DAY_MAX,
        None => true,
    }
}

/// Places a task; see [`spec_place`].
pub fn place(task: &Task, today: i32, this_sunday: i32, next_sunday: i32) -> (p: Option<Placement>)
    requires
        task.wf(),
        placeable(*task),
        today_in_range(today as int),
        this_sunday == spec_this_sunday(today as int),
        next_sunday == spec_next_sunday(today as int),
    ensures
        match p {
            Some(p) => spec_task_place(*task, today as int) == Some(p@),
            None => spec_task_place(*task, today as int) is None,
        },
{
    let details = task.details();
    let due = match details.due_date() {
        Some(d) => Some(d.day()),
        None => None,
    };
    let start = match details.start_date() {
        Some(d) => Some(d.day()),
        None => None,
    };
    match due {
        None => match start {
            Some(s) => if s <= today {
                Some(Placement { group: DeadlineGroup::ReadyToStart, sort_day: s, label: None, soft: false })
            } else {
                None
            },
            None => None,
        },
        Some(d) => {
            let est = details.time_estimate();
            let avail = details.availability();
            proof {
                crate::task::lemma_back_eligible_bounds(avail, d as int, spec_lead(est) as nat);
            }
            let ag = deadline_group(d, est, avail, today, this_sunday, next_sunday);
            let lead = match est {
                Some(e) => e.lead_days(),
                None => 0,
            };
            let effective = avail.count_back(d, lead);
            let mut group = ag;
            let mut soft = false;
            if let Some(sd) = start {
                if sd < effective && !ag.is_overdue() {
                    let from = if sd > today {
                        sd
                    } else {
                        today
                    };
                    let eff = next_eligible(avail, from);
                    let sg = bucket(eff, today, this_sunday, next_sunday);
                    if sg.rank() < ag.rank() {
                        group = sg;
                        soft = true;
                    }
                }
            }
            let label = if lead > 0 && effective != d {
                Some(effective)
            } else {
                None
            };
            Some(Placement { group, sort_day: d, label, soft })
        },
    }
}


/// Whether the task's dates leave room for placing it; see [`placeable`].
pub fn task_placeable(task: &Task) -> (b: bool)
    requires
        task.wf(),
    ensures
        b == placeable(*task),
{
    let details = task.details();
    let due_ok = match details.due_date() {
        Some(d) => {
            let lead = match details.time_estimate() {
                Some(e) => e.lead_days(),
                None => 0,
            };
            details.availability().count_back_checked(d.day(), lead).is_some()
        },
        None => true,
    };
    let start_ok = match details.start_date() {
        Some(s) => s.day() <= DAY_MAX - 6,
        None => true,
    };
    due_ok && start_ok
}

} // verus!
