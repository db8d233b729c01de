//! Properties of the library as a whole: what the views promise of every
//! task list, what the token store promises of every token, and what the
//! cache promises of every edit.

use vstd::prelude::*;

use crate::cache::{elems_distinct, key_index, keys_distinct, spec_keep_failed, spec_mark, spec_put, spec_swap_removed};
use crate::groups::{estimated_items, open_items, quick_win_groups, quick_win_key, EstimatedView};
use crate::oauth::{after_lookup, live_grant, older_than, spec_actor, Grant};
use crate::recent::{
    edit_keys, is_edit_history, last_max_at, recent_day, recent_selection, spec_ai_involved, spec_ai_last, EditView,
    RecentView,
};
use crate::sort::{is_sorted_permutation, key_eq, key_lt, permuted, runs, stable_before, SortKey};
use crate::task::{spec_record_edit, Task};
use crate::time::Timestamp;
use crate::upcoming::{backlog_items, backlog_key, labelled, placed_items, placed_key, upcoming_groups, PlacedView};
use crate::views::{spec_bucket, spec_deadline_group, spec_place, DeadlineGroup};

verus! {

// ---------------------------------------------------------------- upcoming

/// `id` is the id of an open task of `entries`.
pub open spec fn open_task_id(entries: Seq<(u128, Task)>, id: u128) -> bool {
    exists|j: int| 0 <= j < entries.len() && (#[trigger] entries[j]).0 == id && !entries[j].1.spec_info().spec_is_done()
}

/// Every open task is either placed in a group of the Upcoming view or in
/// its backlog, never both; done tasks are in neither.
pub proof fn law_upcoming_partitions_open_tasks(entries: Seq<(u128, Task)>, today: int)
    ensures
        placed_items(entries, today).len() + backlog_items(entries, today).len() == open_items(entries).len(),
        forall|i: int| 0 <= i < placed_items(entries, today).len() ==> open_task_id(entries, (#[trigger] placed_items(entries, today)[i]).0),
        forall|i: int| 0 <= i < backlog_items(entries, today).len() ==> open_task_id(entries, (#[trigger] backlog_items(entries, today)[i]).0),
    decreases entries.len(),
{
    if entries.len() > 0 {
        let prev = entries.drop_last();
        law_upcoming_partitions_open_tasks(prev, today);
        let p = placed_items(entries, today);
        let b = backlog_items(entries, today);
        assert forall|i: int| 0 <= i < p.len() implies open_task_id(entries, (#[trigger] p[i]).0) by {
            if i < placed_items(prev, today).len() {
                assert(open_task_id(prev, placed_items(prev, today)[i].0));
                let j = choose|j: int| 0 <= j < prev.len() && (#[trigger] prev[j]).0 == placed_items(prev, today)[i].0 && !prev[j].1.spec_info().spec_is_done();
                assert(entries[j] == prev[j]);
            } else {
                assert(entries[entries.len() - 1] == entries.last());
            }
        }
        assert forall|i: int| 0 <= i < b.len() implies open_task_id(entries, (#[trigger] b[i]).0) by {
            if i < backlog_items(prev, today).len() {
                assert(open_task_id(prev, backlog_items(prev, today)[i].0));
                let j = choose|j: int| 0 <= j < prev.len() && (#[trigger] prev[j]).0 == backlog_items(prev, today)[i].0 && !prev[j].1.spec_info().spec_is_done();
                assert(entries[j] == prev[j]);
            } else {
                assert(entries[entries.len() - 1] == entries.last());
            }
        }
    }
}

/// The ids of a list of placed tasks.
pub open spec fn placed_ids(p: Seq<PlacedView>) -> Seq<u128> {
    p.map_values(|x: PlacedView| x.0)
}

/// The ids of a list of backlog tasks.
pub open spec fn backlog_ids(b: Seq<(u128, crate::task::InfosView)>) -> Seq<u128> {
    b.map_values(|x: (u128, crate::task::InfosView)| x.0)
}

/// With ids that name one task each, every open task appears exactly once
/// in the Upcoming view, in a group or in the backlog, and no other id
/// appears at all.
pub proof fn law_upcoming_each_open_task_once(entries: Seq<(u128, Task)>, today: int, id: u128)
    requires
        keys_distinct(entries),
    ensures
        placed_ids(placed_items(entries, today)).to_multiset().count(id) + backlog_ids(
            backlog_items(entries, today),
        ).to_multiset().count(id) == (if open_task_id(entries, id) { 1int } else { 0int }),
    decreases entries.len(),
{
    broadcast use vstd::seq_lib::group_to_multiset_ensures;

    if entries.len() == 0 {
        assert(placed_ids(placed_items(entries, today)) =~= Seq::<u128>::empty());
        assert(backlog_ids(backlog_items(entries, today)) =~= Seq::<u128>::empty());
    } else {
        let prev = entries.drop_last();
        let e = entries.last();
        assert(keys_distinct(prev));
        law_upcoming_each_open_task_once(prev, today, id);
        let pp = placed_items(prev, today);
        let pb = backlog_items(prev, today);
        let p = placed_items(entries, today);
        let b = backlog_items(entries, today);
        if p.len() > pp.len() {
            assert(placed_ids(p) =~= placed_ids(pp).push(e.0));
        } else {
            assert(placed_ids(p) =~= placed_ids(pp));
        }
        if b.len() > pb.len() {
            assert(backlog_ids(b) =~= backlog_ids(pb).push(e.0));
        } else {
            assert(backlog_ids(b) =~= backlog_ids(pb));
        }
        assert(e == entries[entries.len() - 1]);
        if id == e.0 {
            if open_task_id(prev, id) {
                let j = choose|j: int| 0 <= j < prev.len() && (#[trigger] prev[j]).0 == id && !prev[j].1.spec_info().spec_is_done();
                assert(entries[j] == prev[j]);
            }
            if !e.1.spec_info().spec_is_done() {
                assert(open_task_id(entries, id));
            } else if open_task_id(entries, id) {
                let j = choose|j: int| 0 <= j < entries.len() && (#[trigger] entries[j]).0 == id && !entries[j].1.spec_info().spec_is_done();
            }
        } else {
            if open_task_id(prev, id) {
                let j = choose|j: int| 0 <= j < prev.len() && (#[trigger] prev[j]).0 == id && !prev[j].1.spec_info().spec_is_done();
                assert(entries[j] == prev[j]);
            }
            if open_task_id(entries, id) {
                let j = choose|j: int| 0 <= j < entries.len() && (#[trigger] entries[j]).0 == id && !entries[j].1.spec_info().spec_is_done();
                assert(prev[j] == entries[j]);
            }
        }
    }
}

/// How urgent a priority is, most urgent first: A, B, C, then none.
pub open spec fn urgency(p: Option<crate::task::Priority>) -> int {
    match p {
        Some(crate::task::Priority::A) => 0,
        Some(crate::task::Priority::B) => 1,
        Some(crate::task::Priority::C) => 2,
        None => 3,
    }
}

/// The tasks come most urgent first, and tasks of equal priority by id.
pub open spec fn by_urgency_then_id(s: Seq<(u128, crate::task::InfosView)>) -> bool {
    forall|i: int, j: int|
        0 <= i < j < s.len() ==> urgency((#[trigger] s[i]).1.4) < urgency((#[trigger] s[j]).1.4) || (urgency(s[i].1.4)
            == urgency(s[j].1.4) && s[i].0 <= s[j].0)
}

/// The backlog of the Upcoming view lists the most urgent tasks first (A,
/// then B, then C, then those without a priority), and tasks of equal
/// priority in the order of their ids.
pub proof fn law_backlog_by_urgency_then_id(items: Seq<(u128, crate::task::InfosView)>, perm: Seq<usize>)
    requires
        is_sorted_permutation(items.map_values(|b: (u128, crate::task::InfosView)| backlog_key(b)), perm),
    ensures
        by_urgency_then_id(permuted(items, perm)),
{
    let keys = items.map_values(|b: (u128, crate::task::InfosView)| backlog_key(b));
    let s = permuted(items, perm);
    assert forall|i: int, j: int| 0 <= i < j < s.len() implies urgency((#[trigger] s[i]).1.4) < urgency(
        (#[trigger] s[j]).1.4,
    ) || (urgency(s[i].1.4) == urgency(s[j].1.4) && s[i].0 <= s[j].0) by {
        assert(stable_before(keys, perm[i] as int, perm[j] as int));
        assert(keys[perm[i] as int] == backlog_key(items[perm[i] as int]));
        assert(keys[perm[j] as int] == backlog_key(items[perm[j] as int]));
        assert(s[i] == items[perm[i] as int]);
        assert(s[j] == items[perm[j] as int]);
    }
}

/// Where a group stands in the Upcoming view: Overdue, Today, Tomorrow,
/// This Week, Next Week, Later, Ready to Start.
pub open spec fn group_position(g: DeadlineGroup) -> int {
    match g {
        DeadlineGroup::Overdue => 0,
        DeadlineGroup::Today => 1,
        DeadlineGroup::Tomorrow => 2,
        DeadlineGroup::ThisWeek => 3,
        DeadlineGroup::NextWeek => 4,
        DeadlineGroup::Later => 5,
        DeadlineGroup::ReadyToStart => 6,
    }
}

/// `x` may be listed before `y` in the Upcoming view: an earlier group;
/// or in the same group, one its due date put there before one its start
/// date pulled there; or else, in Today, the more urgent priority first
/// and then the smaller id, and elsewhere the earlier day first, then the
/// more urgent priority, then the smaller id.
pub open spec fn upcoming_before(x: PlacedView, y: PlacedView) -> bool {
    ||| group_position(x.2.0) < group_position(y.2.0)
    ||| x.2.0 == y.2.0 && !x.2.3 && y.2.3
    ||| x.2.0 == y.2.0 && x.2.3 == y.2.3 && (if x.2.0 == DeadlineGroup::Today {
        urgency(x.1.4) < urgency(y.1.4) || (urgency(x.1.4) == urgency(y.1.4) && x.0 <= y.0)
    } else {
        x.2.1 < y.2.1 || (x.2.1 == y.2.1 && (urgency(x.1.4) < urgency(y.1.4) || (urgency(x.1.4) == urgency(y.1.4)
            && x.0 <= y.0)))
    })
}

/// The tasks of the Upcoming view come in its order: by group, hard before
/// soft, then by priority and id in Today and by day, priority and id
/// elsewhere (days of the calendar fit the key).
pub proof fn law_upcoming_order(items: Seq<PlacedView>, perm: Seq<usize>)
    requires
        is_sorted_permutation(items.map_values(|p: PlacedView| placed_key(p)), perm),
        forall|k: int| 0 <= k < items.len() ==> i32::MIN <= (#[trigger] items[k]).2.1 <= i32::MAX,
    ensures
        forall|i: int, j: int|
            0 <= i < j < perm.len() ==> upcoming_before(
                #[trigger] permuted(items, perm)[i],
                #[trigger] permuted(items, perm)[j],
            ),
{
    let keys = items.map_values(|p: PlacedView| placed_key(p));
    let s = permuted(items, perm);
    assert forall|i: int, j: int| 0 <= i < j < perm.len() implies upcoming_before(
        #[trigger] s[i],
        #[trigger] s[j],
    ) by {
        assert(stable_before(keys, perm[i] as int, perm[j] as int));
        assert(keys[perm[i] as int] == placed_key(items[perm[i] as int]));
        assert(keys[perm[j] as int] == placed_key(items[perm[j] as int]));
        assert(s[i] == items[perm[i] as int]);
        assert(s[j] == items[perm[j] as int]);
        assert(i32::MIN <= items[perm[i] as int].2.1 <= i32::MAX);
        assert(i32::MIN <= items[perm[j] as int].2.1 <= i32::MAX);
    }
}

/// Runs of labels that never decrease in rank come out in strictly
/// increasing rank, and none is empty.
proof fn lemma_runs_ranked<X>(s: Seq<(DeadlineGroup, X)>)
    requires
        forall|i: int, j: int| 0 <= i < j < s.len() ==> (#[trigger] s[i]).0.spec_rank() <= (#[trigger] s[j]).0.spec_rank(),
    ensures
        forall|i: int, j: int| 0 <= i < j < runs(s).len() ==> (#[trigger] runs(s)[i]).0.spec_rank() < (#[trigger] runs(s)[j]).0.spec_rank(),
        forall|i: int| 0 <= i < runs(s).len() ==> (#[trigger] runs(s)[i]).1.len() > 0,
        s.len() > 0 ==> runs(s).len() > 0 && runs(s).last().0 == s.last().0,
    decreases s.len(),
{
    if s.len() > 0 {
        let prev = s.drop_last();
        lemma_runs_ranked(prev);
        let r = runs(prev);
        if r.len() > 0 {
            assert(prev.last() == s[s.len() - 2]);
            assert(prev.last().0.spec_rank() <= s.last().0.spec_rank());
        }
    }
}

/// The groups of the Upcoming view come in display order (Overdue, Today,
/// Tomorrow, This Week, Next Week, Later, Ready to Start), each at most
/// once and none empty.
pub proof fn law_upcoming_groups_in_order(items: Seq<PlacedView>, perm: Seq<usize>)
    requires
        is_sorted_permutation(items.map_values(|p: PlacedView| placed_key(p)), perm),
    ensures
        forall|i: int, j: int|
            0 <= i < j < upcoming_groups(items, perm).len() ==> (#[trigger] upcoming_groups(items, perm)[i]).0.spec_rank()
                < (#[trigger] upcoming_groups(items, perm)[j]).0.spec_rank(),
        forall|i: int| 0 <= i < upcoming_groups(items, perm).len() ==> (#[trigger] upcoming_groups(items, perm)[i]).1.len() > 0,
{
    let keys = items.map_values(|p: PlacedView| placed_key(p));
    let s = permuted(items, perm).map_values(|p: PlacedView| labelled(p));
    assert forall|i: int, j: int| 0 <= i < j < s.len() implies (#[trigger] s[i]).0.spec_rank() <= (#[trigger] s[j]).0.spec_rank() by {
        assert(stable_before(keys, perm[i] as int, perm[j] as int));
        assert(keys[perm[i] as int] == placed_key(items[perm[i] as int]));
        assert(keys[perm[j] as int] == placed_key(items[perm[j] as int]));
    }
    lemma_runs_ranked(s);
}

/// Within a group of the Upcoming view, every task its due date placed
/// there comes before every task its start date pulled there.
pub proof fn law_upcoming_hard_before_soft(items: Seq<PlacedView>, perm: Seq<usize>, i: int, j: int)
    requires
        is_sorted_permutation(items.map_values(|p: PlacedView| placed_key(p)), perm),
        0 <= i < j < perm.len(),
        items[perm[i] as int].2.0 == items[perm[j] as int].2.0,
    ensures
        items[perm[i] as int].2.3 ==> items[perm[j] as int].2.3,
{
    let keys = items.map_values(|p: PlacedView| placed_key(p));
    assert(stable_before(keys, perm[i] as int, perm[j] as int));
    assert(keys[perm[i] as int] == placed_key(items[perm[i] as int]));
    assert(keys[perm[j] as int] == placed_key(items[perm[j] as int]));
}

/// A task whose due date has passed is overdue, whatever its start date,
/// estimate and availability.
pub proof fn law_overdue_by_due_date(
    due: int,
    start: Option<int>,
    estimate: Option<crate::task::TimeEstimate>,
    avail: crate::task::Availability,
    today: int,
    this_sunday: int,
    next_sunday: int,
)
    requires
        due < today,
    ensures
        spec_place(Some(due), start, estimate, avail, today, this_sunday, next_sunday) matches Some(p) && p.0
            == DeadlineGroup::Overdue,
{
}

/// Lead time only ever moves a task to an earlier or the same group: the
/// group of a due date is never earlier than the group of the attention
/// day counted back from it.
pub proof fn law_lead_time_moves_earlier(
    due: int,
    estimate: Option<crate::task::TimeEstimate>,
    avail: crate::task::Availability,
    today: int,
    this_sunday: int,
    next_sunday: int,
)
    requires
        today <= due,
        today <= this_sunday < next_sunday,
    ensures
        spec_deadline_group(due, estimate, avail, today, this_sunday, next_sunday).spec_rank() <= spec_bucket(
            due,
            today,
            this_sunday,
            next_sunday,
        ).spec_rank(),
{
    crate::task::lemma_back_eligible_bounds(avail, due, crate::task::spec_lead(estimate) as nat);
}

/// The group of a day only moves later as the day moves later.
proof fn lemma_bucket_monotone(d1: int, d2: int, today: int, this_sunday: int, next_sunday: int)
    requires
        d1 <= d2,
    ensures
        spec_bucket(d1, today, this_sunday, next_sunday).spec_rank() <= spec_bucket(
            d2,
            today,
            this_sunday,
            next_sunday,
        ).spec_rank(),
{
}

/// Counting back the same number of eligible days keeps the order of two
/// days.
proof fn lemma_back_eligible_monotone(avail: crate::task::Availability, d1: int, d2: int, n: nat)
    requires
        d1 <= d2,
    ensures
        crate::task::spec_back_eligible(avail, d1, n) <= crate::task::spec_back_eligible(avail, d2, n),
    decreases n,
{
    if n > 0 {
        let p1 = crate::task::spec_prev_eligible(avail, d1);
        let p2 = crate::task::spec_prev_eligible(avail, d2);
        crate::task::lemma_prev_eligible(avail, d1);
        crate::task::lemma_prev_eligible(avail, d2);
        if p1 > p2 {
            assert(p2 < p1 < d2);
            assert(!crate::task::spec_is_eligible(avail, p1));
        }
        lemma_back_eligible_monotone(avail, p1, p2, (n - 1) as nat);
    }
}

/// Counting back more eligible days never lands later.
proof fn lemma_back_eligible_antitone(avail: crate::task::Availability, day: int, n: nat, m: nat)
    requires
        n <= m,
    ensures
        crate::task::spec_back_eligible(avail, day, m) <= crate::task::spec_back_eligible(avail, day, n),
    decreases n,
{
    if n == 0 {
        crate::task::lemma_back_eligible_bounds(avail, day, m);
    } else {
        lemma_back_eligible_antitone(
            avail,
            crate::task::spec_prev_eligible(avail, day),
            (n - 1) as nat,
            (m - 1) as nat,
        );
    }
}

/// A later due date never puts a task in an earlier group: with the same
/// estimate and availability, seen on the same day, the group of the later
/// due date comes at or after the group of the earlier one.
pub proof fn law_deadline_group_monotone_in_due_date(
    d1: int,
    d2: int,
    estimate: Option<crate::task::TimeEstimate>,
    avail: crate::task::Availability,
    today: int,
    this_sunday: int,
    next_sunday: int,
)
    requires
        d1 <= d2,
    ensures
        spec_deadline_group(d1, estimate, avail, today, this_sunday, next_sunday).spec_rank() <= spec_deadline_group(
            d2,
            estimate,
            avail,
            today,
            this_sunday,
            next_sunday,
        ).spec_rank(),
{
    let n = crate::task::spec_lead(estimate) as nat;
    lemma_back_eligible_monotone(avail, d1, d2, n);
    lemma_bucket_monotone(
        crate::task::spec_back_eligible(avail, d1, n),
        crate::task::spec_back_eligible(avail, d2, n),
        today,
        this_sunday,
        next_sunday,
    );
}

/// More lead time never puts a task in a later group: for the same due
/// date and availability, the estimate with more lead days gives a group
/// at or before that of the estimate with fewer (no estimate counting as
/// none).
pub proof fn law_deadline_group_antitone_in_lead(
    due: int,
    e1: Option<crate::task::TimeEstimate>,
    e2: Option<crate::task::TimeEstimate>,
    avail: crate::task::Availability,
    today: int,
    this_sunday: int,
    next_sunday: int,
)
    requires
        crate::task::spec_lead(e1) <= crate::task::spec_lead(e2),
    ensures
        spec_deadline_group(due, e2, avail, today, this_sunday, next_sunday).spec_rank() <= spec_deadline_group(
            due,
            e1,
            avail,
            today,
            this_sunday,
            next_sunday,
        ).spec_rank(),
{
    let n1 = crate::task::spec_lead(e1) as nat;
    let n2 = crate::task::spec_lead(e2) as nat;
    lemma_back_eligible_antitone(avail, due, n1, n2);
    lemma_bucket_monotone(
        crate::task::spec_back_eligible(avail, due, n2),
        crate::task::spec_back_eligible(avail, due, n1),
        today,
        this_sunday,
        next_sunday,
    );
}

/// A task is overdue exactly when its due day is before today, whatever
/// its estimate and availability.
pub proof fn law_overdue_iff_past_due(
    due: int,
    estimate: Option<crate::task::TimeEstimate>,
    avail: crate::task::Availability,
    today: int,
    this_sunday: int,
    next_sunday: int,
)
    ensures
        (spec_deadline_group(due, estimate, avail, today, this_sunday, next_sunday) == DeadlineGroup::Overdue) <==> due
            < today,
{
}

/// An estimate of less than a day behaves as no estimate at all, and then
/// the availability does not matter either.
pub proof fn law_sub_day_estimates_alike(
    due: int,
    e: crate::task::TimeEstimate,
    avail: crate::task::Availability,
    today: int,
    this_sunday: int,
    next_sunday: int,
)
    requires
        e.spec_lead_days() == 0,
    ensures
        spec_deadline_group(due, Some(e), avail, today, this_sunday, next_sunday) == spec_deadline_group(
            due,
            None,
            crate::task::Availability::Anytime,
            today,
            this_sunday,
            next_sunday,
        ),
{
}

/// The days of `[from, to)` on which a task of availability `avail` can
/// be worked on.
pub open spec fn eligible_days(avail: crate::task::Availability, from: int, to: int) -> nat
    decreases to - from,
{
    if to <= from {
        0
    } else {
        eligible_days(avail, from, to - 1) + if crate::task::spec_is_eligible(avail, to - 1) { 1nat } else { 0nat }
    }
}

proof fn lemma_eligible_days_split(avail: crate::task::Availability, from: int, mid: int, to: int)
    requires
        from <= mid <= to,
    ensures
        eligible_days(avail, from, to) == eligible_days(avail, from, mid) + eligible_days(avail, mid, to),
    decreases to - mid,
{
    if to > mid {
        lemma_eligible_days_split(avail, from, mid, to - 1);
    }
}

proof fn lemma_eligible_days_none(avail: crate::task::Availability, from: int, to: int)
    requires
        forall|x: int| from <= x < to ==> !crate::task::spec_is_eligible(avail, x),
    ensures
        eligible_days(avail, from, to) == 0,
    decreases to - from,
{
    if to > from {
        lemma_eligible_days_none(avail, from, to - 1);
    }
}

/// Counting back `n` eligible days from `day` lands on an eligible day
/// (for `n` positive) from which exactly `n` eligible days lead up to
/// `day`; with no lead days it is `day` itself. This is how a due date and
/// an estimate's lead days give the attention date.
pub proof fn law_attention_counts_lead_days(avail: crate::task::Availability, day: int, n: nat)
    ensures
        eligible_days(avail, crate::task::spec_back_eligible(avail, day, n), day) == n,
        n == 0 ==> crate::task::spec_back_eligible(avail, day, n) == day,
        n > 0 ==> crate::task::spec_back_eligible(avail, day, n) < day && crate::task::spec_is_eligible(
            avail,
            crate::task::spec_back_eligible(avail, day, n),
        ),
    decreases n,
{
    crate::task::lemma_back_eligible_bounds(avail, day, n);
    if n > 0 {
        let p = crate::task::spec_prev_eligible(avail, day);
        crate::task::lemma_prev_eligible(avail, day);
        law_attention_counts_lead_days(avail, p, (n - 1) as nat);
        let r = crate::task::spec_back_eligible(avail, p, (n - 1) as nat);
        crate::task::lemma_back_eligible_bounds(avail, p, (n - 1) as nat);
        lemma_eligible_days_split(avail, r, p, day);
        lemma_eligible_days_split(avail, p, p + 1, day);
        lemma_eligible_days_none(avail, p + 1, day);
        assert(eligible_days(avail, p, p + 1) == 1) by {
            assert(eligible_days(avail, p, p) == 0);
        }
    }
}

/// The contexts given to a new task are kept, each once, in the order
/// they first appear: the result holds exactly the given names, none of
/// them twice, and names given without repeats come out as given.
pub proof fn law_given_contexts_each_once(more: Seq<Seq<char>>)
    ensures
        crate::task::names_distinct(crate::task::spec_extend_names(Seq::empty(), more)),
        forall|x: Seq<char>| #[trigger] crate::task::spec_extend_names(Seq::empty(), more).contains(x) <==> more.contains(x),
        crate::task::names_distinct(more) ==> crate::task::spec_extend_names(Seq::empty(), more) == more,
    decreases more.len(),
{
    crate::task::lemma_extend_names_distinct(Seq::empty(), more);
    if more.len() > 0 {
        let prev = more.drop_last();
        law_given_contexts_each_once(prev);
        let prefix = crate::task::spec_extend_names(Seq::empty(), prev);
        let r = crate::task::spec_extend_names(Seq::empty(), more);
        assert forall|x: Seq<char>| #[trigger] r.contains(x) <==> more.contains(x) by {
            if r.contains(x) {
                let k = choose|k: int| 0 <= k < r.len() && r[k] == x;
                if k < prefix.len() {
                    assert(prefix.contains(x));
                    let m = choose|m: int| 0 <= m < prev.len() && prev[m] == x;
                    assert(more[m] == x);
                } else {
                    assert(more[more.len() - 1] == x);
                }
            }
            if more.contains(x) {
                let m = choose|m: int| 0 <= m < more.len() && more[m] == x;
                if m < prev.len() {
                    assert(prev[m] == x);
                    assert(prefix.contains(x));
                    let k = choose|k: int| 0 <= k < prefix.len() && prefix[k] == x;
                    if !prefix.contains(more.last()) {
                        assert(r[k] == x);
                    }
                } else if !prefix.contains(more.last()) {
                    assert(r[prefix.len() as int] == x);
                }
            }
        }
        if crate::task::names_distinct(more) {
            assert(crate::task::names_distinct(prev)) by {
                assert forall|i: int, j: int| 0 <= i < j < prev.len() implies prev[i] != prev[j] by {
                    assert(prev[i] == more[i] && prev[j] == more[j]);
                }
            }
            assert(!prev.contains(more.last())) by {
                if prev.contains(more.last()) {
                    let m = choose|m: int| 0 <= m < prev.len() && prev[m] == more.last();
                    assert(more[m] == more[more.len() - 1]);
                }
            }
            assert(more =~= prev.push(more.last()));
        }
    }
}

// -------------------------------------------------------------- quick wins

/// `id` is the id of an open task of `entries` that has a time estimate.
pub open spec fn estimated_task_id(entries: Seq<(u128, Task)>, id: u128) -> bool {
    exists|j: int|
        0 <= j < entries.len() && (#[trigger] entries[j]).0 == id && !entries[j].1.spec_info().spec_is_done()
            && entries[j].1.spec_details().spec_time_estimate() is Some
}

/// With ids that name one task each, Quick Wins lists every open task
/// that has a time estimate exactly once, and nothing else.
pub proof fn law_quick_wins_each_estimated_task_once(entries: Seq<(u128, Task)>, id: u128)
    requires
        keys_distinct(entries),
    ensures
        estimated_items(entries).map_values(|x: EstimatedView| x.0).to_multiset().count(id) == (if estimated_task_id(
            entries,
            id,
        ) {
            1int
        } else {
            0int
        }),
    decreases entries.len(),
{
    broadcast use vstd::seq_lib::group_to_multiset_ensures;

    let ids = |x: EstimatedView| x.0;
    if entries.len() == 0 {
        assert(estimated_items(entries).map_values(ids) =~= Seq::<u128>::empty());
    } else {
        let prev = entries.drop_last();
        let e = entries.last();
        assert(keys_distinct(prev));
        law_quick_wins_each_estimated_task_once(prev, id);
        let q = estimated_items(entries);
        let pq = estimated_items(prev);
        if q.len() > pq.len() {
            assert(q.map_values(ids) =~= pq.map_values(ids).push(e.0));
        } else {
            assert(q.map_values(ids) =~= pq.map_values(ids));
        }
        assert(e == entries[entries.len() - 1]);
        if estimated_task_id(prev, id) {
            let j = choose|j: int|
                0 <= j < prev.len() && (#[trigger] prev[j]).0 == id && !prev[j].1.spec_info().spec_is_done()
                    && prev[j].1.spec_details().spec_time_estimate() is Some;
            assert(entries[j] == prev[j]);
        }
        if estimated_task_id(entries, id) {
            let j = choose|j: int|
                0 <= j < entries.len() && (#[trigger] entries[j]).0 == id && !entries[j].1.spec_info().spec_is_done()
                    && entries[j].1.spec_details().spec_time_estimate() is Some;
            if j < prev.len() {
                assert(prev[j] == entries[j]);
            }
        }
    }
}

/// The length of an estimate in minutes, a working day counted as eight
/// hours.
pub open spec fn estimate_minutes(e: crate::task::TimeEstimate) -> int {
    match e {
        crate::task::TimeEstimate::Min15 => 15,
        crate::task::TimeEstimate::Min30 => 30,
        crate::task::TimeEstimate::Min45 => 45,
        crate::task::TimeEstimate::Hours1 => 60,
        crate::task::TimeEstimate::Hours2 => 120,
        crate::task::TimeEstimate::HalfDay => 240,
        crate::task::TimeEstimate::Day1 => 480,
        crate::task::TimeEstimate::Day2 => 960,
    }
}

/// Quick Wins lists the shortest estimates first; among tasks of one
/// estimate the more urgent priority first, then the smaller id.
pub proof fn law_quick_wins_shortest_then_urgent(items: Seq<EstimatedView>, perm: Seq<usize>)
    requires
        is_sorted_permutation(items.map_values(|x: EstimatedView| quick_win_key(x)), perm),
    ensures
        forall|i: int, j: int|
            0 <= i < j < perm.len() ==> {
                let x = #[trigger] permuted(items, perm)[i];
                let y = #[trigger] permuted(items, perm)[j];
                ||| estimate_minutes(x.2) < estimate_minutes(y.2)
                ||| x.2 == y.2 && urgency(x.1.4) < urgency(y.1.4)
                ||| x.2 == y.2 && urgency(x.1.4) == urgency(y.1.4) && x.0 <= y.0
            },
{
    let keys = items.map_values(|x: EstimatedView| quick_win_key(x));
    let s = permuted(items, perm);
    assert forall|i: int, j: int| 0 <= i < j < perm.len() implies {
        let x = #[trigger] s[i];
        let y = #[trigger] s[j];
        ||| estimate_minutes(x.2) < estimate_minutes(y.2)
        ||| x.2 == y.2 && urgency(x.1.4) < urgency(y.1.4)
        ||| x.2 == y.2 && urgency(x.1.4) == urgency(y.1.4) && x.0 <= y.0
    } by {
        assert(stable_before(keys, perm[i] as int, perm[j] as int));
        assert(keys[perm[i] as int] == quick_win_key(items[perm[i] as int]));
        assert(keys[perm[j] as int] == quick_win_key(items[perm[j] as int]));
        assert(s[i] == items[perm[i] as int]);
        assert(s[j] == items[perm[j] as int]);
    }
}

/// The tasks grouped by category come by category in `String` order and,
/// within a category, the latest completed first (for the finished tasks,
/// `by_completion`) or by id (for the open ones).
pub proof fn law_category_groups_order(
    items: Seq<crate::groups::PairView>,
    cats: Seq<Seq<char>>,
    by_completion: bool,
    perm: Seq<usize>,
)
    requires
        crate::groups::sorted_categories(cats, items),
        is_sorted_permutation(crate::groups::category_keys(items, cats, by_completion), perm),
        cats.len() <= i64::MAX,
        forall|k: int| 0 <= k < items.len() ==> (#[trigger] items[k]).1.1.spec_since().wf(),
    ensures
        forall|i: int, j: int|
            0 <= i < j < perm.len() ==> {
                let x = #[trigger] permuted(items, perm)[i];
                let y = #[trigger] permuted(items, perm)[j];
                ||| crate::text::text_lt(x.1.2, y.1.2)
                ||| x.1.2 == y.1.2 && by_completion && x.1.1.spec_since().instant() >= y.1.1.spec_since().instant()
                ||| x.1.2 == y.1.2 && !by_completion && x.0 <= y.0
            },
{
    let keys = crate::groups::category_keys(items, cats, by_completion);
    let s = permuted(items, perm);
    assert forall|i: int, j: int| 0 <= i < j < perm.len() implies {
        let x = #[trigger] s[i];
        let y = #[trigger] s[j];
        ||| crate::text::text_lt(x.1.2, y.1.2)
        ||| x.1.2 == y.1.2 && by_completion && x.1.1.spec_since().instant() >= y.1.1.spec_since().instant()
        ||| x.1.2 == y.1.2 && !by_completion && x.0 <= y.0
    } by {
        let pi = perm[i] as int;
        let pj = perm[j] as int;
        let x = items[pi];
        let y = items[pj];
        assert(s[i] == x && s[j] == y);
        assert(stable_before(keys, pi, pj));
        assert(keys[pi] == crate::groups::category_key(x, cats, by_completion));
        assert(keys[pj] == crate::groups::category_key(y, cats, by_completion));
        assert(crate::groups::categories_of(items)[pi] == x.1.2);
        assert(crate::groups::categories_of(items)[pj] == y.1.2);
        assert(cats.contains(x.1.2));
        assert(cats.contains(y.1.2));
        let qx = crate::groups::position_of(cats, x.1.2);
        let qy = crate::groups::position_of(cats, y.1.2);
        assert(0 <= qx < cats.len() && cats[qx] == x.1.2);
        assert(0 <= qy < cats.len() && cats[qy] == y.1.2);
        crate::time::lemma_secs_in_range(x.1.1.spec_since().secs as int);
        crate::time::lemma_secs_in_range(y.1.1.spec_since().secs as int);
        if qx < qy {
            assert(crate::text::text_lt(cats[qx], cats[qy]));
        } else {
            assert(qx == qy);
        }
    }
}

/// The Quick Wins groups go from the shortest estimate to the longest,
/// each estimate at most once, and within a group no task comes before a
/// task of a more urgent priority.
pub proof fn law_quick_wins_in_order(items: Seq<EstimatedView>, perm: Seq<usize>)
    requires
        is_sorted_permutation(items.map_values(|x: EstimatedView| quick_win_key(x)), perm),
    ensures
        forall|i: int, j: int|
            0 <= i < j < quick_win_groups(items, perm).len() ==> (#[trigger] quick_win_groups(items, perm)[i]).0.spec_rank()
                < (#[trigger] quick_win_groups(items, perm)[j]).0.spec_rank(),
        forall|i: int, j: int|
            0 <= i < j < perm.len() && items[perm[i] as int].2 == items[perm[j] as int].2 ==> crate::upcoming::priority_rank_of(
                items[perm[i] as int].1.4,
            ) <= crate::upcoming::priority_rank_of(items[perm[j] as int].1.4),
{
    let keys = items.map_values(|x: EstimatedView| quick_win_key(x));
    let s = permuted(items, perm).map_values(|x: EstimatedView| (x.2, (x.0, x.1)));
    assert forall|i: int, j: int| 0 <= i < j < perm.len() && items[perm[i] as int].2 == items[perm[j] as int].2 implies crate::upcoming::priority_rank_of(
        items[perm[i] as int].1.4,
    ) <= crate::upcoming::priority_rank_of(items[perm[j] as int].1.4) by {
        assert(stable_before(keys, perm[i] as int, perm[j] as int));
        assert(keys[perm[i] as int] == quick_win_key(items[perm[i] as int]));
        assert(keys[perm[j] as int] == quick_win_key(items[perm[j] as int]));
    }
    lemma_runs_estimate_ranked(s, keys, perm, items);
}

proof fn lemma_runs_estimate_ranked(
    s: Seq<(crate::task::TimeEstimate, (u128, crate::task::InfosView))>,
    keys: Seq<SortKey>,
    perm: Seq<usize>,
    items: Seq<EstimatedView>,
)
    requires
        keys == items.map_values(|x: EstimatedView| quick_win_key(x)),
        is_sorted_permutation(keys, perm),
        s == permuted(items, perm).map_values(|x: EstimatedView| (x.2, (x.0, x.1))),
    ensures
        forall|i: int, j: int| 0 <= i < j < runs(s).len() ==> (#[trigger] runs(s)[i]).0.spec_rank() < (#[trigger] runs(s)[j]).0.spec_rank(),
{
    assert forall|i: int, j: int| 0 <= i < j < s.len() implies (#[trigger] s[i]).0.spec_rank() <= (#[trigger] s[j]).0.spec_rank() by {
        assert(stable_before(keys, perm[i] as int, perm[j] as int));
        assert(keys[perm[i] as int] == quick_win_key(items[perm[i] as int]));
        assert(keys[perm[j] as int] == quick_win_key(items[perm[j] as int]));
    }
    lemma_runs_estimate_ranked_seq(s);
}

proof fn lemma_runs_estimate_ranked_seq<X>(s: Seq<(crate::task::TimeEstimate, X)>)
    requires
        forall|i: int, j: int| 0 <= i < j < s.len() ==> (#[trigger] s[i]).0.spec_rank() <= (#[trigger] s[j]).0.spec_rank(),
    ensures
        forall|i: int, j: int| 0 <= i < j < runs(s).len() ==> (#[trigger] runs(s)[i]).0.spec_rank() < (#[trigger] runs(s)[j]).0.spec_rank(),
        s.len() > 0 ==> runs(s).len() > 0 && runs(s).last().0 == s.last().0,
    decreases s.len(),
{
    if s.len() > 0 {
        let prev = s.drop_last();
        lemma_runs_estimate_ranked_seq(prev);
        if runs(prev).len() > 0 {
            assert(prev.last() == s[s.len() - 2]);
            let a = runs(prev).last().0;
            let b = s.last().0;
            if a != b {
                assert(a.spec_rank() != b.spec_rank());
            }
        }
    }
}

// ------------------------------------------------------------ token store

/// An authorization code can be redeemed once: after a redemption, at any
/// later time, the same code finds no grant.
pub proof fn law_auth_code_single_use(m: Map<u128, Grant>, code: Seq<char>, ttl: u64, now: Timestamp, later: Timestamp)
    ensures
        live_grant(after_lookup(m, code, ttl, now, true), code, ttl, later) is None,
{
}

/// A refresh token that is valid stays valid when checked: checking it
/// leaves the tokens as they were, so it can be used again.
pub proof fn law_refresh_token_reusable(m: Map<u128, Grant>, token: Seq<char>, ttl: u64, now: Timestamp)
    requires
        live_grant(m, token, ttl, now) is Some,
    ensures
        after_lookup(m, token, ttl, now, false) == m,
        live_grant(after_lookup(m, token, ttl, now, false), token, ttl, now) == live_grant(m, token, ttl, now),
{
}

/// A grant that has outlived its lifetime is refused and, when checked,
/// dropped.
pub proof fn law_expired_grant_refused(m: Map<u128, Grant>, token: Seq<char>, c: u128, ttl: u64, now: Timestamp)
    requires
        crate::ids::spec_uuid_parse(token) == Some(c),
        m.contains_key(c),
        older_than(m[c].created_at, ttl, now),
    ensures
        live_grant(m, token, ttl, now) is None,
        !after_lookup(m, token, ttl, now, false).contains_key(c),
{
}

/// A grant is accepted while it is younger than its lifetime.
pub proof fn law_fresh_grant_accepted(m: Map<u128, Grant>, token: Seq<char>, c: u128, ttl: u64, now: Timestamp)
    requires
        crate::ids::spec_uuid_parse(token) == Some(c),
        m.contains_key(c),
        !older_than(m[c].created_at, ttl, now),
    ensures
        live_grant(m, token, ttl, now) == Some(m[c]),
{
}

/// A client that acts on behalf of nobody is read-only: no actor string
/// is made for it, and one that acts on behalf of someone always gets one.
pub proof fn law_read_only_clients_get_no_actor(
    client: Option<Seq<char>>,
    prefix: Option<crate::oauth::ClientPrefix>,
    on_behalf_of: Option<Seq<char>>,
)
    ensures
        spec_actor(client, prefix, on_behalf_of) is Err <==> on_behalf_of is None,
{
}

// ------------------------------------------------------------------ cache

/// A task put under an id is what the id then gives back, and no other id
/// changes.
pub proof fn law_put_then_get(entries: Seq<(u128, Task)>, id: u128, task: Task, other: u128)
    requires
        keys_distinct(entries),
        other != id,
    ensures
        keys_distinct(spec_put(entries, id, task)),
        key_index(spec_put(entries, id, task), id) matches Some(i) && spec_put(entries, id, task)[i].1 == task,
        match key_index(entries, other) {
            Some(i) => key_index(spec_put(entries, id, task), other) matches Some(j) && spec_put(entries, id, task)[j]
                == entries[i],
            None => key_index(spec_put(entries, id, task), other) is None,
        },
{
    let r = spec_put(entries, id, task);
    match key_index(entries, id) {
        Some(i) => {
            assert(r[i].0 == id);
            assert forall|a: int, b: int| 0 <= a < b < r.len() implies r[a].0 != r[b].0 by {
                assert(r[a].0 == entries[a].0 && r[b].0 == entries[b].0);
            }
        },
        None => {
            assert(r[entries.len() as int].0 == id);
        },
    }
    let k = key_index(r, id)->Some_0;
    match key_index(entries, id) {
        Some(i) => {
            if k != i {
                assert(r[k].0 == r[i].0);
            }
        },
        None => {
            if k != entries.len() {
                assert(entries[k].0 == id);
            }
        },
    }
    match key_index(entries, other) {
        Some(i) => {
            assert(r[i].0 == other);
            let j = key_index(r, other)->Some_0;
            if j != i {
                assert(r[j].0 == r[i].0);
            }
        },
        None => {
            if exists|j: int| 0 <= j < r.len() && r[j].0 == other {
                let j = choose|j: int| 0 <= j < r.len() && r[j].0 == other;
                if j < entries.len() {
                    assert(entries[j].0 == other);
                }
            }
        },
    }
}

/// Marking an id makes it dirty; marking it again changes nothing.
pub proof fn law_mark_idempotent(ids: Seq<u128>, id: u128)
    ensures
        spec_mark(ids, id).contains(id),
        spec_mark(spec_mark(ids, id), id) == spec_mark(ids, id),
{
    if !ids.contains(id) {
        assert(ids.push(id)[ids.len() as int] == id);
    }
}

/// After a flush that failed for some tasks, exactly the ids that failed
/// stay marked dirty.
pub proof fn law_failed_flush_keeps_failed(dirty: Seq<u128>, failed: Set<u128>)
    requires
        elems_distinct(dirty),
    ensures
        forall|x: u128| #[trigger] spec_keep_failed(dirty, dirty, failed).contains(x) <==> (dirty.contains(x) && failed.contains(x)),
{
    lemma_keep_failed(dirty, dirty, failed);
}

proof fn lemma_swap_removed_contents(e: Seq<u128>, id: u128)
    requires
        elems_distinct(e),
    ensures
        forall|x: u128| #[trigger] spec_swap_removed(e, id).contains(x) <==> (e.contains(x) && x != id),
        elems_distinct(spec_swap_removed(e, id)),
{
    if e.contains(id) {
        let i = e.index_of(id);
        let r = spec_swap_removed(e, id);
        assert forall|x: u128| #[trigger] r.contains(x) <==> (e.contains(x) && x != id) by {
            if r.contains(x) {
                let k = choose|k: int| 0 <= k < r.len() && r[k] == x;
                if k == i {
                    assert(x == e[e.len() - 1]);
                    assert(e.len() - 1 != i);
                } else {
                    assert(x == e[k]);
                }
            }
            if e.contains(x) && x != id {
                let k = choose|k: int| 0 <= k < e.len() && e[k] == x;
                if k == e.len() - 1 {
                    assert(r[i] == x);
                } else {
                    assert(k != i);
                    assert(r[k] == x);
                }
            }
        }
        assert forall|a: int, b: int| 0 <= a < b < r.len() implies r[a] != r[b] by {
            if a == i {
                assert(r[a] == e[e.len() - 1]);
            } else if b == i {
                assert(r[b] == e[e.len() - 1]);
            }
        }
    }
}

proof fn lemma_keep_failed(e: Seq<u128>, walk: Seq<u128>, failed: Set<u128>)
    requires
        elems_distinct(e),
    ensures
        elems_distinct(spec_keep_failed(e, walk, failed)),
        forall|x: u128|
            #[trigger] spec_keep_failed(e, walk, failed).contains(x) <==> (e.contains(x) && (walk.contains(x) ==> failed.contains(x))),
    decreases walk.len(),
{
    if walk.len() > 0 {
        let prev = walk.drop_last();
        lemma_keep_failed(e, prev, failed);
        let p = spec_keep_failed(e, prev, failed);
        let w = walk.last();
        if !failed.contains(w) {
            lemma_swap_removed_contents(p, w);
        }
        assert forall|x: u128| #[trigger] spec_keep_failed(e, walk, failed).contains(x) <==> (e.contains(x) && (walk.contains(x)
            ==> failed.contains(x))) by {
            assert(walk.contains(x) <==> (prev.contains(x) || x == w)) by {
                if walk.contains(x) {
                    let k = choose|k: int| 0 <= k < walk.len() && walk[k] == x;
                    if k < walk.len() - 1 {
                        assert(prev[k] == x);
                    }
                }
                if prev.contains(x) {
                    let k = choose|k: int| 0 <= k < prev.len() && prev[k] == x;
                    assert(walk[k] == x);
                }
                if x == w {
                    assert(walk[walk.len() - 1] == x);
                }
            }
        }
    }
}

/// An edit less than five minutes after the author's last one replaces
/// it; a later one is added. Either way the author's last edit is the new
/// one.
pub proof fn law_edits_debounced(ts: Seq<Timestamp>, now: Timestamp)
    ensures
        spec_record_edit(ts, now).last() == now,
        ts.len() > 0 && crate::task::spec_debounced(now, ts.last()) ==> spec_record_edit(ts, now).len() == ts.len(),
        !(ts.len() > 0 && crate::task::spec_debounced(now, ts.last())) ==> spec_record_edit(ts, now).len() == ts.len() + 1,
{
}

// --------------------------------------------------------- recent changes

/// The edit history lists the edits latest first.
pub proof fn law_edit_history_latest_first(edits: Seq<EditView>, h: Seq<EditView>, i: int, j: int)
    requires
        is_edit_history(edits, h),
        forall|k: int| 0 <= k < edits.len() ==> (#[trigger] edits[k]).1.wf(),
        0 <= i < j < h.len(),
    ensures
        h[i].1.instant() >= h[j].1.instant(),
{
    let perm = choose|perm: Seq<usize>| #[trigger] is_sorted_permutation(edit_keys(edits), perm) && h == permuted(edits, perm);
    let keys = edit_keys(edits);
    assert(stable_before(keys, perm[i] as int, perm[j] as int));
    let a = edits[perm[i] as int].1;
    let b = edits[perm[j] as int].1;
    assert(keys[perm[i] as int] == crate::recent::latest_first_key(a));
    assert(keys[perm[j] as int] == crate::recent::latest_first_key(b));
    crate::time::lemma_instant_order(b.secs as int, b.nanos as int, a.secs as int, a.nanos as int);
}

/// Recent Changes lists the tasks most recently changed first.
pub proof fn law_recent_latest_first(items: Seq<RecentView>, perm: Seq<usize>, i: int, j: int)
    requires
        is_sorted_permutation(crate::recent::recent_keys(items), perm),
        forall|k: int| 0 <= k < items.len() ==> (#[trigger] items[k]).3.wf(),
        0 <= i < j < perm.len(),
    ensures
        permuted(items, perm)[i].3.instant() >= permuted(items, perm)[j].3.instant(),
{
    let keys = crate::recent::recent_keys(items);
    assert(stable_before(keys, perm[i] as int, perm[j] as int));
    let a = items[perm[i] as int].3;
    let b = items[perm[j] as int].3;
    assert(keys[perm[i] as int] == crate::recent::latest_first_key(a));
    assert(keys[perm[j] as int] == crate::recent::latest_first_key(b));
    crate::time::lemma_instant_order(b.secs as int, b.nanos as int, a.secs as int, a.nanos as int);
}

/// When the last of the latest edits is an AI assistant's, an AI assistant
/// was involved.
pub proof fn law_ai_last_means_involved(h: Seq<EditView>)
    ensures
        spec_ai_last(h) ==> spec_ai_involved(h),
{
    if spec_ai_last(h) {
        let j = choose|j: int| #[trigger] last_max_at(h, j) && crate::recent::is_ai_actor(h[j].0);
        assert(crate::recent::is_ai_actor(h[j].0));
    }
}

/// Recent Changes shows every task changed on or after the cutoff day.
pub proof fn law_recent_window_complete(items: Seq<RecentView>, cutoff: int, extra: nat, k: int)
    requires
        0 <= k < items.len(),
        recent_day(items[k]) >= cutoff,
    ensures
        recent_selection(items, cutoff, extra).contains(items[k]),
    decreases items.len(),
{
    let prev = items.drop_last();
    if k == items.len() - 1 {
        let r = recent_selection(items, cutoff, extra);
        assert(r.last() == items.last());
        assert(r[r.len() - 1] == items[k]);
    } else {
        assert(prev[k] == items[k]);
        law_recent_window_complete(prev, cutoff, extra, k);
        let rp = recent_selection(prev, cutoff, extra);
        let r = recent_selection(items, cutoff, extra);
        let m = choose|m: int| 0 <= m < rp.len() && rp[m] == items[k];
        assert(r[m] == rp[m]);
    }
}

} // verus!
