//! The Upcoming view: the open tasks that have a date, grouped by urgency
//! and ordered within each group, and the backlog of the other open tasks.

use vstd::prelude::*;

use crate::cache::TaskCache;
use crate::sort::{is_sorted_permutation, permuted, runs, sort_indices, SortKey};
use crate::task::{assigned, lemma_assigned_everyone, who_view, Infos, InfosView, Priority, Task};
use crate::views::{
    opt_day, place, placeable, spec_next_sunday, spec_task_place, spec_this_sunday, task_placeable, today_in_range,
    week_bounds, DeadlineGroup, Placement, PlacementView,
};

verus! {

/// An open task with its placement: id, information and placement.
pub type PlacedView = (u128, InfosView, PlacementView);

/// A task as the Upcoming view lists it: id, information, the "start by"
/// day (if any) and the day it is sorted by (its due date, else its start
/// date).
pub type UpcomingEntryView = (u128, InfosView, Option<int>, int);

/// The order rank of an optional priority: A, B, C, then none.
pub open spec fn priority_rank_of(p: Option<Priority>) -> u8 {
    match p {
        Some(p) => p.spec_rank(),
        None => 255,
    }
}

/// The open tasks of `entries` that the Upcoming view places, in cache
/// order.
pub open spec fn placed_items(entries: Seq<(u128, Task)>, today: int) -> Seq<PlacedView>
    decreases entries.len(),
{
    if entries.len() == 0 {
        Seq::empty()
    } else {
        let prev = placed_items(entries.drop_last(), today);
        let e = entries.last();
        if !e.1.spec_info().spec_is_done() && spec_task_place(e.1, today) is Some {
            prev.push((e.0, e.1.spec_info()@, spec_task_place(e.1, today)->Some_0))
        } else {
            prev
        }
    }
}

/// The open tasks of `entries` that the Upcoming view does not place (no
/// due date, and no start date that has come), in cache order.
pub open spec fn backlog_items(entries: Seq<(u128, Task)>, today: int) -> Seq<(u128, InfosView)>
    decreases entries.len(),
{
    if entries.len() == 0 {
        Seq::empty()
    } else {
        let prev = backlog_items(entries.drop_last(), today);
        let e = entries.last();
        if !e.1.spec_info().spec_is_done() && spec_task_place(e.1, today) is None {
            prev.push((e.0, e.1.spec_info()@))
        } else {
            prev
        }
    }
}

/// How placed tasks are ordered: by group; within a group the tasks that
/// their due date put there before those their start date pulled there;
/// then in "Today" by priority, elsewhere by day and then priority; the id
/// (creation order) last.
pub open spec fn placed_key(p: PlacedView) -> SortKey {
    let rank = priority_rank_of(p.1.4) as i64;
    let today_group = p.2.0 == DeadlineGroup::Today;
    SortKey {
        a: p.2.0.spec_rank() as i64,
        b: if p.2.3 {
            1
        } else {
            0
        },
        c: if today_group {
            rank
        } else {
            p.2.1 as i64
        },
        d: if today_group {
            0
        } else {
            rank
        },
        e: p.0,
    }
}

/// The backlog is ordered by priority, then id.
pub open spec fn backlog_key(b: (u128, InfosView)) -> SortKey {
    SortKey { a: priority_rank_of(b.1.4) as i64, b: 0, c: 0, d: 0, e: b.0 }
}

/// A placed task labelled with its group, as listed.
pub open spec fn labelled(p: PlacedView) -> (DeadlineGroup, UpcomingEntryView) {
    (p.2.0, (p.0, p.1, p.2.2, p.2.1))
}

/// The groups of the Upcoming view when the placed tasks come in the
/// order `perm`: maximal runs of one group each.
pub open spec fn upcoming_groups(items: Seq<PlacedView>, perm: Seq<usize>) -> Seq<(DeadlineGroup, Seq<UpcomingEntryView>)> {
    runs(permuted(items, perm).map_values(|p: PlacedView| labelled(p)))
}

pub open spec fn entry_view(e: (u128, Infos, Option<i32>, i32)) -> UpcomingEntryView {
    (e.0, e.1@, opt_day(e.2), e.3 as int)
}

pub open spec fn group_view(g: (DeadlineGroup, Vec<(u128, Infos, Option<i32>, i32)>)) -> (DeadlineGroup, Seq<UpcomingEntryView>) {
    (g.0, g.1@.map_values(|e: (u128, Infos, Option<i32>, i32)| entry_view(e)))
}

pub open spec fn groups_view(gs: Seq<(DeadlineGroup, Vec<(u128, Infos, Option<i32>, i32)>)>) -> Seq<(DeadlineGroup, Seq<UpcomingEntryView>)> {
    gs.map_values(|g: (DeadlineGroup, Vec<(u128, Infos, Option<i32>, i32)>)| group_view(g))
}

pub open spec fn pair_view(e: (u128, Infos)) -> (u128, InfosView) {
    (e.0, e.1@)
}

pub open spec fn pairs_view(v: Seq<(u128, Infos)>) -> Seq<(u128, InfosView)> {
    v.map_values(|e: (u128, Infos)| pair_view(e))
}

pub open spec fn placed_view(e: (u128, Infos, Placement)) -> PlacedView {
    (e.0, e.1@, e.2@)
}

/// Every open task of the cache has dates that leave room for placing it.
pub open spec fn open_tasks_placeable(entries: Seq<(u128, Task)>) -> bool {
    forall|i: int|
        0 <= i < entries.len() && !(#[trigger] entries[i]).1.spec_info().spec_is_done() ==> placeable(entries[i].1)
}

/// Groups the open tasks for the Upcoming view as seen on day `today`.
///
/// The first result lists the groups in order (Overdue, Today, Tomorrow,
/// This Week, Next Week, Later, Ready to Start; empty groups left out),
/// each with its tasks in the order of [`placed_key`]. The second is the
/// backlog, ordered by [`backlog_key`]. Done tasks appear in neither.
pub fn group_upcoming(cache: &TaskCache, today: i32) -> (r: (
    Vec<(DeadlineGroup, Vec<(u128, Infos, Option<i32>, i32)>)>,
    Vec<(u128, Infos)>,
))
    requires
        cache.wf(),
        today_in_range(today as int),
        open_tasks_placeable(cache.spec_entries()),
    ensures
        exists|perm: Seq<usize>|
            is_sorted_permutation(
                placed_items(cache.spec_entries(), today as int).map_values(|p: PlacedView| placed_key(p)),
                perm,
            ) && #[trigger] groups_view(r.0@) == upcoming_groups(placed_items(cache.spec_entries(), today as int), perm),
        exists|perm: Seq<usize>|
            is_sorted_permutation(
                backlog_items(cache.spec_entries(), today as int).map_values(|b: (u128, InfosView)| backlog_key(b)),
                perm,
            ) && #[trigger] pairs_view(r.1@) == permuted(backlog_items(cache.spec_entries(), today as int), perm),
        crate::laws::by_urgency_then_id(pairs_view(r.1@)),
{
    proof {
        lemma_assigned_everyone(cache.spec_entries());
    }
    group_upcoming_for(cache, today, None)
}

/// Groups the open tasks of `who` (everyone's, see [`assigned`]) for the
/// Upcoming view as seen on day `today`.
///
/// The first result lists the groups in order (Overdue, Today, Tomorrow,
/// This Week, Next Week, Later, Ready to Start; empty groups left out),
/// each with its tasks in the order of [`placed_key`]. The second is the
/// backlog, ordered by [`backlog_key`]. Done tasks appear in neither.
pub fn group_upcoming_for(cache: &TaskCache, today: i32, who: Option<Option<&str>>) -> (r: (
    Vec<(DeadlineGroup, Vec<(u128, Infos, Option<i32>, i32)>)>,
    Vec<(u128, Infos)>,
))
    requires
        cache.wf(),
        today_in_range(today as int),
        open_tasks_placeable(cache.spec_entries()),
    ensures
        exists|perm: Seq<usize>|
            is_sorted_permutation(
                placed_items(assigned(cache.spec_entries(), who_view(who)), today as int).map_values(|p: PlacedView| placed_key(p)),
                perm,
            ) && #[trigger] groups_view(r.0@) == upcoming_groups(placed_items(assigned(cache.spec_entries(), who_view(who)), today as int), perm),
        exists|perm: Seq<usize>|
            is_sorted_permutation(
                backlog_items(assigned(cache.spec_entries(), who_view(who)), today as int).map_values(|b: (u128, InfosView)| backlog_key(b)),
                perm,
            ) && #[trigger] pairs_view(r.1@) == permuted(backlog_items(assigned(cache.spec_entries(), who_view(who)), today as int), perm),
        crate::laws::by_urgency_then_id(pairs_view(r.1@)),
{
    let (this_sunday, next_sunday) = week_bounds(today);
    let n = cache.len();
    let ghost entries = cache.spec_entries();
    let ghost w = who_view(who);
    let mut items: Vec<(u128, Infos, Placement)> = Vec::new();
    let mut keys: Vec<SortKey> = Vec::new();
    let mut backlog: Vec<(u128, Infos)> = Vec::new();
    let mut bkeys: Vec<SortKey> = Vec::new();
    let mut i: usize = 0;
    while i < n
        invariant
            entries == cache.spec_entries(),
            w == who_view(who),
            n == entries.len(),
            i <= n,
            cache.wf(),
            today_in_range(today as int),
            this_sunday == spec_this_sunday(today as int),
            next_sunday == spec_next_sunday(today as int),
            open_tasks_placeable(entries),
            items@.map_values(|e: (u128, Infos, Placement)| placed_view(e)) == placed_items(assigned(entries.take(i as int), w), today as int),
            keys@ == placed_items(assigned(entries.take(i as int), w), today as int).map_values(|p: PlacedView| placed_key(p)),
            pairs_view(backlog@) == backlog_items(assigned(entries.take(i as int), w), today as int),
            bkeys@ == backlog_items(assigned(entries.take(i as int), w), today as int).map_values(|b: (u128, InfosView)| backlog_key(b)),
        decreases n - i,
    {
        let (id, task) = cache.entry_at(i);
        proof {
            assert(entries.take(i + 1).drop_last() =~= entries.take(i as int));
            assert(entries.take(i + 1).last() == entries[i as int]);
            assert(assigned(entries.take(i + 1), w) == if crate::task::assigned_to(entries[i as int].1, w) {
                assigned(entries.take(i as int), w).push(entries[i as int])
            } else {
                assigned(entries.take(i as int), w)
            });
            assert(assigned(entries.take(i as int), w).push(entries[i as int]).drop_last() =~= assigned(entries.take(i as int), w));
            assert(task.wf());
        }
        let ghost pi = placed_items(assigned(entries.take(i as int), w), today as int);
        let ghost bi = backlog_items(assigned(entries.take(i as int), w), today as int);
        if task.is_assigned_to(who) && !task.info().is_done() {
            let rank = task.info().priority_rank();
            match place(task, today, this_sunday, next_sunday) {
                Some(p) => {
                    let today_group = p.group == DeadlineGroup::Today;
                    let key = SortKey {
                        a: p.group.rank() as i64,
                        b: if p.soft {
                            1
                        } else {
                            0
                        },
                        c: if today_group {
                            rank as i64
                        } else {
                            p.sort_day as i64
                        },
                        d: if today_group {
                            0
                        } else {
                            rank as i64
                        },
                        e: id,
                    };
                    let info = task.info().clone();
                    let ghost pv = (id, info@, p@);
                    assert(key == placed_key(pv));
                    items.push((id, info, p));
                    keys.push(key);
                    proof {
                        assert(placed_items(assigned(entries.take(i + 1), w), today as int) == pi.push(pv));
                        assert(items@.map_values(|e: (u128, Infos, Placement)| placed_view(e)) =~= pi.push(pv));
                        assert(keys@ =~= pi.push(pv).map_values(|p: PlacedView| placed_key(p)));
                    }
                },
                None => {
                    let info = task.info().clone();
                    let ghost bv = (id, info@);
                    let key = SortKey { a: rank as i64, b: 0, c: 0, d: 0, e: id };
                    assert(key == backlog_key(bv));
                    backlog.push((id, info));
                    bkeys.push(key);
                    proof {
                        assert(backlog_items(assigned(entries.take(i + 1), w), today as int) == bi.push(bv));
                        assert(pairs_view(backlog@) =~= bi.push(bv));
                        assert(bkeys@ =~= bi.push(bv).map_values(|b: (u128, InfosView)| backlog_key(b)));
                    }
                },
            }
        }
        i += 1;
    }
    proof {
        assert(entries.take(n as int) =~= entries);
    }
    let ghost iv = items@.map_values(|e: (u128, Infos, Placement)| placed_view(e));
    let perm = sort_indices(&keys);
    let ghost ls = permuted(iv, perm@).map_values(|p: PlacedView| labelled(p));
    let mut groups: Vec<(DeadlineGroup, Vec<(u128, Infos, Option<i32>, i32)>)> = Vec::new();
    let mut k: usize = 0;
    while k < perm.len()
        invariant
            iv == items@.map_values(|e: (u128, Infos, Placement)| placed_view(e)),
            ls == permuted(iv, perm@).map_values(|p: PlacedView| labelled(p)),
            perm.len() == items.len(),
            forall|j: int| 0 <= j < perm.len() ==> #[trigger] perm[j] < items.len(),
            k <= perm.len(),
            groups_view(groups@) == runs(ls.take(k as int)),
        decreases perm.len() - k,
    {
        let j = perm[k];
        let entry = (items[j].0, items[j].1.clone(), items[j].2.label, items[j].2.sort_day);
        let g = items[j].2.group;
        let ghost r = runs(ls.take(k as int));
        proof {
            assert(ls.take(k + 1).drop_last() =~= ls.take(k as int));
            assert(ls[k as int] == labelled(iv[j as int]));
            assert(ls.take(k + 1).last() == (g, entry_view(entry)));
        }
        let len = groups.len();
        if len > 0 && groups[len - 1].0 == g {
            let ghost before = groups@;
            let last = groups.pop();
            let (gg, mut v) = last.unwrap();
            let ghost old_v = v@;
            v.push(entry);
            groups.push((gg, v));
            proof {
                assert(before[len - 1].0 == gg && before[len - 1].1@ == old_v);
                assert(r.last() == group_view(before[len - 1]));
                assert(v@.map_values(|e: (u128, Infos, Option<i32>, i32)| entry_view(e)) =~= old_v.map_values(
                    |e: (u128, Infos, Option<i32>, i32)| entry_view(e),
                ).push(entry_view(entry)));
                assert(groups_view(groups@) =~= r.update(r.len() - 1, (g, r.last().1.push(entry_view(entry)))));
            }
        } else {
            let mut v: Vec<(u128, Infos, Option<i32>, i32)> = Vec::new();
            v.push(entry);
            groups.push((g, v));
            proof {
                assert(group_view((g, v)).1 =~= seq![entry_view(entry)]);
                assert(groups_view(groups@) =~= r.push((g, seq![entry_view(entry)])));
            }
        }
        k += 1;
    }
    proof {
        assert(ls.take(perm.len() as int) =~= ls);
        assert(iv == placed_items(assigned(entries, w), today as int));
        assert(groups_view(groups@) == upcoming_groups(placed_items(assigned(cache.spec_entries(), who_view(who)), today as int), perm@));
    }
    let bperm = sort_indices(&bkeys);
    let ghost bv = pairs_view(backlog@);
    let mut out: Vec<(u128, Infos)> = Vec::new();
    let mut k: usize = 0;
    while k < bperm.len()
        invariant
            bv == pairs_view(backlog@),
            bperm.len() == backlog.len(),
            forall|j: int| 0 <= j < bperm.len() ==> #[trigger] bperm[j] < backlog.len(),
            k <= bperm.len(),
            pairs_view(out@) == permuted(bv, bperm@).take(k as int),
        decreases bperm.len() - k,
    {
        let j = bperm[k];
        let e = (backlog[j].0, backlog[j].1.clone());
        let ghost before = out@;
        out.push(e);
        proof {
            assert(pairs_view(out@) =~= pairs_view(before).push(pair_view(e)));
            assert(permuted(bv, bperm@).take(k + 1) =~= permuted(bv, bperm@).take(k as int).push(bv[j as int]));
        }
        k += 1;
    }
    proof {
        assert(permuted(bv, bperm@).take(bperm.len() as int) =~= permuted(bv, bperm@));
        crate::laws::law_backlog_by_urgency_then_id(bv, bperm@);
    }
    (groups, out)
}


/// Whether every open task of the cache has dates that leave room for
/// placing it; see [`open_tasks_placeable`].
pub fn all_open_tasks_placeable(cache: &TaskCache) -> (b: bool)
    requires
        cache.wf(),
    ensures
        b == open_tasks_placeable(cache.spec_entries()),
{
    let n = cache.len();
    let ghost entries = cache.spec_entries();
    let mut i: usize = 0;
    while i < n
        invariant
            entries == cache.spec_entries(),
            n == entries.len(),
            i <= n,
            cache.wf(),
            forall|k: int|
                0 <= k < i && !(#[trigger] entries[k]).1.spec_info().spec_is_done() ==> placeable(entries[k].1),
        decreases n - i,
    {
        let (_id, task) = cache.entry_at(i);
        proof {
            assert(task.wf());
        }
        if !task.info().is_done() && !task_placeable(task) {
            return false;
        }
        i += 1;
    }
    true
}

} // verus!
