//! The Quick Wins, All Open and What I Finished views: tasks grouped by
//! time estimate or by category, each group in its own order.

use vstd::prelude::*;

use crate::cache::TaskCache;
use crate::sort::{is_sorted_permutation, permuted, runs, sort_indices, SortKey};
use crate::task::{assigned, assigned_to, lemma_assigned_everyone, who_view, Category, Infos, InfosView, Task, TimeEstimate};
use crate::text::{lemma_text_lt_total, sorted_unique, str_eq, strictly_sorted, strs_view};
use crate::upcoming::{pair_view, pairs_view, priority_rank_of};

verus! {

/// A task by id and information.
pub type PairView = (u128, InfosView);

/// The open tasks of `entries`, in cache order.
pub open spec fn open_items(entries: Seq<(u128, Task)>) -> Seq<PairView>
    decreases entries.len(),
{
    if entries.len() == 0 {
        Seq::empty()
    } else {
        let prev = open_items(entries.drop_last());
        let e = entries.last();
        if !e.1.spec_info().spec_is_done() {
            prev.push((e.0, e.1.spec_info()@))
        } else {
            prev
        }
    }
}

/// The done tasks of `entries`, in cache order.
pub open spec fn done_items(entries: Seq<(u128, Task)>) -> Seq<PairView>
    decreases entries.len(),
{
    if entries.len() == 0 {
        Seq::empty()
    } else {
        let prev = done_items(entries.drop_last());
        let e = entries.last();
        if e.1.spec_info().spec_is_done() {
            prev.push((e.0, e.1.spec_info()@))
        } else {
            prev
        }
    }
}

/// An open task with its time estimate.
pub type EstimatedView = (u128, InfosView, TimeEstimate);

/// The open tasks of `entries` that have a time estimate, in cache order.
pub open spec fn estimated_items(entries: Seq<(u128, Task)>) -> Seq<EstimatedView>
    decreases entries.len(),
{
    if entries.len() == 0 {
        Seq::empty()
    } else {
        let prev = estimated_items(entries.drop_last());
        let e = entries.last();
        if !e.1.spec_info().spec_is_done() && e.1.spec_details().spec_time_estimate() is Some {
            prev.push((e.0, e.1.spec_info()@, e.1.spec_details().spec_time_estimate()->Some_0))
        } else {
            prev
        }
    }
}

/// Quick wins are ordered by estimate (shortest first), then priority,
/// then id.
pub open spec fn quick_win_key(x: EstimatedView) -> SortKey {
    SortKey { a: x.2.spec_rank() as i64, b: priority_rank_of(x.1.4) as i64, c: 0, d: 0, e: x.0 }
}

/// The Quick Wins groups when the tasks come in the order `perm`.
pub open spec fn quick_win_groups(items: Seq<EstimatedView>, perm: Seq<usize>) -> Seq<(TimeEstimate, Seq<PairView>)> {
    runs(permuted(items, perm).map_values(|x: EstimatedView| (x.2, (x.0, x.1))))
}

pub open spec fn estimate_group_view(g: (TimeEstimate, Vec<(u128, Infos)>)) -> (TimeEstimate, Seq<PairView>) {
    (g.0, pairs_view(g.1@))
}

pub open spec fn estimate_groups_view(gs: Seq<(TimeEstimate, Vec<(u128, Infos)>)>) -> Seq<(TimeEstimate, Seq<PairView>)> {
    gs.map_values(|g: (TimeEstimate, Vec<(u128, Infos)>)| estimate_group_view(g))
}

pub open spec fn estimated_view(e: (u128, Infos, TimeEstimate)) -> EstimatedView {
    (e.0, e.1@, e.2)
}

/// Groups the open tasks that have an estimate by estimate, shortest
/// first; within a group by priority (A first, none last), then id.
pub fn group_quick_wins(cache: &TaskCache) -> (r: Vec<(TimeEstimate, Vec<(u128, Infos)>)>)
    ensures
        exists|perm: Seq<usize>|
            is_sorted_permutation(estimated_items(cache.spec_entries()).map_values(|x: EstimatedView| quick_win_key(x)), perm)
                && #[trigger] estimate_groups_view(r@) == quick_win_groups(estimated_items(cache.spec_entries()), perm),
{
    proof {
        lemma_assigned_everyone(cache.spec_entries());
    }
    group_quick_wins_for(cache, None)
}

/// The Quick Wins groups of the open tasks of `who` (everyone's, see
/// [`assigned`]).
pub fn group_quick_wins_for(cache: &TaskCache, who: Option<Option<&str>>) -> (r: Vec<(TimeEstimate, Vec<(u128, Infos)>)>)
    ensures
        exists|perm: Seq<usize>|
            is_sorted_permutation(estimated_items(assigned(cache.spec_entries(), who_view(who))).map_values(|x: EstimatedView| quick_win_key(x)), perm)
                && #[trigger] estimate_groups_view(r@) == quick_win_groups(estimated_items(assigned(cache.spec_entries(), who_view(who))), perm),
{
    let n = cache.len();
    let ghost entries = cache.spec_entries();
    let ghost w = who_view(who);
    let mut items: Vec<(u128, Infos, TimeEstimate)> = Vec::new();
    let mut keys: Vec<SortKey> = Vec::new();
    let mut i: usize = 0;
    while i < n
        invariant
            entries == cache.spec_entries(),
            w == who_view(who),
            n == entries.len(),
            i <= n,
            items@.map_values(|e: (u128, Infos, TimeEstimate)| estimated_view(e)) == estimated_items(assigned(entries.take(i as int), w)),
            keys@ == estimated_items(assigned(entries.take(i as int), w)).map_values(|x: EstimatedView| quick_win_key(x)),
        decreases n - i,
    {
        let (id, task) = cache.entry_at(i);
        proof {
            assert(entries.take(i + 1).drop_last() =~= entries.take(i as int));
            assert(entries.take(i + 1).last() == entries[i as int]);
            assert(assigned(entries.take(i + 1), w) == if assigned_to(entries[i as int].1, w) {
                assigned(entries.take(i as int), w).push(entries[i as int])
            } else {
                assigned(entries.take(i as int), w)
            });
            assert(assigned(entries.take(i as int), w).push(entries[i as int]).drop_last() =~= assigned(entries.take(i as int), w));
        }
        let ghost prev = estimated_items(assigned(entries.take(i as int), w));
        if task.is_assigned_to(who) && !task.info().is_done() {
            if let Some(est) = task.details().time_estimate() {
                let info = task.info().clone();
                let key = SortKey { a: est.rank() as i64, b: task.info().priority_rank() as i64, c: 0, d: 0, e: id };
                let ghost x = (id, info@, est);
                assert(key == quick_win_key(x));
                items.push((id, info, est));
                keys.push(key);
                proof {
                    assert(estimated_items(assigned(entries.take(i + 1), w)) == prev.push(x));
                    assert(items@.map_values(|e: (u128, Infos, TimeEstimate)| estimated_view(e)) =~= prev.push(x));
                    assert(keys@ =~= prev.push(x).map_values(|x: EstimatedView| quick_win_key(x)));
                }
            }
        }
        i += 1;
    }
    proof {
        assert(entries.take(n as int) =~= entries);
    }
    let ghost iv = items@.map_values(|e: (u128, Infos, TimeEstimate)| estimated_view(e));
    let perm = sort_indices(&keys);
    let ghost ls = permuted(iv, perm@).map_values(|x: EstimatedView| (x.2, (x.0, x.1)));
    let mut groups: Vec<(TimeEstimate, Vec<(u128, Infos)>)> = Vec::new();
    let mut k: usize = 0;
    while k < perm.len()
        invariant
            iv == items@.map_values(|e: (u128, Infos, TimeEstimate)| estimated_view(e)),
            ls == permuted(iv, perm@).map_values(|x: EstimatedView| (x.2, (x.0, x.1))),
            perm.len() == items.len(),
            forall|j: int| 0 <= j < perm.len() ==> #[trigger] perm[j] < items.len(),
            k <= perm.len(),
            estimate_groups_view(groups@) == runs(ls.take(k as int)),
        decreases perm.len() - k,
    {
        let j = perm[k];
        let entry = (items[j].0, items[j].1.clone());
        let est = items[j].2;
        let ghost r = runs(ls.take(k as int));
        proof {
            assert(ls.take(k + 1).drop_last() =~= ls.take(k as int));
            assert(ls.take(k + 1).last() == (est, pair_view(entry)));
        }
        let len = groups.len();
        if len > 0 && groups[len - 1].0 == est {
            let ghost before = groups@;
            let (gg, mut v) = groups.pop().unwrap();
            let ghost old_v = v@;
            v.push(entry);
            groups.push((gg, v));
            proof {
                assert(before[len - 1].0 == gg && before[len - 1].1@ == old_v);
                assert(r.last() == estimate_group_view(before[len - 1]));
                assert(pairs_view(v@) =~= pairs_view(old_v).push(pair_view(entry)));
                assert(estimate_groups_view(groups@) =~= r.update(r.len() - 1, (est, r.last().1.push(pair_view(entry)))));
            }
        } else {
            let mut v: Vec<(u128, Infos)> = Vec::new();
            v.push(entry);
            groups.push((est, v));
            proof {
                assert(pairs_view(v@) =~= seq![pair_view(entry)]);
                assert(estimate_groups_view(groups@) =~= r.push((est, seq![pair_view(entry)])));
            }
        }
        k += 1;
    }
    proof {
        assert(ls.take(perm.len() as int) =~= ls);
        assert(iv == estimated_items(assigned(entries, w)));
        assert(estimate_groups_view(groups@) == quick_win_groups(estimated_items(assigned(cache.spec_entries(), who_view(who))), perm@));
    }
    groups
}

// ------------------------------------------------------------ by category

/// Position of `x` in `s`.
pub open spec fn position_of(s: Seq<Seq<char>>, x: Seq<char>) -> int {
    choose|i: int| 0 <= i < s.len() && s[i] == x
}

/// How tasks are ordered inside the category groups: by the category's
/// place among the sorted categories, then either by completion (latest
/// first, ties in cache order) or by id.
pub open spec fn category_key(x: PairView, cats: Seq<Seq<char>>, by_completion: bool) -> SortKey {
    let since = x.1.1.spec_since();
    if by_completion {
        SortKey { a: position_of(cats, x.1.2) as i64, b: (-since.secs) as i64, c: (-since.nanos) as i64, d: 0, e: 0 }
    } else {
        SortKey { a: position_of(cats, x.1.2) as i64, b: 0, c: 0, d: 0, e: x.0 }
    }
}

/// The keys of all tasks.
pub open spec fn category_keys(items: Seq<PairView>, cats: Seq<Seq<char>>, by_completion: bool) -> Seq<SortKey> {
    items.map_values(|x: PairView| category_key(x, cats, by_completion))
}

/// The categories of the tasks.
pub open spec fn categories_of(items: Seq<PairView>) -> Seq<Seq<char>> {
    items.map_values(|x: PairView| x.1.2)
}

/// `cats` lists each category of the tasks once, in `String` order.
pub open spec fn sorted_categories(cats: Seq<Seq<char>>, items: Seq<PairView>) -> bool {
    &&& strictly_sorted(cats)
    &&& forall|c: Seq<char>| #[trigger] cats.contains(c) <==> categories_of(items).contains(c)
}

/// The groups of tasks by category when `cats` are the sorted categories
/// and the tasks come in the order `perm`.
pub open spec fn category_groups(items: Seq<PairView>, perm: Seq<usize>) -> Seq<(Seq<char>, Seq<PairView>)> {
    runs(permuted(items, perm).map_values(|x: PairView| (x.1.2, x)))
}

pub open spec fn category_group_view(g: (Category, Vec<(u128, Infos)>)) -> (Seq<char>, Seq<PairView>) {
    (g.0@, pairs_view(g.1@))
}

pub open spec fn category_groups_view(gs: Seq<(Category, Vec<(u128, Infos)>)>) -> Seq<(Seq<char>, Seq<PairView>)> {
    gs.map_values(|g: (Category, Vec<(u128, Infos)>)| category_group_view(g))
}

/// The groups by category, categories in `String` order, tasks within a
/// category ordered by [`category_key`].
pub open spec fn grouped_by_category(items: Seq<PairView>, by_completion: bool, out: Seq<(Seq<char>, Seq<PairView>)>) -> bool {
    exists|cats: Seq<Seq<char>>, perm: Seq<usize>|
        #![trigger sorted_categories(cats, items), is_sorted_permutation(category_keys(items, cats, by_completion), perm)]
        sorted_categories(cats, items) && is_sorted_permutation(category_keys(items, cats, by_completion), perm)
            && out == category_groups(items, perm)
}

/// Texts in a strictly sorted list occur once.
proof fn lemma_sorted_unique_positions(s: Seq<Seq<char>>, i: int, j: int)
    requires
        strictly_sorted(s),
        0 <= i < s.len(),
        0 <= j < s.len(),
        s[i] == s[j],
    ensures
        i == j,
{
    lemma_text_lt_total(s[i], s[i]);
    if i < j {
        assert(crate::text::text_lt(s[i], s[j]));
    } else if j < i {
        assert(crate::text::text_lt(s[j], s[i]));
    }
}

/// Groups the tasks by category; see [`grouped_by_category`].
fn group_by_category(items: &Vec<(u128, Infos)>, by_completion: bool) -> (r: Vec<(Category, Vec<(u128, Infos)>)>)
    requires
        forall|k: int| 0 <= k < items.len() ==> (#[trigger] items@[k]).1.wf(),
    ensures
        grouped_by_category(pairs_view(items@), by_completion, category_groups_view(r@)),
{
    let ghost iv = pairs_view(items@);
    let mut names: Vec<&str> = Vec::new();
    let mut k: usize = 0;
    while k < items.len()
        invariant
            iv == pairs_view(items@),
            k <= items.len(),
            strs_view(names@) == categories_of(iv).take(k as int),
        decreases items.len() - k,
    {
        let ghost before = names@;
        names.push(items[k].1.category().as_str());
        proof {
            assert(strs_view(names@) =~= strs_view(before).push(iv[k as int].1.2));
            assert(categories_of(iv).take(k + 1) =~= categories_of(iv).take(k as int).push(iv[k as int].1.2));
        }
        k += 1;
    }
    proof {
        assert(categories_of(iv).take(items.len() as int) =~= categories_of(iv));
    }
    assert(names.len() == items.len());
    let cats = sorted_unique(&names);
    let ghost cv = strs_view(cats@);
    assert(sorted_categories(cv, iv));
    let mut idxs: Vec<usize> = Vec::new();
    let mut keys: Vec<SortKey> = Vec::new();
    let mut k: usize = 0;
    while k < items.len()
        invariant
            iv == pairs_view(items@),
            cv == strs_view(cats@),
            sorted_categories(cv, iv),
            strs_view(names@) == categories_of(iv),
            names.len() == items.len(),
            forall|m: int| 0 <= m < items.len() ==> (#[trigger] items@[m]).1.wf(),
            k <= items.len(),
            idxs.len() == k,
            keys.len() == k,
            forall|m: int| 0 <= m < k ==> #[trigger] idxs@[m] < cats.len() && cv[idxs@[m] as int] == iv[m].1.2,
            keys@ == iv.take(k as int).map_values(|x: PairView| category_key(x, cv, by_completion)),
        decreases items.len() - k,
    {
        let name = names[k];
        assert(strs_view(names@)[k as int] == name@);
        assert(name@ == iv[k as int].1.2);
        assert(categories_of(iv)[k as int] == name@);
        assert(cv.contains(name@));
        let mut p: usize = 0;
        while p < cats.len() && !str_eq(cats[p], name)
            invariant
                cv == strs_view(cats@),
                cv.contains(name@),
                p <= cats.len(),
                forall|q: int| 0 <= q < p ==> #[trigger] cv[q] != name@,
            decreases cats.len() - p,
        {
            p += 1;
        }
        proof {
            if p == cats.len() {
                let q = choose|q: int| 0 <= q < cv.len() && cv[q] == name@;
                assert(cv[q] != name@);
            }
            let q = position_of(cv, name@);
            lemma_sorted_unique_positions(cv, q, p as int);
        }
        let since = items[k].1.since();
        assert(since.wf());
        let key = if by_completion {
            SortKey { a: p as i64, b: -since.secs, c: -(since.nanos as i64), d: 0, e: 0 }
        } else {
            SortKey { a: p as i64, b: 0, c: 0, d: 0, e: items[k].0 }
        };
        let ghost before = keys@;
        idxs.push(p);
        keys.push(key);
        proof {
            assert(key == category_key(iv[k as int], cv, by_completion));
            assert(iv.take(k + 1) =~= iv.take(k as int).push(iv[k as int]));
            assert(keys@ =~= iv.take(k + 1).map_values(|x: PairView| category_key(x, cv, by_completion)));
        }
        k += 1;
    }
    proof {
        assert(iv.take(items.len() as int) =~= iv);
    }
    let perm = sort_indices(&keys);
    let ghost ls = permuted(iv, perm@).map_values(|x: PairView| (x.1.2, x));
    let mut groups: Vec<(Category, Vec<(u128, Infos)>)> = Vec::new();
    let mut last: usize = 0;
    let mut k: usize = 0;
    while k < perm.len()
        invariant
            iv == pairs_view(items@),
            cv == strs_view(cats@),
            strictly_sorted(cv),
            ls == permuted(iv, perm@).map_values(|x: PairView| (x.1.2, x)),
            perm.len() == items.len(),
            idxs.len() == items.len(),
            forall|j: int| 0 <= j < perm.len() ==> #[trigger] perm[j] < items.len(),
            forall|m: int| 0 <= m < items.len() ==> #[trigger] idxs@[m] < cats.len() && cv[idxs@[m] as int] == iv[m].1.2,
            k <= perm.len(),
            category_groups_view(groups@) == runs(ls.take(k as int)),
            groups.len() > 0 ==> last < cats.len() && cv[last as int] == runs(ls.take(k as int)).last().0,
        decreases perm.len() - k,
    {
        let j = perm[k];
        let entry = (items[j].0, items[j].1.clone());
        let ghost r = runs(ls.take(k as int));
        proof {
            assert(ls.take(k + 1).drop_last() =~= ls.take(k as int));
            assert(ls.take(k + 1).last() == (iv[j as int].1.2, pair_view(entry)));
        }
        let len = groups.len();
        let here = idxs[j];
        if len > 0 && last == here {
            let ghost before = groups@;
            let (gg, mut v) = groups.pop().unwrap();
            let ghost old_v = v@;
            v.push(entry);
            groups.push((gg, v));
            proof {
                assert(before[len - 1].0 == gg && before[len - 1].1@ == old_v);
                assert(r.last() == category_group_view(before[len - 1]));
                assert(pairs_view(v@) =~= pairs_view(old_v).push(pair_view(entry)));
                assert(category_groups_view(groups@) =~= r.update(
                    r.len() - 1,
                    (iv[j as int].1.2, r.last().1.push(pair_view(entry))),
                ));
            }
        } else {
            proof {
                if len > 0 {
                    if r.last().0 == iv[j as int].1.2 {
                        lemma_sorted_unique_positions(cv, last as int, here as int);
                    }
                }
            }
            let label = items[j].1.category().clone();
            let mut v: Vec<(u128, Infos)> = Vec::new();
            v.push(entry);
            groups.push((label, v));
            proof {
                assert(pairs_view(v@) =~= seq![pair_view(entry)]);
                assert(category_groups_view(groups@) =~= r.push((iv[j as int].1.2, seq![pair_view(entry)])));
            }
        }
        last = here;
        k += 1;
    }
    proof {
        assert(ls.take(perm.len() as int) =~= ls);
        assert(category_groups_view(groups@) == category_groups(iv, perm@));
        assert(sorted_categories(cv, iv));
        assert(keys@ =~= category_keys(iv, cv, by_completion));
        assert(is_sorted_permutation(category_keys(iv, cv, by_completion), perm@));
    }
    groups
}

/// Groups the open tasks by category, categories in `String` order, each
/// group ordered by id (creation order).
pub fn group_all_open(cache: &TaskCache) -> (r: Vec<(Category, Vec<(u128, Infos)>)>)
    requires
        cache.wf(),
    ensures
        grouped_by_category(open_items(cache.spec_entries()), false, category_groups_view(r@)),
{
    let items = collect_tasks(cache, false);
    group_by_category(&items, false)
}

/// Groups the done tasks by category, categories in `String` order, each
/// group with the latest completed first (equal times in cache order).
pub fn group_finished(cache: &TaskCache) -> (r: Vec<(Category, Vec<(u128, Infos)>)>)
    requires
        cache.wf(),
    ensures
        grouped_by_category(done_items(cache.spec_entries()), true, category_groups_view(r@)),
{
    let items = collect_tasks(cache, true);
    group_by_category(&items, true)
}

/// The done tasks (`done`) or the open ones, in cache order.
fn collect_tasks(cache: &TaskCache, done: bool) -> (r: Vec<(u128, Infos)>)
    requires
        cache.wf(),
    ensures
        pairs_view(r@) == if done {
            done_items(cache.spec_entries())
        } else {
            open_items(cache.spec_entries())
        },
        forall|k: int| 0 <= k < r.len() ==> (#[trigger] r@[k]).1.wf(),
{
    let n = cache.len();
    let ghost entries = cache.spec_entries();
    let mut out: Vec<(u128, Infos)> = Vec::new();
    let mut i: usize = 0;
    while i < n
        invariant
            entries == cache.spec_entries(),
            cache.wf(),
            n == entries.len(),
            i <= n,
            pairs_view(out@) == if done {
                done_items(entries.take(i as int))
            } else {
                open_items(entries.take(i as int))
            },
            forall|k: int| 0 <= k < out.len() ==> (#[trigger] out@[k]).1.wf(),
        decreases n - i,
    {
        let (id, task) = cache.entry_at(i);
        proof {
            assert(entries.take(i + 1).drop_last() =~= entries.take(i as int));
            assert(entries.take(i + 1).last() == entries[i as int]);
            assert(task.wf());
        }
        if task.info().is_done() == done {
            let info = task.info().clone();
            let ghost before = out@;
            out.push((id, info));
            proof {
                assert(pairs_view(out@) =~= pairs_view(before).push((id, info@)));
                assert(info.wf()) by {
                    assert(info@ == task.spec_info()@);
                }
            }
        }
        i += 1;
    }
    proof {
        assert(entries.take(n as int) =~= entries);
    }
    out
}

} // verus!
