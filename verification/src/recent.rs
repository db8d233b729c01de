//! The Recent Changes view: every task by its last change, latest first,
//! with its edit history and whether an AI assistant took part.

use indexmap::IndexSet;
use vstd::prelude::*;

use crate::cache::{id_set_elems, set_contains, set_insert, set_len, set_new, TaskCache};
use crate::sort::{is_sorted_permutation, lemma_sorted_permutation_unique, permuted, sort_indices, SortKey};
use crate::task::{authors_wf, AuthorsView, Infos, InfosView, Task};
use crate::time::{day_in_range, Timestamp, DAY_MIN};

verus! {

/// One edit of a task: who made it, and when.
pub type EditView = (Seq<char>, Timestamp);

/// Every edit in the author log: author by author, each author's edits
/// in the order they were recorded.
pub open spec fn flatten_authors(a: AuthorsView) -> Seq<EditView>
    decreases a.len(),
{
    if a.len() == 0 {
        Seq::empty()
    } else {
        flatten_authors(a.drop_last()) + a.last().1.map_values(|t: Timestamp| (a.last().0, t))
    }
}

/// Orders instants latest first.
pub open spec fn latest_first_key(t: Timestamp) -> SortKey {
    SortKey { a: (-t.secs) as i64, b: (-t.nanos) as i64, c: 0, d: 0, e: 0 }
}

pub open spec fn edit_keys(edits: Seq<EditView>) -> Seq<SortKey> {
    edits.map_values(|e: EditView| latest_first_key(e.1))
}

/// `h` lists `edits` latest first, edits at the same instant in their
/// original order.
pub open spec fn is_edit_history(edits: Seq<EditView>, h: Seq<EditView>) -> bool {
    exists|perm: Seq<usize>| #[trigger] is_sorted_permutation(edit_keys(edits), perm) && h == permuted(edits, perm)
}

/// The edit history of an author log: all edits, latest first.
pub open spec fn edit_history(a: AuthorsView) -> Seq<EditView> {
    choose|h: Seq<EditView>| is_edit_history(flatten_authors(a), h)
}

/// There is only one edit history of a list of edits.
pub proof fn lemma_edit_history_unique(edits: Seq<EditView>, h1: Seq<EditView>, h2: Seq<EditView>)
    requires
        is_edit_history(edits, h1),
        is_edit_history(edits, h2),
    ensures
        h1 == h2,
{
    let p1 = choose|perm: Seq<usize>| #[trigger] is_sorted_permutation(edit_keys(edits), perm) && h1 == permuted(edits, perm);
    let p2 = choose|perm: Seq<usize>| #[trigger] is_sorted_permutation(edit_keys(edits), perm) && h2 == permuted(edits, perm);
    lemma_sorted_permutation_unique(edit_keys(edits), p1, p2);
}

pub open spec fn edits_view(v: Seq<(String, Timestamp)>) -> Seq<EditView> {
    v.map_values(|e: (String, Timestamp)| (e.0@, e.1))
}

/// The edit history of a task, latest edit first.
pub fn edit_history_of(task: &Task) -> (h: Vec<(String, Timestamp)>)
    requires
        task.wf(),
    ensures
        edits_view(h@) == edit_history(task.spec_authors()),
        forall|k: int| 0 <= k < h.len() ==> (#[trigger] h@[k]).1.wf(),
{
    let authors = task.authors();
    let ghost a = task.spec_authors();
    assert(authors_wf(a));
    let mut flat: Vec<(String, Timestamp)> = Vec::new();
    let mut keys: Vec<SortKey> = Vec::new();
    let mut i: usize = 0;
    while i < authors.len()
        invariant
            a == task.spec_authors(),
            authors_wf(a),
            authors@.map_values(|e: (String, Vec<Timestamp>)| crate::task::author_entry_view(e)) == a,
            i <= authors.len(),
            edits_view(flat@) == flatten_authors(a.take(i as int)),
            keys@ == edit_keys(edits_view(flat@)),
            forall|k: int| 0 <= k < flat.len() ==> (#[trigger] flat@[k]).1.wf(),
        decreases authors.len() - i,
    {
        let ghost base = edits_view(flat@);
        let ghost ai = a[i as int];
        assert(authors@[i as int].0@ == ai.0 && authors@[i as int].1@ == ai.1);
        let mut j: usize = 0;
        while j < authors[i].1.len()
            invariant
                a == task.spec_authors(),
                authors_wf(a),
                ai == a[i as int],
                authors@.map_values(|e: (String, Vec<Timestamp>)| crate::task::author_entry_view(e)) == a,
                i < a.len(),
                i < authors.len(),
                authors@[i as int].0@ == ai.0,
                authors@[i as int].1@ == ai.1,
                j <= ai.1.len(),
                edits_view(flat@) == base + ai.1.take(j as int).map_values(|t: Timestamp| (ai.0, t)),
                keys@ == edit_keys(edits_view(flat@)),
                forall|k: int| 0 <= k < flat.len() ==> (#[trigger] flat@[k]).1.wf(),
            decreases ai.1.len() - j,
        {
            let t = authors[i].1[j];
            assert(t == a[i as int].1[j as int]);
            assert(t.wf());
            let name = authors[i].0.clone();
            let ghost before = flat@;
            let ghost kbefore = keys@;
            flat.push((name, t));
            keys.push(SortKey { a: -t.secs, b: -(t.nanos as i64), c: 0, d: 0, e: 0 });
            proof {
                assert(ai.1.take(j + 1) =~= ai.1.take(j as int).push(t));
                assert(edits_view(flat@) =~= edits_view(before).push((ai.0, t)));
                assert(edits_view(flat@) =~= base + ai.1.take(j + 1).map_values(|t: Timestamp| (ai.0, t)));
                assert(keys@ =~= edit_keys(edits_view(flat@)));
            }
            j += 1;
        }
        proof {
            assert(ai.1.take(ai.1.len() as int) =~= ai.1);
            assert(a.take(i + 1).drop_last() =~= a.take(i as int));
            assert(a.take(i + 1).last() == ai);
        }
        i += 1;
    }
    proof {
        assert(a.take(authors.len() as int) =~= a);
    }
    let ghost edits = edits_view(flat@);
    let perm = sort_indices(&keys);
    let mut h: Vec<(String, Timestamp)> = Vec::new();
    let mut k: usize = 0;
    while k < perm.len()
        invariant
            edits == edits_view(flat@),
            perm.len() == flat.len(),
            forall|j: int| 0 <= j < perm.len() ==> #[trigger] perm[j] < flat.len(),
            forall|m: int| 0 <= m < flat.len() ==> (#[trigger] flat@[m]).1.wf(),
            k <= perm.len(),
            edits_view(h@) == permuted(edits, perm@).take(k as int),
            forall|m: int| 0 <= m < h.len() ==> (#[trigger] h@[m]).1.wf(),
        decreases perm.len() - k,
    {
        let j = perm[k];
        let e = (flat[j].0.clone(), flat[j].1);
        let ghost before = h@;
        h.push(e);
        proof {
            assert(edits_view(h@) =~= edits_view(before).push((e.0@, e.1)));
            assert(permuted(edits, perm@).take(k + 1) =~= permuted(edits, perm@).take(k as int).push(edits[j as int]));
        }
        k += 1;
    }
    proof {
        assert(permuted(edits, perm@).take(perm.len() as int) =~= permuted(edits, perm@));
        assert(is_edit_history(edits, edits_view(h@)));
        let c = edit_history(a);
        lemma_edit_history_unique(edits, c, edits_view(h@));
    }
    h
}

/// An actor string of an AI assistant starts with `ai:`.
pub open spec fn is_ai_actor(name: Seq<char>) -> bool {
    name.len() >= 3 && name[0] == 'a' && name[1] == 'i' && name[2] == ':'
}

pub fn ai_actor(name: &str) -> (b: bool)
    ensures
        b == is_ai_actor(name@),
{
    name.unicode_len() >= 3 && name.get_char(0) == 'a' && name.get_char(1) == 'i' && name.get_char(2) == ':'
}

/// The same instant in UTC.
pub open spec fn utc(t: Timestamp) -> Timestamp {
    Timestamp { secs: t.secs, nanos: t.nanos, offset: 0 }
}

/// When a task last changed: its latest edit, or when its status last
/// changed if nobody edited it; in UTC.
pub open spec fn spec_last_change(t: Task) -> Timestamp {
    let h = edit_history(t.spec_authors());
    if h.len() > 0 {
        utc(h[0].1)
    } else {
        utc(t.spec_info().spec_status().spec_since())
    }
}

/// `j` is the last of the latest edits.
pub open spec fn last_max_at(h: Seq<EditView>, j: int) -> bool {
    &&& 0 <= j < h.len()
    &&& forall|k: int| 0 <= k < h.len() ==> (#[trigger] h[k]).1.instant() <= h[j].1.instant()
    &&& forall|k: int| j < k < h.len() ==> (#[trigger] h[k]).1.instant() < h[j].1.instant()
}

/// The last of the latest edits was made by an AI assistant.
pub open spec fn spec_ai_last(h: Seq<EditView>) -> bool {
    exists|j: int| #[trigger] last_max_at(h, j) && is_ai_actor(h[j].0)
}

/// An AI assistant made one of the edits.
pub open spec fn spec_ai_involved(h: Seq<EditView>) -> bool {
    exists|j: int| 0 <= j < h.len() && #[trigger] is_ai_actor(h[j].0)
}

/// A task as Recent Changes lists it.
#[derive(Debug)]
pub struct RecentChange {
    pub id: u128,
    pub info: Infos,
    pub authors: Vec<(String, Timestamp)>,
    pub last_changed: Timestamp,
    pub ai_last: bool,
    pub ai_involved: bool,
}

/// Id, information, edit history, last change and the two AI flags.
pub type RecentView = (u128, InfosView, Seq<EditView>, Timestamp, bool, bool);

pub open spec fn recent_change_view(r: RecentChange) -> RecentView {
    (r.id, r.info@, edits_view(r.authors@), r.last_changed, r.ai_last, r.ai_involved)
}

pub open spec fn recent_changes_view(v: Seq<RecentChange>) -> Seq<RecentView> {
    v.map_values(|r: RecentChange| recent_change_view(r))
}

/// What Recent Changes shows of a task.
pub open spec fn recent_of(e: (u128, Task)) -> RecentView {
    let h = edit_history(e.1.spec_authors());
    (e.0, e.1.spec_info()@, h, spec_last_change(e.1), spec_ai_last(h), spec_ai_involved(h))
}

pub open spec fn recent_items(entries: Seq<(u128, Task)>) -> Seq<RecentView> {
    entries.map_values(|e: (u128, Task)| recent_of(e))
}

pub open spec fn recent_keys(items: Seq<RecentView>) -> Seq<SortKey> {
    items.map_values(|x: RecentView| latest_first_key(x.3))
}

/// Calendar day (UTC) of the last change.
pub open spec fn recent_day(x: RecentView) -> int {
    x.3.spec_utc_day()
}

/// The days before `cutoff` that were let in, in the order they came,
/// after going through `items`: each new such day is let in while fewer
/// than `extra` are.
pub open spec fn older_days(items: Seq<RecentView>, cutoff: int, extra: nat) -> Seq<int>
    decreases items.len(),
{
    if items.len() == 0 {
        Seq::empty()
    } else {
        let o = older_days(items.drop_last(), cutoff, extra);
        let d = recent_day(items.last());
        if d < cutoff && o.len() < extra && !o.contains(d) {
            o.push(d)
        } else {
            o
        }
    }
}

/// The items shown: all changed on or after `cutoff`, and those of the
/// first `extra` distinct earlier days that have any.
pub open spec fn recent_selection(items: Seq<RecentView>, cutoff: int, extra: nat) -> Seq<RecentView>
    decreases items.len(),
{
    if items.len() == 0 {
        Seq::empty()
    } else {
        let prev = recent_selection(items.drop_last(), cutoff, extra);
        let o = older_days(items.drop_last(), cutoff, extra);
        let d = recent_day(items.last());
        if d >= cutoff || o.len() < extra || o.contains(d) {
            prev.push(items.last())
        } else {
            prev
        }
    }
}

/// How a day is held in the set of older days.
pub open spec fn day_code(d: int) -> u128 {
    (d - DAY_MIN) as u128
}

pub open spec fn day_codes(days: Seq<int>) -> Seq<u128> {
    days.map_values(|d: int| day_code(d))
}

/// What Recent Changes shows of one task.
fn recent_change(id: u128, task: &Task) -> (r: RecentChange)
    requires
        task.wf(),
    ensures
        recent_change_view(r) == recent_of((id, *task)),
        r.last_changed.wf(),
{
    let h = edit_history_of(task);
    let ghost hv = edits_view(h@);
    let last_changed = if h.len() > 0 {
        Timestamp { secs: h[0].1.secs, nanos: h[0].1.nanos, offset: 0 }
    } else {
        let s = task.info().since();
        Timestamp { secs: s.secs, nanos: s.nanos, offset: 0 }
    };
    let mut ai_involved = false;
    let mut k: usize = 0;
    while k < h.len()
        invariant
            hv == edits_view(h@),
            k <= h.len(),
            ai_involved == exists|j: int| 0 <= j < k && #[trigger] is_ai_actor(hv[j].0),
        decreases h.len() - k,
    {
        assert(hv[k as int].0 == h@[k as int].0@);
        if ai_actor(h[k].0.as_str()) {
            ai_involved = true;
        }
        k += 1;
    }
    let mut ai_last = false;
    if h.len() > 0 {
        let mut j: usize = 0;
        let mut k: usize = 1;
        while k < h.len()
            invariant
                hv == edits_view(h@),
                forall|m: int| 0 <= m < h.len() ==> (#[trigger] h@[m]).1.wf(),
                j < k <= h.len(),
                forall|m: int| 0 <= m < k ==> (#[trigger] hv[m]).1.instant() <= hv[j as int].1.instant(),
                forall|m: int| j < m < k ==> (#[trigger] hv[m]).1.instant() < hv[j as int].1.instant(),
            decreases h.len() - k,
        {
            if !h[k].1.is_before(&h[j].1) {
                j = k;
            }
            k += 1;
        }
        ai_last = ai_actor(h[j].0.as_str());
        proof {
            assert(last_max_at(hv, j as int));
            if ai_last {
                assert(spec_ai_last(hv));
            } else if spec_ai_last(hv) {
                let w = choose|w: int| #[trigger] last_max_at(hv, w) && is_ai_actor(hv[w].0);
                if w < j {
                    assert(hv[j as int].1.instant() < hv[w].1.instant());
                } else if w > j {
                    assert(hv[w].1.instant() < hv[j as int].1.instant());
                }
            }
        }
    } else {
        assert(!spec_ai_last(hv));
    }
    let info = task.info().clone();
    RecentChange { id, info, authors: h, last_changed, ai_last, ai_involved }
}

/// The tasks for Recent Changes seen on day `today`: latest change first
/// (equal times in cache order); all changed on `today` or the two days
/// before, and beyond that those of the `extra_days` most recent earlier
/// days that have changes.
pub fn group_recently_changed(cache: &TaskCache, today: i32, extra_days: u32) -> (r: Vec<RecentChange>)
    requires
        cache.wf(),
        day_in_range(today - 2),
    ensures
        exists|perm: Seq<usize>|
            is_sorted_permutation(recent_keys(recent_items(cache.spec_entries())), perm)
                && #[trigger] recent_changes_view(r@) == recent_selection(
                permuted(recent_items(cache.spec_entries()), perm),
                today - 2,
                extra_days as nat,
            ),
{
    let cutoff = today - 2;
    let n = cache.len();
    let ghost entries = cache.spec_entries();
    let mut all: Vec<RecentChange> = Vec::new();
    let mut keys: Vec<SortKey> = Vec::new();
    let mut i: usize = 0;
    while i < n
        invariant
            entries == cache.spec_entries(),
            cache.wf(),
            n == entries.len(),
            i <= n,
            recent_changes_view(all@) == recent_items(entries.take(i as int)),
            keys@ == recent_keys(recent_changes_view(all@)),
            forall|k: int| 0 <= k < all.len() ==> (#[trigger] all@[k]).last_changed.wf(),
        decreases n - i,
    {
        let (id, task) = cache.entry_at(i);
        assert(task.wf());
        let rc = recent_change(id, task);
        let key = SortKey { a: -rc.last_changed.secs, b: -(rc.last_changed.nanos as i64), c: 0, d: 0, e: 0 };
        let ghost before = all@;
        all.push(rc);
        keys.push(key);
        proof {
            assert(entries.take(i + 1) =~= entries.take(i as int).push(entries[i as int]));
            assert(recent_changes_view(all@) =~= recent_changes_view(before).push(recent_of(entries[i as int])));
            assert(recent_items(entries.take(i + 1)) =~= recent_items(entries.take(i as int)).push(recent_of(entries[i as int])));
            assert(keys@ =~= recent_keys(recent_changes_view(all@)));
        }
        i += 1;
    }
    proof {
        assert(entries.take(n as int) =~= entries);
    }
    let ghost items = recent_changes_view(all@);
    let perm = sort_indices(&keys);
    let ghost sorted = permuted(items, perm@);
    let mut older: IndexSet<u128> = set_new();
    let mut out: Vec<RecentChange> = Vec::new();
    let mut k: usize = 0;
    while k < perm.len()
        invariant
            items == recent_changes_view(all@),
            sorted == permuted(items, perm@),
            perm.len() == all.len(),
            forall|j: int| 0 <= j < perm.len() ==> #[trigger] perm[j] < all.len(),
            forall|m: int| 0 <= m < all.len() ==> (#[trigger] all@[m]).last_changed.wf(),
            k <= perm.len(),
            cutoff == today - 2,
            id_set_elems(older) == day_codes(older_days(sorted.take(k as int), cutoff as int, extra_days as nat)),
            forall|m: int|
                0 <= m < older_days(sorted.take(k as int), cutoff as int, extra_days as nat).len() ==> day_in_range(
                    #[trigger] older_days(sorted.take(k as int), cutoff as int, extra_days as nat)[m],
                ),
            recent_changes_view(out@) == recent_selection(sorted.take(k as int), cutoff as int, extra_days as nat),
        decreases perm.len() - k,
    {
        let j = perm[k];
        let day = all[j].last_changed.utc_day();
        let code = (day as i64 - DAY_MIN as i64) as u128;
        let ghost o = older_days(sorted.take(k as int), cutoff as int, extra_days as nat);
        proof {
            assert(sorted.take(k + 1).drop_last() =~= sorted.take(k as int));
            assert(sorted.take(k + 1).last() == items[j as int]);
            assert(recent_day(items[j as int]) == day);
            assert(code == day_code(day as int));
            assert(day_codes(o).contains(code) <==> o.contains(day as int)) by {
                if day_codes(o).contains(code) {
                    let m = choose|m: int| 0 <= m < o.len() && #[trigger] day_codes(o)[m] == code;
                    assert(day_in_range(o[m]));
                    assert(day_in_range(day as int));
                    assert(o[m] == day);
                }
                if o.contains(day as int) {
                    let m = choose|m: int| 0 <= m < o.len() && o[m] == day;
                    assert(day_codes(o)[m] == code);
                }
            }
        }
        let keep = if day >= cutoff {
            true
        } else if set_len(&older) < extra_days as usize {
            set_insert(&mut older, code);
            true
        } else {
            set_contains(&older, code)
        };
        proof {
            let o2 = older_days(sorted.take(k + 1), cutoff as int, extra_days as nat);
            assert(id_set_elems(older) =~= day_codes(o2));
        }
        if keep {
            let rc = copy_change(&all[j]);
            let ghost before = out@;
            out.push(rc);
            proof {
                assert(recent_changes_view(out@) =~= recent_changes_view(before).push(items[j as int]));
            }
        }
        k += 1;
    }
    proof {
        assert(sorted.take(perm.len() as int) =~= sorted);
        assert(items == recent_items(entries));
    }
    out
}

/// A copy of a recent change.
fn copy_change(r: &RecentChange) -> (c: RecentChange)
    ensures
        recent_change_view(c) == recent_change_view(*r),
        c.last_changed == r.last_changed,
{
    let mut authors: Vec<(String, Timestamp)> = Vec::new();
    let mut k: usize = 0;
    while k < r.authors.len()
        invariant
            k <= r.authors.len(),
            edits_view(authors@) == edits_view(r.authors@).take(k as int),
        decreases r.authors.len() - k,
    {
        let ghost before = authors@;
        authors.push((r.authors[k].0.clone(), r.authors[k].1));
        proof {
            assert(edits_view(authors@) =~= edits_view(before).push((r.authors@[k as int].0@, r.authors@[k as int].1)));
            assert(edits_view(r.authors@).take(k + 1) =~= edits_view(r.authors@).take(k as int).push(
                edits_view(r.authors@)[k as int],
            ));
        }
        k += 1;
    }
    proof {
        assert(edits_view(r.authors@).take(r.authors.len() as int) =~= edits_view(r.authors@));
    }
    RecentChange {
        id: r.id,
        info: r.info.clone(),
        authors,
        last_changed: r.last_changed,
        ai_last: r.ai_last,
        ai_involved: r.ai_involved,
    }
}

} // verus!
