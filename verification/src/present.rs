//! What the task-list views and the MCP resources present: the views and
//! their query slugs, the context filter, the grouping of recent changes
//! by day, the category and context catalogues.

use indexmap::IndexMap;
use vstd::prelude::*;

use crate::cache::TaskCache;
use crate::recent::{recent_change_view, RecentChange, RecentView};
use crate::task::{Category, Context, Infos, InfosView};
use crate::text::{sorted_unique, str_eq, strictly_sorted, strs_view};
use crate::time::{day_in_range, utc_now};

verus! {

// ------------------------------------------------------------------ views

/// The five task-list views, in the order they are switched through.
#[derive(Clone, Copy, Debug, PartialEq, Eq, Structural)]
pub enum ViewSlug {
    Upcoming,
    QuickWins,
    AllOpen,
    WhatIFinished,
    RecentlyChanged,
}

impl ViewSlug {
    pub open spec fn spec_slug(self) -> Seq<char> {
        match self {
            ViewSlug::Upcoming => "upcoming"@,
            ViewSlug::QuickWins => "quickwins"@,
            ViewSlug::AllOpen => "allopen"@,
            ViewSlug::WhatIFinished => "finished"@,
            ViewSlug::RecentlyChanged => "recent"@,
        }
    }

    /// The `?view=` value of the view.
    pub fn slug(self) -> (s: &'static str)
        ensures
            s@ == self.spec_slug(),
    {
        match self {
            ViewSlug::Upcoming => "upcoming",
            ViewSlug::QuickWins => "quickwins",
            ViewSlug::AllOpen => "allopen",
            ViewSlug::WhatIFinished => "finished",
            ViewSlug::RecentlyChanged => "recent",
        }
    }

    /// The view of a `?view=` value.
    pub fn from_query_param(s: &str) -> (v: Option<ViewSlug>)
        ensures
            match v {
                Some(v) => v.spec_slug() == s@,
                None => forall|w: ViewSlug| #[trigger] w.spec_slug() != s@,
            },
    {
        proof {
            reveal_strlit("upcoming");
            reveal_strlit("quickwins");
            reveal_strlit("allopen");
            reveal_strlit("finished");
            reveal_strlit("recent");
        }
        if str_eq(s, "upcoming") {
            Some(ViewSlug::Upcoming)
        } else if str_eq(s, "quickwins") {
            Some(ViewSlug::QuickWins)
        } else if str_eq(s, "allopen") {
            Some(ViewSlug::AllOpen)
        } else if str_eq(s, "finished") {
            Some(ViewSlug::WhatIFinished)
        } else if str_eq(s, "recent") {
            Some(ViewSlug::RecentlyChanged)
        } else {
            proof {
                assert forall|w: ViewSlug| #[trigger] w.spec_slug() != s@ by {
                    match w {
                        ViewSlug::Upcoming => {},
                        ViewSlug::QuickWins => {},
                        ViewSlug::AllOpen => {},
                        ViewSlug::WhatIFinished => {},
                        ViewSlug::RecentlyChanged => {},
                    }
                }
            }
            None
        }
    }

    pub open spec fn spec_index(self) -> int {
        match self {
            ViewSlug::Upcoming => 0,
            ViewSlug::QuickWins => 1,
            ViewSlug::AllOpen => 2,
            ViewSlug::WhatIFinished => 3,
            ViewSlug::RecentlyChanged => 4,
        }
    }

    /// The view before this one, if any.
    pub fn prev(self) -> (v: Option<ViewSlug>)
        ensures
            match v {
                Some(v) => v.spec_index() == self.spec_index() - 1,
                None => self.spec_index() == 0,
            },
    {
        match self {
            ViewSlug::Upcoming => None,
            ViewSlug::QuickWins => Some(ViewSlug::Upcoming),
            ViewSlug::AllOpen => Some(ViewSlug::QuickWins),
            ViewSlug::WhatIFinished => Some(ViewSlug::AllOpen),
            ViewSlug::RecentlyChanged => Some(ViewSlug::WhatIFinished),
        }
    }

    /// The view after this one, if any.
    pub fn next(self) -> (v: Option<ViewSlug>)
        ensures
            match v {
                Some(v) => v.spec_index() == self.spec_index() + 1,
                None => self.spec_index() == 4,
            },
    {
        match self {
            ViewSlug::Upcoming => Some(ViewSlug::QuickWins),
            ViewSlug::QuickWins => Some(ViewSlug::AllOpen),
            ViewSlug::AllOpen => Some(ViewSlug::WhatIFinished),
            ViewSlug::WhatIFinished => Some(ViewSlug::RecentlyChanged),
            ViewSlug::RecentlyChanged => None,
        }
    }

    /// The heading of the view.
    pub fn title(self) -> (s: &'static str)
        ensures
            s@ == match self {
                ViewSlug::Upcoming => "Upcoming"@,
                ViewSlug::AllOpen => "All Open"@,
                ViewSlug::WhatIFinished => "What I Finished"@,
                ViewSlug::QuickWins => "Quick Wins"@,
                ViewSlug::RecentlyChanged => "Recent Changes"@,
            },
    {
        match self {
            ViewSlug::Upcoming => "Upcoming",
            ViewSlug::AllOpen => "All Open",
            ViewSlug::WhatIFinished => "What I Finished",
            ViewSlug::QuickWins => "Quick Wins",
            ViewSlug::RecentlyChanged => "Recent Changes",
        }
    }

    /// The line under the heading.
    pub fn subtitle(self) -> (s: &'static str)
        ensures
            s@ == match self {
                ViewSlug::Upcoming => "Open tasks with dates · grouped by urgency"@,
                ViewSlug::AllOpen => "Open tasks · ↓ category · oldest first"@,
                ViewSlug::WhatIFinished => "Completed tasks · ↓ category · recent first"@,
                ViewSlug::QuickWins => "Open tasks with estimate · grouped by duration"@,
                ViewSlug::RecentlyChanged => "Today + 2 days · grouped by day"@,
            },
    {
        match self {
            ViewSlug::Upcoming => "Open tasks with dates · grouped by urgency",
            ViewSlug::AllOpen => "Open tasks · ↓ category · oldest first",
            ViewSlug::WhatIFinished => "Completed tasks · ↓ category · recent first",
            ViewSlug::QuickWins => "Open tasks with estimate · grouped by duration",
            ViewSlug::RecentlyChanged => "Today + 2 days · grouped by day",
        }
    }

    pub open spec fn spec_empty_message(self) -> Seq<char> {
        match self {
            ViewSlug::Upcoming => "Nothing on the horizon."@,
            ViewSlug::AllOpen => "No open tasks."@,
            ViewSlug::WhatIFinished => "Nothing finished yet."@,
            ViewSlug::QuickWins => "No estimated tasks."@,
            ViewSlug::RecentlyChanged => "No recent changes."@,
        }
    }

    /// What an empty view says.
    pub fn empty_message(self) -> (s: &'static str)
        ensures
            s@ == self.spec_empty_message(),
    {
        match self {
            ViewSlug::Upcoming => "Nothing on the horizon.",
            ViewSlug::AllOpen => "No open tasks.",
            ViewSlug::WhatIFinished => "Nothing finished yet.",
            ViewSlug::QuickWins => "No estimated tasks.",
            ViewSlug::RecentlyChanged => "No recent changes.",
        }
    }

    /// The colour gradient of the view's header: one hue per view.
    pub fn header_gradient(self) -> (s: &'static str)
        ensures
            s@ == match self {
                ViewSlug::Upcoming => "from-cyan-500 to-cyan-700"@,
                ViewSlug::QuickWins => "from-emerald-500 to-emerald-700"@,
                ViewSlug::AllOpen => "from-violet-500 to-violet-700"@,
                ViewSlug::WhatIFinished => "from-amber-500 to-amber-700"@,
                ViewSlug::RecentlyChanged => "from-teal-500 to-teal-700"@,
            },
    {
        match self {
            ViewSlug::Upcoming => "from-cyan-500 to-cyan-700",
            ViewSlug::QuickWins => "from-emerald-500 to-emerald-700",
            ViewSlug::AllOpen => "from-violet-500 to-violet-700",
            ViewSlug::WhatIFinished => "from-amber-500 to-amber-700",
            ViewSlug::RecentlyChanged => "from-teal-500 to-teal-700",
        }
    }

    /// The colour of the view's dot in the view switcher while it is shown.
    pub fn dot_active_color(self) -> (s: &'static str)
        ensures
            s@ == match self {
                ViewSlug::Upcoming => "bg-cyan-200"@,
                ViewSlug::QuickWins => "bg-emerald-200"@,
                ViewSlug::AllOpen => "bg-violet-200"@,
                ViewSlug::WhatIFinished => "bg-amber-200"@,
                ViewSlug::RecentlyChanged => "bg-teal-200"@,
            },
    {
        match self {
            ViewSlug::Upcoming => "bg-cyan-200",
            ViewSlug::QuickWins => "bg-emerald-200",
            ViewSlug::AllOpen => "bg-violet-200",
            ViewSlug::WhatIFinished => "bg-amber-200",
            ViewSlug::RecentlyChanged => "bg-teal-200",
        }
    }

    /// The classes of a ticked checkbox in the view.
    pub fn checkbox_checked_classes(self) -> (s: &'static str)
        ensures
            s@ == match self {
                ViewSlug::Upcoming => "checked:from-cyan-400 checked:to-cyan-600 checked:border-cyan-400"@,
                ViewSlug::QuickWins => "checked:from-emerald-400 checked:to-emerald-600 checked:border-emerald-400"@,
                ViewSlug::AllOpen => "checked:from-violet-400 checked:to-violet-600 checked:border-violet-400"@,
                ViewSlug::WhatIFinished => "checked:from-amber-400 checked:to-amber-600 checked:border-amber-400"@,
                ViewSlug::RecentlyChanged => "checked:from-teal-400 checked:to-teal-600 checked:border-teal-400"@,
            },
    {
        match self {
            ViewSlug::Upcoming => "checked:from-cyan-400 checked:to-cyan-600 checked:border-cyan-400",
            ViewSlug::QuickWins => "checked:from-emerald-400 checked:to-emerald-600 checked:border-emerald-400",
            ViewSlug::AllOpen => "checked:from-violet-400 checked:to-violet-600 checked:border-violet-400",
            ViewSlug::WhatIFinished => "checked:from-amber-400 checked:to-amber-600 checked:border-amber-400",
            ViewSlug::RecentlyChanged => "checked:from-teal-400 checked:to-teal-600 checked:border-teal-400",
        }
    }

    /// The colour gradient of the view's loading spinner.
    pub fn spinner_gradient(self) -> (s: &'static str)
        ensures
            s@ == match self {
                ViewSlug::Upcoming => "from-cyan-400 to-cyan-600"@,
                ViewSlug::QuickWins => "from-emerald-400 to-emerald-600"@,
                ViewSlug::AllOpen => "from-violet-400 to-violet-600"@,
                ViewSlug::WhatIFinished => "from-amber-400 to-amber-600"@,
                ViewSlug::RecentlyChanged => "from-teal-400 to-teal-600"@,
            },
    {
        match self {
            ViewSlug::Upcoming => "from-cyan-400 to-cyan-600",
            ViewSlug::QuickWins => "from-emerald-400 to-emerald-600",
            ViewSlug::AllOpen => "from-violet-400 to-violet-600",
            ViewSlug::WhatIFinished => "from-amber-400 to-amber-600",
            ViewSlug::RecentlyChanged => "from-teal-400 to-teal-600",
        }
    }

    /// The left border of a top-priority task in the view; none in the
    /// recent changes, whose left border marks AI involvement.
    pub fn priority_a_border(self) -> (s: &'static str)
        ensures
            s@ == match self {
                ViewSlug::Upcoming => "border-l-[3px] border-l-cyan-500"@,
                ViewSlug::QuickWins => "border-l-[3px] border-l-emerald-500"@,
                ViewSlug::AllOpen => "border-l-[3px] border-l-violet-500"@,
                ViewSlug::WhatIFinished => "border-l-[3px] border-l-amber-500"@,
                ViewSlug::RecentlyChanged => ""@,
            },
    {
        match self {
            ViewSlug::Upcoming => "border-l-[3px] border-l-cyan-500",
            ViewSlug::QuickWins => "border-l-[3px] border-l-emerald-500",
            ViewSlug::AllOpen => "border-l-[3px] border-l-violet-500",
            ViewSlug::WhatIFinished => "border-l-[3px] border-l-amber-500",
            ViewSlug::RecentlyChanged => "",
        }
    }
}

/// How visible the view switcher's arrows are after `switch_count` view
/// switches: plain at first, then fading, showing fully on hover or focus.
pub fn arrow_opacity_class(switch_count: u32) -> (s: &'static str)
    ensures
        s@ == if switch_count <= 10 {
            "opacity-80"@
        } else if switch_count <= 50 {
            "opacity-40 hover:opacity-80 focus-visible:opacity-80"@
        } else {
            "opacity-20 hover:opacity-80 focus-visible:opacity-80"@
        },
{
    if switch_count <= 10 {
        "opacity-80"
    } else if switch_count <= 50 {
        "opacity-40 hover:opacity-80 focus-visible:opacity-80"
    } else {
        "opacity-20 hover:opacity-80 focus-visible:opacity-80"
    }
}

/// Which tasks a listing asks for.
#[derive(Clone, Copy, Debug, PartialEq, Eq, Structural)]
pub enum Filter {
    Todo,
    Done,
    HasTimeEstimate,
    RecentlyChanged,
}

// -------------------------------------------------------- context filter

/// A listed task: something that carries a task's information.
pub trait ListedTask {
    spec fn spec_infos(&self) -> InfosView;

    fn infos(&self) -> (i: &Infos)
        ensures
            i@ == self.spec_infos(),
    ;

    spec fn spec_task_id(&self) -> u128;

    fn task_id(&self) -> (id: u128)
        ensures
            id == self.spec_task_id(),
    ;
}

impl ListedTask for (u128, Infos) {
    open spec fn spec_infos(&self) -> InfosView {
        self.1@
    }

    fn infos(&self) -> (i: &Infos) {
        &self.1
    }

    open spec fn spec_task_id(&self) -> u128 {
        self.0
    }

    fn task_id(&self) -> (id: u128) {
        self.0
    }
}

impl ListedTask for (u128, Infos, Option<i32>, i32) {
    open spec fn spec_infos(&self) -> InfosView {
        self.1@
    }

    fn infos(&self) -> (i: &Infos) {
        &self.1
    }

    open spec fn spec_task_id(&self) -> u128 {
        self.0
    }

    fn task_id(&self) -> (id: u128) {
        self.0
    }
}

impl ListedTask for RecentChange {
    open spec fn spec_infos(&self) -> InfosView {
        self.info@
    }

    fn infos(&self) -> (i: &Infos) {
        &self.info
    }

    open spec fn spec_task_id(&self) -> u128 {
        self.id
    }

    fn task_id(&self) -> (id: u128) {
        self.id
    }
}

/// The task carries every context of the filter.
pub open spec fn passes_filter(info: InfosView, names: Seq<Seq<char>>) -> bool {
    forall|i: int| 0 <= i < names.len() ==> info.3.contains(#[trigger] names[i])
}

/// The tasks of a group that pass the filter, in order.
pub open spec fn kept<E: ListedTask>(es: Seq<E>, names: Seq<Seq<char>>) -> Seq<E>
    decreases es.len(),
{
    if es.len() == 0 {
        Seq::empty()
    } else {
        let prev = kept(es.drop_last(), names);
        if passes_filter(es.last().spec_infos(), names) {
            prev.push(es.last())
        } else {
            prev
        }
    }
}

/// The groups after filtering: each group keeps the tasks that pass, and
/// groups left empty are dropped.
pub open spec fn filtered_groups<L, E: ListedTask>(gs: Seq<(L, Seq<E>)>, names: Seq<Seq<char>>) -> Seq<(L, Seq<E>)>
    decreases gs.len(),
{
    if gs.len() == 0 {
        Seq::empty()
    } else {
        let prev = filtered_groups(gs.drop_last(), names);
        let k = kept(gs.last().1, names);
        if k.len() > 0 {
            prev.push((gs.last().0, k))
        } else {
            prev
        }
    }
}

pub open spec fn groups_seq<L, E>(gs: Seq<(L, Vec<E>)>) -> Seq<(L, Seq<E>)> {
    gs.map_values(|g: (L, Vec<E>)| (g.0, g.1@))
}

pub open spec fn names_of(filters: Seq<String>) -> Seq<Seq<char>> {
    filters.map_values(|f: String| f@)
}

/// Keeps the tasks that carry every context of `filters`; groups left
/// empty are dropped. Without filters nothing changes.
pub fn filter_groups<L, E: ListedTask>(groups: Vec<(L, Vec<E>)>, filters: &Vec<String>) -> (r: Vec<(L, Vec<E>)>)
    ensures
        filters@.len() == 0 ==> r@ == groups@,
        filters@.len() > 0 ==> groups_seq(r@) == filtered_groups(groups_seq(groups@), names_of(filters@)),
{
    if filters.len() == 0 {
        return groups;
    }
    let ghost names = names_of(filters@);
    let ghost all = groups_seq(groups@);
    let mut rest = groups;
    assert(all.len() == rest.len());
    let mut out: Vec<(L, Vec<E>)> = Vec::new();
    let mut k: usize = 0;
    while rest.len() > 0
        invariant
            names == names_of(filters@),
            k <= all.len(),
            k + rest.len() == all.len(),
            all.len() <= usize::MAX,
            groups_seq(rest@) == all.skip(k as int),
            groups_seq(out@) == filtered_groups(all.take(k as int), names),
        decreases rest.len(),
    {
        let ghost before = rest@;
        let (label, entries) = rest.remove(0);
        proof {
            assert(groups_seq(before)[0] == all.skip(k as int)[0]);
            assert(rest@ =~= before.subrange(1, before.len() as int));
            assert forall|i: int| 0 <= i < rest@.len() implies #[trigger] groups_seq(rest@)[i] == all.skip(k + 1)[i] by {
                assert(groups_seq(rest@)[i] == groups_seq(before)[i + 1]);
                assert(groups_seq(before)[i + 1] == all.skip(k as int)[i + 1]);
            }
            assert(groups_seq(rest@) =~= all.skip(k + 1));
            assert(all[k as int] == (label, entries@));
            assert(all.take(k + 1).drop_last() =~= all.take(k as int));
        }
        let ghost es = entries@;
        let mut entries = entries;
        assert(es.len() == entries.len());
        let mut keep: Vec<E> = Vec::new();
        let mut j: usize = 0;
        while entries.len() > 0
            invariant
                names == names_of(filters@),
                j <= es.len(),
                j + entries.len() == es.len(),
                es.len() <= usize::MAX,
                entries@ == es.skip(j as int),
                keep@ == kept(es.take(j as int), names),
            decreases entries.len(),
        {
            let e = entries.remove(0);
            proof {
                assert(es.skip(j as int)[0] == e);
                assert(entries@ =~= es.skip(j + 1));
                assert(es.take(j + 1).drop_last() =~= es.take(j as int));
                assert(es.take(j + 1).last() == e);
            }
            let info = e.infos();
            let pass = info.has_all_contexts(filters);
            proof {
                assert forall|i: int| 0 <= i < filters@.len() implies (info.spec_contexts().contains(#[trigger] filters@[i]@)
                    <==> e.spec_infos().3.contains(names[i])) by {}
                assert(pass == passes_filter(e.spec_infos(), names));
            }
            if pass {
                keep.push(e);
            }
            j += 1;
        }
        proof {
            assert(es.take(j as int) =~= es);
        }
        if keep.len() > 0 {
            out.push((label, keep));
        }
        proof {
            assert(groups_seq(out@) =~= filtered_groups(all.take(k + 1), names));
        }
        k += 1;
    }
    proof {
        assert(all.take(k as int) =~= all);
    }
    out
}

// ------------------------------------------------------------- catalogues

/// The categories of the tasks in `entries`.
pub open spec fn category_names(entries: Seq<(u128, crate::task::Task)>) -> Seq<Seq<char>> {
    entries.map_values(|e: (u128, crate::task::Task)| e.1.spec_info().spec_category())
}

/// A context name occurs in some task of `entries`.
pub open spec fn context_in_use(entries: Seq<(u128, crate::task::Task)>, c: Seq<char>) -> bool {
    exists|i: int| 0 <= i < entries.len() && (#[trigger] entries[i]).1.spec_info().spec_contexts().contains(c)
}

pub open spec fn category_views(cs: Seq<Category>) -> Seq<Seq<char>> {
    cs.map_values(|c: Category| c@)
}

pub open spec fn context_views(cs: Seq<Context>) -> Seq<Seq<char>> {
    cs.map_values(|c: Context| c@)
}

/// The categories in use, each once, in `String` order.
pub fn categories(cache: &TaskCache) -> (r: Vec<Category>)
    requires
        cache.wf(),
    ensures
        strictly_sorted(category_views(r@)),
        forall|c: Seq<char>| #[trigger] category_views(r@).contains(c) <==> category_names(cache.spec_entries()).contains(c),
{
    let n = cache.len();
    let ghost entries = cache.spec_entries();
    let mut names: Vec<&str> = Vec::new();
    let mut i: usize = 0;
    while i < n
        invariant
            entries == cache.spec_entries(),
            cache.wf(),
            n == entries.len(),
            i <= n,
            strs_view(names@) == category_names(entries).take(i as int),
            forall|k: int| 0 <= k < names.len() ==> (#[trigger] names@[k])@.len() > 0,
        decreases n - i,
    {
        let (_, task) = cache.entry_at(i);
        assert(task.wf());
        let ghost before = names@;
        names.push(task.info().category().as_str());
        proof {
            assert(strs_view(names@) =~= strs_view(before).push(entries[i as int].1.spec_info().spec_category()));
            assert(category_names(entries).take(i + 1) =~= category_names(entries).take(i as int).push(
                entries[i as int].1.spec_info().spec_category(),
            ));
        }
        i += 1;
    }
    proof {
        assert(category_names(entries).take(n as int) =~= category_names(entries));
    }
    let sorted = sorted_unique(&names);
    let mut r: Vec<Category> = Vec::new();
    let mut k: usize = 0;
    while k < sorted.len()
        invariant
            k <= sorted.len(),
            category_views(r@) == strs_view(sorted@).take(k as int),
            forall|x: Seq<char>| #[trigger] strs_view(sorted@).contains(x) <==> strs_view(names@).contains(x),
            forall|m: int| 0 <= m < names.len() ==> (#[trigger] names@[m])@.len() > 0,
        decreases sorted.len() - k,
    {
        let name = sorted[k];
        proof {
            assert(strs_view(sorted@).contains(name@)) by {
                assert(strs_view(sorted@)[k as int] == name@);
            }
            let m = choose|m: int| 0 <= m < strs_view(names@).len() && strs_view(names@)[m] == name@;
            assert(names@[m]@ == name@);
        }
        let c = match Category::parse(name) {
            Ok(c) => c,
            Err(_) => vstd::pervasive::unreached(),
        };
        let ghost before = r@;
        r.push(c);
        proof {
            assert(category_views(r@) =~= category_views(before).push(name@));
            assert(strs_view(sorted@).take(k + 1) =~= strs_view(sorted@).take(k as int).push(name@));
        }
        k += 1;
    }
    proof {
        assert(strs_view(sorted@).take(sorted.len() as int) =~= strs_view(sorted@));
    }
    r
}

/// The contexts in use, each once, in `String` order.
pub fn contexts(cache: &TaskCache) -> (r: Vec<Context>)
    requires
        cache.wf(),
    ensures
        strictly_sorted(context_views(r@)),
        forall|c: Seq<char>| #[trigger] context_views(r@).contains(c) <==> context_in_use(cache.spec_entries(), c),
{
    let n = cache.len();
    let ghost entries = cache.spec_entries();
    let mut names: Vec<&str> = Vec::new();
    let mut i: usize = 0;
    while i < n
        invariant
            entries == cache.spec_entries(),
            cache.wf(),
            n == entries.len(),
            i <= n,
            forall|x: Seq<char>| #[trigger] strs_view(names@).contains(x) <==> context_in_use(entries.take(i as int), x),
            forall|k: int| 0 <= k < names.len() ==> crate::task::spec_context_ok(#[trigger] names@[k]@),
        decreases n - i,
    {
        let (_, task) = cache.entry_at(i);
        assert(task.wf());
        let cs = task.info().contexts();
        let ghost base = names@;
        let mut j: usize = 0;
        while j < cs.len()
            invariant
                j <= cs.len(),
                entries == cache.spec_entries(),
                i < entries.len(),
                crate::task::context_names(cs@) == entries[i as int].1.spec_info().spec_contexts(),
                entries[i as int].1.wf(),
                forall|x: Seq<char>| #[trigger] strs_view(base).contains(x) <==> context_in_use(entries.take(i as int), x),
                forall|x: Seq<char>|
                    #[trigger] strs_view(names@).contains(x) <==> (strs_view(base).contains(x) || crate::task::context_names(
                        cs@,
                    ).take(j as int).contains(x)),
                forall|k: int| 0 <= k < names.len() ==> crate::task::spec_context_ok(#[trigger] names@[k]@),
            decreases cs.len() - j,
        {
            let ghost before = names@;
            names.push(cs[j].as_str());
            proof {
                let cn = crate::task::context_names(cs@);
                assert(cn[j as int] == cs@[j as int]@);
                assert(strs_view(names@) =~= strs_view(before).push(cn[j as int]));
                assert(cn.take(j + 1) =~= cn.take(j as int).push(cn[j as int]));
                assert(entries[i as int].1.spec_info().wf());
                assert(crate::task::spec_context_ok(cn[j as int]));
                let sv = strs_view(names@);
                let bv = strs_view(before);
                let ct = cn.take(j + 1);
                let cp = cn.take(j as int);
                assert forall|x: Seq<char>| #[trigger] sv.contains(x) <==> (strs_view(base).contains(x) || ct.contains(x)) by {
                    if sv.contains(x) {
                        let m = choose|m: int| 0 <= m < sv.len() && sv[m] == x;
                        if m < bv.len() {
                            assert(bv[m] == x);
                            assert(bv.contains(x));
                        } else {
                            assert(ct[j as int] == x);
                        }
                    }
                    if ct.contains(x) {
                        let m = choose|m: int| 0 <= m < ct.len() && ct[m] == x;
                        if m < j {
                            assert(cp[m] == x);
                            assert(cp.contains(x));
                            assert(bv.contains(x));
                            let q = choose|q: int| 0 <= q < bv.len() && bv[q] == x;
                            assert(sv[q] == x);
                        } else {
                            assert(sv[bv.len() as int] == x);
                        }
                    }
                    if strs_view(base).contains(x) {
                        assert(bv.contains(x));
                        let q = choose|q: int| 0 <= q < bv.len() && bv[q] == x;
                        assert(sv[q] == x);
                    }
                }
            }
            j += 1;
        }
        proof {
            let cn = crate::task::context_names(cs@);
            assert(cn.take(cs.len() as int) =~= cn);
            assert forall|x: Seq<char>| #[trigger] strs_view(names@).contains(x) <==> context_in_use(entries.take(i + 1), x) by {
                if context_in_use(entries.take(i + 1), x) {
                    let m = choose|m: int| 0 <= m < entries.take(i + 1).len() && (#[trigger] entries.take(i + 1)[m]).1.spec_info().spec_contexts().contains(x);
                    if m < i {
                        assert(entries.take(i as int)[m] == entries[m]);
                        assert(context_in_use(entries.take(i as int), x));
                    }
                }
                if context_in_use(entries.take(i as int), x) {
                    let m = choose|m: int| 0 <= m < entries.take(i as int).len() && (#[trigger] entries.take(i as int)[m]).1.spec_info().spec_contexts().contains(x);
                    assert(entries.take(i + 1)[m] == entries[m]);
                }
                if cn.contains(x) {
                    assert(entries.take(i + 1)[i as int] == entries[i as int]);
                }
            }
        }
        i += 1;
    }
    proof {
        assert(entries.take(n as int) =~= entries);
    }
    let sorted = sorted_unique(&names);
    let mut r: Vec<Context> = Vec::new();
    let mut k: usize = 0;
    while k < sorted.len()
        invariant
            k <= sorted.len(),
            context_views(r@) == strs_view(sorted@).take(k as int),
            forall|x: Seq<char>| #[trigger] strs_view(sorted@).contains(x) <==> strs_view(names@).contains(x),
            forall|m: int| 0 <= m < names.len() ==> crate::task::spec_context_ok(#[trigger] names@[m]@),
        decreases sorted.len() - k,
    {
        let name = sorted[k];
        proof {
            assert(strs_view(sorted@).contains(name@)) by {
                assert(strs_view(sorted@)[k as int] == name@);
            }
            let m = choose|m: int| 0 <= m < strs_view(names@).len() && strs_view(names@)[m] == name@;
            assert(names@[m]@ == name@);
        }
        let c = match Context::parse(name) {
            Ok(c) => c,
            Err(_) => vstd::pervasive::unreached(),
        };
        let ghost before = r@;
        r.push(c);
        proof {
            assert(context_views(r@) =~= context_views(before).push(name@));
            assert(strs_view(sorted@).take(k + 1) =~= strs_view(sorted@).take(k as int).push(name@));
        }
        k += 1;
    }
    proof {
        assert(strs_view(sorted@).take(sorted.len() as int) =~= strs_view(sorted@));
    }
    r
}

// ---------------------------------------------------------- recent by day

/// The groups of recent changes by day, in the order the days first come.
pub uninterp spec fn day_group_entries(m: IndexMap<i32, Vec<RecentChange>>) -> Seq<(i32, Seq<RecentChange>)>;

/// The groups after adding `rc` under `day`: to the day's group when there
/// is one, else in a new group at the end.
pub open spec fn spec_add_to_day(e: Seq<(i32, Seq<RecentChange>)>, day: i32, rc: RecentChange) -> Seq<(i32, Seq<RecentChange>)> {
    if exists|i: int| 0 <= i < e.len() && e[i].0 == day {
        let i = choose|i: int| 0 <= i < e.len() && e[i].0 == day;
        e.update(i, (day, e[i].1.push(rc)))
    } else {
        e.push((day, seq![rc]))
    }
}

/// `IndexMap::new`.
#[verifier::external_body]
fn day_groups_new() -> (m: IndexMap<i32, Vec<RecentChange>>)
    ensures
        day_group_entries(m) == Seq::<(i32, Seq<RecentChange>)>::empty(),
{
    IndexMap::new()
}

/// `IndexMap::entry(day).or_default().push(rc)`: appends to the day's
/// group, which is created at the end when missing.
#[verifier::external_body]
fn day_groups_push(m: &mut IndexMap<i32, Vec<RecentChange>>, day: i32, rc: RecentChange)
    ensures
        day_group_entries(*final(m)) == spec_add_to_day(day_group_entries(*old(m)), day, rc),
{
    m.entry(day).or_default().push(rc)
}

/// `IndexMap::into_iter().collect()`: the groups in order.
#[verifier::external_body]
fn day_groups_into_vec(m: IndexMap<i32, Vec<RecentChange>>) -> (v: Vec<(i32, Vec<RecentChange>)>)
    ensures
        v@.map_values(|g: (i32, Vec<RecentChange>)| (g.0, g.1@)) == day_group_entries(m),
{
    m.into_iter().collect()
}

/// The groups of a list of recent changes by day.
pub open spec fn spec_day_groups(rcs: Seq<RecentChange>) -> Seq<(i32, Seq<RecentChange>)>
    decreases rcs.len(),
{
    if rcs.len() == 0 {
        Seq::empty()
    } else {
        spec_add_to_day(spec_day_groups(rcs.drop_last()), rcs.last().last_changed.spec_local_day() as i32, rcs.last())
    }
}

/// Groups recent changes by the calendar day of their last change, days
/// in the order they first come, each day's changes in order.
pub fn group_recent_by_day(tasks: Vec<RecentChange>) -> (r: Vec<(i32, Vec<RecentChange>)>)
    requires
        forall|k: int| 0 <= k < tasks.len() ==> (#[trigger] tasks@[k]).last_changed.wf(),
    ensures
        r@.map_values(|g: (i32, Vec<RecentChange>)| (g.0, g.1@)) == spec_day_groups(tasks@),
{
    let ghost all = tasks@;
    let mut rest = tasks;
    let mut m = day_groups_new();
    let mut k: usize = 0;
    assert(all.len() == rest.len());
    while rest.len() > 0
        invariant
            k + rest.len() == all.len(),
            all.len() <= usize::MAX,
            rest@ == all.skip(k as int),
            forall|j: int| 0 <= j < all.len() ==> (#[trigger] all[j]).last_changed.wf(),
            day_group_entries(m) == spec_day_groups(all.take(k as int)),
        decreases rest.len(),
    {
        let rc = rest.remove(0);
        proof {
            assert(all.skip(k as int)[0] == rc);
            assert(rest@ =~= all.skip(k + 1));
            assert(all.take(k + 1).drop_last() =~= all.take(k as int));
            assert(all.take(k + 1).last() == rc);
            assert(all[k as int] == rc);
        }
        let day = rc.last_changed.local_day();
        day_groups_push(&mut m, day, rc);
        k += 1;
    }
    proof {
        assert(all.take(k as int) =~= all);
    }
    day_groups_into_vec(m)
}

// -------------------------------------------------------- MCP resources

/// How long a client may keep the resource list, in milliseconds.
pub const RESOURCE_LIST_TTL_MS: u64 = 600000;

/// The resources of the MCP endpoint.
#[derive(Clone, Copy, Debug, PartialEq, Eq, Structural)]
pub enum McpResource {
    Categories,
    Contexts,
    DailyReport,
    Backlog,
    QuickWins,
    WeeklyReport,
}

impl McpResource {
    pub open spec fn spec_uri(self) -> Seq<char> {
        match self {
            McpResource::Categories => "kid://categories"@,
            McpResource::Contexts => "kid://contexts"@,
            McpResource::DailyReport => "kid://report/daily"@,
            McpResource::Backlog => "kid://report/backlog"@,
            McpResource::QuickWins => "kid://report/quick_wins"@,
            McpResource::WeeklyReport => "kid://report/weekly"@,
        }
    }

    /// The URI of the resource.
    pub fn uri(self) -> (s: &'static str)
        ensures
            s@ == self.spec_uri(),
    {
        match self {
            McpResource::Categories => "kid://categories",
            McpResource::Contexts => "kid://contexts",
            McpResource::DailyReport => "kid://report/daily",
            McpResource::Backlog => "kid://report/backlog",
            McpResource::QuickWins => "kid://report/quick_wins",
            McpResource::WeeklyReport => "kid://report/weekly",
        }
    }

    /// The name of the resource.
    pub fn name(self) -> (s: &'static str)
        ensures
            s@ == match self {
                McpResource::Categories => "Categories"@,
                McpResource::Contexts => "Contexts"@,
                McpResource::DailyReport => "Daily Report"@,
                McpResource::Backlog => "Backlog"@,
                McpResource::QuickWins => "Quick Wins"@,
                McpResource::WeeklyReport => "Weekly Review"@,
            },
    {
        match self {
            McpResource::Categories => "Categories",
            McpResource::Contexts => "Contexts",
            McpResource::DailyReport => "Daily Report",
            McpResource::Backlog => "Backlog",
            McpResource::QuickWins => "Quick Wins",
            McpResource::WeeklyReport => "Weekly Review",
        }
    }

    /// The MIME type of the resource's content.
    pub fn mime_type(self) -> (s: &'static str)
        ensures
            s@ == match self {
                McpResource::Categories | McpResource::Contexts => "application/json"@,
                _ => "text/markdown"@,
            },
    {
        match self {
            McpResource::Categories | McpResource::Contexts => "application/json",
            _ => "text/markdown",
        }
    }

    /// What the resource holds, as a client is told.
    pub fn description(self) -> (s: &'static str)
        ensures
            s@ == match self {
                McpResource::Categories => "Categories currently in use"@,
                McpResource::Contexts => "Contexts currently in use"@,
                McpResource::DailyReport => "Markdown summary of open tasks for today: grouped into Overdue, Today, Tomorrow, This Week, Next Week, Later, and Ready to Start. Use this to tell a human what's on their plate."@,
                McpResource::Backlog => "Markdown list of open tasks that have no due date and aren't ready to start yet."@,
                McpResource::QuickWins => "Markdown list of open tasks that have a time estimate, grouped from shortest to longest. Use this to suggest something to knock out with whatever time is available."@,
                McpResource::WeeklyReport => "Markdown review of the last 7 days: the tasks finished and the tasks opened."@,
            },
    {
        match self {
            McpResource::Categories => "Categories currently in use",
            McpResource::Contexts => "Contexts currently in use",
            McpResource::DailyReport => "Markdown summary of open tasks for today: grouped into Overdue, Today, Tomorrow, This Week, Next Week, Later, and Ready to Start. Use this to tell a human what's on their plate.",
            McpResource::Backlog => "Markdown list of open tasks that have no due date and aren't ready to start yet.",
            McpResource::QuickWins => "Markdown list of open tasks that have a time estimate, grouped from shortest to longest. Use this to suggest something to knock out with whatever time is available.",
            McpResource::WeeklyReport => "Markdown review of the last 7 days: the tasks finished and the tasks opened.",
        }
    }

    /// The resources the MCP endpoint lists, in the order it lists them.
    pub fn all() -> (v: Vec<McpResource>)
        ensures
            v@ == seq![
                McpResource::Categories,
                McpResource::Contexts,
                McpResource::DailyReport,
                McpResource::Backlog,
                McpResource::QuickWins,
                McpResource::WeeklyReport,
            ],
    {
        vec![
            McpResource::Categories,
            McpResource::Contexts,
            McpResource::DailyReport,
            McpResource::Backlog,
            McpResource::QuickWins,
            McpResource::WeeklyReport,
        ]
    }

    /// The resource a URI names.
    pub fn from_uri(uri: &str) -> (r: Option<McpResource>)
        ensures
            match r {
                Some(r) => r.spec_uri() == uri@,
                None => forall|x: McpResource| #[trigger] x.spec_uri() != uri@,
            },
    {
        proof {
            reveal_strlit("kid://categories");
            reveal_strlit("kid://contexts");
            reveal_strlit("kid://report/daily");
            reveal_strlit("kid://report/backlog");
            reveal_strlit("kid://report/quick_wins");
            reveal_strlit("kid://report/weekly");
        }
        if str_eq(uri, "kid://categories") {
            Some(McpResource::Categories)
        } else if str_eq(uri, "kid://contexts") {
            Some(McpResource::Contexts)
        } else if str_eq(uri, "kid://report/daily") {
            Some(McpResource::DailyReport)
        } else if str_eq(uri, "kid://report/backlog") {
            Some(McpResource::Backlog)
        } else if str_eq(uri, "kid://report/quick_wins") {
            Some(McpResource::QuickWins)
        } else if str_eq(uri, "kid://report/weekly") {
            Some(McpResource::WeeklyReport)
        } else {
            proof {
                assert forall|x: McpResource| #[trigger] x.spec_uri() != uri@ by {
                    match x {
                        McpResource::Categories => {},
                        McpResource::Contexts => {},
                        McpResource::DailyReport => {},
                        McpResource::Backlog => {},
                        McpResource::QuickWins => {},
                        McpResource::WeeklyReport => {},
                    }
                }
            }
            None
        }
    }
}


/// chrono's `%A, %d.%m.` of a calendar day: the English weekday, then the
/// day of the month and the month, two digits each.
pub uninterp spec fn spec_weekday_date(day: int) -> Seq<char>;

/// `chrono::NaiveDate::format("%A, %d.%m.")` of the day with this number.
#[verifier::external_body]
fn weekday_date(day: i32) -> (s: String)
    requires
        day_in_range(day as int),
    ensures
        s@ == spec_weekday_date(day as int),
{
    chrono::NaiveDate::from_num_days_from_ce_opt(day).unwrap().format("%A, %d.%m.").to_string()
}

/// The heading of a day of recent changes seen on day `today`: "Today",
/// "Yesterday", else the weekday and date.
pub open spec fn spec_day_label(day: int, today: int) -> Seq<char> {
    if day == today {
        "Today"@
    } else if day == today - 1 {
        "Yesterday"@
    } else {
        spec_weekday_date(day)
    }
}

/// The heading of a day of recent changes seen on day `today`.
pub fn day_label_at(day: i32, today: i32) -> (s: String)
    requires
        day_in_range(day as int),
        day_in_range(today as int - 1),
    ensures
        s@ == spec_day_label(day as int, today as int),
{
    proof {
        reveal_strlit("Today");
        reveal_strlit("Yesterday");
    }
    if day == today {
        String::from_str("Today")
    } else if day == today - 1 {
        String::from_str("Yesterday")
    } else {
        weekday_date(day)
    }
}

/// The heading of a day of recent changes, seen on the current day in UTC.
pub fn day_label(day: i32) -> (s: Option<String>)
    requires
        day_in_range(day as int),
    ensures
        exists|today: int|
            #![trigger spec_day_label(day as int, today)]
            day_in_range(today) && match s {
                Some(s) => day_in_range(today - 1) && s@ == spec_day_label(day as int, today),
                None => !day_in_range(today - 1),
            },
{
    let today = utc_now().utc_day();
    if today == crate::time::DAY_MIN {
        assert(spec_day_label(day as int, today as int) == spec_day_label(day as int, today as int));
        return None;
    }
    Some(day_label_at(day, today))
}


/// The id of the first task of the first group that has one.
pub open spec fn spec_first_id<L, E: ListedTask>(gs: Seq<(L, Seq<E>)>) -> Option<u128>
    decreases gs.len(),
{
    if gs.len() == 0 {
        None
    } else if gs[0].1.len() > 0 {
        Some(gs[0].1[0].spec_task_id())
    } else {
        spec_first_id(gs.drop_first())
    }
}

/// The id of the first task across the groups, in order.
pub fn first_id<L, E: ListedTask>(groups: &Vec<(L, Vec<E>)>) -> (id: Option<u128>)
    ensures
        id == spec_first_id(groups_seq(groups@)),
{
    let ghost all = groups_seq(groups@);
    assert(all.subrange(0, all.len() as int) =~= all);
    let mut k: usize = 0;
    while k < groups.len()
        invariant
            k <= groups.len(),
            all == groups_seq(groups@),
            spec_first_id(all) == spec_first_id(all.subrange(k as int, all.len() as int)),
        decreases groups.len() - k,
    {
        let ghost rest = all.subrange(k as int, all.len() as int);
        assert(rest[0] == all[k as int]);
        if groups[k].1.len() > 0 {
            return Some(groups[k].1[0].task_id());
        }
        assert(rest.drop_first() =~= all.subrange(k + 1, all.len() as int));
        k += 1;
    }
    assert(all.subrange(k as int, all.len() as int) =~= Seq::<(L, Seq<E>)>::empty());
    None
}

/// The tasks of a view as the task list shows them: grouped by category,
/// by time estimate, by deadline group (with the number of tasks in the
/// backlog), or by day of last change.
pub enum TaskListData {
    Grouped(Vec<(Category, Vec<(u128, Infos)>)>),
    EstimateGrouped(Vec<(crate::task::TimeEstimate, Vec<(u128, Infos)>)>),
    DeadlineGrouped(Vec<(crate::views::DeadlineGroup, Vec<(u128, Infos, Option<i32>, i32)>)>, usize),
    DayGrouped(Vec<(i32, Vec<RecentChange>)>),
}

impl TaskListData {
    /// The id of the first task across all groups, if any.
    pub fn first_task_id(&self) -> (id: Option<u128>)
        ensures
            id == match self {
                TaskListData::Grouped(g) => spec_first_id(groups_seq(g@)),
                TaskListData::EstimateGrouped(g) => spec_first_id(groups_seq(g@)),
                TaskListData::DeadlineGrouped(g, _) => spec_first_id(groups_seq(g@)),
                TaskListData::DayGrouped(g) => spec_first_id(groups_seq(g@)),
            },
    {
        match self {
            TaskListData::Grouped(g) => first_id(g),
            TaskListData::EstimateGrouped(g) => first_id(g),
            TaskListData::DeadlineGrouped(g, _) => first_id(g),
            TaskListData::DayGrouped(g) => first_id(g),
        }
    }
}

/// The groups of a view kept to the tasks that carry every context of
/// `filters`, groups left empty dropped; the backlog count is kept as it
/// is. Without filters nothing changes.
pub fn apply_filter(data: TaskListData, filters: &Vec<String>) -> (r: TaskListData)
    ensures
        match (data, r) {
            (TaskListData::Grouped(g), TaskListData::Grouped(h)) => filters@.len() == 0 ==> h@ == g@,
            (TaskListData::EstimateGrouped(g), TaskListData::EstimateGrouped(h)) => filters@.len() == 0 ==> h@ == g@,
            (TaskListData::DeadlineGrouped(g, b), TaskListData::DeadlineGrouped(h, c)) => c == b && (filters@.len() == 0
                ==> h@ == g@),
            (TaskListData::DayGrouped(g), TaskListData::DayGrouped(h)) => filters@.len() == 0 ==> h@ == g@,
            _ => false,
        },
        filters@.len() > 0 ==> match (data, r) {
            (TaskListData::Grouped(g), TaskListData::Grouped(h)) => groups_seq(h@) == filtered_groups(
                groups_seq(g@),
                names_of(filters@),
            ),
            (TaskListData::EstimateGrouped(g), TaskListData::EstimateGrouped(h)) => groups_seq(h@) == filtered_groups(
                groups_seq(g@),
                names_of(filters@),
            ),
            (TaskListData::DeadlineGrouped(g, _), TaskListData::DeadlineGrouped(h, _)) => groups_seq(h@)
                == filtered_groups(groups_seq(g@), names_of(filters@)),
            (TaskListData::DayGrouped(g), TaskListData::DayGrouped(h)) => groups_seq(h@) == filtered_groups(
                groups_seq(g@),
                names_of(filters@),
            ),
            _ => false,
        },
{
    match data {
        TaskListData::Grouped(g) => TaskListData::Grouped(filter_groups(g, filters)),
        TaskListData::EstimateGrouped(g) => TaskListData::EstimateGrouped(filter_groups(g, filters)),
        TaskListData::DeadlineGrouped(g, b) => TaskListData::DeadlineGrouped(filter_groups(g, filters), b),
        TaskListData::DayGrouped(g) => TaskListData::DayGrouped(filter_groups(g, filters)),
    }
}


impl McpResource {
    /// The resource is a report, which also comes per assignee.
    /// The start of the URI of the per-assignee variant of a report:
    /// the report's URI and a slash.
    pub open spec fn spec_assignee_prefix(self) -> Seq<char> {
        self.spec_uri() + "/"@
    }
}

/// Whose tasks the last part of a per-assignee report URI names:
/// `unassigned` names the tasks without an assignee, any other text the
/// tasks of that assignee.
pub open spec fn spec_who_of(rest: Seq<char>) -> Option<Seq<char>> {
    if rest == "unassigned"@ {
        None
    } else {
        Some(rest)
    }
}

/// Whether `uri` names the per-assignee variant of the report `x`: the
/// report's URI, a slash and a non-empty assignee.
pub open spec fn is_variant_of(uri: Seq<char>, x: McpResource) -> bool {
    uri.len() > x.spec_assignee_prefix().len() && uri.take(x.spec_assignee_prefix().len() as int)
        == x.spec_assignee_prefix()
}

/// Whose tasks the per-assignee variant `uri` of the report `x` is for.
pub open spec fn variant_who(uri: Seq<char>, x: McpResource) -> crate::task::WhoView {
    Some(spec_who_of(uri.skip(x.spec_assignee_prefix().len() as int)))
}

/// The resource and the tasks a URI asks for: a resource by its URI, for
/// everyone's tasks; or the per-assignee variant of one of the reports
/// (daily, backlog, quick wins, weekly) for that assignee's tasks (see
/// [`spec_who_of`]); or nothing.
pub open spec fn spec_resource_of(uri: Seq<char>) -> Option<(McpResource, crate::task::WhoView)> {
    if exists|x: McpResource| #[trigger] x.spec_uri() == uri {
        Some((choose|x: McpResource| #[trigger] x.spec_uri() == uri, None))
    } else if is_variant_of(uri, McpResource::DailyReport) {
        Some((McpResource::DailyReport, variant_who(uri, McpResource::DailyReport)))
    } else if is_variant_of(uri, McpResource::Backlog) {
        Some((McpResource::Backlog, variant_who(uri, McpResource::Backlog)))
    } else if is_variant_of(uri, McpResource::QuickWins) {
        Some((McpResource::QuickWins, variant_who(uri, McpResource::QuickWins)))
    } else if is_variant_of(uri, McpResource::WeeklyReport) {
        Some((McpResource::WeeklyReport, variant_who(uri, McpResource::WeeklyReport)))
    } else {
        None
    }
}

/// Whose tasks the URI `uri` asks for as a variant of the report `x`:
/// `None` where it is no such variant, else `None` inside for the tasks
/// without an assignee and the assignee's name otherwise.
pub fn assignee_variant<'a>(uri: &'a str, x: McpResource) -> (r: Option<Option<&'a str>>)
    ensures
        match r {
            Some(w) => is_variant_of(uri@, x) && crate::task::who_view(Some(w)) == variant_who(uri@, x),
            None => !is_variant_of(uri@, x),
        },
{
    proof {
        reveal_strlit("/");
        reveal_strlit("unassigned");
    }
    let mut prefix = String::from_str(x.uri());
    prefix.append("/");
    assert(prefix@ == x.spec_assignee_prefix());
    match crate::text::strip_prefix(uri, prefix.as_str()) {
        None => None,
        Some(rest) => {
            if rest.unicode_len() == 0 {
                None
            } else if str_eq(rest, "unassigned") {
                Some(None)
            } else {
                Some(Some(rest))
            }
        },
    }
}

} // verus!
