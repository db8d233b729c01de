//! The MCP endpoint: the task tools (their input checks, who a change is
//! recorded for, and their replies) and the resources it serves.

use vstd::prelude::*;

use crate::cache::{key_index, spec_mark, TaskCache};
use crate::ids::{spec_simple, uuid_simple};
use crate::oauth::{host_port, spec_host_port};
use crate::task::{
    assigned, lemma_assigned_from, spec_add_author, spec_edited, who_view, Category, Context, Details, Priority, Summary, Task,
    TaskEdit, WhoView,
};
use crate::groups::{estimated_items, group_quick_wins_for, quick_win_groups, quick_win_key, EstimatedView};
use crate::present::{categories, category_names, category_views, context_in_use, context_views, contexts, McpResource,
    assignee_variant, spec_resource_of};
use crate::report::{
    backlog_report, daily_report, lemma_upcoming_days_in_range, quick_wins_report, spec_backlog_intros, spec_backlog_report,
    spec_daily_report, spec_daily_report_intros, spec_quick_wins_intros, spec_quick_wins_report, spec_weekly_report,
    weekly_report,
};
use crate::sort::{is_sorted_permutation, permuted};
use crate::text::strictly_sorted;
use crate::time::Timestamp;
use crate::upcoming::{
    backlog_items, backlog_key, group_upcoming_for, groups_view, open_tasks_placeable, pairs_view, placed_items, placed_key,
    upcoming_groups, PlacedView,
};
use crate::views::{placeable, today_in_range};

verus! {

/// Why a tool call was refused.
#[derive(Debug)]
pub enum ToolError {
    /// An input did not parse; the message says why.
    InvalidParams(String),
    /// The client may not make changes; the message says why.
    InvalidRequest(String),
}

/// The reply of a tool call that was carried out.
#[derive(Debug)]
pub enum ToolReply {
    /// The change was made; the text says which.
    Success(&'static str),
    /// There is no such task; the text says so.
    NotFound(String),
    /// A task was added under this id.
    Added(u128),
}

/// A UUID as text: 32 hexadecimal digits in groups of 8-4-4-4-12.
pub open spec fn spec_hyphenated(id: u128) -> Seq<char> {
    let s = spec_simple(id);
    s.subrange(0, 8) + seq!['-'] + s.subrange(8, 12) + seq!['-'] + s.subrange(12, 16) + seq!['-'] + s.subrange(16, 20)
        + seq!['-'] + s.subrange(20, 32)
}

/// Renders a UUID in its hyphenated form.
pub fn hyphenated(id: u128) -> (s: String)
    ensures
        s@ == spec_hyphenated(id),
{
    proof {
        reveal_strlit("-");
    }
    let simple = uuid_simple(id);
    let t = simple.as_str();
    assert(t@.len() == 32);
    let mut s = String::new();
    s.append(t.substring_char(0, 8));
    s.append("-");
    s.append(t.substring_char(8, 12));
    s.append("-");
    s.append(t.substring_char(12, 16));
    s.append("-");
    s.append(t.substring_char(16, 20));
    s.append("-");
    s.append(t.substring_char(20, 32));
    assert(s@ =~= spec_hyphenated(id));
    s
}

/// `task <id> not found`.
pub open spec fn spec_not_found(id: u128) -> Seq<char> {
    "task "@ + spec_hyphenated(id) + " not found"@
}

pub fn not_found_message(id: u128) -> (s: String)
    ensures
        s@ == spec_not_found(id),
{
    proof {
        reveal_strlit("task ");
        reveal_strlit(" not found");
    }
    let mut s = String::from_str("task ");
    let h = hyphenated(id);
    s.append(h.as_str());
    s.append(" not found");
    s
}

/// The contexts named by `items`, or the error of the first that is not
/// a context.
pub fn parse_contexts(items: &Vec<String>) -> (r: Result<Vec<Context>, &'static str>)
    ensures
        match r {
            Ok(cs) => cs@.len() == items@.len() && forall|i: int|
                0 <= i < items@.len() ==> (#[trigger] cs@[i])@ == items@[i]@ && cs@[i].wf(),
            Err(_) => exists|i: int| 0 <= i < items@.len() && !crate::task::spec_context_ok(#[trigger] items@[i]@),
        },
{
    let mut cs: Vec<Context> = Vec::new();
    let mut k: usize = 0;
    while k < items.len()
        invariant
            k <= items.len(),
            cs@.len() == k,
            forall|i: int| 0 <= i < k ==> (#[trigger] cs@[i])@ == items@[i]@ && cs@[i].wf(),
        decreases items.len() - k,
    {
        match Context::parse(items[k].as_str()) {
            Ok(c) => cs.push(c),
            Err(e) => {
                assert(!crate::task::spec_context_ok(items@[k as int]@));
                return Err(e);
            },
        }
        k += 1;
    }
    Ok(cs)
}

/// The task cache after `actor` made `edit` to the task at index `i` at
/// `now`: the task is replaced by the edited one, with `actor` recorded
/// as its author, and marked dirty.
pub open spec fn tool_edited(old: TaskCache, new: TaskCache, id: u128, actor: Seq<char>, edit: TaskEdit, now: Timestamp) -> bool {
    let i = key_index(old.spec_entries(), id)->Some_0;
    let old_task = old.spec_entries()[i].1;
    &&& exists|t: Task, mid: Task|
        #![trigger spec_edited(old_task, mid, edit, now), t.spec_info()]
        spec_edited(old_task, mid, edit, now) && t.spec_authors() == spec_add_author(
            mid.spec_authors(),
            actor,
            now.whole_second(),
        ) && t.spec_info() == mid.spec_info() && t.spec_details() == mid.spec_details() && new.spec_entries()
            == old.spec_entries().update(i, (id, t))
    &&& new.spec_dirty() == spec_mark(old.spec_dirty(), id)
}

/// Runs a task tool that edits task `id` at `now` for the caller's actor
/// string (or its refusal, for a read-only client): a read-only client is
/// refused and nothing changes; an unknown task is reported; otherwise the
/// edit is made, recorded and the tool's `success` text returned.
pub fn run_edit_tool(
    cache: &mut TaskCache,
    id: u128,
    actor: Result<String, String>,
    edit: TaskEdit,
    success: &'static str,
    now: Timestamp,
) -> (r: Result<ToolReply, ToolError>)
    requires
        old(cache).wf(),
        edit.wf(),
        now.wf(),
    ensures
        final(cache).wf(),
        final(cache).spec_dir() == old(cache).spec_dir(),
        match actor {
            Err(m) => (r matches Err(ToolError::InvalidRequest(e)) && e@ == m@) && final(cache).spec_entries()
                == old(cache).spec_entries() && final(cache).spec_dirty() == old(cache).spec_dirty(),
            Ok(a) => match key_index(old(cache).spec_entries(), id) {
                None => (r matches Ok(ToolReply::NotFound(m)) && m@ == spec_not_found(id)) && final(cache).spec_entries()
                    == old(cache).spec_entries() && final(cache).spec_dirty() == old(cache).spec_dirty(),
                Some(_) => r == Ok::<ToolReply, ToolError>(ToolReply::Success(success)) && tool_edited(
                    *old(cache),
                    *final(cache),
                    id,
                    a@,
                    edit,
                    now,
                ),
            },
        },
{
    let a = match actor {
        Err(m) => return Err(ToolError::InvalidRequest(m)),
        Ok(a) => a,
    };
    if cache.modify_at(id, a.as_str(), edit, now) {
        Ok(ToolReply::Success(success))
    } else {
        Ok(ToolReply::NotFound(not_found_message(id)))
    }
}

/// The assignee a `set_assignee` call asks for: none where it gives no
/// name or an empty one, else the name.
pub open spec fn spec_assignee_arg(name: Option<Seq<char>>) -> Option<Seq<char>> {
    match name {
        Some(n) => if n.len() == 0 { None } else { Some(n) },
        None => None,
    }
}

/// The edit of the `set_assignee` tool: set the assignee to `name`, or
/// clear it where no name (or an empty one) is given.
pub fn assignee_edit(name: Option<&str>) -> (e: TaskEdit)
    ensures
        e matches TaskEdit::SetAssignee(a) && crate::task::opt_text(a) == spec_assignee_arg(
            match name {
                Some(n) => Some(n@),
                None => None,
            },
        ),
{
    match name {
        Some(n) => {
            if n.unicode_len() == 0 {
                TaskEdit::SetAssignee(None)
            } else {
                TaskEdit::SetAssignee(Some(String::from_str(n)))
            }
        },
        None => TaskEdit::SetAssignee(None),
    }
}

/// The input of the `add` tool, checked: the summary, then the category,
/// then each context must parse.
pub open spec fn add_input_error(summary: Seq<char>, category: Seq<char>, contexts: Seq<String>) -> bool {
    ||| summary.len() == 0
    ||| category.len() == 0
    ||| exists|i: int| 0 <= i < contexts.len() && !crate::task::spec_context_ok(#[trigger] contexts[i]@)
}

/// Runs the `add` tool at `now`: checks the input, then the caller's actor
/// string, then adds the new task with its category, contexts and details.
pub fn run_add_tool(
    cache: &mut TaskCache,
    summary: &str,
    category: &str,
    contexts: &Vec<String>,
    details: Option<Details>,
    actor: Result<String, String>,
    now: Timestamp,
) -> (r: Result<ToolReply, ToolError>)
    requires
        old(cache).wf(),
        now.wf(),
        match details {
            Some(d) => d.wf(),
            None => true,
        },
    ensures
        final(cache).wf(),
        final(cache).spec_dir() == old(cache).spec_dir(),
        add_input_error(summary@, category@, contexts@) ==> {
            &&& r matches Err(ToolError::InvalidParams(_))
            &&& final(cache).spec_entries() == old(cache).spec_entries()
            &&& final(cache).spec_dirty() == old(cache).spec_dirty()
        },
        !add_input_error(summary@, category@, contexts@) && actor is Err ==> {
            &&& r matches Err(ToolError::InvalidRequest(e)) && e@ == actor->Err_0@
            &&& final(cache).spec_entries() == old(cache).spec_entries()
            &&& final(cache).spec_dirty() == old(cache).spec_dirty()
        },
        !add_input_error(summary@, category@, contexts@) && actor is Ok ==> {
            &&& r matches Ok(ToolReply::Added(id))
            &&& crate::ids::spec_uuid_version(r->Ok_0->Added_0) == 7
            &&& final(cache).spec_dirty() == spec_mark(old(cache).spec_dirty(), r->Ok_0->Added_0)
            &&& key_index(final(cache).spec_entries(), r->Ok_0->Added_0) matches Some(i)
            &&& final(cache).spec_entries()[i].1.spec_info().spec_summary() == summary@
            &&& final(cache).spec_entries()[i].1.spec_info().spec_category() == category@
            &&& !final(cache).spec_entries()[i].1.spec_info().spec_is_done()
            &&& final(cache).spec_entries()[i].1.spec_info().spec_status() == (crate::task::Status::ToDo {
                since: now.whole_second(),
            })
            &&& final(cache).spec_entries()[i].1.spec_info().spec_priority() is None
            &&& final(cache).spec_entries() == crate::cache::spec_put(
                old(cache).spec_entries(),
                r->Ok_0->Added_0,
                final(cache).spec_entries()[i].1,
            )
            &&& final(cache).spec_entries()[i].1.spec_authors() == seq![(actor->Ok_0@, seq![now])]
            &&& match details {
                Some(d) => final(cache).spec_entries()[i].1.spec_details() == d,
                None => {
                    &&& final(cache).spec_entries()[i].1.spec_details().spec_due_date() is None
                    &&& final(cache).spec_entries()[i].1.spec_details().spec_start_date() is None
                    &&& final(cache).spec_entries()[i].1.spec_details().spec_time_estimate() is None
                    &&& final(cache).spec_entries()[i].1.spec_details().spec_availability() == crate::task::Availability::Anytime
                    &&& final(cache).spec_entries()[i].1.spec_details().spec_notes() is None
                },
            }
            &&& forall|x: Seq<char>|
                #![trigger final(cache).spec_entries()[i].1.spec_info().spec_contexts().contains(x)]
                final(cache).spec_entries()[i].1.spec_info().spec_contexts().contains(x) <==> exists|k: int|
                    0 <= k < contexts@.len() && (#[trigger] contexts@[k])@ == x
            &&& crate::task::names_distinct(final(cache).spec_entries()[i].1.spec_info().spec_contexts())
            &&& crate::task::names_distinct(string_views(contexts@)) ==> final(cache).spec_entries()[i].1.spec_info().spec_contexts()
                == string_views(contexts@)
        },
{
    proof {
        reveal_strlit("summary must not be empty");
    }
    let s = match Summary::parse(summary) {
        Ok(s) => s,
        Err(e) => return Err(ToolError::InvalidParams(String::from_str(e))),
    };
    let c = match Category::parse(category) {
        Ok(c) => c,
        Err(e) => return Err(ToolError::InvalidParams(String::from_str(e))),
    };
    let cs = match parse_contexts(contexts) {
        Ok(cs) => cs,
        Err(e) => return Err(ToolError::InvalidParams(String::from_str(e))),
    };
    proof {
        if add_input_error(summary@, category@, contexts@) {
            let i = choose|i: int| 0 <= i < contexts@.len() && !crate::task::spec_context_ok(#[trigger] contexts@[i]@);
            assert(cs@[i]@ == contexts@[i]@);
        }
    }
    let a = match actor {
        Err(m) => return Err(ToolError::InvalidRequest(m)),
        Ok(a) => a,
    };
    let mut task = Task::new_at(s, now).with_category(c).with_contexts(cs);
    if let Some(d) = details {
        task = task.with_details(d);
    }
    let ghost built = task;
    let id = cache.add_at(task, a.as_str(), now);
    proof {
        let t = choose|t: Task|
            #[trigger] t.spec_authors() == spec_add_author(built.spec_authors(), a@, now) && t.spec_info()
                == built.spec_info() && t.spec_details() == built.spec_details() && final(cache).spec_entries()
                == crate::cache::spec_put(old(cache).spec_entries(), id, t);
        let other: u128 = if id == 0 { 1 } else { 0 };
        crate::laws::law_put_then_get(old(cache).spec_entries(), id, t, other);
        assert(spec_add_author(Seq::empty(), a@, now) =~= seq![(a@, seq![now])]);
        let given = string_views(contexts@);
        assert(crate::task::context_names(cs@) =~= given);
        crate::laws::law_given_contexts_each_once(given);
        assert forall|x: Seq<char>| given.contains(x) <==> exists|k: int| 0 <= k < contexts@.len() && (#[trigger] contexts@[k])@ == x by {
            if given.contains(x) {
                let k = choose|k: int| 0 <= k < given.len() && given[k] == x;
                assert(contexts@[k]@ == x);
            }
            if exists|k: int| 0 <= k < contexts@.len() && (#[trigger] contexts@[k])@ == x {
                let k = choose|k: int| 0 <= k < contexts@.len() && (#[trigger] contexts@[k])@ == x;
                assert(given[k] == x);
            }
        }
    }
    Ok(ToolReply::Added(id))
}


/// The `Host` header value of an allowed origin with the given host and
/// port: `host` or `host:port`; none for an origin without a host.
pub fn host_header(host: Option<&str>, port: Option<u16>) -> (h: Option<String>)
    ensures
        match host {
            Some(x) => h matches Some(v) && v@ == spec_host_port(x@, port),
            None => h is None,
        },
{
    match host {
        Some(x) => Some(host_port(x, port)),
        None => None,
    }
}


/// The texts of a list of strings.
pub open spec fn string_views(v: Seq<String>) -> Seq<Seq<char>> {
    v.map_values(|s: String| s@)
}

/// `serde_json`'s text of a JSON array of the given strings, in order.
pub uninterp spec fn spec_json_strings(items: Seq<Seq<char>>) -> Seq<char>;

/// `serde_json::to_string` of a list of strings: the JSON array of the
/// strings, in order, which it always renders; its exact text (how each
/// string is escaped) is named, not stated.
#[verifier::external_body]
fn json_strings(items: &Vec<String>) -> (s: String)
    ensures
        s@ == spec_json_strings(string_views(items@)),
{
    serde_json::to_string(items).unwrap_or_default()
}

/// The message of a request for a resource that does not exist.
pub open spec fn spec_unknown_resource(uri: Seq<char>) -> Seq<char> {
    "unknown resource: "@ + uri
}

/// What the MCP resource `r` holds for the cache `all` on day `today`, its
/// reports taken over the tasks of `who` (see [`assigned`]); a report whose
/// opener was picked at random is the one built with any of its openers.
pub open spec fn resource_text(r: McpResource, all: Seq<(u128, Task)>, who: WhoView, today: int, text: Seq<char>) -> bool {
    match r {
        McpResource::Categories => exists|names: Seq<Seq<char>>|
            #![trigger spec_json_strings(names)]
            strictly_sorted(names) && (forall|c: Seq<char>| #[trigger] names.contains(c) <==> category_names(all).contains(c))
                && text == spec_json_strings(names),
        McpResource::Contexts => exists|names: Seq<Seq<char>>|
            #![trigger spec_json_strings(names)]
            strictly_sorted(names) && (forall|c: Seq<char>| #[trigger] names.contains(c) <==> context_in_use(all, c))
                && text == spec_json_strings(names),
        McpResource::DailyReport => exists|perm: Seq<usize>, i: int|
            #![trigger upcoming_groups(placed_items(assigned(all, who), today), perm), spec_daily_report_intros()[i]]
            is_sorted_permutation(placed_items(assigned(all, who), today).map_values(|p: PlacedView| placed_key(p)), perm) && 0 <= i
                < spec_daily_report_intros().len() && text == spec_daily_report(
                upcoming_groups(placed_items(assigned(all, who), today), perm),
                spec_daily_report_intros()[i]@,
            ),
        McpResource::Backlog => exists|perm: Seq<usize>, i: int|
            #![trigger permuted(backlog_items(assigned(all, who), today), perm), spec_backlog_intros()[i]]
            is_sorted_permutation(
                backlog_items(assigned(all, who), today).map_values(|b: (u128, crate::task::InfosView)| backlog_key(b)),
                perm,
            ) && 0 <= i < spec_backlog_intros().len() && text == spec_backlog_report(
                permuted(backlog_items(assigned(all, who), today), perm),
                spec_backlog_intros()[i]@,
            ),
        McpResource::QuickWins => exists|perm: Seq<usize>, i: int|
            #![trigger quick_win_groups(estimated_items(assigned(all, who)), perm), spec_quick_wins_intros()[i]]
            is_sorted_permutation(estimated_items(assigned(all, who)).map_values(|x: EstimatedView| quick_win_key(x)), perm) && 0 <= i
                < spec_quick_wins_intros().len() && text == spec_quick_wins_report(
                quick_win_groups(estimated_items(assigned(all, who)), perm),
                spec_quick_wins_intros()[i]@,
            ),
        McpResource::WeeklyReport => text == spec_weekly_report(assigned(all, who), today),
    }
}

/// The resource that `uri` names and whose tasks it is for (see
/// [`spec_resource_of`]).
fn resource_of<'a>(uri: &'a str) -> (r: Option<(McpResource, Option<Option<&'a str>>)>)
    ensures
        match r {
            Some((x, who)) => spec_resource_of(uri@) == Some((x, who_view(who))),
            None => spec_resource_of(uri@) is None,
        },
{
    if let Some(x) = McpResource::from_uri(uri) {
        proof {
            lemma_uri_unique(x);
        }
        return Some((x, None));
    }
    if let Some(w) = assignee_variant(uri, McpResource::DailyReport) {
        Some((McpResource::DailyReport, Some(w)))
    } else if let Some(w) = assignee_variant(uri, McpResource::Backlog) {
        Some((McpResource::Backlog, Some(w)))
    } else if let Some(w) = assignee_variant(uri, McpResource::QuickWins) {
        Some((McpResource::QuickWins, Some(w)))
    } else if let Some(w) = assignee_variant(uri, McpResource::WeeklyReport) {
        Some((McpResource::WeeklyReport, Some(w)))
    } else {
        None
    }
}

/// No two resources share a URI.
proof fn lemma_uri_unique(x: McpResource)
    ensures
        forall|y: McpResource| #[trigger] y.spec_uri() == x.spec_uri() ==> y == x,
{
    reveal_strlit("kid://categories");
    reveal_strlit("kid://contexts");
    reveal_strlit("kid://report/daily");
    reveal_strlit("kid://report/backlog");
    reveal_strlit("kid://report/quick_wins");
    reveal_strlit("kid://report/weekly");
    assert forall|y: McpResource| #[trigger] y.spec_uri() == x.spec_uri() implies y == x by {
        assert(y.spec_uri().len() == x.spec_uri().len());
    }
}

/// Reads the MCP resource named by `uri` for the cache as seen on day
/// `today`: the resource and its text (see [`spec_resource_of`] for the
/// URIs of the per-assignee reports), or the message for an unknown URI.
pub fn read_resource(cache: &TaskCache, uri: &str, today: i32) -> (r: Result<(McpResource, String), String>)
    requires
        cache.wf(),
        today_in_range(today as int),
        open_tasks_placeable(cache.spec_entries()),
    ensures
        match r {
            Ok((res, text)) => spec_resource_of(uri@) matches Some((x, who)) && res == x && resource_text(
                res,
                cache.spec_entries(),
                who,
                today as int,
                text@,
            ),
            Err(m) => spec_resource_of(uri@) is None && m@ == spec_unknown_resource(uri@),
        },
{
    let ghost entries = cache.spec_entries();
    let (res, who) = match resource_of(uri) {
        Some(found) => found,
        None => {
            proof {
                reveal_strlit("unknown resource: ");
            }
            let mut m = String::from_str("unknown resource: ");
            m.append(uri);
            return Err(m);
        },
    };
    let ghost w = who_view(who);
    proof {
        lemma_assigned_from(entries, w);
        let sel = assigned(entries, w);
        assert forall|k: int| 0 <= k < sel.len() implies (#[trigger] sel[k]).1.wf() by {
            assert(entries.contains(sel[k]));
        }
        assert forall|k: int| 0 <= k < sel.len() && !(#[trigger] sel[k]).1.spec_info().spec_is_done() implies placeable(sel[k].1) by {
            assert(entries.contains(sel[k]));
        }
    }
    let text = match res {
        McpResource::Categories => {
            let cs = categories(cache);
            let mut names: Vec<String> = Vec::new();
            let mut k: usize = 0;
            while k < cs.len()
                invariant
                    k <= cs.len(),
                    string_views(names@) == category_views(cs@).take(k as int),
                decreases cs.len() - k,
            {
                let ghost before = names@;
                let name = String::from_str(cs[k].as_str());
                assert(name@ == category_views(cs@)[k as int]);
                names.push(name);
                assert(names@ == before.push(name));
                assert(string_views(names@) =~= category_views(cs@).take(k + 1)) by {
                    assert(string_views(names@) =~= string_views(before).push(name@));
                }
                k += 1;
            }
            assert(category_views(cs@).take(cs.len() as int) =~= category_views(cs@));
            json_strings(&names)
        },
        McpResource::Contexts => {
            let cs = contexts(cache);
            let mut names: Vec<String> = Vec::new();
            let mut k: usize = 0;
            while k < cs.len()
                invariant
                    k <= cs.len(),
                    string_views(names@) == context_views(cs@).take(k as int),
                decreases cs.len() - k,
            {
                let ghost before = names@;
                let name = String::from_str(cs[k].as_str());
                assert(name@ == context_views(cs@)[k as int]);
                names.push(name);
                assert(names@ == before.push(name));
                assert(string_views(names@) =~= context_views(cs@).take(k + 1)) by {
                    assert(string_views(names@) =~= string_views(before).push(name@));
                }
                k += 1;
            }
            assert(context_views(cs@).take(cs.len() as int) =~= context_views(cs@));
            json_strings(&names)
        },
        McpResource::DailyReport => {
            let (groups, _backlog) = group_upcoming_for(cache, today, who);
            proof {
                let sel = assigned(entries, w);
                let perm = choose|perm: Seq<usize>|
                    is_sorted_permutation(
                        placed_items(sel, today as int).map_values(|p: PlacedView| placed_key(p)),
                        perm,
                    ) && #[trigger] groups_view(groups@) == upcoming_groups(placed_items(sel, today as int), perm);
                lemma_upcoming_days_in_range(sel, today as int, perm);
            }
            daily_report(&groups)
        },
        McpResource::Backlog => {
            let (_groups, backlog) = group_upcoming_for(cache, today, who);
            let t = backlog_report(&backlog);
            proof {
                let sel = assigned(entries, w);
                let perm = choose|perm: Seq<usize>|
                    is_sorted_permutation(
                        backlog_items(sel, today as int).map_values(|b: (u128, crate::task::InfosView)| backlog_key(b)),
                        perm,
                    ) && #[trigger] pairs_view(backlog@) == permuted(backlog_items(sel, today as int), perm);
                let i = choose|i: int|
                    0 <= i < spec_backlog_intros().len() && t@ == spec_backlog_report(
                        pairs_view(backlog@),
                        (#[trigger] spec_backlog_intros()[i])@,
                    );
                assert(t@ == spec_backlog_report(permuted(backlog_items(sel, today as int), perm), spec_backlog_intros()[i]@));
            }
            t
        },
        McpResource::QuickWins => {
            let groups = group_quick_wins_for(cache, who);
            let t = quick_wins_report(&groups);
            proof {
                let sel = assigned(entries, w);
                let perm = choose|perm: Seq<usize>|
                    is_sorted_permutation(estimated_items(sel).map_values(|x: EstimatedView| quick_win_key(x)), perm)
                        && #[trigger] crate::groups::estimate_groups_view(groups@) == quick_win_groups(estimated_items(sel), perm);
                let i = choose|i: int|
                    0 <= i < spec_quick_wins_intros().len() && t@ == spec_quick_wins_report(
                        crate::groups::estimate_groups_view(groups@),
                        (#[trigger] spec_quick_wins_intros()[i])@,
                    );
                assert(t@ == spec_quick_wins_report(quick_win_groups(estimated_items(sel), perm), spec_quick_wins_intros()[i]@));
            }
            t
        },
        McpResource::WeeklyReport => weekly_report(cache, today, who),
    };
    Ok((res, text))
}


/// The name the MCP endpoint gives itself.
pub fn server_name() -> (s: &'static str)
    ensures
        s@ == "kid-mcp"@,
{
    "kid-mcp"
}

/// What the MCP endpoint tells a client about using it.
pub fn server_instructions() -> (s: &'static str)
    ensures
        s@ == "Family task manager. Every task needs a category and should have at least one context (GTD-style, starting with '@'). Fetch kid://categories and kid://contexts to reuse existing values before inventing new ones."@,
{
    "Family task manager. Every task needs a category and should have at least one context (GTD-style, starting with '@'). Fetch kid://categories and kid://contexts to reuse existing values before inventing new ones."
}

} // verus!
