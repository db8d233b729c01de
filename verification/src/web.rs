//! What the web interface decides: who a change is recorded for, which
//! edit a form sends, what a missing task is answered, what an empty or
//! shortened list says, and what an edited field shows after a save.

use vstd::prelude::*;

use crate::cache::{key_index, TaskCache};
use crate::mcp::{hyphenated, spec_hyphenated, string_views, tool_edited};
use crate::recent::{edit_history, edit_history_of, edits_view};
use crate::task::{Details, TaskEdit};
use crate::present::ViewSlug;
use crate::text::{decimal, spec_decimal, str_eq};
use crate::time::{seconds_between, Timestamp};

verus! {

/// The actor of a web request: the `Remote-User` header set by the
/// authenticating proxy, else the configured fallback user; without
/// either the request is refused.
pub open spec fn spec_web_actor(remote_user: Option<Seq<char>>, fallback: Option<Seq<char>>) -> Result<
    Seq<char>,
    Seq<char>,
> {
    match remote_user {
        Some(u) => Ok(u),
        None => match fallback {
            Some(f) => Ok(f),
            None => Err("no authenticated user"@),
        },
    }
}

/// The actor of a web request; see [`spec_web_actor`].
pub fn web_actor(remote_user: Option<&str>, fallback: Option<&str>) -> (r: Result<String, String>)
    ensures
        match r {
            Ok(a) => spec_web_actor(
                match remote_user {
                    Some(u) => Some(u@),
                    None => None,
                },
                match fallback {
                    Some(f) => Some(f@),
                    None => None,
                },
            ) == Ok::<Seq<char>, Seq<char>>(a@),
            Err(e) => spec_web_actor(
                match remote_user {
                    Some(u) => Some(u@),
                    None => None,
                },
                match fallback {
                    Some(f) => Some(f@),
                    None => None,
                },
            ) == Err::<Seq<char>, Seq<char>>(e@),
        },
{
    proof {
        reveal_strlit("no authenticated user");
    }
    match remote_user {
        Some(u) => Ok(String::from_str(u)),
        None => match fallback {
            Some(f) => Ok(String::from_str(f)),
            None => Err(String::from_str("no authenticated user")),
        },
    }
}

/// `task with <id> does not exist`.
pub open spec fn spec_task_not_exist(id: u128) -> Seq<char> {
    "task with "@ + spec_hyphenated(id) + " does not exist"@
}

pub fn task_not_exist_message(id: u128) -> (s: String)
    ensures
        s@ == spec_task_not_exist(id),
{
    proof {
        reveal_strlit("task with ");
        reveal_strlit(" does not exist");
    }
    let mut s = String::from_str("task with ");
    let h = hyphenated(id);
    s.append(h.as_str());
    s.append(" does not exist");
    s
}

/// The edit the notes field sends: empty notes clear them.
pub fn notes_edit(notes: String) -> (e: TaskEdit)
    ensures
        e == (if notes@.len() == 0 {
            TaskEdit::SetNotes(None)
        } else {
            TaskEdit::SetNotes(Some(notes))
        }),
{
    if notes.as_str().unicode_len() == 0 {
        TaskEdit::SetNotes(None)
    } else {
        TaskEdit::SetNotes(Some(notes))
    }
}

/// The edit the checkbox sends: ticked completes the task, unticked
/// reopens it.
pub fn completion_edit(completed: bool) -> (e: TaskEdit)
    ensures
        e == (if completed {
            TaskEdit::Complete
        } else {
            TaskEdit::Reopen
        }),
{
    if completed {
        TaskEdit::Complete
    } else {
        TaskEdit::Reopen
    }
}

/// Makes the edit of a web form to task `id` at `now` for the request's
/// actor (or its refusal): a refused actor changes nothing and is
/// answered with its message; an unknown task likewise, with
/// [`spec_task_not_exist`]; otherwise the edit is made and recorded.
pub fn run_web_edit(cache: &mut TaskCache, id: u128, actor: Result<String, String>, edit: TaskEdit, now: Timestamp) -> (r:
    Result<(), String>)
    requires
        old(cache).wf(),
        edit.wf(),
        now.wf(),
    ensures
        final(cache).wf(),
        final(cache).spec_dir() == old(cache).spec_dir(),
        match actor {
            Err(m) => (r matches Err(e) && e@ == m@) && final(cache).spec_entries() == old(cache).spec_entries()
                && final(cache).spec_dirty() == old(cache).spec_dirty(),
            Ok(a) => match key_index(old(cache).spec_entries(), id) {
                None => (r matches Err(e) && e@ == spec_task_not_exist(id)) && final(cache).spec_entries() == old(
                    cache,
                ).spec_entries() && final(cache).spec_dirty() == old(cache).spec_dirty(),
                Some(_) => r is Ok && tool_edited(*old(cache), *final(cache), id, a@, edit, now),
            },
        },
{
    let a = match actor {
        Err(m) => return Err(m),
        Ok(a) => a,
    };
    if cache.modify_at(id, a.as_str(), edit, now) {
        Ok(())
    } else {
        Err(task_not_exist_message(id))
    }
}

/// The details of task `id` and its edit history, latest edit first, or
/// [`spec_task_not_exist`] for an unknown task.
pub fn task_details(cache: &TaskCache, id: u128) -> (r: Result<(u128, Details, Vec<(String, Timestamp)>), String>)
    requires
        cache.wf(),
    ensures
        match cache.spec_get(id) {
            Some(t) => r matches Ok((i, d, h)) && i == id && d.same_as(&t.spec_details()) && edits_view(h@)
                == edit_history(t.spec_authors()),
            None => r matches Err(e) && e@ == spec_task_not_exist(id),
        },
{
    match cache.get(id) {
        Some(t) => {
            proof {
                let i = key_index(cache.spec_entries(), id)->Some_0;
                assert(cache.spec_entries()[i].1.wf());
            }
            let d = t.details().clone();
            let h = edit_history_of(t);
            Ok((id, d, h))
        },
        None => Err(task_not_exist_message(id)),
    }
}

// ------------------------------------------------------------ list texts

/// What an empty task list says: the view's empty message, and for the
/// Upcoming view with tasks in the backlog also how many there are.
pub open spec fn spec_empty_list_text(view: ViewSlug, backlog: nat) -> Seq<char> {
    let m = view.spec_empty_message();
    if view == ViewSlug::Upcoming && backlog > 0 {
        m + " "@ + spec_decimal(backlog) + " tasks in backlog."@
    } else {
        m
    }
}

/// The text of an empty task list of `view`; see [`spec_empty_list_text`].
pub fn empty_list_text(view: ViewSlug, backlog: u64) -> (s: String)
    ensures
        s@ == spec_empty_list_text(view, backlog as nat),
{
    proof {
        reveal_strlit(" ");
        reveal_strlit(" tasks in backlog.");
    }
    let mut s = String::from_str(view.empty_message());
    let upcoming = match view {
        ViewSlug::Upcoming => true,
        _ => false,
    };
    if upcoming && backlog > 0 {
        s.append(" ");
        let n = decimal(backlog);
        s.append(n.as_str());
        s.append(" tasks in backlog.");
    }
    s
}

/// The line under the Upcoming groups that counts the tasks in the
/// backlog, where there are any.
pub fn backlog_footer(backlog: u64) -> (s: Option<String>)
    ensures
        match s {
            Some(t) => backlog > 0 && t@ == "── "@ + spec_decimal(backlog as nat) + " tasks without deadline in backlog ──"@,
            None => backlog == 0,
        },
{
    proof {
        reveal_strlit("── ");
        reveal_strlit(" tasks without deadline in backlog ──");
    }
    if backlog == 0 {
        return None;
    }
    let mut s = String::from_str("── ");
    let n = decimal(backlog);
    s.append(n.as_str());
    s.append(" tasks without deadline in backlog ──");
    Some(s)
}

/// Whether the task details show when the status last changed: only where
/// that lies at least two minutes away from the creation, either way.
pub open spec fn spec_show_since(since: Timestamp, created: Timestamp) -> bool {
    let d = since.instant() - created.instant();
    d >= 120 * crate::time::NANOS_PER_SEC || -d >= 120 * crate::time::NANOS_PER_SEC
}

/// Whether the task details show the time of the last status change next
/// to the creation time; see [`spec_show_since`].
pub fn show_since(since: Timestamp, created: Timestamp) -> (b: bool)
    requires
        since.wf(),
        created.wf(),
    ensures
        b == spec_show_since(since, created),
{
    let secs = seconds_between(since, created);
    proof {
        let d = since.instant() - created.instant();
        let n = crate::time::NANOS_PER_SEC as int;
        assert(secs == crate::time::trunc_div(d, n));
        if d >= 0 {
            assert(d / n >= 120 <==> d >= 120 * n) by (nonlinear_arith)
                requires n == 1000000000, d >= 0;
        } else {
            assert((-d) / n >= 120 <==> -d >= 120 * n) by (nonlinear_arith)
                requires n == 1000000000, d < 0;
        }
    }
    secs >= 120 || secs <= -120
}

// ------------------------------------------------------------ task rows

/// The expanded task after a click on the row of `id`: a click on the
/// expanded task collapses it, a click on any other expands that one
/// (and so collapses the one before).
pub fn toggle_expanded(current: Option<u128>, id: u128) -> (r: Option<u128>)
    ensures
        r == (if current == Some(id) { None } else { Some(id) }),
{
    match current {
        Some(c) => {
            if c == id {
                None
            } else {
                Some(id)
            }
        },
        None => Some(id),
    }
}

/// Whether the row of `id` shows expanded: it is the expanded task, or
/// the task the view expands on its own.
pub fn is_expanded(expanded: Option<u128>, auto_expanded: Option<u128>, id: u128) -> (b: bool)
    ensures
        b == (expanded == Some(id) || auto_expanded == Some(id)),
{
    let a = match expanded {
        Some(e) => e == id,
        None => false,
    };
    let b = match auto_expanded {
        Some(e) => e == id,
        None => false,
    };
    a || b
}

/// What a completion checkbox shows once the server answered: the state
/// asked for where the change was saved, the state before it otherwise.
pub fn checkbox_after_save(requested: bool, saved: bool) -> (checked: bool)
    ensures
        checked == (if saved { requested } else { !requested }),
{
    if saved {
        requested
    } else {
        !requested
    }
}

// ------------------------------------------------------ fields being edited

/// The text of a field of the task details while it is edited: what the
/// field shows, and the value the server last accepted.
pub struct SavedText {
    pub shown: String,
    pub last_saved: String,
}

impl SavedText {
    /// A field showing the value the server holds.
    pub fn new(value: &str) -> (f: SavedText)
        ensures
            f.shown@ == value@,
            f.last_saved@ == value@,
    {
        SavedText { shown: String::from_str(value), last_saved: String::from_str(value) }
    }

    /// The user typed: the field shows `value`.
    pub fn input(&mut self, value: String)
        ensures
            final(self).shown@ == value@,
            final(self).last_saved@ == old(self).last_saved@,
    {
        self.shown = value;
    }

    /// The value to send when the field is left or confirmed: what it
    /// shows, unless that is what the server already holds.
    pub fn to_send(&self) -> (v: Option<String>)
        ensures
            match v {
                Some(t) => t@ == self.shown@ && self.shown@ != self.last_saved@,
                None => self.shown@ == self.last_saved@,
            },
    {
        if str_eq(self.shown.as_str(), self.last_saved.as_str()) {
            None
        } else {
            Some(String::from_str(self.shown.as_str()))
        }
    }

    /// The server accepted `value`: it is the value to fall back on.
    pub fn saved(&mut self, value: String)
        ensures
            final(self).last_saved@ == value@,
            final(self).shown@ == old(self).shown@,
    {
        self.last_saved = value;
    }

    /// The edit was cancelled, or the server refused it: the field shows
    /// the value last accepted again.
    pub fn revert(&mut self)
        ensures
            final(self).shown@ == old(self).last_saved@,
            final(self).last_saved@ == old(self).last_saved@,
    {
        self.shown = String::from_str(self.last_saved.as_str());
    }
}

/// Whether `s` is one of `v`.
fn contains_text(v: &Vec<String>, s: &str) -> (b: bool)
    ensures
        b == string_views(v@).contains(s@),
{
    let mut i: usize = 0;
    while i < v.len()
        invariant
            i <= v.len(),
            forall|k: int| 0 <= k < i ==> v@[k]@ != s@,
        decreases v.len() - i,
    {
        if str_eq(v[i].as_str(), s) {
            assert(string_views(v@)[i as int] == s@);
            return true;
        }
        i += 1;
    }
    proof {
        if string_views(v@).contains(s@) {
            let k = choose|k: int| 0 <= k < string_views(v@).len() && string_views(v@)[k] == s@;
            assert(v@[k]@ == s@);
        }
    }
    false
}

/// The items of `a` that `b` lacks, in the order of `a`.
pub open spec fn texts_missing(a: Seq<Seq<char>>, b: Seq<Seq<char>>) -> Seq<Seq<char>>
    decreases a.len(),
{
    if a.len() == 0 {
        Seq::empty()
    } else {
        let prev = texts_missing(a.drop_last(), b);
        if b.contains(a.last()) {
            prev
        } else {
            prev.push(a.last())
        }
    }
}

/// The contexts a failed save of `new` over `last_saved` could not add,
/// then those it could not remove: the contexts the field shows again as
/// added and as removed after it falls back to `last_saved`.
pub fn contexts_not_saved(new: &Vec<String>, last_saved: &Vec<String>) -> (r: (Vec<String>, Vec<String>))
    ensures
        string_views(r.0@) == texts_missing(string_views(new@), string_views(last_saved@)),
        string_views(r.1@) == texts_missing(string_views(last_saved@), string_views(new@)),
{
    let added = missing_from(new, last_saved);
    let removed = missing_from(last_saved, new);
    (added, removed)
}

/// The items of `a` that `b` lacks, in order.
fn missing_from(a: &Vec<String>, b: &Vec<String>) -> (r: Vec<String>)
    ensures
        string_views(r@) == texts_missing(string_views(a@), string_views(b@)),
{
    let ghost bv = string_views(b@);
    let mut r: Vec<String> = Vec::new();
    let mut i: usize = 0;
    while i < a.len()
        invariant
            i <= a.len(),
            bv == string_views(b@),
            string_views(r@) == texts_missing(string_views(a@).take(i as int), bv),
        decreases a.len() - i,
    {
        let ghost before = r@;
        let ghost av = string_views(a@);
        proof {
            assert(av.take(i + 1).drop_last() =~= av.take(i as int));
            assert(av.take(i + 1).last() == a@[i as int]@);
        }
        if !contains_text(b, a[i].as_str()) {
            let c = String::from_str(a[i].as_str());
            r.push(c);
            proof {
                assert(string_views(r@) =~= string_views(before).push(c@));
            }
        }
        i += 1;
    }
    proof {
        assert(string_views(a@).take(a.len() as int) =~= string_views(a@));
    }
    r
}

} // verus!
