//! The task cache: every task by id, in the order they were added, and the
//! ids whose files must be written or deleted on the next flush.

use indexmap::{IndexMap, IndexSet};
use vstd::prelude::*;

use crate::ids::{spec_simple, spec_uuid_parse, spec_uuid_version, uuid_now_v7, uuid_simple, uuid_try_parse, uuid_version};
use crate::task::{spec_add_author, spec_edited, Task, TaskEdit};
use crate::time::Timestamp;

verus! {

#[verifier::external_type_specification]
#[verifier::external_body]
#[verifier::reject_recursive_types(K)]
#[verifier::reject_recursive_types(V)]
#[verifier::reject_recursive_types(S)]
pub struct ExIndexMap<K, V, S>(IndexMap<K, V, S>);

#[verifier::external_type_specification]
#[verifier::external_body]
#[verifier::reject_recursive_types(T)]
#[verifier::reject_recursive_types(S)]
pub struct ExIndexSet<T, S>(IndexSet<T, S>);

/// The entries of the task map, in the map's order.
pub uninterp spec fn task_map_entries(m: IndexMap<u128, Task>) -> Seq<(u128, Task)>;

/// The ids in the id set, in the set's order.
pub uninterp spec fn id_set_elems(s: IndexSet<u128>) -> Seq<u128>;

/// Position of `id` among the keys, if present.
pub open spec fn key_index(entries: Seq<(u128, Task)>, id: u128) -> Option<int> {
    if exists|i: int| 0 <= i < entries.len() && entries[i].0 == id {
        Some(choose|i: int| 0 <= i < entries.len() && entries[i].0 == id)
    } else {
        None
    }
}

pub open spec fn keys_distinct(entries: Seq<(u128, Task)>) -> bool {
    forall|i: int, j: int| 0 <= i < j < entries.len() ==> entries[i].0 != entries[j].0
}

pub open spec fn elems_distinct(ids: Seq<u128>) -> bool {
    forall|i: int, j: int| 0 <= i < j < ids.len() ==> ids[i] != ids[j]
}

/// `IndexMap::new`.
#[verifier::external_body]
fn map_new() -> (m: IndexMap<u128, Task>)
    ensures
        task_map_entries(m) == Seq::<(u128, Task)>::empty(),
{
    IndexMap::new()
}

/// `IndexMap::len`.
#[verifier::external_body]
fn map_len(m: &IndexMap<u128, Task>) -> (n: usize)
    ensures
        n == task_map_entries(*m).len(),
{
    m.len()
}

/// `IndexMap::get_index`: the entry at a position.
#[verifier::external_body]
fn map_get_index(m: &IndexMap<u128, Task>, i: usize) -> (e: Option<(u128, &Task)>)
    ensures
        i < task_map_entries(*m).len() ==> e == Some((task_map_entries(*m)[i as int].0, &task_map_entries(*m)[i as int].1)),
        i >= task_map_entries(*m).len() ==> e is None,
{
    match m.get_index(i) {
        Some((k, v)) => Some((*k, v)),
        None => None,
    }
}

/// `IndexMap::get_index_of`: the position of a key.
#[verifier::external_body]
fn map_get_index_of(m: &IndexMap<u128, Task>, id: u128) -> (i: Option<usize>)
    ensures
        match i {
            Some(i) => i < task_map_entries(*m).len() && task_map_entries(*m)[i as int].0 == id,
            None => forall|k: int| 0 <= k < task_map_entries(*m).len() ==> task_map_entries(*m)[k].0 != id,
        },
{
    m.get_index_of(&id)
}

/// `IndexMap::insert`: replaces the value of a present key in place, or
/// appends a new entry.
#[verifier::external_body]
fn map_insert(m: &mut IndexMap<u128, Task>, id: u128, task: Task) -> (r: Option<Task>)
    ensures
        match key_index(task_map_entries(*old(m)), id) {
            Some(i) => task_map_entries(*final(m)) == task_map_entries(*old(m)).update(i, (id, task))
                && r == Some(task_map_entries(*old(m))[i].1),
            None => task_map_entries(*final(m)) == task_map_entries(*old(m)).push((id, task)) && r is None,
        },
{
    m.insert(id, task)
}

/// `IndexMap::shift_remove_full`: removes a key's entry, keeping the order
/// of the others, and returns its position, key and value.
#[verifier::external_body]
fn map_shift_remove_full(m: &mut IndexMap<u128, Task>, id: u128) -> (r: Option<(usize, u128, Task)>)
    ensures
        match key_index(task_map_entries(*old(m)), id) {
            Some(i) => task_map_entries(*final(m)) == task_map_entries(*old(m)).remove(i)
                && r is Some && r->Some_0.0 == i && r->Some_0.1 == id && r->Some_0.2 == task_map_entries(*old(m))[i].1,
            None => task_map_entries(*final(m)) == task_map_entries(*old(m)) && r is None,
        },
{
    m.shift_remove_full(&id)
}

/// `IndexMap::shift_insert` of a key that is not present: inserts the
/// entry at the position.
#[verifier::external_body]
fn map_shift_insert(m: &mut IndexMap<u128, Task>, index: usize, id: u128, task: Task)
    requires
        index <= task_map_entries(*old(m)).len(),
        key_index(task_map_entries(*old(m)), id) is None,
    ensures
        task_map_entries(*final(m)) == task_map_entries(*old(m)).insert(index as int, (id, task)),
{
    m.shift_insert(index, id, task);
}

/// `IndexSet::new`.
#[verifier::external_body]
pub(crate) fn set_new() -> (s: IndexSet<u128>)
    ensures
        id_set_elems(s) == Seq::<u128>::empty(),
{
    IndexSet::new()
}

/// `IndexSet::insert`: appends the id unless present.
#[verifier::external_body]
pub(crate) fn set_insert(s: &mut IndexSet<u128>, id: u128) -> (added: bool)
    ensures
        added == !id_set_elems(*old(s)).contains(id),
        id_set_elems(*final(s)) == if added {
            id_set_elems(*old(s)).push(id)
        } else {
            id_set_elems(*old(s))
        },
{
    s.insert(id)
}

/// `IndexSet::len`.
#[verifier::external_body]
pub(crate) fn set_len(s: &IndexSet<u128>) -> (n: usize)
    ensures
        n == id_set_elems(*s).len(),
{
    s.len()
}

/// `IndexSet::get_index`.
#[verifier::external_body]
fn set_get_index(s: &IndexSet<u128>, i: usize) -> (id: Option<u128>)
    ensures
        i < id_set_elems(*s).len() ==> id == Some(id_set_elems(*s)[i as int]),
        i >= id_set_elems(*s).len() ==> id is None,
{
    s.get_index(i).copied()
}

/// `IndexSet::contains`.
#[verifier::external_body]
pub(crate) fn set_contains(s: &IndexSet<u128>, id: u128) -> (b: bool)
    ensures
        b == id_set_elems(*s).contains(id),
{
    s.contains(&id)
}

/// `IndexSet::clear`.
#[verifier::external_body]
fn set_clear(s: &mut IndexSet<u128>)
    ensures
        id_set_elems(*final(s)) == Seq::<u128>::empty(),
{
    s.clear()
}

/// `IndexSet::swap_remove`: removes a present id by moving the last id
/// into its place.
#[verifier::external_body]
fn set_swap_remove(s: &mut IndexSet<u128>, id: u128) -> (removed: bool)
    ensures
        removed == id_set_elems(*old(s)).contains(id),
        !removed ==> id_set_elems(*final(s)) == id_set_elems(*old(s)),
        removed ==> {
            let e = id_set_elems(*old(s));
            let i = e.index_of(id);
            id_set_elems(*final(s)) == if i == e.len() - 1 {
                e.drop_last()
            } else {
                e.update(i, e.last()).drop_last()
            }
        },
{
    s.swap_remove(&id)
}

/// What the cache holds: tasks by id in insertion order, and the ids whose
/// files are out of date.
#[derive(Debug)]
pub struct TaskCache {
    dir: String,
    tasks: IndexMap<u128, Task>,
    dirty: IndexSet<u128>,
}

/// The entries after putting `task` under `id`: in place when the id is
/// present, appended otherwise.
pub open spec fn spec_put(entries: Seq<(u128, Task)>, id: u128, task: Task) -> Seq<(u128, Task)> {
    match key_index(entries, id) {
        Some(i) => entries.update(i, (id, task)),
        None => entries.push((id, task)),
    }
}

/// The ids after marking `id` dirty.
pub open spec fn spec_mark(ids: Seq<u128>, id: u128) -> Seq<u128> {
    if ids.contains(id) {
        ids
    } else {
        ids.push(id)
    }
}

/// The text of the file name of a task: `task-<32 hex digits>.json`.
pub open spec fn spec_file_name(id: u128) -> Seq<char> {
    "task-"@ + spec_simple(id) + ".json"@
}

/// `name` appended to the directory path `dir`, with a '/' between them
/// unless `dir` is empty or already ends in '/'.
pub open spec fn spec_join(dir: Seq<char>, name: Seq<char>) -> Seq<char> {
    if dir.len() == 0 {
        name
    } else if dir.last() == '/' {
        dir + name
    } else {
        dir + "/"@ + name
    }
}

/// The id named by a file-name prefix `task-<uuid>`, if it is a version 7
/// UUID.
pub open spec fn spec_task_file_id(prefix: Seq<char>) -> Option<u128> {
    if prefix.len() >= 5 && prefix.take(5) == "task-"@ {
        match spec_uuid_parse(prefix.skip(5)) {
            Some(id) => if spec_uuid_version(id) == 7 {
                Some(id)
            } else {
                None
            },
            None => None,
        }
    } else {
        None
    }
}

/// One file operation of a flush.
#[derive(Debug)]
pub enum FlushOp<'a> {
    /// Write the task to its file.
    Write(u128, &'a Task),
    /// Delete the file of a task that is gone.
    Delete(u128),
}

/// Outcome of a flush that failed for some tasks.
#[derive(Debug)]
pub struct FlushErrors {
    failed: usize,
    all: usize,
}

impl FlushErrors {
    pub closed spec fn spec_failed(&self) -> nat {
        self.failed as nat
    }

    pub closed spec fn spec_all(&self) -> nat {
        self.all as nat
    }

    /// How many tasks could not be flushed.
    pub fn failed(&self) -> (n: usize)
        ensures
            n == self.spec_failed(),
    {
        self.failed
    }

    /// How many tasks were to be flushed.
    pub fn all(&self) -> (n: usize)
        ensures
            n == self.spec_all(),
    {
        self.all
    }
}

impl TaskCache {
    pub closed spec fn spec_entries(&self) -> Seq<(u128, Task)> {
        task_map_entries(self.tasks)
    }

    pub closed spec fn spec_dirty(&self) -> Seq<u128> {
        id_set_elems(self.dirty)
    }

    pub closed spec fn spec_dir(&self) -> Seq<char> {
        self.dir@
    }

    /// Ids are unique, marks are unique, and every task is well-formed.
    pub open spec fn wf(&self) -> bool {
        &&& keys_distinct(self.spec_entries())
        &&& elems_distinct(self.spec_dirty())
        &&& forall|i: int| 0 <= i < self.spec_entries().len() ==> (#[trigger] self.spec_entries()[i]).1.wf()
    }

    /// The task stored under `id`, if any.
    pub open spec fn spec_get(&self, id: u128) -> Option<Task> {
        match key_index(self.spec_entries(), id) {
            Some(i) => Some(self.spec_entries()[i].1),
            None => None,
        }
    }

    /// An empty cache for the task files in `dir`.
    pub fn with_dir(dir: String) -> (c: TaskCache)
        ensures
            c.wf(),
            c.spec_entries() == Seq::<(u128, Task)>::empty(),
            c.spec_dirty() == Seq::<u128>::empty(),
            c.spec_dir() == dir@,
    {
        TaskCache { dir, tasks: map_new(), dirty: set_new() }
    }

    pub fn dir(&self) -> (d: &str)
        ensures
            d@ == self.spec_dir(),
    {
        self.dir.as_str()
    }

    /// Empties the cache and points it at another directory.
    pub fn reset(&mut self, dir: String)
        ensures
            final(self).wf(),
            final(self).spec_entries() == Seq::<(u128, Task)>::empty(),
            final(self).spec_dirty() == Seq::<u128>::empty(),
            final(self).spec_dir() == dir@,
    {
        self.dir = dir;
        self.tasks = map_new();
        self.dirty = set_new();
    }

    /// Number of tasks.
    pub fn len(&self) -> (n: usize)
        ensures
            n == self.spec_entries().len(),
    {
        map_len(&self.tasks)
    }

    /// The id and task at a position of the insertion order.
    pub fn entry_at(&self, i: usize) -> (e: (u128, &Task))
        requires
            i < self.spec_entries().len(),
        ensures
            e.0 == self.spec_entries()[i as int].0,
            *e.1 == self.spec_entries()[i as int].1,
    {
        match map_get_index(&self.tasks, i) {
            Some(e) => e,
            None => vstd::pervasive::unreached(),
        }
    }

    /// The task stored under `id`.
    pub fn get(&self, id: u128) -> (t: Option<&Task>)
        requires
            self.wf(),
        ensures
            match t {
                Some(t) => self.spec_get(id) == Some(*t),
                None => self.spec_get(id) is None,
            },
    {
        match map_get_index_of(&self.tasks, id) {
            Some(i) => {
                proof {
                    let j = choose|j: int| 0 <= j < self.spec_entries().len() && self.spec_entries()[j].0 == id;
                    assert(j == i);
                }
                Some(self.entry_at(i).1)
            },
            None => None,
        }
    }

    /// The ids whose files are out of date, in the order they were marked.
    pub fn dirty_len(&self) -> (n: usize)
        ensures
            n == self.spec_dirty().len(),
    {
        set_len(&self.dirty)
    }

    pub fn dirty_at(&self, i: usize) -> (id: u128)
        requires
            i < self.spec_dirty().len(),
        ensures
            id == self.spec_dirty()[i as int],
    {
        match set_get_index(&self.dirty, i) {
            Some(id) => id,
            None => vstd::pervasive::unreached(),
        }
    }

    /// Whether the file of `id` is out of date.
    pub fn is_dirty(&self, id: u128) -> (b: bool)
        ensures
            b == self.spec_dirty().contains(id),
    {
        set_contains(&self.dirty, id)
    }

    fn mark(&mut self, id: u128)
        requires
            old(self).wf(),
        ensures
            final(self).wf(),
            final(self).spec_dirty() == spec_mark(old(self).spec_dirty(), id),
            final(self).spec_entries() == old(self).spec_entries(),
            final(self).spec_dir() == old(self).spec_dir(),
    {
        set_insert(&mut self.dirty, id);
    }

    fn put(&mut self, id: u128, task: Task)
        requires
            old(self).wf(),
            task.wf(),
        ensures
            final(self).wf(),
            final(self).spec_entries() == spec_put(old(self).spec_entries(), id, task),
            final(self).spec_dirty() == old(self).spec_dirty(),
            final(self).spec_dir() == old(self).spec_dir(),
    {
        let ghost e = self.spec_entries();
        map_insert(&mut self.tasks, id, task);
        proof {
            match key_index(e, id) {
                Some(i) => {
                    assert forall|a: int, b: int| 0 <= a < b < self.spec_entries().len() implies self.spec_entries()[a].0
                        != self.spec_entries()[b].0 by {
                        assert(self.spec_entries()[a].0 == e[a].0);
                        assert(self.spec_entries()[b].0 == e[b].0);
                    }
                },
                None => {},
            }
        }
    }

    /// Adds a task under a new version 7 id, with `actor` recorded as its
    /// author at `now`, and marks it dirty.
    pub fn add_at(&mut self, task: Task, actor: &str, now: Timestamp) -> (id: u128)
        requires
            old(self).wf(),
            task.wf(),
            now.wf(),
        ensures
            final(self).wf(),
            spec_uuid_version(id) == 7,
            exists|t: Task|
                #[trigger] t.spec_authors() == spec_add_author(task.spec_authors(), actor@, now) && t.spec_info()
                    == task.spec_info() && t.spec_details() == task.spec_details()
                    && final(self).spec_entries() == spec_put(old(self).spec_entries(), id, t),
            final(self).spec_dirty() == spec_mark(old(self).spec_dirty(), id),
            final(self).spec_dir() == old(self).spec_dir(),
    {
        let mut task = task;
        task.add_author_at(actor, now);
        let id = uuid_now_v7();
        self.mark(id);
        self.put(id, task);
        id
    }

    /// Adds a task under a new version 7 id, with `actor` recorded as its
    /// author now (to the second), and marks it dirty.
    pub fn add(&mut self, task: Task, actor: &str) -> (id: u128)
        requires
            old(self).wf(),
            task.wf(),
        ensures
            final(self).wf(),
            spec_uuid_version(id) == 7,
            exists|now: Timestamp, t: Task|
                #![trigger spec_add_author(task.spec_authors(), actor@, now), t.spec_info()]
                now.wf() && now.nanos == 0 && t.spec_authors() == spec_add_author(task.spec_authors(), actor@, now)
                    && t.spec_info() == task.spec_info() && t.spec_details() == task.spec_details()
                    && final(self).spec_entries() == spec_put(old(self).spec_entries(), id, t),
            final(self).spec_dirty() == spec_mark(old(self).spec_dirty(), id),
            final(self).spec_dir() == old(self).spec_dir(),
    {
        let now = crate::time::utc_now().whole_second();
        self.add_at(task, actor, now)
    }

    /// Adds (or replaces) a task under a given id, with `actor` recorded as
    /// its author at `now`, and marks it dirty.
    pub fn add_with_id_at(&mut self, id: u128, task: Task, actor: &str, now: Timestamp)
        requires
            old(self).wf(),
            task.wf(),
            now.wf(),
        ensures
            final(self).wf(),
            exists|t: Task|
                #[trigger] t.spec_authors() == spec_add_author(task.spec_authors(), actor@, now) && t.spec_info()
                    == task.spec_info() && t.spec_details() == task.spec_details()
                    && final(self).spec_entries() == spec_put(old(self).spec_entries(), id, t),
            final(self).spec_dirty() == spec_mark(old(self).spec_dirty(), id),
            final(self).spec_dir() == old(self).spec_dir(),
    {
        let mut task = task;
        task.add_author_at(actor, now);
        self.mark(id);
        self.put(id, task);
    }

    /// Stores a task read from its file; a task in an outdated format is
    /// marked dirty so that the next flush rewrites it.
    pub fn insert_loaded(&mut self, id: u128, task: Task, needs_migration: bool)
        requires
            old(self).wf(),
            task.wf(),
        ensures
            final(self).wf(),
            final(self).spec_entries() == spec_put(old(self).spec_entries(), id, task),
            final(self).spec_dirty() == if needs_migration {
                spec_mark(old(self).spec_dirty(), id)
            } else {
                old(self).spec_dirty()
            },
            final(self).spec_dir() == old(self).spec_dir(),
    {
        if needs_migration {
            self.mark(id);
        }
        self.put(id, task);
    }

    /// Removes the task with a version 7 id and marks the id dirty (so its
    /// file gets deleted); tells whether there was such a task.
    pub fn remove(&mut self, id: u128) -> (removed: bool)
        requires
            old(self).wf(),
            spec_uuid_version(id) == 7,
        ensures
            final(self).wf(),
            removed == (key_index(old(self).spec_entries(), id) is Some),
            final(self).spec_entries() == match key_index(old(self).spec_entries(), id) {
                Some(i) => old(self).spec_entries().remove(i),
                None => old(self).spec_entries(),
            },
            final(self).spec_dirty() == spec_mark(old(self).spec_dirty(), id),
            final(self).spec_dir() == old(self).spec_dir(),
    {
        self.mark(id);
        let ghost e = self.spec_entries();
        let r = map_shift_remove_full(&mut self.tasks, id);
        proof {
            if let Some(i) = key_index(e, id) {
                assert forall|a: int| 0 <= a < self.spec_entries().len() implies #[trigger] self.spec_entries()[a] == e[if a < i { a } else { a + 1 }] by {}
            }
        }
        r.is_some()
    }

    /// Applies an edit that `actor` made at `now` to the task `id`, records
    /// `actor` as its author and marks it dirty; the task keeps its place.
    /// Tells whether there was such a task; without one nothing changes.
    pub fn modify_at(&mut self, id: u128, actor: &str, edit: TaskEdit, now: Timestamp) -> (found: bool)
        requires
            old(self).wf(),
            edit.wf(),
            now.wf(),
        ensures
            final(self).wf(),
            found == (key_index(old(self).spec_entries(), id) is Some),
            found ==> {
                let i = key_index(old(self).spec_entries(), id)->Some_0;
                let old_task = old(self).spec_entries()[i].1;
                exists|t: Task, mid: Task|
                    #![trigger spec_edited(old_task, mid, edit, now), t.spec_info()]
                    spec_edited(old_task, mid, edit, now) && t.spec_authors() == spec_add_author(
                        mid.spec_authors(),
                        actor@,
                        now.whole_second(),
                    ) && t.spec_info() == mid.spec_info() && t.spec_details() == mid.spec_details()
                        && final(self).spec_entries() == old(self).spec_entries().update(i, (id, t))
            },
            found ==> final(self).spec_dirty() == spec_mark(old(self).spec_dirty(), id),
            !found ==> final(self).spec_entries() == old(self).spec_entries(),
            !found ==> final(self).spec_dirty() == old(self).spec_dirty(),
            final(self).spec_dir() == old(self).spec_dir(),
    {
        let ghost e = self.spec_entries();
        let r = map_shift_remove_full(&mut self.tasks, id);
        match r {
            None => false,
            Some((index, key, task)) => {
                let ghost i = key_index(e, id)->Some_0;
                let ghost removed = self.spec_entries();
                assert(removed == e.remove(i));
                assert(key_index(e, id) is Some);
                assert(index == i && key == id);
                assert(task.wf());
                let mut task = task;
                let ghost old_task = task;
                task.apply_edit_at(edit, now);
                let ghost mid = task;
                task.add_author_at(actor, now.whole_second());
                proof {
                    assert(key_index(self.spec_entries(), id) is None) by {
                        if exists|k: int| 0 <= k < self.spec_entries().len() && self.spec_entries()[k].0 == id {
                            let k = choose|k: int| 0 <= k < self.spec_entries().len() && self.spec_entries()[k].0 == id;
                            if k < i {
                                assert(e[k].0 == id);
                            } else {
                                assert(e[k + 1].0 == id);
                            }
                        }
                    }
                }
                map_shift_insert(&mut self.tasks, index, key, task);
                proof {
                    assert(self.spec_entries() == removed.insert(i, (id, task)));
                    assert(self.spec_entries() =~= e.update(i, (id, task)));
                    assert(spec_edited(old_task, mid, edit, now));
                }
                self.mark(id);
                true
            },
        }
    }

    /// Applies an edit that `actor` makes now; see [`TaskCache::modify_at`].
    pub fn modify(&mut self, id: u128, actor: &str, edit: TaskEdit) -> (found: bool)
        requires
            old(self).wf(),
            edit.wf(),
        ensures
            final(self).wf(),
            found == (key_index(old(self).spec_entries(), id) is Some),
            found ==> final(self).spec_dirty() == spec_mark(old(self).spec_dirty(), id),
            found ==> final(self).spec_entries().len() == old(self).spec_entries().len(),
            found ==> exists|now: Timestamp| now.wf() && {
                let i = key_index(old(self).spec_entries(), id)->Some_0;
                let old_task = old(self).spec_entries()[i].1;
                exists|t: Task, mid: Task|
                    #![trigger spec_edited(old_task, mid, edit, now), t.spec_info()]
                    spec_edited(old_task, mid, edit, now) && t.spec_authors() == spec_add_author(
                        mid.spec_authors(),
                        actor@,
                        now.whole_second(),
                    ) && t.spec_info() == mid.spec_info() && t.spec_details() == mid.spec_details()
                        && final(self).spec_entries() == old(self).spec_entries().update(i, (id, t))
            },
            !found ==> final(self).spec_entries() == old(self).spec_entries(),
            !found ==> final(self).spec_dirty() == old(self).spec_dirty(),
            final(self).spec_dir() == old(self).spec_dir(),
    {
        let now = crate::time::utc_now();
        self.modify_at(id, actor, edit, now)
    }
}

/// The ids after `swap_remove` of `id`: the last id moves into its place.
pub open spec fn spec_swap_removed(e: Seq<u128>, id: u128) -> Seq<u128> {
    if !e.contains(id) {
        e
    } else {
        let i = e.index_of(id);
        if i == e.len() - 1 {
            e.drop_last()
        } else {
            e.update(i, e.last()).drop_last()
        }
    }
}

/// The marks after walking `walk` and swap-removing each id that did not
/// fail.
pub open spec fn spec_keep_failed(e: Seq<u128>, walk: Seq<u128>, failed: Set<u128>) -> Seq<u128>
    decreases walk.len(),
{
    if walk.len() == 0 {
        e
    } else {
        let prev = spec_keep_failed(e, walk.drop_last(), failed);
        if failed.contains(walk.last()) {
            prev
        } else {
            spec_swap_removed(prev, walk.last())
        }
    }
}

/// The file operation for a dirty id: write the task when it is there,
/// else delete its file.
pub open spec fn flush_op_matches(op: FlushOp, id: u128, entry: Option<Task>) -> bool {
    match entry {
        Some(t) => op matches FlushOp::Write(i, task) && i == id && *task == t,
        None => op == FlushOp::Delete(id),
    }
}

impl TaskCache {
    /// The file operations of the next flush, one per dirty id in the order
    /// they were marked.
    pub fn flush_plan(&self) -> (ops: Vec<FlushOp<'_>>)
        requires
            self.wf(),
        ensures
            ops.len() == self.spec_dirty().len(),
            forall|i: int|
                0 <= i < ops.len() ==> flush_op_matches(#[trigger] ops@[i], self.spec_dirty()[i], self.spec_get(self.spec_dirty()[i])),
    {
        let n = self.dirty_len();
        let mut ops: Vec<FlushOp<'_>> = Vec::new();
        let mut i: usize = 0;
        while i < n
            invariant
                self.wf(),
                n == self.spec_dirty().len(),
                i <= n,
                ops.len() == i,
                forall|k: int|
                    0 <= k < i ==> flush_op_matches(#[trigger] ops@[k], self.spec_dirty()[k], self.spec_get(self.spec_dirty()[k])),
            decreases n - i,
        {
            let id = self.dirty_at(i);
            match self.get(id) {
                Some(t) => ops.push(FlushOp::Write(id, t)),
                None => ops.push(FlushOp::Delete(id)),
            }
            i += 1;
        }
        ops
    }

    /// Records the outcome of a flush whose operations failed for the ids in
    /// `failed`: with no failure every mark is cleared and the number of
    /// flushed ids returned; otherwise the marks of the ids that were
    /// flushed are swap-removed and the counts reported.
    pub fn finish_flush(&mut self, failed: &Vec<u128>) -> (r: Result<usize, FlushErrors>)
        requires
            old(self).wf(),
        ensures
            final(self).wf(),
            final(self).spec_entries() == old(self).spec_entries(),
            final(self).spec_dir() == old(self).spec_dir(),
            failed@.len() == 0 ==> r == Ok::<usize, FlushErrors>(old(self).spec_dirty().len() as usize)
                && final(self).spec_dirty() == Seq::<u128>::empty(),
            failed@.len() > 0 ==> final(self).spec_dirty() == spec_keep_failed(
                old(self).spec_dirty(),
                old(self).spec_dirty(),
                failed@.to_set(),
            ),
            failed@.len() > 0 ==> (r matches Err(e) && e.spec_failed() == final(self).spec_dirty().len()
                && e.spec_all() == old(self).spec_dirty().len()),
    {
        let num = self.dirty_len();
        if failed.len() == 0 {
            set_clear(&mut self.dirty);
            return Ok(num);
        }
        let ghost walk = self.spec_dirty();
        let mut walked: Vec<u128> = Vec::new();
        let mut k: usize = 0;
        while k < num
            invariant
                walk == old(self).spec_dirty(),
                num == walk.len(),
                k <= num,
                walked@ == walk.take(k as int),
                self.spec_dirty() == walk,
            decreases num - k,
        {
            walked.push(self.dirty_at(k));
            proof {
                assert(walk.take(k + 1) =~= walk.take(k as int).push(walk[k as int]));
            }
            k += 1;
        }
        let mut k: usize = 0;
        while k < num
            invariant
                walk == old(self).spec_dirty(),
                walked@ == walk.take(num as int),
                num == walk.len(),
                k <= num,
                elems_distinct(self.spec_dirty()),
                self.spec_dirty() == spec_keep_failed(walk, walk.take(k as int), failed@.to_set()),
                self.spec_entries() == old(self).spec_entries(),
                self.spec_dir() == old(self).spec_dir(),
                keys_distinct(self.spec_entries()),
                forall|i: int| 0 <= i < self.spec_entries().len() ==> (#[trigger] self.spec_entries()[i]).1.wf(),
            decreases num - k,
        {
            let id = walked[k];
            proof {
                assert(walk.take(k + 1).drop_last() =~= walk.take(k as int));
                assert(walk.take(k + 1).last() == id);
            }
            if !contains_id(failed, id) {
                let ghost before = self.spec_dirty();
                set_swap_remove(&mut self.dirty, id);
                proof {
                    lemma_swap_removed_distinct(before, id);
                }
            }
            k += 1;
        }
        proof {
            assert(walk.take(num as int) =~= walk);
        }
        let left = self.dirty_len();
        Err(FlushErrors { failed: left, all: num })
    }
}

/// Whether `id` is among `ids`.
fn contains_id(ids: &Vec<u128>, id: u128) -> (b: bool)
    ensures
        b == ids@.to_set().contains(id),
{
    let mut i: usize = 0;
    while i < ids.len()
        invariant
            i <= ids.len(),
            forall|k: int| 0 <= k < i ==> ids@[k] != id,
        decreases ids.len() - i,
    {
        if ids[i] == id {
            assert(ids@.contains(id));
            return true;
        }
        i += 1;
    }
    assert(!ids@.contains(id));
    false
}

/// Swap-removing keeps the ids distinct.
proof fn lemma_swap_removed_distinct(e: Seq<u128>, id: u128)
    requires
        elems_distinct(e),
    ensures
        elems_distinct(spec_swap_removed(e, id)),
{
    if e.contains(id) {
        let i = e.index_of(id);
        let r = spec_swap_removed(e, id);
        assert forall|a: int, b: int| 0 <= a < b < r.len() implies r[a] != r[b] by {
            if a == i {
                assert(r[a] == e[e.len() - 1]);
                assert(r[b] == e[b]);
            } else if b == i {
                assert(r[b] == e[e.len() - 1]);
                assert(r[a] == e[a]);
            } else {
                assert(r[a] == e[a] && r[b] == e[b]);
            }
        }
    }
}

/// The file name of a task: `task-<32 hex digits>.json`.
pub fn file_name(id: u128) -> (s: String)
    ensures
        s@ == spec_file_name(id),
{
    proof {
        reveal_strlit("task-");
        reveal_strlit(".json");
    }
    let mut s = String::from_str("task-");
    let simple = uuid_simple(id);
    s.append(simple.as_str());
    s.append(".json");
    s
}

/// The path of the file of task `id` in directory `dir`.
pub fn file_path(dir: &str, id: u128) -> (p: String)
    ensures
        p@ == spec_join(dir@, spec_file_name(id)),
{
    proof {
        reveal_strlit("/");
    }
    let name = file_name(id);
    let n = dir.unicode_len();
    if n == 0 {
        name
    } else if dir.get_char(n - 1) == '/' {
        let mut p = String::from_str(dir);
        p.append(name.as_str());
        p
    } else {
        let mut p = String::from_str(dir);
        p.append("/");
        p.append(name.as_str());
        p
    }
}

/// The id of a task file from the part of its name before the extension:
/// `task-` and a version 7 UUID.
pub fn task_file_id(prefix: &str) -> (id: Option<u128>)
    ensures
        id == spec_task_file_id(prefix@),
{
    proof {
        reveal_strlit("task-");
    }
    let n = prefix.unicode_len();
    if n < 5 {
        return None;
    }
    let head = prefix.substring_char(0, 5);
    if !crate::text::str_eq(head, "task-") {
        assert(prefix@.take(5) =~= head@);
        return None;
    }
    assert(prefix@.take(5) =~= head@);
    let rest = prefix.substring_char(5, n);
    assert(rest@ =~= prefix@.skip(5));
    match uuid_try_parse(rest) {
        Some(id) => if uuid_version(id) == 7 {
            Some(id)
        } else {
            None
        },
        None => None,
    }
}

/// What a JSON text holds under a key: no JSON at all, nothing, a string,
/// an object, or another value.
#[derive(Clone, Copy, Debug, PartialEq, Eq, Structural)]
pub enum JsonKind {
    NotJson,
    Absent,
    Text,
    Object,
    Other,
}

/// What `serde_json` finds under `key` of the JSON text `text`.
pub uninterp spec fn spec_json_field(text: Seq<char>, key: Seq<char>) -> JsonKind;

/// What `serde_json` finds under `inner` of the value under `key` of the
/// JSON text `text`.
pub uninterp spec fn spec_json_inner_field(text: Seq<char>, key: Seq<char>, inner: Seq<char>) -> JsonKind;

/// `serde_json::from_str` into a `serde_json::Value`, then `Value::get`
/// of `key`: the kind of value found, named.
#[verifier::external_body]
fn json_field(text: &str, key: &str) -> (k: JsonKind)
    ensures
        k == spec_json_field(text@, key@),
{
    match serde_json::from_str::<serde_json::Value>(text) {
        Err(_) => JsonKind::NotJson,
        Ok(v) => match v.get(key) {
            None => JsonKind::Absent,
            Some(serde_json::Value::String(_)) => JsonKind::Text,
            Some(serde_json::Value::Object(_)) => JsonKind::Object,
            Some(_) => JsonKind::Other,
        },
    }
}

/// `serde_json::from_str` into a `serde_json::Value`, then `Value::get`
/// of `key` and of `inner` in what it gives: the kind of value found,
/// named.
#[verifier::external_body]
fn json_inner_field(text: &str, key: &str, inner: &str) -> (k: JsonKind)
    ensures
        k == spec_json_inner_field(text@, key@, inner@),
{
    match serde_json::from_str::<serde_json::Value>(text) {
        Err(_) => JsonKind::NotJson,
        Ok(v) => match v.get(key).and_then(|d| d.get(inner)) {
            None => JsonKind::Absent,
            Some(serde_json::Value::String(_)) => JsonKind::Text,
            Some(serde_json::Value::Object(_)) => JsonKind::Object,
            Some(_) => JsonKind::Other,
        },
    }
}

/// A value was found.
pub open spec fn found(k: JsonKind) -> bool {
    k is Text || k is Object || k is Other
}

/// A legacy date field holds a `Precise` or a `Guess` entry.
pub open spec fn spec_legacy_date(text: Seq<char>, key: Seq<char>) -> bool {
    found(spec_json_inner_field(text, key, "Precise"@)) || found(spec_json_inner_field(text, key, "Guess"@))
}

/// A task file is in an older format: it is JSON, and its status is a
/// plain string, or its time estimate an object (`Guess` or `Precise`), or
/// its due or start date a `Precise` or `Guess` entry, or it has the old
/// field `context`.
pub open spec fn spec_legacy_format(text: Seq<char>) -> bool {
    &&& !(spec_json_field(text, "status"@) is NotJson)
    &&& {
        ||| spec_json_field(text, "status"@) is Text
        ||| spec_json_field(text, "time_estimate"@) is Object
        ||| spec_legacy_date(text, "due_date"@)
        ||| spec_legacy_date(text, "start_date"@)
        ||| found(spec_json_field(text, "context"@))
    }
}

fn is_found(k: JsonKind) -> (b: bool)
    ensures
        b == found(k),
{
    match k {
        JsonKind::Text | JsonKind::Object | JsonKind::Other => true,
        _ => false,
    }
}

fn legacy_date(text: &str, key: &str) -> (b: bool)
    ensures
        b == spec_legacy_date(text@, key@),
{
    proof {
        reveal_strlit("Precise");
        reveal_strlit("Guess");
    }
    is_found(json_inner_field(text, key, "Precise")) || is_found(json_inner_field(text, key, "Guess"))
}

/// Whether a task file's text is in an older format and the task must be
/// rewritten; see [`spec_legacy_format`].
pub fn detect_legacy_format(text: &str) -> (b: bool)
    ensures
        b == spec_legacy_format(text@),
{
    let status = json_field(text, "status");
    if let JsonKind::NotJson = status {
        return false;
    }
    let status_is_text = match status {
        JsonKind::Text => true,
        _ => false,
    };
    let estimate_is_object = match json_field(text, "time_estimate") {
        JsonKind::Object => true,
        _ => false,
    };
    status_is_text || estimate_is_object || legacy_date(text, "due_date") || legacy_date(text, "start_date")
        || is_found(json_field(text, "context"))
}

} // verus!
