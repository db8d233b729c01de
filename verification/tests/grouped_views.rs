//! Quick Wins, All Open, What I Finished and Recent Changes of small task
//! caches.

use kid::cache::TaskCache;
use kid::groups::{group_all_open, group_finished, group_quick_wins};
use kid::recent::group_recently_changed;
use kid::task::{Category, Infos, Priority, Summary, Task, TaskEdit, TimeEstimate as Est};
use kid::time::Timestamp;

fn new_cache() -> TaskCache {
    TaskCache::with_dir("tasks".to_string())
}

/// An instant `s` seconds after a fixed morning.
fn at(s: i64) -> Timestamp {
    Timestamp { secs: 1_778_486_400 + s, nanos: 0, offset: 0 }
}

fn task(name: &str) -> Task {
    Task::new(Summary::parse(name).unwrap())
}

// ── Quick Wins ──

fn add_estimated(cache: &mut TaskCache, name: &str, estimate: Est, priority: Option<Priority>) -> u128 {
    let id = cache.add(task(name), "test");
    cache.modify(id, "test", TaskEdit::SetTimeEstimate(Some(estimate)));
    if let Some(p) = priority {
        cache.modify(id, "test", TaskEdit::SetPriority(Some(p)));
    }
    id
}

fn flatten_estimates(groups: &[(Est, Vec<(u128, Infos)>)]) -> Vec<(Est, &str)> {
    groups.iter().flat_map(|(est, tasks)| tasks.iter().map(move |(_, info)| (*est, info.summary()))).collect()
}

#[test]
fn priority_ordering_within_estimate_group() {
    let mut cache = new_cache();
    add_estimated(&mut cache, "low", Est::Min30, Some(Priority::C));
    add_estimated(&mut cache, "high", Est::Min30, Some(Priority::A));
    add_estimated(&mut cache, "medium", Est::Min30, Some(Priority::B));

    let groups = group_quick_wins(&cache);
    assert_eq!(groups.len(), 1);
    let names: Vec<_> = groups[0].1.iter().map(|(_, i)| i.summary()).collect();
    assert_eq!(names, vec!["high", "medium", "low"]);
}

#[test]
fn unprioritized_sorts_after_prioritized() {
    let mut cache = new_cache();
    add_estimated(&mut cache, "no-pri", Est::Min15, None);
    add_estimated(&mut cache, "pri-a", Est::Min15, Some(Priority::A));

    let groups = group_quick_wins(&cache);
    let names: Vec<_> = groups[0].1.iter().map(|(_, i)| i.summary()).collect();
    assert_eq!(names, vec!["pri-a", "no-pri"]);
}

#[test]
fn uuid_tiebreak_for_same_priority() {
    let mut cache = new_cache();
    let first = add_estimated(&mut cache, "first", Est::Hours1, Some(Priority::B));
    let second = add_estimated(&mut cache, "second", Est::Hours1, Some(Priority::B));
    assert!(first < second);

    let groups = group_quick_wins(&cache);
    let names: Vec<_> = groups[0].1.iter().map(|(_, i)| i.summary()).collect();
    assert_eq!(names, vec!["first", "second"]);
}

#[test]
fn groups_ordered_by_estimate_ascending() {
    let mut cache = new_cache();
    add_estimated(&mut cache, "big", Est::Day2, None);
    add_estimated(&mut cache, "tiny", Est::Min15, None);
    add_estimated(&mut cache, "medium", Est::Hours1, None);

    let groups = group_quick_wins(&cache);
    let estimates: Vec<_> = groups.iter().map(|(e, _)| *e).collect();
    assert_eq!(estimates, vec![Est::Min15, Est::Hours1, Est::Day2]);
}

#[test]
fn internal_done_tasks_excluded() {
    let mut cache = new_cache();
    let id = add_estimated(&mut cache, "done", Est::Min30, None);
    cache.modify(id, "test", TaskEdit::Complete);

    let groups = group_quick_wins(&cache);
    assert!(groups.is_empty());
}

#[test]
fn tasks_without_estimate_excluded() {
    let mut cache = new_cache();
    cache.add(task("no-estimate"), "test");

    let groups = group_quick_wins(&cache);
    assert!(groups.is_empty());
}

#[test]
fn mixed_estimates_and_priorities() {
    let mut cache = new_cache();
    add_estimated(&mut cache, "m30-b", Est::Min30, Some(Priority::B));
    add_estimated(&mut cache, "m30-a", Est::Min30, Some(Priority::A));
    add_estimated(&mut cache, "m15", Est::Min15, None);
    add_estimated(&mut cache, "h1-c", Est::Hours1, Some(Priority::C));
    add_estimated(&mut cache, "h1-a", Est::Hours1, Some(Priority::A));

    let groups = group_quick_wins(&cache);
    assert_eq!(
        flatten_estimates(&groups),
        vec![
            (Est::Min15, "m15"),
            (Est::Min30, "m30-a"),
            (Est::Min30, "m30-b"),
            (Est::Hours1, "h1-a"),
            (Est::Hours1, "h1-c"),
        ],
    );
}

// ── What I Finished ──

fn category_names(groups: &[(Category, Vec<(u128, Infos)>)]) -> Vec<String> {
    groups.iter().map(|(c, _)| c.as_str().to_string()).collect()
}

fn group_of<'a>(groups: &'a [(Category, Vec<(u128, Infos)>)], name: &str) -> &'a Vec<(u128, Infos)> {
    &groups.iter().find(|(c, _)| c.as_str() == name).unwrap().1
}

/// Adds a task in `category` and marks it done at `done_at`.
fn add_done(cache: &mut TaskCache, name: &str, category: &str, done_at: Timestamp) -> u128 {
    let t = task(name).with_category(Category::parse(category).unwrap());
    let id = cache.add(t, "test");
    cache.modify_at(id, "test", TaskEdit::Complete, done_at);
    id
}

#[test]
fn completion_order_within_category() {
    let mut cache = new_cache();
    add_done(&mut cache, "first", "Work", at(0));
    add_done(&mut cache, "second", "Work", at(10));
    add_done(&mut cache, "third", "Work", at(20));

    let groups = group_finished(&cache);
    let names: Vec<_> = group_of(&groups, "Work").iter().map(|(_, info)| info.summary()).collect();
    assert_eq!(names, vec!["third", "second", "first"]);
}

#[test]
fn categories_in_alphabetical_order() {
    let mut cache = new_cache();
    add_done(&mut cache, "z-task", "Zzz", at(0));
    add_done(&mut cache, "a-task", "Aaa", at(0));
    add_done(&mut cache, "m-task", "Mmm", at(0));

    let groups = group_finished(&cache);
    assert_eq!(category_names(&groups), vec!["Aaa", "Mmm", "Zzz"]);
}

#[test]
fn independent_sort_per_category() {
    let mut cache = new_cache();
    add_done(&mut cache, "home-a", "Home", at(0));
    add_done(&mut cache, "home-b", "Home", at(10));
    add_done(&mut cache, "work-x", "Work", at(20));
    add_done(&mut cache, "work-y", "Work", at(30));

    let groups = group_finished(&cache);
    let home: Vec<_> = group_of(&groups, "Home").iter().map(|(_, i)| i.summary()).collect();
    let work: Vec<_> = group_of(&groups, "Work").iter().map(|(_, i)| i.summary()).collect();
    assert_eq!(home, vec!["home-b", "home-a"]);
    assert_eq!(work, vec!["work-y", "work-x"]);
}

#[test]
fn open_tasks_excluded() {
    let mut cache = new_cache();
    cache.add(task("open"), "test");

    let groups = group_finished(&cache);
    assert!(groups.is_empty());
}

// ── All Open ──

fn add_in(cache: &mut TaskCache, name: &str, category: &str) -> u128 {
    let t = task(name).with_category(Category::parse(category).unwrap());
    cache.add(t, "test")
}

#[test]
fn internal_categories_in_alphabetical_order() {
    let mut cache = new_cache();
    add_in(&mut cache, "z-task", "Zzz");
    add_in(&mut cache, "a-task", "Aaa");
    add_in(&mut cache, "m-task", "Mmm");

    let groups = group_all_open(&cache);
    assert_eq!(category_names(&groups), vec!["Aaa", "Mmm", "Zzz"]);
}

#[test]
fn uuid_sort_within_category() {
    let mut cache = new_cache();
    let id_a = add_in(&mut cache, "older", "Work");
    let id_b = add_in(&mut cache, "newer", "Work");

    let groups = group_all_open(&cache);
    let work = group_of(&groups, "Work");
    assert_eq!(work[0].0, id_a);
    assert_eq!(work[1].0, id_b);
}

#[test]
fn all_open_done_tasks_excluded() {
    let mut cache = new_cache();
    let id = add_in(&mut cache, "done", "Work");
    cache.modify(id, "test", TaskEdit::Complete);

    let groups = group_all_open(&cache);
    assert!(groups.is_empty());
}

#[test]
fn mixed_categories_with_uuid_order() {
    let mut cache = new_cache();
    let id_w1 = add_in(&mut cache, "work-1", "Work");
    let id_h1 = add_in(&mut cache, "home-1", "Home");
    let id_w2 = add_in(&mut cache, "work-2", "Work");
    let id_h2 = add_in(&mut cache, "home-2", "Home");

    let groups = group_all_open(&cache);
    assert_eq!(category_names(&groups), vec!["Home", "Work"]);
    let home = group_of(&groups, "Home");
    assert_eq!(home[0].0, id_h1);
    assert_eq!(home[1].0, id_h2);
    let work = group_of(&groups, "Work");
    assert_eq!(work[0].0, id_w1);
    assert_eq!(work[1].0, id_w2);
}

// ── Recent Changes ──

/// The UTC day of an instant.
fn day_of(t: Timestamp) -> i32 {
    t.utc_day()
}

#[test]
fn sorted_by_last_changed_descending() {
    let mut cache = new_cache();
    cache.add_at(task("first"), "a", at(0));
    cache.add_at(task("second"), "b", at(1));
    cache.add_at(task("third"), "c", at(2));

    let result = group_recently_changed(&cache, day_of(at(2)), 0);
    let names: Vec<_> = result.iter().map(|rc| rc.info.summary()).collect();
    assert_eq!(names, vec!["third", "second", "first"]);
}

#[test]
fn ai_involved_and_last_when_ai_edited() {
    let mut cache = new_cache();
    let id = cache.add_at(task("task"), "human", at(0));
    cache.modify_at(id, "ai:bot", TaskEdit::SetPriority(Some(Priority::A)), at(1));

    let result = group_recently_changed(&cache, day_of(at(1)), 0);
    assert_eq!(result.len(), 1);
    assert!(result[0].ai_involved, "ai:bot should set ai_involved");
    assert!(result[0].ai_last, "ai:bot was last actor");
}

#[test]
fn ai_not_last_when_human_acts_after() {
    let mut cache = new_cache();
    let id = cache.add_at(task("task"), "human", at(0));
    cache.modify_at(id, "ai:bot", TaskEdit::SetPriority(Some(Priority::A)), at(1));
    cache.modify_at(id, "human", TaskEdit::SetPriority(Some(Priority::B)), at(2));

    let result = group_recently_changed(&cache, day_of(at(2)), 0);
    assert!(result[0].ai_involved, "ai:bot touched the task");
    assert!(!result[0].ai_last, "human acted after ai:bot");
}

#[test]
fn no_ai_flags_for_human_only() {
    let mut cache = new_cache();
    cache.add_at(task("task"), "human", at(0));

    let result = group_recently_changed(&cache, day_of(at(0)), 0);
    assert!(!result[0].ai_involved);
    assert!(!result[0].ai_last);
}

#[test]
fn calendar_window_includes_today() {
    let mut cache = new_cache();
    cache.add_at(task("recent"), "test", at(0));

    let result = group_recently_changed(&cache, day_of(at(0)), 0);
    assert_eq!(result.len(), 1);
}

#[test]
fn extra_days_zero_excludes_old_tasks() {
    let mut cache = new_cache();
    cache.add_at(task("old"), "test", at(0));

    let future = day_of(at(0)) + 10;
    let result = group_recently_changed(&cache, future, 0);
    assert!(result.is_empty());
}

#[test]
fn extra_days_includes_older_data() {
    let mut cache = new_cache();
    cache.add_at(task("old"), "test", at(0));

    let future = day_of(at(0)) + 10;
    let result = group_recently_changed(&cache, future, 1);
    assert_eq!(result.len(), 1);
    assert_eq!(result[0].info.summary(), "old");
}

#[test]
fn extra_days_counts_distinct_days_with_changes() {
    let mut cache = new_cache();
    cache.add_at(task("day-0"), "test", at(0));
    cache.add_at(task("day-0-later"), "test", at(60));
    cache.add_at(task("day-1"), "test", at(86_400));
    cache.add_at(task("day-2"), "test", at(2 * 86_400));

    let today = day_of(at(0)) + 20;
    let result = group_recently_changed(&cache, today, 2);
    let names: Vec<_> = result.iter().map(|rc| rc.info.summary()).collect();
    assert_eq!(names, vec!["day-2", "day-1"]);
}

#[test]
fn last_change_of_untouched_log_is_status_time() {
    let cache_task = Task::new_at(Summary::parse("quiet").unwrap(), at(5));
    let mut cache = new_cache();
    cache.insert_loaded(7, cache_task, false);
    let result = group_recently_changed(&cache, day_of(at(5)), 0);
    assert_eq!(result.len(), 1);
    assert_eq!(result[0].last_changed.secs, at(5).secs);
    assert!(result[0].authors.is_empty());
}

#[test]
fn quick_wins_list_each_estimated_task_once() {
    let mut cache = new_cache();
    let mut want = vec![
        add_estimated(&mut cache, "a", Est::Day1, None),
        add_estimated(&mut cache, "b", Est::Min15, Some(Priority::B)),
        add_estimated(&mut cache, "c", Est::Min15, None),
    ];
    let plain = cache.add(task("no estimate"), "me");
    let done = add_estimated(&mut cache, "done", Est::Min30, None);
    assert!(cache.modify(done, "me", TaskEdit::Complete));
    let mut seen: Vec<u128> = group_quick_wins(&cache).iter().flat_map(|(_, ts)| ts.iter().map(|t| t.0)).collect();
    seen.sort();
    want.sort();
    assert_eq!(seen, want);
    assert!(!seen.contains(&plain));
}
