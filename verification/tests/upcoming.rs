//! The Upcoming view of small task caches: groups, order within groups,
//! "start by" days and the backlog.

use chrono::{Datelike, NaiveDate};
use kid::cache::TaskCache;
use kid::task::{Availability, Date, Details, Infos, Summary, Task, TaskEdit, TimeEstimate};
use kid::time::Timestamp;
use kid::upcoming::group_upcoming;
use kid::views::DeadlineGroup;

/// Day number of a `YYYY-MM-DD` date.
fn date(s: &str) -> i32 {
    NaiveDate::parse_from_str(s, "%Y-%m-%d").unwrap().num_days_from_ce()
}

/// Midnight UTC of a `YYYY-MM-DD` date.
fn task_date(s: &str) -> Date {
    let secs = (date(s) as i64 - 719_163) * 86_400;
    Date { date: Timestamp { secs, nanos: 0, offset: 0 }, soft: false }
}

fn new_cache() -> TaskCache {
    TaskCache::with_dir("tasks".to_string())
}

fn add(
    cache: &mut TaskCache,
    name: &str,
    due: Option<&str>,
    start: Option<&str>,
    estimate: Option<TimeEstimate>,
    avail: Availability,
) -> u128 {
    let details = Details::new(due.map(task_date), start.map(task_date), estimate, avail, None);
    let t = Task::new(Summary::parse(name).unwrap()).with_details(details);
    cache.add(t, "test")
}

type Groups = Vec<(DeadlineGroup, Vec<(u128, Infos, Option<i32>, i32)>)>;

/// Flatten groups into `(group, summary, attention_label)` for easy asserts.
fn flatten(groups: &Groups) -> Vec<(DeadlineGroup, &str, Option<i32>)> {
    groups
        .iter()
        .flat_map(|(dg, tasks)| tasks.iter().map(move |(_, info, attn, _)| (*dg, info.summary(), *attn)))
        .collect()
}

/// Just the group labels in order.
fn group_names(groups: &Groups) -> Vec<DeadlineGroup> {
    groups.iter().map(|(dg, _)| *dg).collect()
}

/// Just the summaries in order.
fn summaries(groups: &Groups) -> Vec<&str> {
    groups.iter().flat_map(|(_, tasks)| tasks.iter().map(|(_, info, _, _)| info.summary())).collect()
}

// ── Scenario 1: baseline grouping by due_date ──

#[test]
fn baseline_groups_by_due_date() {
    // Today: Mon May 11 (this_sun=17, next_sun=24)
    // 3 tasks: due today, due this week, due later.
    let mut cache = new_cache();
    add(&mut cache, "today-task",
        Some("2026-05-11"), None, None, Availability::Anytime);
    add(&mut cache, "this-week-task",
        Some("2026-05-15"), None, None, Availability::Anytime);
    add(&mut cache, "later-task",
        Some("2026-05-30"), None, None, Availability::Anytime);

    let (groups, backlog) = group_upcoming(&cache, date("2026-05-11"));
    assert!(backlog.is_empty());
    assert_eq!(
        group_names(&groups),
        vec![DeadlineGroup::Today, DeadlineGroup::ThisWeek, DeadlineGroup::Later],
    );
    assert_eq!(summaries(&groups).len(), 3);
}

// ── Scenario 1b: baseline with Tomorrow ──

#[test]
fn baseline_with_tomorrow() {
    // Today: Mon May 11 (this_sun=17, next_sun=24)
    // 4 tasks: today, tomorrow, this week, later.
    let mut cache = new_cache();
    add(&mut cache, "today-task",
        Some("2026-05-11"), None, None, Availability::Anytime);
    add(&mut cache, "tomorrow-task",
        Some("2026-05-12"), None, None, Availability::Anytime);
    add(&mut cache, "this-week-task",
        Some("2026-05-15"), None, None, Availability::Anytime);
    add(&mut cache, "later-task",
        Some("2026-05-30"), None, None, Availability::Anytime);

    let (groups, _) = group_upcoming(&cache, date("2026-05-11"));
    assert_eq!(
        group_names(&groups),
        vec![
            DeadlineGroup::Today,
            DeadlineGroup::Tomorrow,
            DeadlineGroup::ThisWeek,
            DeadlineGroup::Later,
        ],
    );
    assert_eq!(summaries(&groups), vec![
        "today-task", "tomorrow-task", "this-week-task", "later-task",
    ]);
}

// ── Scenario 1c: Tomorrow on Sunday crosses ISO week ──

#[test]
fn tomorrow_on_sunday_crosses_iso_week() {
    // Today: Sun May 10 (this_sun=10, next_sun=17)
    // Due Mon May 11 = tomorrow → Tomorrow (not NextWeek)
    let mut cache = new_cache();
    add(&mut cache, "monday-task",
        Some("2026-05-11"), None, None, Availability::Anytime);

    let (groups, _) = group_upcoming(&cache, date("2026-05-10"));
    let flat = flatten(&groups);
    assert_eq!(flat.len(), 1);
    assert_eq!(flat[0].0, DeadlineGroup::Tomorrow);
}

// ── Scenario 1d: attention date lands on Tomorrow ──

#[test]
fn estimate_pulls_to_tomorrow() {
    // Today: Tue May 13 (this_sun=17, next_sun=24)
    // Due Fri May 16, Day2 Anytime:
    //   attention = May 14 (Wed) = tomorrow → Tomorrow
    let mut cache = new_cache();
    add(&mut cache, "shifted-to-tomorrow",
        Some("2026-05-16"), None, Some(TimeEstimate::Day2), Availability::Anytime);

    let (groups, _) = group_upcoming(&cache, date("2026-05-13"));
    let flat = flatten(&groups);
    assert_eq!(flat[0].0, DeadlineGroup::Tomorrow);
    // Attention label: start by Wed 14.05.
    assert_eq!(flat[0].2, Some(date("2026-05-14")));
}

// ── Scenario 2: estimate shifts task to earlier group ──

#[test]
fn estimate_pulls_task_forward() {
    // Today: Mon May 11 (this_sun=17, next_sun=24)
    // Task due Tue May 19, Day2 Anytime:
    //   attention = May 17 (Sun) → This Week
    // Without estimate it would be Next Week.
    let mut cache = new_cache();
    add(&mut cache, "shifted",
        Some("2026-05-19"), None, Some(TimeEstimate::Day2), Availability::Anytime);

    let (groups, _) = group_upcoming(&cache, date("2026-05-11"));
    let flat = flatten(&groups);
    assert_eq!(flat.len(), 1);
    assert_eq!(flat[0].0, DeadlineGroup::ThisWeek);
    // Attention label should be set (attention != due)
    assert_eq!(flat[0].2, Some(date("2026-05-17")));
}

// ── Scenario 3: sub-day estimate → no shift, no label ──

#[test]
fn sub_day_estimate_no_shift() {
    // Today: Mon May 11. Due Tue May 19, HalfDay.
    // lead_days=0 → group_date = due_date → Next Week, no label.
    let mut cache = new_cache();
    add(&mut cache, "quick",
        Some("2026-05-19"), None, Some(TimeEstimate::HalfDay), Availability::Anytime);

    let (groups, _) = group_upcoming(&cache, date("2026-05-11"));
    let flat = flatten(&groups);
    assert_eq!(flat[0].0, DeadlineGroup::NextWeek);
    assert_eq!(flat[0].2, None); // no attention label
}

// ── Scenario 4: weekend availability skips weekdays ──

#[test]
fn weekend_only_skips_weekdays() {
    // Today: Mon May 11 (this_sun=17, next_sun=24)
    // Due Fri May 22, Day2 WeekendOnly:
    //   count 2 weekend days back: Sun 17→1, Sat 16→0
    //   attention = Sat May 16 → This Week
    let mut cache = new_cache();
    add(&mut cache, "weekend-task",
        Some("2026-05-22"), None, Some(TimeEstimate::Day2), Availability::WeekendOnly);

    let (groups, _) = group_upcoming(&cache, date("2026-05-11"));
    let flat = flatten(&groups);
    assert_eq!(flat[0].0, DeadlineGroup::ThisWeek);
    assert_eq!(flat[0].2, Some(date("2026-05-16")));
}

// ── Scenario 5: backlog — no dates at all ──

#[test]
fn task_without_dates_goes_to_backlog() {
    let mut cache = new_cache();
    add(&mut cache, "backlog-task",
        None, None, None, Availability::Anytime);

    let (groups, backlog) = group_upcoming(&cache, date("2026-05-11"));
    assert!(groups.is_empty());
    assert_eq!(backlog.len(), 1);
    assert_eq!(backlog[0].1.summary(), "backlog-task");
}

// ── Scenario 6: start_date without due_date → Ready to Start ──

#[test]
fn start_date_only_ready_to_start() {
    // start_date = today, no due_date → ReadyToStart
    let mut cache = new_cache();
    add(&mut cache, "started",
        None, Some("2026-05-11"), None, Availability::Anytime);

    let (groups, backlog) = group_upcoming(&cache, date("2026-05-11"));
    assert!(backlog.is_empty());
    let flat = flatten(&groups);
    assert_eq!(flat[0].0, DeadlineGroup::ReadyToStart);
}

// ── Scenario 7: start_date in future, no due_date → backlog ──

#[test]
fn future_start_date_no_due_is_backlog() {
    let mut cache = new_cache();
    add(&mut cache, "not-yet",
        None, Some("2026-05-20"), None, Availability::Anytime);

    let (groups, backlog) = group_upcoming(&cache, date("2026-05-11"));
    assert!(groups.is_empty());
    assert_eq!(backlog.len(), 1);
}

// ── Scenario 8: start_date pulls task into earlier group (soft) ──

#[test]
fn start_date_earlier_than_attention_pulls_forward_soft() {
    // Today: Mon May 11 (this_sun=17, next_sun=24)
    // Task: due May 30 (Later), no estimate → attention = May 30.
    // start_date = May 14 (This Week).
    // start_date < attention → group by start_date → This Week, soft.
    let mut cache = new_cache();
    add(&mut cache, "early-start",
        Some("2026-05-30"), Some("2026-05-14"), None, Availability::Anytime);

    let (groups, _) = group_upcoming(&cache, date("2026-05-11"));
    let flat = flatten(&groups);
    assert_eq!(flat.len(), 1);
    assert_eq!(flat[0].0, DeadlineGroup::ThisWeek);
}

// ── Scenario 9: soft tasks sort after hard tasks in same group ──

#[test]
fn soft_tasks_sort_after_hard_in_same_group() {
    // Today: Mon May 11 (this_sun=17, next_sun=24)
    //
    // Hard task: due Tue May 19, Day2 Anytime →
    //   attention = May 17 → This Week (hard, attention-driven)
    // Soft task: due May 30, start_date May 14 →
    //   attention = May 30, but start_date pulls to This Week (soft)
    let mut cache = new_cache();
    add(&mut cache, "hard-attention",
        Some("2026-05-19"), None, Some(TimeEstimate::Day2), Availability::Anytime);
    add(&mut cache, "soft-start",
        Some("2026-05-30"), Some("2026-05-14"), None, Availability::Anytime);

    let (groups, _) = group_upcoming(&cache, date("2026-05-11"));
    let names = summaries(&groups);
    // Hard before soft within the same group.
    assert_eq!(names, vec!["hard-attention", "soft-start"]);
    // Both in This Week.
    assert_eq!(group_names(&groups), vec![DeadlineGroup::ThisWeek]);
}

// ── Scenario 10: start_date doesn't shift when same group ──

#[test]
fn start_date_same_group_no_shift() {
    // Today: Mon May 11 (this_sun=17, next_sun=24)
    // Due May 15 (This Week), start May 13 (also This Week).
    // start < due but same group → no soft shift.
    let mut cache = new_cache();
    add(&mut cache, "same-group",
        Some("2026-05-15"), Some("2026-05-13"), None, Availability::Anytime);

    let (groups, _) = group_upcoming(&cache, date("2026-05-11"));
    let flat = flatten(&groups);
    assert_eq!(flat[0].0, DeadlineGroup::ThisWeek);
}

// ── Scenario 11: overdue ignores start_date ──

#[test]
fn overdue_ignores_start_date() {
    // Due yesterday. start_date doesn't rescue from Overdue.
    let mut cache = new_cache();
    add(&mut cache, "overdue",
        Some("2026-05-10"), Some("2026-05-01"), None, Availability::Anytime);

    let (groups, _) = group_upcoming(&cache, date("2026-05-11"));
    let flat = flatten(&groups);
    assert_eq!(flat[0].0, DeadlineGroup::Overdue);
}

// ── Scenario 12: done tasks excluded ──

#[test]
fn done_tasks_excluded() {
    let mut cache = new_cache();
    let id = add(&mut cache, "done-task",
        Some("2026-05-15"), None, None, Availability::Anytime);
    cache.modify(id, "test", TaskEdit::Complete);

    let (groups, backlog) = group_upcoming(&cache, date("2026-05-11"));
    assert!(groups.is_empty());
    assert!(backlog.is_empty());
}

// ── Scenario 13: mixed — overdue, today, shifted, backlog ──

#[test]
fn mixed_scenario() {
    // Today: Mon May 11 (this_sun=17, next_sun=24)
    let mut cache = new_cache();
    add(&mut cache, "overdue",
        Some("2026-05-10"), None, None, Availability::Anytime);
    add(&mut cache, "today",
        Some("2026-05-11"), None, None, Availability::Anytime);
    add(&mut cache, "shifted-to-this-week",
        Some("2026-05-19"), None, Some(TimeEstimate::Day2), Availability::Anytime);
    add(&mut cache, "backlog",
        None, None, None, Availability::Anytime);

    let (groups, backlog) = group_upcoming(&cache, date("2026-05-11"));
    assert_eq!(
        group_names(&groups),
        vec![DeadlineGroup::Overdue, DeadlineGroup::Today, DeadlineGroup::ThisWeek],
    );
    assert_eq!(backlog.len(), 1);
    assert_eq!(backlog[0].1.summary(), "backlog");
}

// ── Scenario 14: start_date in past pulls to Today (soft) ──

#[test]
fn past_start_date_pulls_to_today_soft() {
    // Today: Mon May 11 (this_sun=17, next_sun=24)
    // Due May 30 (Later), start May 5 (past).
    // start < attention (May 30) → start group = Today (soft).
    let mut cache = new_cache();
    add(&mut cache, "started-last-week",
        Some("2026-05-30"), Some("2026-05-05"), None, Availability::Anytime);

    let (groups, _) = group_upcoming(&cache, date("2026-05-11"));
    let flat = flatten(&groups);
    assert_eq!(flat[0].0, DeadlineGroup::Today);
}

// ── Scenario 15: soft Today sorts after hard Today ──

#[test]
fn soft_today_after_hard_today() {
    // Today: Mon May 11
    // Hard: due May 11 (Today, naturally)
    // Soft: due May 30, start May 05 (Today via start_date)
    let mut cache = new_cache();
    add(&mut cache, "hard-today",
        Some("2026-05-11"), None, None, Availability::Anytime);
    add(&mut cache, "soft-today",
        Some("2026-05-30"), Some("2026-05-05"), None, Availability::Anytime);

    let (groups, _) = group_upcoming(&cache, date("2026-05-11"));
    let names = summaries(&groups);
    assert_eq!(names, vec!["hard-today", "soft-today"]);
}

// ── Scenario 16: start_date >= attention → no soft shift ──

#[test]
fn start_date_after_attention_no_shift() {
    // Today: Mon May 11 (this_sun=17, next_sun=24)
    // Due Tue May 19, Day2 → attention May 17 (This Week).
    // start May 18 (after attention) → no soft shift, stays This Week.
    let mut cache = new_cache();
    add(&mut cache, "late-start",
        Some("2026-05-19"), Some("2026-05-18"), Some(TimeEstimate::Day2), Availability::Anytime);

    let (groups, _) = group_upcoming(&cache, date("2026-05-11"));
    let flat = flatten(&groups);
    assert_eq!(flat[0].0, DeadlineGroup::ThisWeek);
    // Attention label should still be set (attention != due)
    assert_eq!(flat[0].2, Some(date("2026-05-17")));
}

// ── Scenario 17: WeekdayOnly shifts group + label ──

#[test]
fn weekday_only_skips_weekend() {
    // Today: Wed May 13 (tomorrow=14, this_sun=17, next_sun=24)
    // Due Mon May 18, Day2 WeekdayOnly:
    //   Sun 17→skip, Sat 16→skip, Fri 15→1, Thu 14→0
    //   attention = Thu May 14 = tomorrow → Tomorrow
    // Without estimate it would be Next Week (18 > 17).
    let mut cache = new_cache();
    add(&mut cache, "weekday-task",
        Some("2026-05-18"), None, Some(TimeEstimate::Day2), Availability::WeekdayOnly);

    let (groups, _) = group_upcoming(&cache, date("2026-05-13"));
    let flat = flatten(&groups);
    assert_eq!(flat[0].0, DeadlineGroup::Tomorrow);
    assert_eq!(flat[0].2, Some(date("2026-05-14")));
}

// ── Scenario 18: WeekdayOnly Day1 ──

#[test]
fn weekday_only_day1_skips_weekend() {
    // Today: Wed May 13 (this_sun=17, next_sun=24)
    // Due Mon May 18, Day1 WeekdayOnly:
    //   Sun 17→skip, Sat 16→skip, Fri 15→0
    //   attention = Fri May 15 → This Week
    let mut cache = new_cache();
    add(&mut cache, "weekday-1d",
        Some("2026-05-18"), None, Some(TimeEstimate::Day1), Availability::WeekdayOnly);

    let (groups, _) = group_upcoming(&cache, date("2026-05-13"));
    let flat = flatten(&groups);
    assert_eq!(flat[0].0, DeadlineGroup::ThisWeek);
    assert_eq!(flat[0].2, Some(date("2026-05-15")));
}

// ── Scenario 19: availability + start_date interaction ──

#[test]
fn weekend_only_with_earlier_start_date() {
    // Today: Mon May 11 (this_sun=17, next_sun=24)
    // Due Fri May 22, Day2 WeekendOnly:
    //   attention = Sat May 16 → This Week
    // start_date = May 12 (Mon) < attention (May 16)
    //   start group = This Week (12 <= 17)
    //   Same group → no soft shift, stays hard This Week.
    let mut cache = new_cache();
    add(&mut cache, "weekend-with-start",
        Some("2026-05-22"), Some("2026-05-12"), Some(TimeEstimate::Day2), Availability::WeekendOnly);

    let (groups, _) = group_upcoming(&cache, date("2026-05-11"));
    let flat = flatten(&groups);
    assert_eq!(flat[0].0, DeadlineGroup::ThisWeek);
    // Attention label from estimate (not from start_date)
    assert_eq!(flat[0].2, Some(date("2026-05-16")));
}

// ── Scenario 20: WeekendOnly + past start_date on weekday ──
//    must NOT be pulled into Today

#[test]
fn weekend_only_past_start_date_on_weekday_not_today() {
    // Today: Wed May 20 (this_sun=24, next_sun=31)
    // Due Sun May 31, Day2 WeekendOnly:
    //   count 2 weekend days back from May 31 (Sun):
    //     Sat 30 → 1, Fri→skip … Sun 24 → 0
    //   attention = Sun May 24 → ThisWeek (24 <= this_sun 24)
    //
    // start_date = Mon May 18 (past, weekday).
    // BUG: raw sd (May 18) <= today → start_group = Today,
    //   Today(1) < ThisWeek(2) → task incorrectly pulled to Today.
    //
    // EXPECTED: The start_date override should respect availability.
    //   Next eligible day >= today for WeekendOnly = Sat May 23.
    //   May 23 → ThisWeek (23 <= 24). Same group as attention →
    //   no shift. Task stays in ThisWeek.
    let mut cache = new_cache();
    add(&mut cache, "weekend-task-not-today",
        Some("2026-05-31"), Some("2026-05-18"), Some(TimeEstimate::Day2), Availability::WeekendOnly);

    let (groups, _) = group_upcoming(&cache, date("2026-05-20"));
    let flat = flatten(&groups);
    assert_eq!(flat.len(), 1);
    assert_eq!(
        flat[0].0,
        DeadlineGroup::ThisWeek,
        "WeekendOnly task must not land in Today on a Wednesday; \
         next eligible day is Sat May 23 → ThisWeek",
    );
    // Attention label: start by Sun 24.05.
    assert_eq!(flat[0].2, Some(date("2026-05-24")));
}

// ── Scenario 21: WeekdayOnly + past start_date on weekend ──
//    symmetric counterpart to Scenario 20

#[test]
fn weekday_only_past_start_date_on_weekend_not_today() {
    // Today: Sat May 9 (this_sun=10, next_sun=17)
    // Due Thu May 14, Day2 WeekdayOnly:
    //   count 2 weekdays back from May 14 (Thu):
    //     Wed 13 → 1, Tue 12 → 0
    //   attention = Tue May 12 → NextWeek (12 > 10, 12 <= 17)
    //
    // start_date = Mon May 5 (past, weekday — eligible, but
    //   today is Saturday which is NOT eligible).
    //
    // Without fix: sd (May 5) <= today → Today,
    //   Today(1) < NextWeek(3) → incorrectly pulled to Today
    //   on a Saturday.
    //
    // With fix: eff = max(5, 9) = Sat 9 → not eligible →
    //   Sun 10 → not eligible → Mon 11 ✓
    //   Mon 11 → NextWeek (11 > 10, 11 <= 17).
    //   NextWeek == NextWeek → no shift. Stays NextWeek.
    let mut cache = new_cache();
    add(&mut cache, "weekday-task-not-today",
        Some("2026-05-14"), Some("2026-05-05"), Some(TimeEstimate::Day2), Availability::WeekdayOnly);

    let (groups, _) = group_upcoming(&cache, date("2026-05-09"));
    let flat = flatten(&groups);
    assert_eq!(flat.len(), 1);
    assert_eq!(
        flat[0].0,
        DeadlineGroup::NextWeek,
        "WeekdayOnly task must not land in Today on a Saturday; \
         next eligible day is Mon May 11 → NextWeek",
    );
    // Attention label: start by Tue 12.05.
    assert_eq!(flat[0].2, Some(date("2026-05-12")));
}

#[test]
fn every_open_task_shows_once() {
    let mut cache = new_cache();
    let mut open = vec![
        add(&mut cache, "overdue", Some("2026-05-01"), None, None, Availability::Anytime),
        add(&mut cache, "soon", Some("2026-05-13"), None, Some(TimeEstimate::Day2), Availability::WeekdayOnly),
        add(&mut cache, "started", None, Some("2026-05-10"), None, Availability::Anytime),
        add(&mut cache, "later start", None, Some("2026-06-10"), None, Availability::Anytime),
        add(&mut cache, "no dates", None, None, None, Availability::Anytime),
    ];
    let done = add(&mut cache, "done", Some("2026-05-12"), None, None, Availability::Anytime);
    assert!(cache.modify(done, "test", TaskEdit::Complete));
    let (groups, backlog) = group_upcoming(&cache, date("2026-05-11"));
    let mut seen: Vec<u128> = groups.iter().flat_map(|(_, ts)| ts.iter().map(|t| t.0)).collect();
    seen.extend(backlog.iter().map(|t| t.0));
    seen.sort();
    open.sort();
    assert_eq!(seen, open);
}

#[test]
fn attention_date_counts_eligible_days() {
    // Due Monday 2026-05-18, two weekdays of lead: Thursday 14th and Friday 15th.
    let d = Details::new(Some(task_date("2026-05-18")), None, Some(TimeEstimate::Day2), Availability::WeekdayOnly, None);
    assert_eq!(d.attention_date(), Some(date("2026-05-14")));
    // Weekends only, one day of lead: Sunday 17th.
    let d = Details::new(Some(task_date("2026-05-18")), None, Some(TimeEstimate::Day1), Availability::WeekendOnly, None);
    assert_eq!(d.attention_date(), Some(date("2026-05-17")));
    // No lead days: the due date itself.
    let d = Details::new(Some(task_date("2026-05-18")), None, Some(TimeEstimate::HalfDay), Availability::WeekendOnly, None);
    assert_eq!(d.attention_date(), Some(date("2026-05-18")));
}
