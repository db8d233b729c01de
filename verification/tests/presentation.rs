//! Views and their slugs, the context filter, the catalogues, the MCP
//! reports and the task search.

use chrono::Datelike;
use kid::cache::TaskCache;
use kid::groups::group_quick_wins;
use kid::groups::group_all_open;
use kid::mcp::{assignee_edit, read_resource};
use kid::present::{
    apply_filter, arrow_opacity_class, categories, contexts, day_label_at, filter_groups, group_recent_by_day, McpResource,
    TaskListData, ViewSlug, RESOURCE_LIST_TTL_MS,
};
use kid::upcoming::all_open_tasks_placeable;
use kid::recent::group_recently_changed;
use kid::report::{render_backlog, render_daily_report, render_quick_wins, task_line};
use kid::search::{list_matching, StatusFilter};
use kid::task::{Category, Context, Infos, Summary, Task, TaskEdit, TimeEstimate};
use kid::time::Timestamp;
use kid::upcoming::group_upcoming;
use kid::views::DeadlineGroup;

fn at(s: i64) -> Timestamp {
    Timestamp { secs: 1_778_486_400 + s, nanos: 0, offset: 0 }
}

fn task(name: &str, category: &str, contexts: &[&str]) -> Task {
    let cs: Vec<Context> = contexts.iter().map(|c| Context::parse(c).unwrap()).collect();
    Task::new(Summary::parse(name).unwrap()).with_category(Category::parse(category).unwrap()).with_contexts(cs)
}

#[test]
fn view_slugs_round_trip() {
    for v in [
        ViewSlug::Upcoming,
        ViewSlug::QuickWins,
        ViewSlug::AllOpen,
        ViewSlug::WhatIFinished,
        ViewSlug::RecentlyChanged,
    ] {
        assert_eq!(ViewSlug::from_query_param(v.slug()), Some(v));
    }
    assert_eq!(ViewSlug::from_query_param("finished"), Some(ViewSlug::WhatIFinished));
    assert_eq!(ViewSlug::from_query_param("Finished"), None);
    assert_eq!(ViewSlug::Upcoming.prev(), None);
    assert_eq!(ViewSlug::Upcoming.next(), Some(ViewSlug::QuickWins));
    assert_eq!(ViewSlug::RecentlyChanged.next(), None);
    assert_eq!(ViewSlug::WhatIFinished.title(), "What I Finished");
    assert_eq!(ViewSlug::QuickWins.empty_message(), "No estimated tasks.");
}

#[test]
fn mcp_resources_by_uri() {
    assert_eq!(McpResource::from_uri("kid://report/daily"), Some(McpResource::DailyReport));
    assert_eq!(McpResource::from_uri("kid://nothing"), None);
    assert_eq!(McpResource::QuickWins.uri(), "kid://report/quick_wins");
    assert_eq!(McpResource::Contexts.mime_type(), "application/json");
    assert_eq!(McpResource::Backlog.name(), "Backlog");
}

#[test]
fn context_filter_keeps_matching_tasks_and_drops_empty_groups() {
    let mut cache = TaskCache::with_dir("tasks".to_string());
    let a = cache.add(task("a", "Home", &["@home", "@phone"]), "me");
    let b = cache.add(task("b", "Home", &["@home"]), "me");
    let c = cache.add(task("c", "Work", &["@office"]), "me");
    for id in [a, b, c] {
        cache.modify(id, "me", TaskEdit::SetTimeEstimate(Some(TimeEstimate::Min15)));
    }
    cache.modify(c, "me", TaskEdit::SetTimeEstimate(Some(TimeEstimate::Hours1)));
    let groups = group_quick_wins(&cache);
    assert_eq!(groups.len(), 2);

    let unfiltered = filter_groups(group_quick_wins(&cache), &vec![]);
    assert_eq!(unfiltered.len(), 2);

    let filtered = filter_groups(groups, &vec!["@home".to_string(), "@phone".to_string()]);
    assert_eq!(filtered.len(), 1);
    assert_eq!(filtered[0].0, TimeEstimate::Min15);
    let names: Vec<_> = filtered[0].1.iter().map(|(_, i)| i.summary()).collect();
    assert_eq!(names, vec!["a"]);
}

#[test]
fn catalogues_are_sorted_and_distinct() {
    let mut cache = TaskCache::with_dir("tasks".to_string());
    cache.add(task("a", "Work", &["@office", "@phone"]), "me");
    cache.add(task("b", "Home", &["@home", "@phone"]), "me");
    cache.add(task("c", "Work", &[]), "me");
    let cats: Vec<_> = categories(&cache).iter().map(|c| c.as_str().to_string()).collect();
    assert_eq!(cats, vec!["Home", "Work"]);
    let ctxs: Vec<_> = contexts(&cache).iter().map(|c| c.as_str().to_string()).collect();
    assert_eq!(ctxs, vec!["@home", "@office", "@phone"]);
}

#[test]
fn recent_changes_by_day() {
    let mut cache = TaskCache::with_dir("tasks".to_string());
    cache.add_at(task("a", "Home", &[]), "me", at(0));
    cache.add_at(task("b", "Home", &[]), "me", at(60));
    cache.add_at(task("c", "Home", &[]), "me", at(86_400));
    let today = at(86_400).utc_day();
    let changes = group_recently_changed(&cache, today, 0);
    let days = group_recent_by_day(changes);
    assert_eq!(days.len(), 2);
    assert_eq!(days[0].0, today);
    assert_eq!(days[0].1.len(), 1);
    assert_eq!(days[1].0, today - 1);
    let names: Vec<_> = days[1].1.iter().map(|rc| rc.info.summary()).collect();
    assert_eq!(names, vec!["b", "a"]);
}

#[test]
fn task_lines() {
    let t = task("Buy groceries", "Household", &[]);
    assert_eq!(task_line(t.info()), "- [ ] Buy groceries _Household_\n");
}

#[test]
fn reports() {
    let mut cache = TaskCache::with_dir("tasks".to_string());
    let a = cache.add(task("Call grandma", "Family", &[]), "me");
    cache.modify(a, "me", TaskEdit::SetTimeEstimate(Some(TimeEstimate::Min15)));

    let quick = render_quick_wins(&group_quick_wins(&cache), "Go!");
    assert_eq!(quick, "*Quick Wins*\n\nGo!\n\n*15 minutes*\n\n- [ ] Call grandma _Family_\n");
    let none: Vec<(TimeEstimate, Vec<(u128, Infos)>)> = vec![];
    assert_eq!(render_quick_wins(&none, "Go!"), "*Quick Wins*\n\nGo!\n\nNo open tasks have a time estimate.\n");

    let today = at(0).utc_day();
    let (groups, backlog) = group_upcoming(&cache, today);
    assert_eq!(render_daily_report(&groups, "Hi"), "*Daily Report*\n\nNo open tasks due, or ready to start, today.\n");
    assert_eq!(render_backlog(&backlog, "Later"), "*Backlog*\n\nLater\n\n- [ ] Call grandma _Family_\n");
    let empty: Vec<(u128, Infos)> = vec![];
    assert_eq!(render_backlog(&empty, "Later"), "*Backlog*\n\nLater\n\nNo open tasks without a date.\n");
}

#[test]
fn daily_report_marks_weekend_and_divider() {
    // Mon 2026-05-11; a task due Friday and one due Saturday this week.
    let today = chrono_day(2026, 5, 11);
    let mut cache = TaskCache::with_dir("tasks".to_string());
    let fri = cache.add(task("friday", "Home", &[]), "me");
    let sat = cache.add(task("saturday", "Home", &[]), "me");
    cache.modify(fri, "me", TaskEdit::SetDueDate(Some(day_date(chrono_day(2026, 5, 15)))));
    cache.modify(sat, "me", TaskEdit::SetDueDate(Some(day_date(chrono_day(2026, 5, 16)))));
    let (groups, _) = group_upcoming(&cache, today);
    assert_eq!(groups[0].0, DeadlineGroup::ThisWeek);
    assert_eq!(
        render_daily_report(&groups, "Hey"),
        "*Daily Report*\n\nHey\n\n*This Week*\n\n- [ ] friday _Home_\n---\n\n- [ ] saturday _Home_\n"
    );
    cache.remove(fri);
    let (groups, _) = group_upcoming(&cache, today);
    assert_eq!(render_daily_report(&groups, "Hey"), "*Daily Report*\n\nHey\n\n*This Weekend*\n\n- [ ] saturday _Home_\n");
}

fn chrono_day(y: i32, m: u32, d: u32) -> i32 {
    chrono::NaiveDate::from_ymd_opt(y, m, d).unwrap().num_days_from_ce()
}

fn day_date(day: i32) -> kid::task::Date {
    kid::task::Date { date: Timestamp { secs: (day as i64 - 719_163) * 86_400, nanos: 0, offset: 0 }, soft: false }
}

#[test]
fn search_by_status_and_words() {
    let mut cache = TaskCache::with_dir("tasks".to_string());
    let a = cache.add(task("Buy milk", "Household", &["@shop"]), "me");
    let b = cache.add(task("Call plumber", "Household", &["@phone"]), "me");
    let c = cache.add(task("Write report", "Work", &["@office"]), "me");
    cache.modify(c, "me", TaskEdit::Complete);

    assert_eq!(list_matching(&cache, None, StatusFilter::Open), vec![a, b]);
    assert_eq!(list_matching(&cache, None, StatusFilter::Done), vec![c]);
    assert_eq!(list_matching(&cache, None, StatusFilter::All), vec![a, b, c]);
    assert_eq!(list_matching(&cache, Some("   "), StatusFilter::Open), vec![a, b]);
    assert_eq!(list_matching(&cache, Some("milk"), StatusFilter::Open), vec![a]);
    assert_eq!(list_matching(&cache, Some("household phone"), StatusFilter::Open), vec![b]);
    assert_eq!(list_matching(&cache, Some(" household \t  phone\n"), StatusFilter::Open), vec![b]);
    assert_eq!(list_matching(&cache, Some("zzzz"), StatusFilter::All), Vec::<u128>::new());
    assert_eq!(StatusFilter::default(), StatusFilter::Open);
}

#[test]
fn view_colours() {
    assert_eq!(ViewSlug::Upcoming.header_gradient(), "from-cyan-500 to-cyan-700");
    assert_eq!(ViewSlug::WhatIFinished.dot_active_color(), "bg-amber-200");
    assert_eq!(
        ViewSlug::QuickWins.checkbox_checked_classes(),
        "checked:from-emerald-400 checked:to-emerald-600 checked:border-emerald-400"
    );
    assert_eq!(ViewSlug::AllOpen.spinner_gradient(), "from-violet-400 to-violet-600");
    assert_eq!(ViewSlug::Upcoming.priority_a_border(), "border-l-[3px] border-l-cyan-500");
    assert_eq!(ViewSlug::RecentlyChanged.priority_a_border(), "");
    assert_eq!(ViewSlug::RecentlyChanged.subtitle(), "Today + 2 days · grouped by day");
}

#[test]
fn switcher_arrows_fade() {
    assert_eq!(arrow_opacity_class(0), "opacity-80");
    assert_eq!(arrow_opacity_class(10), "opacity-80");
    assert_eq!(arrow_opacity_class(11), "opacity-40 hover:opacity-80 focus-visible:opacity-80");
    assert_eq!(arrow_opacity_class(50), "opacity-40 hover:opacity-80 focus-visible:opacity-80");
    assert_eq!(arrow_opacity_class(51), "opacity-20 hover:opacity-80 focus-visible:opacity-80");
}

#[test]
fn first_task_and_filter_of_a_view() {
    let mut cache = TaskCache::with_dir("tasks".to_string());
    let a = cache.add(task("Buy milk", "Household", &["@shop"]), "me");
    let b = cache.add(task("Call plumber", "Household", &["@phone"]), "me");
    let c = cache.add(task("Write report", "Work", &["@office", "@phone"]), "me");
    let data = TaskListData::Grouped(group_all_open(&cache));
    assert_eq!(data.first_task_id(), Some(a));
    let filtered = apply_filter(data, &vec!["@phone".to_string()]);
    assert_eq!(filtered.first_task_id(), Some(b));
    match apply_filter(filtered, &vec!["@office".to_string()]) {
        TaskListData::Grouped(g) => {
            assert_eq!(g.len(), 1);
            assert_eq!(g[0].1.len(), 1);
            assert_eq!(g[0].1[0].0, c);
        }
        _ => panic!("the grouping changed"),
    }
    let empty = TaskListData::EstimateGrouped(vec![]);
    assert_eq!(empty.first_task_id(), None);
    match apply_filter(TaskListData::DeadlineGrouped(vec![], 4), &vec!["@x".to_string()]) {
        TaskListData::DeadlineGrouped(g, backlog) => {
            assert!(g.is_empty());
            assert_eq!(backlog, 4);
        }
        _ => panic!("the grouping changed"),
    }
}

#[test]
fn resources_are_listed_and_read() {
    let all = McpResource::all();
    assert_eq!(all.len(), 6);
    assert_eq!(all[5].uri(), "kid://report/weekly");
    assert_eq!(all[5].name(), "Weekly Review");
    assert_eq!(all[0].uri(), "kid://categories");
    assert_eq!(McpResource::Contexts.description(), "Contexts currently in use");
    assert_eq!(RESOURCE_LIST_TTL_MS, 600_000);

    let mut cache = TaskCache::with_dir("tasks".to_string());
    cache.add(task("Buy milk", "Household", &["@shop"]), "me");
    cache.add(task("Write \"report\"", "Work", &["@office", "@shop"]), "me");
    let today = chrono_day(2026, 5, 8);
    assert!(all_open_tasks_placeable(&cache));
    let (r, text) = read_resource(&cache, "kid://categories", today).unwrap();
    assert_eq!(r, McpResource::Categories);
    assert_eq!(text, r#"["Household","Work"]"#);
    let (_, text) = read_resource(&cache, "kid://contexts", today).unwrap();
    assert_eq!(text, r#"["@office","@shop"]"#);
    let (_, text) = read_resource(&cache, "kid://report/daily", today).unwrap();
    assert_eq!(text, "*Daily Report*\n\nNo open tasks due, or ready to start, today.\n");
    let (_, text) = read_resource(&cache, "kid://report/backlog", today).unwrap();
    assert!(text.starts_with("*Backlog*\n\n"));
    assert!(text.ends_with("\n\n- [ ] Buy milk _Household_\n- [ ] Write \"report\" _Work_\n"));
    let (_, text) = read_resource(&cache, "kid://report/quick_wins", today).unwrap();
    assert!(text.ends_with("\n\nNo open tasks have a time estimate.\n"));
    assert_eq!(read_resource(&cache, "kid://nothing", today).unwrap_err(), "unknown resource: kid://nothing");
}

#[test]
fn day_headings() {
    let today = chrono_day(2026, 5, 8);
    assert_eq!(day_label_at(today, today), "Today");
    assert_eq!(day_label_at(today - 1, today), "Yesterday");
    assert_eq!(day_label_at(today - 2, today), "Wednesday, 06.05.");
}

fn assigned_task(cache: &mut TaskCache, name: &str, created: i64, who: Option<&str>) -> u128 {
    let t = Task::new_at(Summary::parse(name).unwrap(), at(created)).with_category(Category::parse("Household").unwrap());
    let id = cache.add_at(t, "me", at(created));
    assert!(cache.modify_at(id, "me", assignee_edit(who), at(created + 1)));
    id
}

#[test]
fn reports_per_assignee_and_weekly_review() {
    let day = 86_400;
    let mut cache = TaskCache::with_dir("tasks".to_string());
    let water = assigned_task(&mut cache, "Water plants", -3 * day, Some("alice"));
    assert!(cache.modify_at(water, "alice", TaskEdit::Complete, at(-day)));
    assigned_task(&mut cache, "Old chore", -30 * day, None);
    assigned_task(&mut cache, "Call plumber", -7_200, Some("bob"));
    let long_done = assigned_task(&mut cache, "Fix fence", -20 * day, Some("alice"));
    assert!(cache.modify_at(long_done, "alice", TaskEdit::Complete, at(-10 * day)));
    let today = chrono_day(2026, 5, 11);
    assert!(all_open_tasks_placeable(&cache));

    let (r, text) = read_resource(&cache, "kid://report/weekly", today).unwrap();
    assert_eq!(r, McpResource::WeeklyReport);
    assert_eq!(
        text,
        "*Weekly Review*\n\n*Finished*\n\n- [x] Water plants _Household_\n\n*Opened*\n\n- [ ] Call plumber _Household_\n"
    );
    let (_, text) = read_resource(&cache, "kid://report/weekly/alice", today).unwrap();
    assert_eq!(text, "*Weekly Review*\n\n*Finished*\n\n- [x] Water plants _Household_\n\n*Opened*\n\nNothing opened.\n");
    let (_, text) = read_resource(&cache, "kid://report/weekly/unassigned", today).unwrap();
    assert_eq!(text, "*Weekly Review*\n\n*Finished*\n\nNothing finished.\n\n*Opened*\n\nNothing opened.\n");

    let (r, text) = read_resource(&cache, "kid://report/backlog/bob", today).unwrap();
    assert_eq!(r, McpResource::Backlog);
    assert!(text.ends_with("\n\n- [ ] Call plumber _Household_\n"));
    assert!(!text.contains("Old chore"));
    let (_, text) = read_resource(&cache, "kid://report/backlog/unassigned", today).unwrap();
    assert!(text.ends_with("\n\n- [ ] Old chore _Household_\n"));
    assert!(!text.contains("Call plumber"));
    let (r, text) = read_resource(&cache, "kid://report/daily/alice", today).unwrap();
    assert_eq!(r, McpResource::DailyReport);
    assert_eq!(text, "*Daily Report*\n\nNo open tasks due, or ready to start, today.\n");
    let (r, _) = read_resource(&cache, "kid://report/quick_wins/carol", today).unwrap();
    assert_eq!(r, McpResource::QuickWins);

    assert_eq!(read_resource(&cache, "kid://report/daily/", today).unwrap_err(), "unknown resource: kid://report/daily/");
    assert_eq!(read_resource(&cache, "kid://categories/alice", today).unwrap_err(), "unknown resource: kid://categories/alice");
    assert_eq!(read_resource(&cache, "kid://report/dailyx", today).unwrap_err(), "unknown resource: kid://report/dailyx");
}
