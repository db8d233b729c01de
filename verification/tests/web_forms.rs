//! The server functions of the web interface.

use kid::cache::TaskCache;
use kid::mcp::{server_instructions, server_name};
use kid::task::{Summary, Task, TaskEdit};
use kid::time::Timestamp;
use kid::present::ViewSlug;
use kid::web::{
    backlog_footer, checkbox_after_save, completion_edit, contexts_not_saved, is_expanded, toggle_expanded, empty_list_text, notes_edit, run_web_edit, show_since, task_details,
    task_not_exist_message, web_actor, SavedText,
};

const ID: u128 = 0x019c500f_e598_75a1_9bd9_286e3d82cd04;

fn at(s: i64) -> Timestamp {
    Timestamp { secs: 1_778_486_400 + s, nanos: 0, offset: 0 }
}

#[test]
fn actor_from_proxy_or_fallback() {
    assert_eq!(web_actor(Some("jane"), Some("dev")).unwrap(), "jane");
    assert_eq!(web_actor(None, Some("dev")).unwrap(), "dev");
    assert_eq!(web_actor(None, None).unwrap_err(), "no authenticated user");
}

#[test]
fn form_edits() {
    assert!(matches!(notes_edit(String::new()), TaskEdit::SetNotes(None)));
    assert!(matches!(notes_edit("call first".to_string()), TaskEdit::SetNotes(Some(ref n)) if n == "call first"));
    assert!(matches!(completion_edit(true), TaskEdit::Complete));
    assert!(matches!(completion_edit(false), TaskEdit::Reopen));
}

#[test]
fn web_edit_and_details() {
    let mut cache = TaskCache::with_dir("tasks".to_string());
    assert_eq!(task_not_exist_message(ID), "task with 019c500f-e598-75a1-9bd9-286e3d82cd04 does not exist");
    assert_eq!(
        run_web_edit(&mut cache, ID, Ok("jane".to_string()), TaskEdit::Complete, at(0)).unwrap_err(),
        "task with 019c500f-e598-75a1-9bd9-286e3d82cd04 does not exist"
    );
    let id = cache.add_at(Task::new(Summary::parse("a").unwrap()), "me", at(0));
    assert_eq!(
        run_web_edit(&mut cache, id, Err("no authenticated user".to_string()), TaskEdit::Complete, at(10)).unwrap_err(),
        "no authenticated user"
    );
    assert!(!cache.get(id).unwrap().info().is_done());
    run_web_edit(&mut cache, id, Ok("jane".to_string()), notes_edit("x".to_string()), at(600)).unwrap();
    let (i, details, history) = task_details(&cache, id).unwrap();
    assert_eq!(i, id);
    assert_eq!(details.notes(), Some("x"));
    assert_eq!(history.len(), 2);
    assert_eq!(history[0].0, "jane");
    assert_eq!(history[1].0, "me");
    assert!(task_details(&cache, ID).is_err());
}

#[test]
fn mcp_server_info() {
    assert_eq!(server_name(), "kid-mcp");
    assert!(server_instructions().starts_with("Family task manager."));
}

#[test]
fn empty_lists_and_backlog_footer() {
    assert_eq!(empty_list_text(ViewSlug::Upcoming, 0), "Nothing on the horizon.");
    assert_eq!(empty_list_text(ViewSlug::Upcoming, 3), "Nothing on the horizon. 3 tasks in backlog.");
    assert_eq!(empty_list_text(ViewSlug::QuickWins, 3), "No estimated tasks.");
    assert_eq!(empty_list_text(ViewSlug::RecentlyChanged, 0), "No recent changes.");
    assert_eq!(backlog_footer(0), None);
    assert_eq!(backlog_footer(12).unwrap(), "── 12 tasks without deadline in backlog ──");
}

#[test]
fn status_time_shown_from_two_minutes_on() {
    let created = Timestamp { secs: 1_778_486_400, nanos: 0, offset: 0 };
    let at = |s: i64, n: u32| Timestamp { secs: 1_778_486_400 + s, nanos: n, offset: 0 };
    assert!(!show_since(created, created));
    assert!(!show_since(at(119, 999_999_999), created));
    assert!(show_since(at(120, 0), created));
    assert!(show_since(at(-120, 0), created));
    assert!(!show_since(at(-119, 1), created));
    assert!(show_since(at(-121, 999_999_999), created));
}

#[test]
fn edited_field_falls_back_on_refusal() {
    let mut f = SavedText::new("Buy milk");
    assert_eq!(f.to_send(), None);
    f.input("Buy oat milk".to_string());
    assert_eq!(f.to_send().unwrap(), "Buy oat milk");
    f.saved("Buy oat milk".to_string());
    assert_eq!(f.to_send(), None);
    f.input("".to_string());
    f.revert();
    assert_eq!(f.shown, "Buy oat milk");
    assert_eq!(f.last_saved, "Buy oat milk");
}

#[test]
fn contexts_of_a_failed_save() {
    let s = |v: &[&str]| v.iter().map(|c| c.to_string()).collect::<Vec<String>>();
    let (added, removed) = contexts_not_saved(&s(&["@home", "@phone", "@car"]), &s(&["@office", "@home"]));
    assert_eq!(added, s(&["@phone", "@car"]));
    assert_eq!(removed, s(&["@office"]));
    let (added, removed) = contexts_not_saved(&s(&["@a"]), &s(&["@a"]));
    assert!(added.is_empty() && removed.is_empty());
}

#[test]
fn task_rows_expand_and_collapse() {
    assert_eq!(toggle_expanded(None, 7), Some(7));
    assert_eq!(toggle_expanded(Some(7), 7), None);
    assert_eq!(toggle_expanded(Some(3), 7), Some(7));
    assert!(is_expanded(Some(7), None, 7));
    assert!(is_expanded(None, Some(7), 7));
    assert!(!is_expanded(Some(3), Some(4), 7));
    assert!(checkbox_after_save(true, true));
    assert!(!checkbox_after_save(true, false));
    assert!(checkbox_after_save(false, false));
}
