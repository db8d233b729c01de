//! The task tools of the MCP endpoint and the randomly opened reports.

use kid::cache::TaskCache;
use kid::mcp::{assignee_edit, host_header, hyphenated, not_found_message, parse_contexts, run_add_tool, run_edit_tool, ToolError, ToolReply};
use kid::oauth::{actor_string, ClientPrefix, OnBehalfOf, Prefix};
use kid::report::{backlog_intros, backlog_report, daily_report, quick_wins_intros, quick_wins_report};
use kid::task::{Summary, Task, TaskEdit};
use kid::time::Timestamp;

const ID: u128 = 0x019c500f_e598_75a1_9bd9_286e3d82cd04;

fn at(s: i64) -> Timestamp {
    Timestamp { secs: 1_778_486_400 + s, nanos: 0, offset: 0 }
}

#[test]
fn uuid_hyphenated() {
    assert_eq!(hyphenated(ID), "019c500f-e598-75a1-9bd9-286e3d82cd04");
    assert_eq!(not_found_message(ID), "task 019c500f-e598-75a1-9bd9-286e3d82cd04 not found");
}

#[test]
fn contexts_parse_or_fail() {
    let ok = parse_contexts(&vec!["@home".to_string(), "@phone".to_string()]).unwrap();
    assert_eq!(ok.len(), 2);
    assert!(parse_contexts(&vec!["@home".to_string(), "home".to_string()]).is_err());
    assert_eq!(parse_contexts(&vec![]).unwrap().len(), 0);
}

#[test]
fn read_only_client_is_refused() {
    let mut cache = TaskCache::with_dir("tasks".to_string());
    let id = cache.add_at(Task::new(Summary::parse("a").unwrap()), "me", at(0));
    let actor = actor_string(Some("helper"), Some(Prefix(ClientPrefix::Ai)), None);
    let r = run_edit_tool(&mut cache, id, actor, TaskEdit::Complete, "completed", at(10));
    match r {
        Err(ToolError::InvalidRequest(m)) => {
            assert_eq!(m, "client ai:helper is read-only (no on-behalf-of configured)")
        }
        other => panic!("unexpected {other:?}"),
    }
    assert!(!cache.get(id).unwrap().info().is_done());
}

#[test]
fn edit_tool_records_actor() {
    let mut cache = TaskCache::with_dir("tasks".to_string());
    let id = cache.add_at(Task::new(Summary::parse("a").unwrap()), "me", at(0));
    let who = OnBehalfOf("alice".to_string());
    let actor = actor_string(Some("helper"), Some(Prefix(ClientPrefix::Ai)), Some(&who));
    let r = run_edit_tool(&mut cache, id, actor, TaskEdit::Complete, "completed", at(10));
    assert!(matches!(r, Ok(ToolReply::Success("completed"))));
    let task = cache.get(id).unwrap();
    assert!(task.info().is_done());
    assert_eq!(task.authors()[1].0, "ai:helper:alice");
}

#[test]
fn edit_tool_reports_unknown_task() {
    let mut cache = TaskCache::with_dir("tasks".to_string());
    let r = run_edit_tool(&mut cache, ID, Ok("me".to_string()), TaskEdit::Complete, "completed", at(10));
    match r {
        Ok(ToolReply::NotFound(m)) => assert_eq!(m, "task 019c500f-e598-75a1-9bd9-286e3d82cd04 not found"),
        other => panic!("unexpected {other:?}"),
    }
    assert_eq!(cache.dirty_len(), 0);
}

#[test]
fn add_tool_checks_input_first() {
    let mut cache = TaskCache::with_dir("tasks".to_string());
    let r = run_add_tool(&mut cache, "", "Home", &vec![], None, Err("read-only".to_string()), at(0));
    assert!(matches!(r, Err(ToolError::InvalidParams(_))));
    let r = run_add_tool(&mut cache, "a", "Home", &vec!["home".to_string()], None, Ok("me".to_string()), at(0));
    assert!(matches!(r, Err(ToolError::InvalidParams(_))));
    let r = run_add_tool(&mut cache, "a", "Home", &vec![], None, Err("read-only".to_string()), at(0));
    assert!(matches!(r, Err(ToolError::InvalidRequest(ref m)) if m == "read-only"));
    assert_eq!(cache.len(), 0);
}

#[test]
fn add_tool_adds_task() {
    let mut cache = TaskCache::with_dir("tasks".to_string());
    let r = run_add_tool(&mut cache, "Buy milk", "Home", &vec!["@shop".to_string()], None, Ok("me".to_string()), at(0));
    let id = match r {
        Ok(ToolReply::Added(id)) => id,
        other => panic!("unexpected {other:?}"),
    };
    assert_eq!((id >> 76) & 0xf, 7);
    assert!(cache.is_dirty(id));
    let task = cache.get(id).unwrap();
    assert_eq!(task.info().summary(), "Buy milk");
    assert_eq!(task.info().category().as_str(), "Home");
    assert_eq!(task.authors()[0].0, "me");
}

#[test]
fn reports_open_with_one_of_their_intros() {
    let backlog = backlog_report(&vec![]);
    assert!(backlog_intros()
        .iter()
        .any(|i| backlog == format!("*Backlog*\n\n{i}\n\nNo open tasks without a date.\n")));
    let quick = quick_wins_report(&vec![]);
    assert!(quick_wins_intros()
        .iter()
        .any(|i| quick == format!("*Quick Wins*\n\n{i}\n\nNo open tasks have a time estimate.\n")));
    assert_eq!(daily_report(&vec![]), "*Daily Report*\n\nNo open tasks due, or ready to start, today.\n");
}

#[test]
fn host_headers() {
    assert_eq!(host_header(Some("mcp.example.com"), None), Some("mcp.example.com".to_string()));
    assert_eq!(host_header(Some("localhost"), Some(9100)), Some("localhost:9100".to_string()));
    assert_eq!(host_header(None, Some(9100)), None);
}

#[test]
fn set_assignee_tool_sets_and_clears() {
    let mut cache = TaskCache::with_dir("tasks".to_string());
    let id = cache.add_at(Task::new(Summary::parse("a").unwrap()), "me", at(0));
    assert_eq!(cache.get(id).unwrap().assignee(), None);
    let r = run_edit_tool(&mut cache, id, Ok("me".to_string()), assignee_edit(Some("alice")), "assignee set", at(10));
    assert!(matches!(r, Ok(ToolReply::Success("assignee set"))));
    let task = cache.get(id).unwrap();
    assert_eq!(task.assignee(), Some("alice"));
    assert!(task.is_assigned_to(Some(Some("alice"))));
    assert!(!task.is_assigned_to(Some(None)));
    assert!(task.is_assigned_to(None));
    run_edit_tool(&mut cache, id, Ok("me".to_string()), assignee_edit(Some("")), "assignee set", at(20)).unwrap();
    assert_eq!(cache.get(id).unwrap().assignee(), None);
    run_edit_tool(&mut cache, id, Ok("me".to_string()), assignee_edit(Some("bob")), "assignee set", at(30)).unwrap();
    run_edit_tool(&mut cache, id, Ok("me".to_string()), assignee_edit(None), "assignee set", at(40)).unwrap();
    let task = cache.get(id).unwrap();
    assert_eq!(task.assignee(), None);
    assert!(task.is_assigned_to(Some(None)));
}

#[test]
fn hyphenated_form_agrees_with_uuid() {
    for id in [0u128, 1, 0xf, u128::MAX, ID, 0x0123_4567_89ab_cdef_fedc_ba98_7654_3210] {
        assert_eq!(hyphenated(id), uuid::Uuid::from_u128(id).hyphenated().to_string());
    }
}
