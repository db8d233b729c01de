//! The task cache: ids, edits, dirty marks, flush planning, file names and
//! the legacy format check.

use kid::cache::{detect_legacy_format, file_name, file_path, task_file_id, FlushOp, TaskCache};
use kid::flush::{FlushOutcome, FlushRetry, FsError, LoadTally, SwitchDirError};
use kid::task::{Summary, Task, TaskEdit};
use kid::time::Timestamp;

const ID: u128 = 0x019c500f_e598_75a1_9bd9_286e3d82cd04;

fn task(name: &str) -> Task {
    Task::new(Summary::parse(name).unwrap())
}

fn at(s: i64) -> Timestamp {
    Timestamp { secs: 1_778_486_400 + s, nanos: 0, offset: 0 }
}

#[test]
fn filenames() {
    // empty dir
    assert_eq!(file_path("", ID), "task-019c500fe59875a19bd9286e3d82cd04.json");
    // absolute dir
    assert_eq!(file_path("/tasks", ID), "/tasks/task-019c500fe59875a19bd9286e3d82cd04.json");
    // relative dir
    assert_eq!(file_path("tasks", ID), "tasks/task-019c500fe59875a19bd9286e3d82cd04.json");
    assert_eq!(file_path("tasks/", ID), "tasks/task-019c500fe59875a19bd9286e3d82cd04.json");
    assert_eq!(file_name(ID), "task-019c500fe59875a19bd9286e3d82cd04.json");
}

#[test]
fn task_file_ids() {
    assert_eq!(task_file_id("task-019c500fe59875a19bd9286e3d82cd04"), Some(ID));
    assert_eq!(task_file_id("task-019c500f-e598-75a1-9bd9-286e3d82cd04"), Some(ID));
    // version 4 UUID
    assert_eq!(task_file_id("task-936da01f9abd4d9d80c702af85c822a8"), None);
    assert_eq!(task_file_id("task-nonsense"), None);
    assert_eq!(task_file_id("notes"), None);
}

fn detect(json: &str) -> bool {
    detect_legacy_format(json)
}

#[test]
fn detect_legacy_format_no_time_estimate() {
    let json = r#"{"summary":"A","status":{"ToDo":{"since":"2026-01-01T00:00:00Z"}}}"#;
    assert!(!detect(json));
}

#[test]
fn detect_legacy_format_status_string() {
    let json = r#"{"summary":"A","status":"ToDo"}"#;
    assert!(detect(json));
}

#[test]
fn detect_legacy_format_time_estimate_guess() {
    let json = r#"{"summary":"A","status":{"ToDo":{"since":"2026-01-01T00:00:00Z"}},"time_estimate":{"Guess":"a weekend"}}"#;
    assert!(detect(json));
}

#[test]
fn detect_legacy_format_time_estimate_precise() {
    let json = r#"{"summary":"A","status":{"ToDo":{"since":"2026-01-01T00:00:00Z"}},"time_estimate":{"Precise":{"secs":3600,"nanos":0}}}"#;
    assert!(detect(json));
}

#[test]
fn detect_legacy_format_time_estimate_variant() {
    let json = r#"{"summary":"A","status":{"ToDo":{"since":"2026-01-01T00:00:00Z"}},"time_estimate":"Hours1"}"#;
    assert!(!detect(json));
}

#[test]
fn detect_legacy_format_context_field() {
    let json = r#"{"summary":"A","status":{"ToDo":{"since":"2026-01-01T00:00:00Z"}},"context":"Children"}"#;
    assert!(detect(json));
}

#[test]
fn detect_legacy_format_category_field() {
    let json = r#"{"summary":"A","status":{"ToDo":{"since":"2026-01-01T00:00:00Z"}},"category":"Children"}"#;
    assert!(!detect(json));
}

#[test]
fn detect_legacy_format_legacy_date() {
    let json = r#"{"summary":"A","status":{"ToDo":{"since":"2026-01-01T00:00:00Z"}},"due_date":{"Guess":"soon"}}"#;
    assert!(detect(json));
}

#[test]
fn unparsable_text_is_not_legacy() {
    assert!(!detect("{not json"));
}

#[test]
fn add_marks_dirty_and_get_returns_task() {
    let mut cache = TaskCache::with_dir("tasks".to_string());
    let id = cache.add(task("a"), "me");
    assert_eq!((id >> 76) & 0xf, 7);
    assert!(cache.is_dirty(id));
    assert_eq!(cache.get(id).unwrap().info().summary(), "a");
    assert_eq!(cache.len(), 1);
    assert_eq!(cache.get(id).unwrap().authors()[0].0, "me");
}

#[test]
fn remove_marks_dirty_and_forgets() {
    let mut cache = TaskCache::with_dir("tasks".to_string());
    let id = cache.add(task("a"), "me");
    assert!(cache.remove(id));
    assert!(cache.get(id).is_none());
    assert!(cache.is_dirty(id));
    assert!(!cache.remove(id));
}

#[test]
fn modify_keeps_order_and_records_author() {
    let mut cache = TaskCache::with_dir("tasks".to_string());
    let a = cache.add_at(task("a"), "me", at(0));
    let b = cache.add_at(task("b"), "me", at(0));
    assert!(cache.modify_at(a, "you", TaskEdit::Rename(Summary::parse("A").unwrap()), at(10)));
    assert_eq!(cache.entry_at(0).0, a);
    assert_eq!(cache.entry_at(1).0, b);
    assert_eq!(cache.get(a).unwrap().info().summary(), "A");
    let authors = cache.get(a).unwrap().authors();
    assert_eq!(authors.len(), 2);
    assert_eq!(authors[1].0, "you");
    assert!(!cache.modify_at(12345, "you", TaskEdit::Complete, at(10)));
}

#[test]
fn edits_of_one_author_within_five_minutes_count_once() {
    let mut cache = TaskCache::with_dir("tasks".to_string());
    let a = cache.add_at(task("a"), "me", at(0));
    cache.modify_at(a, "me", TaskEdit::Complete, at(120));
    assert_eq!(cache.get(a).unwrap().authors()[0].1.len(), 1);
    assert_eq!(cache.get(a).unwrap().authors()[0].1[0].secs, at(120).secs);
    cache.modify_at(a, "me", TaskEdit::Reopen, at(120 + 300));
    assert_eq!(cache.get(a).unwrap().authors()[0].1.len(), 2);
}

#[test]
fn flush_plan_and_outcome() {
    let mut cache = TaskCache::with_dir("tasks".to_string());
    let a = cache.add(task("a"), "me");
    let b = cache.add(task("b"), "me");
    assert!(cache.remove(b));
    {
        let plan = cache.flush_plan();
        assert_eq!(plan.len(), 2);
        assert!(matches!(plan[0], FlushOp::Write(id, _) if id == a));
        assert!(matches!(plan[1], FlushOp::Delete(id) if id == b));
    }
    let e = cache.finish_flush(&vec![b]).unwrap_err();
    assert_eq!(e.failed(), 1);
    assert_eq!(e.all(), 2);
    assert_eq!(e.message(), "flushing of 1/2 tasks failed");
    assert!(!cache.is_dirty(a));
    assert!(cache.is_dirty(b));
    assert_eq!(cache.finish_flush(&vec![]).unwrap(), 1);
    assert_eq!(cache.dirty_len(), 0);
}

#[test]
fn load_tally() {
    let mut t = LoadTally::new();
    t.task_loaded(false);
    t.task_loaded(true);
    assert_eq!(t.finish().unwrap(), (2, 1));
    t.failed();
    let e = t.finish().unwrap_err();
    assert_eq!((e.failed(), e.all()), (1, 3));
    assert_eq!(e.message(), "loading of 1/3 tasks failed");
}

#[test]
fn error_messages() {
    assert_eq!(FsError::ReadDir("/x".to_string()).message(), "failed to read directory: /x");
    assert_eq!(
        FsError::CreateDir("/x".to_string()).message(),
        "failed to create directory recursively: /x"
    );
    assert_eq!(SwitchDirError::Load("boom".to_string()).message(), "load failed: boom");
    assert_eq!(SwitchDirError::Flush("boom".to_string()).message(), "flush failed: boom");
}

#[test]
fn background_flush_rhythm() {
    let mut cache = TaskCache::with_dir("tasks".to_string());
    let a = cache.add(task("a"), "me");
    let failed = cache.finish_flush(&vec![a]);
    let mut retry = FlushRetry::new();
    let action = retry.after_flush(&failed);
    assert_eq!(action.retry_after, Some(30_000_000_000));
    assert!(matches!(action.event, Some(FlushOutcome::Error { ref message }) if message == "flushing of 1/1 tasks failed"));
    assert_eq!(retry.failed, 1);
    for _ in 0..10 {
        retry.after_flush(&failed);
    }
    assert_eq!(retry.failed, 0);
    let ok: Result<usize, kid::cache::FlushErrors> = Ok(3);
    let action = retry.after_flush(&ok);
    assert!(matches!(action.event, Some(FlushOutcome::Success { count: 3 })));
    let none: Result<usize, kid::cache::FlushErrors> = Ok(0);
    assert!(retry.after_flush(&none).event.is_none());
}

#[test]
fn detect_legacy_format_start_date_precise() {
    let json = r#"{"summary":"A","status":{"ToDo":{"since":"2026-01-01T00:00:00Z"}},"start_date":{"Precise":"2026-03-13T20:00:00Z"}}"#;
    assert!(detect(json));
}

#[test]
fn detect_legacy_format_current_date() {
    let json = r#"{"summary":"A","status":{"ToDo":{"since":"2026-01-01T00:00:00Z"}},"due_date":{"date":"2026-03-13T20:00:00Z","soft":false}}"#;
    assert!(!detect(json));
}

#[test]
fn author_log_keeps_first_edit_order_and_survives_clone() {
    let mut cache = TaskCache::with_dir("tasks".to_string());
    let a = cache.add_at(task("a"), "me", at(0));
    cache.modify_at(a, "you", TaskEdit::Complete, at(60));
    cache.modify_at(a, "me", TaskEdit::Reopen, at(1_000));
    let t = cache.get(a).unwrap().clone();
    let authors = t.authors();
    assert_eq!(authors.len(), 2);
    assert_eq!(authors[0].0, "me");
    assert_eq!(authors[0].1.iter().map(|x| x.secs).collect::<Vec<i64>>(), vec![at(0).secs, at(1_000).secs]);
    assert_eq!(authors[1].0, "you");
    assert_eq!(authors[1].1.len(), 1);
    assert_eq!(authors[1].1[0].secs, at(60).secs);
}
