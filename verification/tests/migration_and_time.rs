//! Reading the values of older task files, and instants in words.

use kid::ids::created;
use kid::relative::relative_phrase;
use kid::task::{Availability, Date, DetailsPatch, Summary, Task, TimeEstimate};
use kid::time::{now_at_offset, shift_by, weekday, Timestamp, DAY_MAX, DAY_MIN, SECS_MAX, SECS_MIN};

const TIME_Z: &str = "2026-03-13T20:00:00Z";

/// 2026-03-13T20:00:00Z as Unix seconds.
const TIME_Z_SECS: i64 = 1_773_432_000;

#[test]
fn deserialize_time_estimate_legacy_precise_nearest() {
    assert_eq!(TimeEstimate::from_secs(2880), TimeEstimate::Min45);
}

#[test]
fn deserialize_time_estimate_legacy_guess_unparseable() {
    assert_eq!(TimeEstimate::from_legacy_guess("a weekend"), TimeEstimate::Day2);
}

#[test]
fn deserialize_time_estimate_legacy_guess_short_label() {
    assert_eq!(TimeEstimate::from_legacy_guess("1h"), TimeEstimate::Hours1);
}

#[test]
fn deserialize_time_estimate_legacy_guess_display() {
    assert_eq!(TimeEstimate::from_legacy_guess("30 minutes"), TimeEstimate::Min30);
}

#[test]
fn deserialize_due_date_legacy_precise() {
    let at = Timestamp { secs: TIME_Z_SECS, nanos: 0, offset: 0 };
    let date = Date::precise(at);
    assert_eq!(date.date.secs, TIME_Z_SECS);
    assert!(!date.soft);
}

#[test]
fn deserialize_due_date_legacy_guess_unparseable() {
    assert!(Date::from_legacy_guess("next week").is_none());
}

#[test]
fn deserialize_due_date_legacy_guess_rfc3339() {
    let date = Date::from_legacy_guess(TIME_Z).unwrap();
    assert_eq!((date.date.secs, date.date.nanos, date.date.offset), (TIME_Z_SECS, 0, 0));
    assert!(date.soft);
}

#[test]
fn deserialize_due_date_legacy_guess_date_only() {
    let date = Date::from_legacy_guess("2026-04-30").unwrap();
    // 2026-04-30T00:00:00+00:00
    assert_eq!((date.date.secs, date.date.nanos, date.date.offset), (1_777_507_200, 0, 0));
    assert!(date.soft);
}

#[test]
fn deserialize_start_date_legacy_precise() {
    let at = Timestamp { secs: TIME_Z_SECS, nanos: 0, offset: 0 };
    let date = Date::precise(at);
    assert_eq!((date.date.secs, date.date.offset), (TIME_Z_SECS, 0));
    assert!(!date.soft);
}

#[test]
fn deserialize_start_date_legacy_guess_unparseable() {
    assert!(Date::from_legacy_guess("end of month").is_none());
}

#[test]
fn deserialize_start_date_legacy_guess_date_only() {
    let date = Date::from_legacy_guess("2026-07-01").unwrap();
    // 2026-07-01T00:00:00+00:00
    assert_eq!((date.date.secs, date.date.offset), (1_782_864_000, 0));
    assert!(date.soft);
}

#[test]
fn legacy_guess_with_numeric_offset() {
    let date = Date::from_legacy_guess("2026-03-13T22:00:00+0200").unwrap();
    assert_eq!((date.date.secs, date.date.offset), (TIME_Z_SECS, 7200));
    let date = Date::from_legacy_guess("2026-03-13T22:00:00+02:00").unwrap();
    assert_eq!((date.date.secs, date.date.offset), (TIME_Z_SECS, 7200));
}

#[test]
fn relative_phrases() {
    assert_eq!(relative_phrase(0).unwrap(), "Just now");
    assert_eq!(relative_phrase(59).unwrap(), "Just now");
    assert_eq!(relative_phrase(-59).unwrap(), "Just now");
    assert_eq!(relative_phrase(60).unwrap(), "1 minute ago");
    assert_eq!(relative_phrase(150).unwrap(), "2 minutes ago");
    assert_eq!(relative_phrase(3600).unwrap(), "1 hour ago");
    assert_eq!(relative_phrase(7300).unwrap(), "2 hours ago");
    assert_eq!(relative_phrase(86400 + 3600).unwrap(), "1 day and 1 hour ago");
    assert_eq!(relative_phrase(2 * 86400).unwrap(), "2 days and 0 hours ago");
    assert_eq!(relative_phrase(-60).unwrap(), "in 1 minute");
    assert_eq!(relative_phrase(-3660).unwrap(), "in 1 hour and 1 minute");
    assert_eq!(relative_phrase(-7200).unwrap(), "in 2 hours and 0 minutes");
    assert_eq!(relative_phrase(-(86400 + 3600 + 60)).unwrap(), "in 1 day, 1 hour and 1 minute");
    assert_eq!(relative_phrase(-(3 * 86400 + 5 * 3600 + 7 * 60)).unwrap(), "in 3 days, 5 hours and 7 minutes");
    assert!(relative_phrase(7 * 86400).is_none());
    assert!(relative_phrase(-7 * 86400).is_none());
    assert!(relative_phrase(i64::MIN).is_none());
}

#[test]
fn relative_time_between_instants() {
    let then = Timestamp { secs: TIME_Z_SECS, nanos: 0, offset: 3600 };
    let now = Timestamp { secs: TIME_Z_SECS + 300, nanos: 500, offset: 0 };
    assert_eq!(then.to_relative_time_at(now), "5 minutes ago");
    assert_eq!(now.to_relative_time_at(then), "in 5 minutes");
}

#[test]
fn creation_time_of_a_v7_id() {
    let t = created(0x019c500f_e598_75a1_9bd9_286e3d82cd04);
    // 0x019c500fe598 milliseconds after the epoch
    assert_eq!(t.secs, 0x019c500fe598_i64 / 1000);
    assert_eq!(t.nanos, (0x019c500fe598_i64 % 1000) as u32 * 1_000_000);
    assert_eq!(t.offset, 0);
}

#[test]
fn shifted_clock() {
    let now = Timestamp { secs: TIME_Z_SECS, nanos: 7, offset: 0 };
    let t = shift_by(now, Some(86400)).unwrap();
    assert_eq!((t.secs, t.nanos), (TIME_Z_SECS + 86400, 7));
    assert_eq!(shift_by(now, None).unwrap().secs, TIME_Z_SECS);
    assert!(shift_by(now, Some(i64::MAX)).is_none());
    assert!(now_at_offset(Some(i64::MIN)).is_none());
    assert!(now_at_offset(None).is_some());
}

#[test]
fn day_at_offset() {
    assert!(kid::time::today_at_offset(None).is_some());
    assert!(kid::time::today_at_offset(Some(i64::MAX)).is_none());
    let today = kid::time::today_at_offset(Some(0)).unwrap();
    let tomorrow = kid::time::today_at_offset(Some(86_400)).unwrap();
    // unless midnight passes between the two readings
    assert!(tomorrow == today + 1 || tomorrow == today + 2);
}

#[test]
fn patching_task_details() {
    let mut t = Task::new(Summary::parse("a").unwrap());
    t.patch_details(DetailsPatch {
        due_date: None,
        start_date: None,
        time_estimate: Some(Some(TimeEstimate::Hours1)),
        availability: Some(Availability::WeekendOnly),
        notes: Some(Some("n".to_string())),
    });
    assert_eq!(t.details().time_estimate(), Some(TimeEstimate::Hours1));
    assert_eq!(t.details().availability(), Availability::WeekendOnly);
    assert_eq!(t.details().notes(), Some("n"));
    t.patch_details(DetailsPatch { due_date: None, start_date: None, time_estimate: Some(None), availability: None, notes: None });
    assert_eq!(t.details().time_estimate(), None);
    assert_eq!(t.details().availability(), Availability::WeekendOnly);
    assert_eq!(t.details().notes(), Some("n"));
}

fn is_dmy_hm(s: &str) -> bool {
    let b = s.as_bytes();
    b.len() == 16
        && b.iter().enumerate().all(|(i, c)| match i {
            2 | 5 => *c == b'.',
            10 => *c == b' ',
            13 => *c == b':',
            _ => c.is_ascii_digit(),
        })
}

#[test]
fn relative_time_from_a_week_on_is_a_date() {
    let then = Timestamp { secs: TIME_Z_SECS, nanos: 0, offset: 0 };
    let later = Timestamp { secs: TIME_Z_SECS + 30 * 86400, nanos: 0, offset: 0 };
    let text = then.to_relative_time_at(later);
    assert!(is_dmy_hm(&text), "{text}");
    let text = later.to_relative_time_at(then);
    assert!(is_dmy_hm(&text), "{text}");
    let week = Timestamp { secs: TIME_Z_SECS - 7 * 86400, nanos: 0, offset: 0 };
    assert!(is_dmy_hm(&week.to_relative_time_at(then)));
}

#[test]
fn calendar_arithmetic_agrees_with_chrono() {
    let mut days: Vec<i32> = vec![DAY_MIN, DAY_MIN + 1, -1, 0, 1, 719_163, 740_000, DAY_MAX - 1, DAY_MAX];
    let mut d: i64 = DAY_MIN as i64;
    while d <= DAY_MAX as i64 {
        days.push(d as i32);
        d += 9_999_991;
    }
    for d in days {
        let date = chrono::NaiveDate::from_num_days_from_ce_opt(d).unwrap();
        assert_eq!(weekday(d), chrono::Datelike::weekday(&date).num_days_from_monday(), "{d}");
    }
    assert!(chrono::NaiveDate::from_num_days_from_ce_opt(DAY_MIN - 1).is_none());
    assert!(chrono::NaiveDate::from_num_days_from_ce_opt(DAY_MAX + 1).is_none());
    assert!(chrono::DateTime::from_timestamp(SECS_MIN, 0).is_some());
    assert!(chrono::DateTime::from_timestamp(SECS_MIN - 1, 0).is_none());
    assert!(chrono::DateTime::from_timestamp(SECS_MAX, 0).is_some());
    assert!(chrono::DateTime::from_timestamp(SECS_MAX + 1, 0).is_none());
    let secs = [SECS_MIN + 86_400, -86_401, -1, 0, 1, 1_778_486_399, 1_778_486_400, SECS_MAX - 86_400];
    for s in secs {
        for off in [-86_399, -3_600, 0, 3_600, 19_800, 86_399] {
            let t = Timestamp { secs: s, nanos: 0, offset: off };
            let fixed = chrono::FixedOffset::east_opt(off).unwrap();
            let local = chrono::DateTime::from_timestamp(s, 0).unwrap().with_timezone(&fixed);
            assert_eq!(t.local_day(), chrono::Datelike::num_days_from_ce(&local.date_naive()), "{s} {off}");
        }
    }
}
