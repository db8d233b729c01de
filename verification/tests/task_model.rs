//! The task model: estimates, availability, priorities and the text
//! fields.

use kid::task::{Availability, Category, Context, Priority, Summary, TimeEstimate};
use kid::text::{is_whitespace, str_trim, strip_prefix};

#[test]
fn lead_days_sub_day_estimates_are_zero() {
    for v in [
        TimeEstimate::Min15,
        TimeEstimate::Min30,
        TimeEstimate::Min45,
        TimeEstimate::Hours1,
        TimeEstimate::Hours2,
        TimeEstimate::HalfDay,
    ] {
        assert_eq!(v.lead_days(), 0, "{:?}", v);
    }
}

#[test]
fn lead_days_day1() {
    assert_eq!(TimeEstimate::Day1.lead_days(), 1);
}

#[test]
fn lead_days_day2() {
    assert_eq!(TimeEstimate::Day2.lead_days(), 2);
}

#[test]
fn availability_default_is_anytime() {
    assert_eq!(Availability::default(), Availability::Anytime);
}

#[test]
fn availability_is_default_only_for_anytime() {
    assert!(Availability::Anytime.is_default());
    assert!(!Availability::WeekdayOnly.is_default());
    assert!(!Availability::WeekendOnly.is_default());
}

#[test]
fn short_labels() {
    assert_eq!(TimeEstimate::Min15.short_label(), "15m");
    assert_eq!(TimeEstimate::HalfDay.short_label(), "½d");
    assert_eq!(TimeEstimate::Day2.short_label(), "2d");
}

#[test]
fn estimate_labels_parse_back() {
    for v in [
        TimeEstimate::Min15,
        TimeEstimate::Min30,
        TimeEstimate::Min45,
        TimeEstimate::Hours1,
        TimeEstimate::Hours2,
        TimeEstimate::HalfDay,
        TimeEstimate::Day1,
        TimeEstimate::Day2,
    ] {
        assert_eq!(TimeEstimate::parse(v.label()), Ok(v));
    }
    assert_eq!(TimeEstimate::parse("forever"), Err("unknown time estimate"));
}

#[test]
fn priority_parse() {
    assert_eq!(Priority::parse(" b "), Ok(Priority::B));
    assert_eq!(Priority::parse("a"), Ok(Priority::A));
    assert_eq!(Priority::parse("D"), Err("priority must be A, B, or C"));
    assert_eq!(Priority::A.label(), "A");
}

#[test]
fn text_fields_refuse_empty_values() {
    assert_eq!(Category::parse("").unwrap_err(), "category must not be empty");
    assert_eq!(Summary::parse("").unwrap_err(), "summary must not be empty");
    assert_eq!(Context::parse("").unwrap_err(), "context must not be empty");
    assert_eq!(Context::parse("home").unwrap_err(), "context must start with '@'");
    assert_eq!(Context::parse("@home").unwrap().as_str(), "@home");
    assert_eq!(Category::inbox().as_str(), "Inbox");
}

#[test]
fn estimate_from_minutes() {
    assert_eq!(TimeEstimate::from_secs(10 * 60), TimeEstimate::Min15);
    assert_eq!(TimeEstimate::from_secs(60 * 60), TimeEstimate::Hours1);
    assert_eq!(TimeEstimate::from_secs(800 * 60), TimeEstimate::Day1);
    assert_eq!(TimeEstimate::from_secs(2000 * 60), TimeEstimate::Day2);
}

#[test]
fn time_estimate_text_is_trimmed_and_case_blind() {
    assert_eq!(TimeEstimate::parse("  1 Hour "), Ok(TimeEstimate::Hours1));
    assert_eq!(TimeEstimate::parse("2D"), Ok(TimeEstimate::Day2));
}

#[test]
fn local_and_utc_day_of_an_instant() {
    // 2026-05-08T23:30:00Z is already 2026-05-09 two hours east
    let t = kid::time::Timestamp { secs: 1_778_283_000, nanos: 0, offset: 7200 };
    assert_eq!(t.local_day(), t.utc_day() + 1);
}

#[test]
fn prefix_stripping() {
    assert_eq!(strip_prefix("kid://report/daily/alice", "kid://report/daily/"), Some("alice"));
    assert_eq!(strip_prefix("kid://report/daily/", "kid://report/daily/"), Some(""));
    assert_eq!(strip_prefix("kid://report", "kid://report/daily/"), None);
    assert_eq!(strip_prefix("kid://rapport/daily/x", "kid://report/"), None);
    assert_eq!(strip_prefix("ümlaut", "ü"), Some("mlaut"));
}

#[test]
fn trimming_agrees_with_std() {
    for s in ["", "   ", "a", "  a b  ", "\t\n x\u{3000}", "\u{a0}ü\u{2009}", "x\u{200b}", "\u{85}y\u{2029}"] {
        assert_eq!(str_trim(s), s.trim(), "{s:?}");
    }
    for u in 0u32..0x3100 {
        if let Some(c) = char::from_u32(u) {
            assert_eq!(is_whitespace(c), c.is_whitespace(), "{u:#x}");
        }
    }
}
