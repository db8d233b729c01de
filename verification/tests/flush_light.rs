//! The flush status light and the marks of tasks changed elsewhere.

use kid::flush::FlushOutcome;
use kid::led::{bump_change_version, forget_changed, note_changed, panel_border, FlushLed, LedEvent, LedState, LedTimer};

const BASE: &str = "fixed bottom-4 right-4 z-50 w-2.5 h-2.5 rounded-full transition-opacity duration-200";

#[test]
fn success_shows_then_hides() {
    let mut led = FlushLed::new();
    assert_eq!(led.test_id(), "flush-led-hidden");
    assert_eq!(led.led_class(), format!("{BASE} opacity-0 pointer-events-none"));
    let t = led.handle(LedEvent::Flushed(FlushOutcome::Success { count: 2 }));
    assert_eq!(t, LedTimer::DismissSuccess(3000));
    assert_eq!(led.status_text(), "Tasks saved");
    assert_eq!(led.led_class(), format!("{BASE} bg-green-500 pointer-events-none"));
    assert_eq!(led.handle(LedEvent::SuccessShown), LedTimer::Idle);
    assert!(matches!(led.state, LedState::Hidden));
}

#[test]
fn error_persists_and_opens_panel() {
    let mut led = FlushLed::new();
    let err = |m: &str| LedEvent::Flushed(FlushOutcome::Error { message: m.to_string() });
    assert_eq!(led.handle(err("flushing of 1/2 tasks failed")), LedTimer::Idle);
    assert_eq!(led.test_id(), "flush-led-err");
    assert_eq!(led.status_text(), "Flush error \u{2014} tap for details");
    assert_eq!(led.panel_message(), None);
    // a late dismissal leaves the error shown
    led.handle(LedEvent::SuccessShown);
    assert_eq!(led.test_id(), "flush-led-err");
    led.handle(LedEvent::Tapped);
    assert!(led.panel_open);
    assert_eq!(led.panel_message(), Some("flushing of 1/2 tasks failed"));
    assert_eq!(led.led_class(), format!("{BASE} bg-red-500 cursor-pointer opacity-20"));
    // another failure while the panel is open pulses the light
    assert_eq!(led.handle(err("flushing of 2/2 tasks failed")), LedTimer::EndPulse(300));
    assert!(led.pulse);
    assert_eq!(led.led_class(), format!("{BASE} bg-red-500 cursor-pointer"));
    led.handle(LedEvent::PulseDone);
    assert!(!led.pulse);
    // a success closes the panel
    led.handle(LedEvent::Flushed(FlushOutcome::Success { count: 2 }));
    assert!(!led.panel_open);
    // tapping a light that shows no error does nothing
    led.handle(LedEvent::Tapped);
    assert!(!led.panel_open);
}

#[test]
fn changed_marks() {
    let mut ids = vec![];
    note_changed(&mut ids, 7);
    note_changed(&mut ids, 9);
    note_changed(&mut ids, 7);
    assert_eq!(ids, vec![7, 9]);
    forget_changed(&mut ids, 7);
    assert_eq!(ids, vec![9]);
    forget_changed(&mut ids, 1);
    assert_eq!(ids, vec![9]);
    assert_eq!(panel_border(true), "border-t-[3px] border-amber-400");
    assert_eq!(panel_border(false), "border-t border-slate-700");
}

#[test]
fn change_counter_wraps() {
    assert_eq!(bump_change_version(0), 1);
    assert_eq!(bump_change_version(41), 42);
    assert_eq!(bump_change_version(u32::MAX), 0);
}
