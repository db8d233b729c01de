//! The flush status light of the browser view, the tasks it marks as
//! changed elsewhere and the counter of such changes: what each server
//! event and each tap does to them.

use vstd::prelude::*;

use crate::flush::FlushOutcome;

verus! {

/// What the light shows.
#[derive(Debug)]
pub enum LedState {
    /// Nothing: no flush seen yet, or a success shown long enough.
    Hidden,
    /// The last flush succeeded: green, for a moment.
    Success,
    /// The last flush failed: red, until the next success.
    Error { message: String },
}

/// The flush status light: what it shows, whether the error panel is
/// open, and whether the light is pulsing.
#[derive(Debug)]
pub struct FlushLed {
    pub state: LedState,
    pub panel_open: bool,
    pub pulse: bool,
}

/// What reaches the light.
#[derive(Debug)]
pub enum LedEvent {
    /// The server reports a flush.
    Flushed(FlushOutcome),
    /// The success has been shown for [`SUCCESS_SHOWN_MS`].
    SuccessShown,
    /// The pulse has lasted [`PULSE_MS`].
    PulseDone,
    /// The light was tapped.
    Tapped,
}

/// How long a success stays green, in milliseconds.
pub const SUCCESS_SHOWN_MS: u64 = 3000;

/// How long the light pulses, in milliseconds.
pub const PULSE_MS: u64 = 300;

/// The timer an event arms, if any.
#[derive(Debug, PartialEq, Eq, Structural)]
pub enum LedTimer {
    Idle,
    /// Send [`LedEvent::SuccessShown`] after this many milliseconds.
    DismissSuccess(u64),
    /// Send [`LedEvent::PulseDone`] after this many milliseconds.
    EndPulse(u64),
}

pub open spec fn led_base() -> Seq<char> {
    "fixed bottom-4 right-4 z-50 w-2.5 h-2.5 rounded-full transition-opacity duration-200"@
}

impl FlushLed {
    /// Hidden, panel closed, not pulsing.
    pub fn new() -> (l: FlushLed)
        ensures
            l.state is Hidden,
            !l.panel_open,
            !l.pulse,
    {
        FlushLed { state: LedState::Hidden, panel_open: false, pulse: false }
    }

    /// Takes in an event: a successful flush closes the panel and shows
    /// green until dismissed; a failed one shows red with its message and,
    /// while the panel is open, pulses; the end of the success display
    /// hides the light unless something else is shown by then; a tap
    /// opens or closes the panel of an error.
    pub fn handle(&mut self, event: LedEvent) -> (t: LedTimer)
        ensures
            old(self).state is Error && !(event matches LedEvent::Flushed(FlushOutcome::Success { .. }))
                ==> final(self).state is Error,
            match event {
                LedEvent::Flushed(FlushOutcome::Success { .. }) => {
                    &&& final(self).state is Success
                    &&& !final(self).panel_open
                    &&& final(self).pulse == old(self).pulse
                    &&& t == LedTimer::DismissSuccess(SUCCESS_SHOWN_MS)
                },
                LedEvent::Flushed(FlushOutcome::Error { message }) => {
                    &&& final(self).state matches LedState::Error { message: m } && m@ == message@
                    &&& final(self).panel_open == old(self).panel_open
                    &&& final(self).pulse == (old(self).pulse || old(self).panel_open)
                    &&& t == if old(self).panel_open {
                        LedTimer::EndPulse(PULSE_MS)
                    } else {
                        LedTimer::Idle
                    }
                },
                LedEvent::SuccessShown => {
                    &&& (old(self).state is Success ==> final(self).state is Hidden)
                    &&& (!(old(self).state is Success) ==> final(self).state == old(self).state)
                    &&& final(self).panel_open == old(self).panel_open
                    &&& final(self).pulse == old(self).pulse
                    &&& t == LedTimer::Idle
                },
                LedEvent::PulseDone => {
                    &&& final(self).state == old(self).state
                    &&& final(self).panel_open == old(self).panel_open
                    &&& !final(self).pulse
                    &&& t == LedTimer::Idle
                },
                LedEvent::Tapped => {
                    &&& final(self).state == old(self).state
                    &&& final(self).panel_open == if old(self).state is Error {
                        !old(self).panel_open
                    } else {
                        old(self).panel_open
                    }
                    &&& final(self).pulse == old(self).pulse
                    &&& t == LedTimer::Idle
                },
            },
    {
        match event {
            LedEvent::Flushed(FlushOutcome::Success { .. }) => {
                self.panel_open = false;
                self.state = LedState::Success;
                LedTimer::DismissSuccess(SUCCESS_SHOWN_MS)
            },
            LedEvent::Flushed(FlushOutcome::Error { message }) => {
                let timer = if self.panel_open {
                    self.pulse = true;
                    LedTimer::EndPulse(PULSE_MS)
                } else {
                    LedTimer::Idle
                };
                self.state = LedState::Error { message };
                timer
            },
            LedEvent::SuccessShown => {
                if let LedState::Success = self.state {
                    self.state = LedState::Hidden;
                }
                LedTimer::Idle
            },
            LedEvent::PulseDone => {
                self.pulse = false;
                LedTimer::Idle
            },
            LedEvent::Tapped => {
                if let LedState::Error { .. } = self.state {
                    self.panel_open = !self.panel_open;
                }
                LedTimer::Idle
            },
        }
    }

    /// The classes of the light: hidden, green, or red (dimmed while the
    /// panel is open and the light is not pulsing).
    pub fn led_class(&self) -> (s: String)
        ensures
            s@ == led_base() + match self.state {
                LedState::Hidden => " opacity-0 pointer-events-none"@,
                LedState::Success => " bg-green-500 pointer-events-none"@,
                LedState::Error { .. } => if self.panel_open && !self.pulse {
                    " bg-red-500 cursor-pointer opacity-20"@
                } else {
                    " bg-red-500 cursor-pointer"@
                },
            },
    {
        proof {
            reveal_strlit("fixed bottom-4 right-4 z-50 w-2.5 h-2.5 rounded-full transition-opacity duration-200");
        }
        let mut s = String::from_str("fixed bottom-4 right-4 z-50 w-2.5 h-2.5 rounded-full transition-opacity duration-200");
        let tail = match self.state {
            LedState::Hidden => " opacity-0 pointer-events-none",
            LedState::Success => " bg-green-500 pointer-events-none",
            LedState::Error { .. } => if self.panel_open && !self.pulse {
                " bg-red-500 cursor-pointer opacity-20"
            } else {
                " bg-red-500 cursor-pointer"
            },
        };
        s.append(tail);
        s
    }

    /// What a screen reader is told.
    pub fn status_text(&self) -> (s: &'static str)
        ensures
            s@ == match self.state {
                LedState::Hidden => ""@,
                LedState::Success => "Tasks saved"@,
                LedState::Error { .. } => "Flush error \u{2014} tap for details"@,
            },
    {
        match self.state {
            LedState::Hidden => "",
            LedState::Success => "Tasks saved",
            LedState::Error { .. } => "Flush error \u{2014} tap for details",
        }
    }

    /// The test id of the light.
    pub fn test_id(&self) -> (s: &'static str)
        ensures
            s@ == match self.state {
                LedState::Hidden => "flush-led-hidden"@,
                LedState::Success => "flush-led-ok"@,
                LedState::Error { .. } => "flush-led-err"@,
            },
    {
        match self.state {
            LedState::Hidden => "flush-led-hidden",
            LedState::Success => "flush-led-ok",
            LedState::Error { .. } => "flush-led-err",
        }
    }

    /// The message the error panel shows: there is one while the panel is
    /// open on an error.
    pub fn panel_message(&self) -> (m: Option<&str>)
        ensures
            match m {
                Some(t) => self.panel_open && (self.state matches LedState::Error { message } && t@ == message@),
                None => !(self.panel_open && self.state is Error),
            },
    {
        if !self.panel_open {
            return None;
        }
        match &self.state {
            LedState::Error { message } => Some(message.as_str()),
            _ => None,
        }
    }
}

/// The top border of the error panel: amber in edit mode.
pub fn panel_border(edit_mode: bool) -> (s: &'static str)
    ensures
        s@ == if edit_mode {
            "border-t-[3px] border-amber-400"@
        } else {
            "border-t border-slate-700"@
        },
{
    if edit_mode {
        "border-t-[3px] border-amber-400"
    } else {
        "border-t border-slate-700"
    }
}

/// The change counter after a task changed elsewhere: one more, wrapping
/// to zero after its largest value. Whatever reads the counter reloads
/// when it moves.
pub fn bump_change_version(v: u32) -> (r: u32)
    ensures
        r == (if v == u32::MAX { 0 } else { v + 1 }),
        r != v,
{
    v.wrapping_add(1)
}

/// How long a task changed elsewhere stays marked, in milliseconds.
pub const CHANGE_MARK_MS: u64 = 4000;

/// Marks task `id` as changed elsewhere; a task is marked once.
pub fn note_changed(ids: &mut Vec<u128>, id: u128)
    ensures
        final(ids)@ == if old(ids)@.contains(id) {
            old(ids)@
        } else {
            old(ids)@.push(id)
        },
{
    let mut k: usize = 0;
    while k < ids.len()
        invariant
            k <= ids.len(),
            ids@ == old(ids)@,
            forall|j: int| 0 <= j < k ==> ids@[j] != id,
        decreases ids.len() - k,
    {
        if ids[k] == id {
            return;
        }
        k += 1;
    }
    ids.push(id);
}

/// `ids` without `id`, in order.
pub open spec fn without(ids: Seq<u128>, id: u128) -> Seq<u128>
    decreases ids.len(),
{
    if ids.len() == 0 {
        Seq::empty()
    } else if ids.last() == id {
        without(ids.drop_last(), id)
    } else {
        without(ids.drop_last(), id).push(ids.last())
    }
}

/// Unmarks task `id`.
pub fn forget_changed(ids: &mut Vec<u128>, id: u128)
    ensures
        final(ids)@ == without(old(ids)@, id),
{
    let ghost all = ids@;
    let mut kept: Vec<u128> = Vec::new();
    let mut k: usize = 0;
    while k < ids.len()
        invariant
            k <= ids.len(),
            ids@ == all,
            kept@ == without(all.take(k as int), id),
        decreases ids.len() - k,
    {
        assert(all.take(k + 1).drop_last() =~= all.take(k as int));
        assert(all.take(k + 1).last() == all[k as int]);
        if ids[k] != id {
            kept.push(ids[k]);
        }
        k += 1;
    }
    assert(all.take(ids.len() as int) =~= all);
    *ids = kept;
}

} // verus!
