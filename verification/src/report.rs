//! Markdown reports of the MCP resources: the daily report, the backlog,
//! the quick wins and the weekly review, one checkbox line per task.

use vstd::prelude::*;

use rand::prelude::IndexedRandom;

use crate::groups::PairView;
use crate::task::{Infos, InfosView, TimeEstimate};
use crate::time::{day_in_range, is_weekend, spec_is_weekend};
use crate::sort::{is_sorted_permutation, lemma_runs_items, permuted, runs};
use crate::upcoming::{entry_view, group_view, groups_view, labelled, pairs_view, placed_key, upcoming_groups, PlacedView, UpcomingEntryView};
use crate::views::DeadlineGroup;

verus! {

/// One task as a Markdown checkbox line: `- [ ] <summary> _<category>_`, a
/// ticked box for a done task, and a warning in place of an empty category.
pub open spec fn spec_task_line(info: InfosView) -> Seq<char> {
    let category = if info.2.len() == 0 {
        "⚠ no category"@
    } else {
        info.2
    };
    let boxed = if info.1.spec_is_done() {
        "- [x] "@
    } else {
        "- [ ] "@
    };
    boxed + info.0 + " _"@ + category + "_\n"@
}

/// Renders one task; see [`spec_task_line`].
pub fn task_line(info: &Infos) -> (s: String)
    ensures
        s@ == spec_task_line(info@),
{
    proof {
        reveal_strlit("⚠ no category");
        reveal_strlit("- [x] ");
        reveal_strlit("- [ ] ");
        reveal_strlit(" _");
        reveal_strlit("_\n");
    }
    let mut s = if info.is_done() {
        String::from_str("- [x] ")
    } else {
        String::from_str("- [ ] ")
    };
    s.append(info.summary());
    s.append(" _");
    let category = info.category().as_str();
    if category.unicode_len() == 0 {
        s.append("⚠ no category");
    } else {
        s.append(category);
    }
    s.append("_\n");
    s
}

/// The lines of a list of tasks.
pub open spec fn spec_lines(infos: Seq<InfosView>) -> Seq<char>
    decreases infos.len(),
{
    if infos.len() == 0 {
        Seq::empty()
    } else {
        spec_lines(infos.drop_last()) + spec_task_line(infos.last())
    }
}

/// The first task of a week group that falls on a weekend, when tasks on
/// weekdays come before it.
pub open spec fn first_weekend(es: Seq<UpcomingEntryView>) -> Option<int>
    decreases es.len(),
{
    if es.len() == 0 {
        None
    } else {
        match first_weekend(es.drop_last()) {
            Some(i) => Some(i),
            None => if spec_is_weekend(es.last().3) {
                Some(es.len() - 1)
            } else {
                None
            },
        }
    }
}

/// Every task of the group falls on a weekend.
pub open spec fn all_weekend(es: Seq<UpcomingEntryView>) -> bool {
    forall|i: int| 0 <= i < es.len() ==> spec_is_weekend(#[trigger] es[i].3)
}

/// Where the divider between weekday and weekend tasks goes in a group.
pub open spec fn divider_at(g: DeadlineGroup, es: Seq<UpcomingEntryView>) -> Option<int> {
    if g.spec_is_week() {
        match first_weekend(es) {
            Some(i) => if i > 0 {
                Some(i)
            } else {
                None
            },
            None => None,
        }
    } else {
        None
    }
}

/// The lines of a group's tasks, with `---` before the task at `divider`.
pub open spec fn spec_group_lines(es: Seq<UpcomingEntryView>, divider: Option<int>) -> Seq<char>
    decreases es.len(),
{
    if es.len() == 0 {
        Seq::empty()
    } else {
        let rule = if divider == Some(es.len() - 1) {
            "---\n\n"@
        } else {
            Seq::empty()
        };
        spec_group_lines(es.drop_last(), divider) + rule + spec_task_line(es.last().1)
    }
}

/// One group of the daily report: its heading, then its tasks.
pub open spec fn spec_group_section(g: (DeadlineGroup, Seq<UpcomingEntryView>)) -> Seq<char> {
    "\n*"@ + g.0.spec_display_label(g.0.spec_is_week() && all_weekend(g.1)) + "*\n\n"@ + spec_group_lines(
        g.1,
        divider_at(g.0, g.1),
    )
}

pub open spec fn spec_group_sections(gs: Seq<(DeadlineGroup, Seq<UpcomingEntryView>)>) -> Seq<char>
    decreases gs.len(),
{
    if gs.len() == 0 {
        Seq::empty()
    } else {
        spec_group_sections(gs.drop_last()) + spec_group_section(gs.last())
    }
}

/// The daily report of the Upcoming groups, opened by `intro`.
pub open spec fn spec_daily_report(gs: Seq<(DeadlineGroup, Seq<UpcomingEntryView>)>, intro: Seq<char>) -> Seq<char> {
    if gs.len() == 0 {
        "*Daily Report*\n\nNo open tasks due, or ready to start, today.\n"@
    } else {
        "*Daily Report*\n\n"@ + intro + "\n"@ + spec_group_sections(gs)
    }
}

/// The days of the tasks are calendar days.
pub open spec fn days_in_range(gs: Seq<(DeadlineGroup, Seq<UpcomingEntryView>)>) -> bool {
    forall|i: int, j: int| 0 <= i < gs.len() && 0 <= j < gs[i].1.len() ==> day_in_range(#[trigger] gs[i].1[j].3)
}

fn group_section(g: &(DeadlineGroup, Vec<(u128, Infos, Option<i32>, i32)>)) -> (s: String)
    requires
        forall|j: int| 0 <= j < g.1.len() ==> day_in_range(#[trigger] g.1@[j].3 as int),
    ensures
        s@ == spec_group_section(group_view(*g)),
{
    proof {
        reveal_strlit("\n*");
        reveal_strlit("*\n\n");
        reveal_strlit("---\n\n");
    }
    let ghost es = group_view(*g).1;
    let is_week = match g.0 {
        DeadlineGroup::ThisWeek | DeadlineGroup::NextWeek => true,
        _ => false,
    };
    let mut all = true;
    let mut first: Option<usize> = None;
    let mut k: usize = 0;
    while k < g.1.len()
        invariant
            es == group_view(*g).1,
            k <= g.1.len(),
            forall|j: int| 0 <= j < g.1.len() ==> day_in_range(#[trigger] g.1@[j].3 as int),
            all == (forall|j: int| 0 <= j < k ==> spec_is_weekend(#[trigger] es[j].3)),
            first == (match first_weekend(es.take(k as int)) {
                Some(i) => Some(i as usize),
                None => None::<usize>,
            }),
            forall|i: int| #![auto] first_weekend(es.take(k as int)) == Some(i) ==> 0 <= i < k,
        decreases g.1.len() - k,
    {
        assert(es[k as int].3 == g.1@[k as int].3);
        let w = is_weekend(g.1[k].3);
        if !w {
            all = false;
        }
        proof {
            assert(es.take(k + 1).drop_last() =~= es.take(k as int));
            assert(es.take(k + 1).last() == es[k as int]);
        }
        if first.is_none() && w {
            first = Some(k);
        }
        k += 1;
    }
    proof {
        assert(es.take(g.1.len() as int) =~= es);
    }
    let divider = if is_week {
        match first {
            Some(i) => if i > 0 {
                Some(i)
            } else {
                None
            },
            None => None,
        }
    } else {
        None
    };
    let ghost dv = divider_at(g.0, es);
    assert(dv == match divider {
        Some(i) => Some(i as int),
        None => None::<int>,
    });
    let mut s = String::from_str("\n*");
    s.append(g.0.display_label(is_week && all));
    s.append("*\n\n");
    let ghost head = s@;
    let mut k: usize = 0;
    while k < g.1.len()
        invariant
            es == group_view(*g).1,
            k <= g.1.len(),
            dv == match divider {
                Some(i) => Some(i as int),
                None => None::<int>,
            },
            s@ == head + spec_group_lines(es.take(k as int), dv),
        decreases g.1.len() - k,
    {
        proof {
            assert(es.take(k + 1).drop_last() =~= es.take(k as int));
            assert(es.take(k + 1).last() == es[k as int]);
            assert(es[k as int].1 == g.1@[k as int].1@);
        }
        if divider == Some(k) {
            s.append("---\n\n");
        }
        let line = task_line(&g.1[k].1);
        s.append(line.as_str());
        assert(s@ =~= head + spec_group_lines(es.take(k + 1), dv));
        k += 1;
    }
    proof {
        assert(es.take(g.1.len() as int) =~= es);
    }
    s
}

/// Renders the daily report of the Upcoming groups; see
/// [`spec_daily_report`].
pub fn render_daily_report(groups: &Vec<(DeadlineGroup, Vec<(u128, Infos, Option<i32>, i32)>)>, intro: &str) -> (s: String)
    requires
        days_in_range(groups_view(groups@)),
    ensures
        s@ == spec_daily_report(groups_view(groups@), intro@),
{
    proof {
        reveal_strlit("*Daily Report*\n\nNo open tasks due, or ready to start, today.\n");
        reveal_strlit("*Daily Report*\n\n");
        reveal_strlit("\n");
    }
    let ghost gv = groups_view(groups@);
    if groups.len() == 0 {
        return String::from_str("*Daily Report*\n\nNo open tasks due, or ready to start, today.\n");
    }
    let mut s = String::from_str("*Daily Report*\n\n");
    s.append(intro);
    s.append("\n");
    let ghost head = s@;
    let mut k: usize = 0;
    while k < groups.len()
        invariant
            gv == groups_view(groups@),
            days_in_range(gv),
            k <= groups.len(),
            s@ == head + spec_group_sections(gv.take(k as int)),
        decreases groups.len() - k,
    {
        proof {
            assert(gv.take(k + 1).drop_last() =~= gv.take(k as int));
            assert(gv.take(k + 1).last() == gv[k as int]);
            assert forall|j: int| 0 <= j < groups@[k as int].1.len() implies day_in_range(
                #[trigger] groups@[k as int].1@[j].3 as int,
            ) by {
                assert(gv[k as int].1[j].3 == groups@[k as int].1@[j].3);
            }
        }
        let section = group_section(&groups[k]);
        s.append(section.as_str());
        assert(s@ =~= head + spec_group_sections(gv.take(k + 1)));
        k += 1;
    }
    proof {
        assert(gv.take(groups.len() as int) =~= gv);
    }
    s
}

/// The lines of tasks given by id and information.
pub fn pair_lines(tasks: &Vec<(u128, Infos)>) -> (s: String)
    ensures
        s@ == spec_lines(pairs_view(tasks@).map_values(|p: PairView| p.1)),
{
    let ghost iv = pairs_view(tasks@).map_values(|p: PairView| p.1);
    let mut s = String::new();
    let mut k: usize = 0;
    while k < tasks.len()
        invariant
            iv == pairs_view(tasks@).map_values(|p: PairView| p.1),
            k <= tasks.len(),
            s@ == spec_lines(iv.take(k as int)),
        decreases tasks.len() - k,
    {
        proof {
            assert(iv.take(k + 1).drop_last() =~= iv.take(k as int));
            assert(iv.take(k + 1).last() == tasks@[k as int].1@);
        }
        let line = task_line(&tasks[k].1);
        s.append(line.as_str());
        k += 1;
    }
    proof {
        assert(iv.take(tasks.len() as int) =~= iv);
    }
    s
}

/// The backlog report, opened by `intro`.
pub open spec fn spec_backlog_report(backlog: Seq<PairView>, intro: Seq<char>) -> Seq<char> {
    "*Backlog*\n\n"@ + intro + "\n\n"@ + if backlog.len() == 0 {
        "No open tasks without a date.\n"@
    } else {
        spec_lines(backlog.map_values(|p: PairView| p.1))
    }
}

/// Renders the backlog; see [`spec_backlog_report`].
pub fn render_backlog(backlog: &Vec<(u128, Infos)>, intro: &str) -> (s: String)
    ensures
        s@ == spec_backlog_report(pairs_view(backlog@), intro@),
{
    proof {
        reveal_strlit("*Backlog*\n\n");
        reveal_strlit("\n\n");
        reveal_strlit("No open tasks without a date.\n");
    }
    let mut s = String::from_str("*Backlog*\n\n");
    s.append(intro);
    s.append("\n\n");
    if backlog.len() == 0 {
        s.append("No open tasks without a date.\n");
    } else {
        let lines = pair_lines(backlog);
        s.append(lines.as_str());
    }
    s
}

/// One estimate group of the quick wins report.
pub open spec fn spec_estimate_section(g: (TimeEstimate, Seq<PairView>)) -> Seq<char> {
    "\n*"@ + g.0.spec_label() + "*\n\n"@ + spec_lines(g.1.map_values(|p: PairView| p.1))
}

pub open spec fn spec_estimate_sections(gs: Seq<(TimeEstimate, Seq<PairView>)>) -> Seq<char>
    decreases gs.len(),
{
    if gs.len() == 0 {
        Seq::empty()
    } else {
        spec_estimate_sections(gs.drop_last()) + spec_estimate_section(gs.last())
    }
}

/// The quick wins report, opened by `intro`.
pub open spec fn spec_quick_wins_report(gs: Seq<(TimeEstimate, Seq<PairView>)>, intro: Seq<char>) -> Seq<char> {
    "*Quick Wins*\n\n"@ + intro + "\n"@ + if gs.len() == 0 {
        "\nNo open tasks have a time estimate.\n"@
    } else {
        spec_estimate_sections(gs)
    }
}

/// Renders the quick wins; see [`spec_quick_wins_report`].
pub fn render_quick_wins(groups: &Vec<(TimeEstimate, Vec<(u128, Infos)>)>, intro: &str) -> (s: String)
    ensures
        s@ == spec_quick_wins_report(crate::groups::estimate_groups_view(groups@), intro@),
{
    proof {
        reveal_strlit("*Quick Wins*\n\n");
        reveal_strlit("\n");
        reveal_strlit("\nNo open tasks have a time estimate.\n");
        reveal_strlit("\n*");
        reveal_strlit("*\n\n");
    }
    let ghost gv = crate::groups::estimate_groups_view(groups@);
    let mut s = String::from_str("*Quick Wins*\n\n");
    s.append(intro);
    s.append("\n");
    if groups.len() == 0 {
        s.append("\nNo open tasks have a time estimate.\n");
        return s;
    }
    let ghost head = s@;
    let mut k: usize = 0;
    while k < groups.len()
        invariant
            gv == crate::groups::estimate_groups_view(groups@),
            k <= groups.len(),
            s@ == head + spec_estimate_sections(gv.take(k as int)),
        decreases groups.len() - k,
    {
        proof {
            assert(gv.take(k + 1).drop_last() =~= gv.take(k as int));
            assert(gv.take(k + 1).last() == gv[k as int]);
        }
        s.append("\n*");
        s.append(groups[k].0.label());
        s.append("*\n\n");
        let lines = pair_lines(&groups[k].1);
        s.append(lines.as_str());
        assert(s@ =~= head + spec_estimate_sections(gv.take(k + 1)));
        k += 1;
    }
    proof {
        assert(gv.take(groups.len() as int) =~= gv);
    }
    s
}


/// The openers of the daily report; one is picked at random.
pub open spec fn spec_daily_report_intros() -> Seq<&'static str> {
    seq![
        "Hey! Listen! 🧚 New quests have appeared - time to set out!",
        "Wake up, young hero. 🧚 The tasks of this day await your courage. 🌳",
        "Hey! Hey! 🧚 Today's trials are ready for you!",
        "The path ahead is clear, adventurer. 🧙 Let's clear these quests! 🗡️",
        "Fairy's honor: today's objectives won't complete themselves. Onward! ✨",
        "Hey! 🧚 Over here! Your quest log has refreshed for today!",
        "It is time, hero. 🧝 Destiny - or at least today's to-do list - awaits.",
        "Hyah! 🐲 A new day dawns over Hyrule, and with it, new quests. ☀️",
        "The Great Deku Tree has watched over these tasks. Now they're yours. 🌳",
        "Hey! Listen! Don't let the day slip by like a Skulltula in the dark. ✨",
    ]
}

pub fn daily_report_intros() -> (v: Vec<&'static str>)
    ensures
        v@ == spec_daily_report_intros(),
{
    vec![
        "Hey! Listen! 🧚 New quests have appeared - time to set out!",
        "Wake up, young hero. 🧚 The tasks of this day await your courage. 🌳",
        "Hey! Hey! 🧚 Today's trials are ready for you!",
        "The path ahead is clear, adventurer. 🧙 Let's clear these quests! 🗡️",
        "Fairy's honor: today's objectives won't complete themselves. Onward! ✨",
        "Hey! 🧚 Over here! Your quest log has refreshed for today!",
        "It is time, hero. 🧝 Destiny - or at least today's to-do list - awaits.",
        "Hyah! 🐲 A new day dawns over Hyrule, and with it, new quests. ☀️",
        "The Great Deku Tree has watched over these tasks. Now they're yours. 🌳",
        "Hey! Listen! Don't let the day slip by like a Skulltula in the dark. ✨",
    ]
}

/// The openers of the backlog report; one is picked at random.
pub open spec fn spec_backlog_intros() -> Seq<&'static str> {
    seq![
        "Deep in the quest log, these tasks slumber - no deadline binds them yet. 🌳",
        "Side quests, patiently waiting in the shadow of the Great Tree. 🍃",
        "Hey! 🧚 These ones don't have a due date, but they haven't been forgotten!",
        "The undated scrolls of your journey rest here, hero. 🧙",
        "No urgency, no timer - just quests waiting for a worthy moment. 🧙",
        "Hey! Listen! 🧚 These are the quests that time forgot - for now.",
        "The Great Deku Tree has seen many ages pass, and these tasks with them. 🌳",
        "A hero's journey is long. 🧝 These quests will keep for when you're ready.",
        "Hey! 🧚 No rush on these ones - the forest keeps its secrets patiently. 🍃",
        "Old quests, older courage. 🧙 They'll be here when you return. ✨",
    ]
}

pub fn backlog_intros() -> (v: Vec<&'static str>)
    ensures
        v@ == spec_backlog_intros(),
{
    vec![
        "Deep in the quest log, these tasks slumber - no deadline binds them yet. 🌳",
        "Side quests, patiently waiting in the shadow of the Great Tree. 🍃",
        "Hey! 🧚 These ones don't have a due date, but they haven't been forgotten!",
        "The undated scrolls of your journey rest here, hero. 🧙",
        "No urgency, no timer - just quests waiting for a worthy moment. 🧙",
        "Hey! Listen! 🧚 These are the quests that time forgot - for now.",
        "The Great Deku Tree has seen many ages pass, and these tasks with them. 🌳",
        "A hero's journey is long. 🧝 These quests will keep for when you're ready.",
        "Hey! 🧚 No rush on these ones - the forest keeps its secrets patiently. 🍃",
        "Old quests, older courage. 🧙 They'll be here when you return. ✨",
    ]
}

/// The openers of the quick wins report; one is picked at random.
pub open spec fn spec_quick_wins_intros() -> Seq<&'static str> {
    seq![
        "Hey! Listen! 🧚 These quests are quick - a true hero clears them in a flash! ✨",
        "Small trials, swiftly won. Even a Kokiri could finish these. 🍃",
        "Hey! 🧚 No need for the Master Sword here - just a few minutes!",
        "Short quests, sorted by how fast courage can conquer them. 🗡️",
        "The Great Deku Tree smiles upon these easy victories. 🌳",
        "Hey! Listen! 🧚 Quick as a Deku Nut - these won't take long!",
        "Small deeds, hero, but every Triforce piece starts somewhere. ✨",
        "Hey! 🧚 Over here! Easy quests, ripe for the taking!",
        "Not every hero's journey needs an Epona 🐎 - these are a short walk. 🍃",
        "Fast quests for a fast hero. Go get 'em! 🗡️",
    ]
}

pub fn quick_wins_intros() -> (v: Vec<&'static str>)
    ensures
        v@ == spec_quick_wins_intros(),
{
    vec![
        "Hey! Listen! 🧚 These quests are quick - a true hero clears them in a flash! ✨",
        "Small trials, swiftly won. Even a Kokiri could finish these. 🍃",
        "Hey! 🧚 No need for the Master Sword here - just a few minutes!",
        "Short quests, sorted by how fast courage can conquer them. 🗡️",
        "The Great Deku Tree smiles upon these easy victories. 🌳",
        "Hey! Listen! 🧚 Quick as a Deku Nut - these won't take long!",
        "Small deeds, hero, but every Triforce piece starts somewhere. ✨",
        "Hey! 🧚 Over here! Easy quests, ripe for the taking!",
        "Not every hero's journey needs an Epona 🐎 - these are a short walk. 🍃",
        "Fast quests for a fast hero. Go get 'em! 🗡️",
    ]
}

/// Picks one of `sentences` at random with `rand`'s `IndexedRandom::choose`
/// on the thread-local generator. The slice is not empty, so `choose` gives
/// `Some` of one of its items; which one is left to chance and not stated.
#[verifier::external_body]
fn random_intro<'a>(sentences: &[&'a str]) -> (pick: &'a str)
    requires
        sentences@.len() > 0,
    ensures
        sentences@.contains(pick),
{
    *sentences.choose(&mut rand::rng()).unwrap()
}

/// The daily report of `groups`, opened by one of the daily report intros.
pub fn daily_report(groups: &Vec<(DeadlineGroup, Vec<(u128, Infos, Option<i32>, i32)>)>) -> (s: String)
    requires
        days_in_range(groups_view(groups@)),
    ensures
        exists|i: int|
            0 <= i < spec_daily_report_intros().len() && s@ == spec_daily_report(
                groups_view(groups@),
                (#[trigger] spec_daily_report_intros()[i])@,
            ),
{
    let intros = daily_report_intros();
    let intro = random_intro(intros.as_slice());
    render_daily_report(groups, intro)
}

/// The backlog report of `backlog`, opened by one of the backlog intros.
pub fn backlog_report(backlog: &Vec<(u128, Infos)>) -> (s: String)
    ensures
        exists|i: int|
            0 <= i < spec_backlog_intros().len() && s@ == spec_backlog_report(
                pairs_view(backlog@),
                (#[trigger] spec_backlog_intros()[i])@,
            ),
{
    let intros = backlog_intros();
    let intro = random_intro(intros.as_slice());
    render_backlog(backlog, intro)
}

/// The quick wins report of `groups`, opened by one of the quick wins
/// intros.
pub fn quick_wins_report(groups: &Vec<(TimeEstimate, Vec<(u128, Infos)>)>) -> (s: String)
    ensures
        exists|i: int|
            0 <= i < spec_quick_wins_intros().len() && s@ == spec_quick_wins_report(
                crate::groups::estimate_groups_view(groups@),
                (#[trigger] spec_quick_wins_intros()[i])@,
            ),
{
    let intros = quick_wins_intros();
    let intro = random_intro(intros.as_slice());
    render_quick_wins(groups, intro)
}


/// The sort days of the placed tasks of well-formed tasks are calendar
/// days.
proof fn lemma_placed_days(entries: Seq<(u128, crate::task::Task)>, today: int)
    requires
        forall|i: int| 0 <= i < entries.len() ==> (#[trigger] entries[i]).1.wf(),
    ensures
        forall|k: int|
            0 <= k < crate::upcoming::placed_items(entries, today).len() ==> day_in_range(
                (#[trigger] crate::upcoming::placed_items(entries, today)[k]).2.1,
            ),
    decreases entries.len(),
{
    if entries.len() > 0 {
        let prev = entries.drop_last();
        assert forall|i: int| 0 <= i < prev.len() implies (#[trigger] prev[i]).1.wf() by {
            assert(prev[i] == entries[i]);
        }
        lemma_placed_days(prev, today);
        let e = entries.last();
        assert(e == entries[entries.len() - 1]);
        let p = crate::upcoming::placed_items(entries, today);
        let pp = crate::upcoming::placed_items(prev, today);
        assert forall|k: int| 0 <= k < p.len() implies day_in_range((#[trigger] p[k]).2.1) by {
            if k < pp.len() {
                assert(p[k] == pp[k]);
            } else {
                assert(e.1.spec_details().wf());
                assert(crate::views::due_day(e.1) matches Some(d) ==> day_in_range(d));
                assert(crate::views::start_day(e.1) matches Some(d) ==> day_in_range(d));
            }
        }
    }
}

/// The tasks of the Upcoming groups of a well-formed cache are sorted by
/// calendar days.
pub proof fn lemma_upcoming_days_in_range(entries: Seq<(u128, crate::task::Task)>, today: int, perm: Seq<usize>)
    requires
        forall|i: int| 0 <= i < entries.len() ==> (#[trigger] entries[i]).1.wf(),
        is_sorted_permutation(
            crate::upcoming::placed_items(entries, today).map_values(|p: PlacedView| placed_key(p)),
            perm,
        ),
    ensures
        days_in_range(upcoming_groups(crate::upcoming::placed_items(entries, today), perm)),
{
    let items = crate::upcoming::placed_items(entries, today);
    lemma_placed_days(entries, today);
    let s = permuted(items, perm).map_values(|p: PlacedView| labelled(p));
    let ok = |e: UpcomingEntryView| day_in_range(e.3);
    assert forall|i: int| 0 <= i < s.len() implies ok(#[trigger] s[i].1) by {
        assert(perm[i] < items.map_values(|p: PlacedView| placed_key(p)).len());
        assert(s[i] == labelled(items[perm[i] as int]));
    }
    lemma_runs_items(s, ok);
    let gs = upcoming_groups(items, perm);
    assert forall|i: int, j: int| 0 <= i < gs.len() && 0 <= j < gs[i].1.len() implies day_in_range(#[trigger] gs[i].1[j].3) by {
        assert(ok(runs(s)[i].1[j]));
    }
}


/// The instant falls on one of the seven days up to `today`, at its own
/// offset.
pub open spec fn in_week(t: crate::time::Timestamp, today: int) -> bool {
    today - 6 <= t.spec_local_day() <= today
}

/// The tasks of `entries`, in cache order, that are done (or, for `done`
/// false, open) and reached that status in the seven days up to `today`.
pub open spec fn week_infos(entries: Seq<(u128, crate::task::Task)>, today: int, done: bool) -> Seq<InfosView>
    decreases entries.len(),
{
    if entries.len() == 0 {
        Seq::empty()
    } else {
        let prev = week_infos(entries.drop_last(), today, done);
        let i = entries.last().1.spec_info();
        if i.spec_status().spec_is_done() == done && in_week(i.spec_status().spec_since(), today) {
            prev.push(i@)
        } else {
            prev
        }
    }
}

/// The lines of a section of the weekly review, or its empty message.
pub open spec fn spec_week_section(infos: Seq<InfosView>, empty: Seq<char>) -> Seq<char> {
    if infos.len() == 0 {
        empty
    } else {
        spec_lines(infos)
    }
}

/// The weekly review on day `today`: the tasks finished in the last seven
/// days, then the tasks opened (created or reopened) in them.
pub open spec fn spec_weekly_report(entries: Seq<(u128, crate::task::Task)>, today: int) -> Seq<char> {
    "*Weekly Review*\n\n*Finished*\n\n"@ + spec_week_section(week_infos(entries, today, true), "Nothing finished.\n"@)
        + "\n*Opened*\n\n"@ + spec_week_section(week_infos(entries, today, false), "Nothing opened.\n"@)
}

/// The weekly review of the tasks of `who` (everyone's, see
/// [`crate::task::assigned`]) on day `today`; see [`spec_weekly_report`].
pub fn weekly_report(cache: &crate::cache::TaskCache, today: i32, who: Option<Option<&str>>) -> (s: String)
    requires
        cache.wf(),
    ensures
        s@ == spec_weekly_report(crate::task::assigned(cache.spec_entries(), crate::task::who_view(who)), today as int),
{
    proof {
        reveal_strlit("*Weekly Review*\n\n*Finished*\n\n");
        reveal_strlit("Nothing finished.\n");
        reveal_strlit("\n*Opened*\n\n");
        reveal_strlit("Nothing opened.\n");
    }
    let n = cache.len();
    let ghost entries = cache.spec_entries();
    let ghost w = crate::task::who_view(who);
    let mut done_lines = String::new();
    let mut open_lines = String::new();
    let mut done_count: usize = 0;
    let mut open_count: usize = 0;
    let mut i: usize = 0;
    while i < n
        invariant
            entries == cache.spec_entries(),
            w == crate::task::who_view(who),
            n == entries.len(),
            i <= n,
            cache.wf(),
            done_lines@ == spec_lines(week_infos(crate::task::assigned(entries.take(i as int), w), today as int, true)),
            open_lines@ == spec_lines(week_infos(crate::task::assigned(entries.take(i as int), w), today as int, false)),
            done_count == week_infos(crate::task::assigned(entries.take(i as int), w), today as int, true).len(),
            open_count == week_infos(crate::task::assigned(entries.take(i as int), w), today as int, false).len(),
            done_count <= i,
            open_count <= i,
        decreases n - i,
    {
        let (_id, task) = cache.entry_at(i);
        let ghost sel = crate::task::assigned(entries.take(i as int), w);
        proof {
            assert(entries.take(i + 1).drop_last() =~= entries.take(i as int));
            assert(entries.take(i + 1).last() == entries[i as int]);
            assert(crate::task::assigned(entries.take(i + 1), w) == if crate::task::assigned_to(entries[i as int].1, w) {
                sel.push(entries[i as int])
            } else {
                sel
            });
            assert(sel.push(entries[i as int]).drop_last() =~= sel);
            assert(task.wf());
        }
        let ghost fin = week_infos(sel, today as int, true);
        let ghost opn = week_infos(sel, today as int, false);
        if task.is_assigned_to(who) {
            let info = task.info();
            let day = info.since().local_day();
            let in_window = day as i64 >= today as i64 - 6 && day <= today;
            if in_window {
                let line = task_line(info);
                if info.is_done() {
                    done_lines.append(line.as_str());
                    done_count += 1;
                    proof {
                        assert(fin.push(info@).drop_last() =~= fin);
                    }
                } else {
                    open_lines.append(line.as_str());
                    open_count += 1;
                    proof {
                        assert(opn.push(info@).drop_last() =~= opn);
                    }
                }
            }
        }
        i += 1;
    }
    proof {
        assert(entries.take(n as int) =~= entries);
    }
    let mut s = String::from_str("*Weekly Review*\n\n*Finished*\n\n");
    if done_count == 0 {
        s.append("Nothing finished.\n");
    } else {
        s.append(done_lines.as_str());
    }
    s.append("\n*Opened*\n\n");
    if open_count == 0 {
        s.append("Nothing opened.\n");
    } else {
        s.append(open_lines.as_str());
    }
    s
}

} // verus!
