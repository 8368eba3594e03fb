//! What a key does while a dialog, a prompt or the find overlay is open, and
//! what the main loop is left to carry out. The modes hold their own state;
//! the loop performs what comes back: a job queued, a search sent or
//! stopped, a pane sent to an entry, a toast raised.

use vstd::prelude::*;

use crate::app::{ConfirmTarget, InputTarget};
use crate::fs::ops::ProcessedSummary;
use crate::text::{chars_of, decimal_of, push_decimal_wide, push_str, string_of};
use crate::ui::dialog::{Choice, Dialog, DialogMsg};
use crate::ui::finder::{FindMsg, Finder};
use crate::ui::prompt::{InputMsg, Prompt};
use crate::ui::text_input::HorizontalDir;
use crate::ui::toast::ToastLevel;

verus! {

/// What the screen is doing besides showing the panels.
#[derive(Debug)]
pub enum Mode {
    Browse,
    Input { prompt: Prompt, pending: InputTarget },
    Confirm { dialog: Dialog, pending: ConfirmTarget },
    Find { finder: Finder },
}

/// A key that is no binding of the mode, for the modes that read text.
#[derive(Clone, Copy, Debug, PartialEq, Eq)]
pub enum Typed {
    Char(char),
    Backspace,
    Other,
}

/// What a key in a dialog comes to.
#[derive(Debug, PartialEq, Eq)]
pub enum ConfirmStep {
    /// The dialog stays open.
    Stay,
    /// The dialog was closed without anything to do.
    Closed,
    /// The dialog was answered `Yes`: carry this out.
    Commit(ConfirmTarget),
}

/// Handles the message a key resolved to while a dialog is open. Moving and
/// scrolling stay in the dialog; cancelling closes it; confirming closes it
/// and, on `Yes`, hands back what it was opened to ask about.
pub fn confirm_key(mode: &mut Mode, msg: Option<DialogMsg>) -> (step: ConfirmStep)
    ensures
        !((*old(mode)) is Confirm) ==> step == ConfirmStep::Stay,
        (*old(mode)) is Confirm ==> match msg {
            None => step == ConfirmStep::Stay && (*final(mode)) is Confirm,
            Some(DialogMsg::Move(_)) => step == ConfirmStep::Stay && (*final(mode)) is Confirm,
            Some(DialogMsg::Scroll(_)) => step == ConfirmStep::Stay && (*final(mode)) is Confirm,
            Some(DialogMsg::Cancel) => step == ConfirmStep::Closed && (*final(mode)) is Browse,
            Some(DialogMsg::Confirm) => (*final(mode)) is Browse && (*old(mode) matches Mode::Confirm { dialog, pending }
                ==> step == if dialog@.choices[dialog@.selected as int] == Choice::Yes {
                    ConfirmStep::Commit(pending)
                } else {
                    ConfirmStep::Closed
                }),
        },
        (*old(mode)) is Confirm ==> (msg matches Some(DialogMsg::Move(dir)) ==> (*old(mode) matches Mode::Confirm { dialog: d0, pending: p0 }
            ==> *final(mode) matches Mode::Confirm { dialog: d1, pending: p1 } && p1 == p0
                && d1@.choices == d0@.choices && d1@.items == d0@.items
                && d1@.selected == match dir {
                    HorizontalDir::Left => if d0@.selected == 0 { 0 } else { (d0@.selected - 1) as nat },
                    HorizontalDir::Right => if d0@.selected + 1 < d0@.choices.len() {
                        d0@.selected + 1
                    } else {
                        (d0@.choices.len() - 1) as nat
                    },
                })),
{
    match mode {
        Mode::Confirm { dialog, pending } => match msg {
            None => ConfirmStep::Stay,
            Some(DialogMsg::Move(dir)) => {
                dialog.move_to(dir);
                ConfirmStep::Stay
            },
            Some(DialogMsg::Scroll(dir)) => {
                dialog.scroll(dir);
                ConfirmStep::Stay
            },
            Some(DialogMsg::Cancel) => {
                *mode = Mode::Browse;
                ConfirmStep::Closed
            },
            Some(DialogMsg::Confirm) => {
                let choice = dialog.choice();
                let target = *pending;
                *mode = Mode::Browse;
                match choice {
                    Choice::Yes => ConfirmStep::Commit(target),
                    _ => ConfirmStep::Closed,
                }
            },
        },
        _ => ConfirmStep::Stay,
    }
}

/// What a key in a prompt comes to.
#[derive(Debug)]
pub enum InputStep {
    /// The prompt stays open.
    Stay,
    /// The prompt was closed without anything to do.
    Closed,
    /// The prompt was confirmed with nothing typed, which is worth a word.
    NothingTyped,
    /// The prompt was confirmed: the text goes where the prompt was opened
    /// for.
    Submit { target: InputTarget, text: String },
}

/// Handles a key while a prompt is open: `msg` is what it resolved to among
/// the prompt's keys, and `typed` what it is otherwise.
pub fn input_key(mode: &mut Mode, msg: Option<InputMsg>, typed: Typed) -> (step: InputStep)
    ensures
        !((*old(mode)) is Input) ==> step is Stay,
        (*old(mode)) is Input ==> match msg {
            Some(InputMsg::MoveCursor(_)) => step is Stay && (*final(mode)) is Input,
            Some(InputMsg::Cancel) => step is Closed && (*final(mode)) is Browse,
            Some(InputMsg::Confirm) => (*final(mode)) is Browse && (*old(mode) matches Mode::Input { prompt, .. }
                ==> if prompt@.input.text.len() == 0 {
                    step is NothingTyped
                } else {
                    step matches InputStep::Submit { text, .. } && text@ == prompt@.input.text
                }),
            None => step is Stay && (*final(mode)) is Input,
        },
        ((*old(mode)) is Input && msg is None) ==> (*old(mode) matches Mode::Input { prompt: p0, .. }
            ==> *final(mode) matches Mode::Input { prompt: p1, .. } && p1@.title == p0@.title
                && match typed {
                    Typed::Char(c) => p1@.input.text == p0@.input.text.insert(p0@.input.cursor as int, c)
                        && p1@.input.cursor == p0@.input.cursor + 1,
                    Typed::Backspace => p0@.input.cursor > 0 ==> p1@.input.text == p0@.input.text.remove(
                        p0@.input.cursor - 1),
                    Typed::Other => p1@.input == p0@.input,
                }),
{
    match mode {
        Mode::Input { prompt, pending } => match msg {
            Some(InputMsg::MoveCursor(dir)) => {
                prompt.move_cursor(dir);
                InputStep::Stay
            },
            Some(InputMsg::Cancel) => {
                *mode = Mode::Browse;
                InputStep::Closed
            },
            Some(InputMsg::Confirm) => {
                let text = prompt.text();
                let target = pending.clone();
                *mode = Mode::Browse;
                if chars_of(text.as_str()).len() == 0 {
                    InputStep::NothingTyped
                } else {
                    InputStep::Submit { target, text }
                }
            },
            None => {
                match typed {
                    Typed::Char(c) => prompt.insert(c),
                    Typed::Backspace => prompt.backspace(),
                    Typed::Other => {},
                }
                InputStep::Stay
            },
        },
        _ => InputStep::Stay,
    }
}

/// What a key in the find overlay comes to.
#[derive(Debug)]
pub enum FindStep {
    /// The overlay stays open and nothing else happens.
    Stay,
    /// The overlay was closed: the search behind it stops.
    Cancelled,
    /// The overlay was closed on a hit: the search stops, and the focused
    /// pane goes to the directory holding this path.
    Reveal(String),
    /// The query changed to nothing: the search stops, since an empty query
    /// would match every entry in the tree.
    StopSearch,
    /// The query changed: a search for it under the root replaces the one
    /// running.
    Search { root: String, query: String },
}

/// Handles a key while the find overlay is open. Confirming with nothing to
/// go to leaves the overlay open: the search is still running and the next
/// hit may be the one. A change to the query throws away the hits of the
/// previous one.
pub fn find_key(mode: &mut Mode, msg: Option<FindMsg>, typed: Typed) -> (step: FindStep)
    ensures
        !((*old(mode)) is Find) ==> step is Stay,
        *old(mode) matches Mode::Find { finder: f0 } ==> match msg {
            Some(FindMsg::MoveSelection(_)) => step is Stay && (*final(mode)) is Find,
            Some(FindMsg::MoveCursor(_)) => step is Stay && (*final(mode)) is Find,
            Some(FindMsg::Cancel) => step is Cancelled && (*final(mode)) is Browse,
            Some(FindMsg::Confirm) => match f0@.selected {
                Some(i) => (*final(mode)) is Browse && (step matches FindStep::Reveal(p) && p@ == f0@.hits[i as int].path@),
                None => step is Stay && (*final(mode)) is Find,
            },
            None => match typed {
                Typed::Other => step is Stay && (*final(mode)) is Find,
                _ => *final(mode) matches Mode::Find { finder: f1 } && f1@.hits.len() == 0 && f1@.selected is None
                    && f1@.root == f0@.root
                    && (if f1@.input.text.len() == 0 {
                        step is StopSearch
                    } else {
                        step matches FindStep::Search { root, query } && root@ == f0@.root && query@ == f1@.input.text
                    }),
            },
        },
{
    match mode {
        Mode::Find { finder } => match msg {
            Some(FindMsg::MoveSelection(dir)) => {
                finder.move_selection(dir);
                FindStep::Stay
            },
            Some(FindMsg::MoveCursor(dir)) => {
                finder.move_cursor(dir);
                FindStep::Stay
            },
            Some(FindMsg::Cancel) => {
                *mode = Mode::Browse;
                FindStep::Cancelled
            },
            Some(FindMsg::Confirm) => {
                let target = match finder.selected() {
                    Some(hit) => string_of(chars_of(hit.path.as_str()).as_slice()),
                    None => {
                        return FindStep::Stay;
                    },
                };
                *mode = Mode::Browse;
                FindStep::Reveal(target)
            },
            None => {
                match typed {
                    Typed::Char(c) => finder.insert(c),
                    Typed::Backspace => finder.backspace(),
                    Typed::Other => {
                        return FindStep::Stay;
                    },
                }
                finder.restart();
                let root = string_of(chars_of(finder.root().as_str()).as_slice());
                let query = finder.query();
                if chars_of(query.as_str()).len() == 0 {
                    FindStep::StopSearch
                } else {
                    FindStep::Search { root, query }
                }
            },
        },
        _ => FindStep::Stay,
    }
}

/// How a report of a batch opens: nothing done, everything done, or part of
/// it.
pub open spec fn summary_head(verb: Seq<char>, s: crate::fs::ops::SummaryView) -> Seq<char> {
    if s.processed == 0 {
        "Nothing "@ + verb
    } else if s.processed == s.total {
        decimal_of(s.processed) + " item(s) "@ + verb
    } else {
        decimal_of(s.processed) + " of "@ + decimal_of(s.total) + " "@ + verb
    }
}

/// What a report says of the items skipped, if any were.
pub open spec fn summary_skipped(s: crate::fs::ops::SummaryView) -> Seq<char> {
    if s.skipped > 0 { ", "@ + decimal_of(s.skipped) + " skipped"@ } else { Seq::empty() }
}

/// What a report says of the items that failed, if any did: the count, and
/// the last error, which speaks for a single failure and is offered as the
/// latest of several.
pub open spec fn summary_failed(s: crate::fs::ops::SummaryView, reason: Option<Seq<char>>) -> Seq<char> {
    if s.failed > 0 {
        ", "@ + decimal_of(s.failed) + " failed"@ + match reason {
            Some(r) => if s.failed == 1 { ": "@ + r } else { ", last: "@ + r },
            None => Seq::empty(),
        }
    } else {
        Seq::empty()
    }
}

/// The message reporting a batch, from the operation's past tense (`copied`)
/// and its counts.
pub open spec fn summary_text(verb: Seq<char>, s: crate::fs::ops::SummaryView, reason: Option<Seq<char>>) -> Seq<char> {
    if s.total == 0 {
        "Nothing is marked"@
    } else {
        summary_head(verb, s) + summary_skipped(s) + summary_failed(s, reason)
    }
}

/// How loud the report of a batch is: a failure is an error, and a batch
/// that did nothing a warning, so silently doing nothing cannot read as
/// success.
pub open spec fn summary_level(s: crate::fs::ops::SummaryView) -> ToastLevel {
    if s.total == 0 {
        ToastLevel::Warning
    } else if s.failed > 0 {
        ToastLevel::Error
    } else if s.processed == 0 {
        ToastLevel::Warning
    } else {
        ToastLevel::Info
    }
}

fn push_head(out: &mut Vec<char>, verb: &str, summary: &ProcessedSummary)
    ensures
        final(out)@ == old(out)@ + summary_head(verb@, summary@),
{
    let ghost start = out@;
    if summary.nothing_processed() {
        push_str(out, "Nothing ");
        push_str(out, verb);
    } else if summary.processed() == summary.total() {
        push_decimal_wide(out, summary.processed() as u128);
        push_str(out, " item(s) ");
        push_str(out, verb);
    } else {
        push_decimal_wide(out, summary.processed() as u128);
        push_str(out, " of ");
        push_decimal_wide(out, summary.total() as u128);
        push_str(out, " ");
        push_str(out, verb);
    }
    assert(out@ =~= start + summary_head(verb@, summary@));
}

fn push_skipped(out: &mut Vec<char>, summary: &ProcessedSummary)
    ensures
        final(out)@ == old(out)@ + summary_skipped(summary@),
{
    let ghost start = out@;
    if summary.skipped() > 0 {
        push_str(out, ", ");
        push_decimal_wide(out, summary.skipped() as u128);
        push_str(out, " skipped");
    }
    assert(out@ =~= start + summary_skipped(summary@));
}

fn push_failed(out: &mut Vec<char>, summary: &ProcessedSummary, reason: Option<&str>)
    ensures
        final(out)@ == old(out)@ + summary_failed(summary@, match reason {
            Some(r) => Some(r@),
            None => None,
        }),
{
    let ghost start = out@;
    if summary.has_failures() {
        push_str(out, ", ");
        push_decimal_wide(out, summary.failed() as u128);
        push_str(out, " failed");
        match reason {
            Some(r) => {
                if summary.failed() == 1 {
                    push_str(out, ": ");
                } else {
                    push_str(out, ", last: ");
                }
                push_str(out, r);
            },
            None => {},
        }
    }
    assert(out@ =~= start + summary_failed(summary@, match reason {
        Some(r) => Some(r@),
        None => None,
    }));
}

/// The toast that reports how a batch ended.
pub fn summary_toast(verb: &str, summary: &ProcessedSummary, reason: Option<&str>) -> (toast: (ToastLevel, String))
    ensures
        toast.0 == summary_level(summary@),
        toast.1@ == summary_text(verb@, summary@, match reason {
            Some(r) => Some(r@),
            None => None,
        }),
{
    let mut out: Vec<char> = Vec::new();
    if summary.total() == 0 {
        push_str(&mut out, "Nothing is marked");
        return (ToastLevel::Warning, string_of(out.as_slice()));
    }
    push_head(&mut out, verb, summary);
    push_skipped(&mut out, summary);
    push_failed(&mut out, summary, reason);
    let level = if summary.has_failures() {
        ToastLevel::Error
    } else if summary.nothing_processed() {
        ToastLevel::Warning
    } else {
        ToastLevel::Info
    };
    (level, string_of(out.as_slice()))
}

/// The question a delete asks before it runs.
pub fn delete_question(count: usize) -> (q: String)
    ensures
        q@ == "Delete "@ + decimal_of(count as nat) + " selected item(s)?"@,
{
    let mut out: Vec<char> = Vec::new();
    push_str(&mut out, "Delete ");
    push_decimal_wide(&mut out, count as u128);
    push_str(&mut out, " selected item(s)?");
    string_of(out.as_slice())
}

/// The question quitting asks while work is still queued, since quitting
/// drops it.
pub fn quit_question(queued: usize) -> (q: String)
    ensures
        q@ == decimal_of(queued as nat) + " operation(s) still running. Quit?"@,
{
    let mut out: Vec<char> = Vec::new();
    push_decimal_wide(&mut out, queued as u128);
    push_str(&mut out, " operation(s) still running. Quit?");
    string_of(out.as_slice())
}

} // verus!
