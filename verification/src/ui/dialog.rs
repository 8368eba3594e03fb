//! A question asked in a box over everything else, answered with a button.

use vstd::prelude::*;

use crate::action::VerticalDir;
use crate::fs::preview::{lines_of, lines_spec};
use crate::keys::{Binding, KeyBinding, KeyCode};
use crate::text::{chars_of, string_of};
use crate::ui::text_input::HorizontalDir;
use crate::ui::toast::{display_width, display_width_of};

verus! {

/// The box is as wide as what goes in it, held between these. Narrower than
/// the shorter one reads as a slot rather than a dialog; wider than the longer
/// one and the eye stops finding the buttons.
pub const MIN_WIDTH: u16 = 44;
pub const MAX_WIDTH: u16 = 72;

/// Rows left free above and below, so the box reads as one.
pub const MARGIN: u16 = 1;

/// Blank columns around a button label. Even, so the label always splits the
/// leftover space exactly in half.
pub const BUTTON_PADDING: u16 = 4;

/// Borders, and the columns the horizontal padding holds open.
pub const CHROME: u16 = 4;

/// One button of a dialog. Which of them a dialog offers is up to what it
/// asks; what every set has in common is that the last one does nothing, and
/// is where the dialog opens.
#[derive(Debug, Clone, Copy, PartialEq, Eq)]
pub enum Choice {
    Yes,
    Overwrite,
    Skip,
    KeepBoth,
    No,
    Cancel,
}

impl Choice {
    /// What the button says.
    pub fn label(self) -> (l: &'static str)
        ensures
            l@ == choice_label(self),
    {
        match self {
            Choice::Yes => "Yes",
            Choice::Overwrite => "Overwrite",
            Choice::Skip => "Skip",
            Choice::KeepBoth => "Keep both",
            Choice::No => "No",
            Choice::Cancel => "Cancel",
        }
    }
}

#[derive(Clone, Copy, Debug, PartialEq, Eq)]
pub enum DialogMsg {
    Move(HorizontalDir),
    Scroll(VerticalDir),
    Confirm,
    Cancel,
}

/// The keys a dialog answers to.
pub fn dialog_keys() -> (keys: Vec<Binding<DialogMsg>>)
    ensures
        keys@.len() == 6,
        keys@[0].msg == DialogMsg::Move(HorizontalDir::Left),
        keys@[1].msg == DialogMsg::Move(HorizontalDir::Right),
        keys@[2].msg == DialogMsg::Scroll(VerticalDir::Up),
        keys@[3].msg == DialogMsg::Scroll(VerticalDir::Down),
        keys@[4].msg == DialogMsg::Confirm,
        keys@[5].msg == DialogMsg::Cancel,
{
    vec![
        Binding {
            key: KeyBinding::plain(KeyCode::Left),
            msg: DialogMsg::Move(HorizontalDir::Left),
            bar: None,
            help: "Moves to the button on the left",
        },
        Binding {
            key: KeyBinding::plain(KeyCode::Right),
            msg: DialogMsg::Move(HorizontalDir::Right),
            bar: None,
            help: "Moves to the button on the right",
        },
        Binding {
            key: KeyBinding::plain(KeyCode::Up),
            msg: DialogMsg::Scroll(VerticalDir::Up),
            bar: None,
            help: "Scrolls the listed items up",
        },
        Binding {
            key: KeyBinding::plain(KeyCode::Down),
            msg: DialogMsg::Scroll(VerticalDir::Down),
            bar: None,
            help: "Scrolls the listed items down",
        },
        Binding {
            key: KeyBinding::plain(KeyCode::Enter),
            msg: DialogMsg::Confirm,
            bar: Some("Confirm"),
            help: "Answers with the highlighted button",
        },
        Binding {
            key: KeyBinding::plain(KeyCode::Esc),
            msg: DialogMsg::Cancel,
            bar: Some("Cancel"),
            help: "Closes the dialog and does nothing",
        },
    ]
}

#[derive(Debug)]
pub struct Dialog {
    title: String,
    message: String,
    /// What the answer applies to, listed under the message. Empty for a
    /// question that is not about a set of things.
    items: Vec<String>,
    offset: usize,
    choices: Vec<Choice>,
    selected: usize,
}

/// What a dialog holds.
pub struct DialogView {
    pub title: Seq<char>,
    pub message: Seq<char>,
    pub items: Seq<Seq<char>>,
    pub offset: nat,
    pub choices: Seq<Choice>,
    pub selected: nat,
}

impl View for Dialog {
    type V = DialogView;

    closed spec fn view(&self) -> DialogView {
        DialogView {
            title: self.title@,
            message: self.message@,
            items: self.items@.map_values(|s: String| s@),
            offset: self.offset as nat,
            choices: self.choices@,
            selected: self.selected as nat,
        }
    }
}

/// The widest of `lines`, as a terminal shows them, each cut to a `u16`.
pub open spec fn widest_of(lines: Seq<Seq<char>>) -> u16
    decreases lines.len(),
{
    if lines.len() == 0 {
        0
    } else {
        let rest = widest_of(lines.drop_last());
        let w = display_width_of(lines.last()) as u16;
        if w > rest { w } else { rest }
    }
}

/// What a button says.
pub open spec fn choice_label(c: Choice) -> Seq<char> {
    match c {
        Choice::Yes => "Yes"@,
        Choice::Overwrite => "Overwrite"@,
        Choice::Skip => "Skip"@,
        Choice::KeepBoth => "Keep both"@,
        Choice::No => "No"@,
        Choice::Cancel => "Cancel"@,
    }
}

/// Columns a button wants: its label and the padding around it.
pub open spec fn button_width_of(c: Choice) -> u16 {
    (display_width_of(choice_label(c)) as u16).wrapping_add(BUTTON_PADDING)
}

/// The columns the row of buttons wants: every button, and a column between
/// each pair.
pub open spec fn buttons_width_of(choices: Seq<Choice>) -> nat
    decreases choices.len(),
{
    if choices.len() == 0 {
        0
    } else {
        buttons_width_of(choices.drop_last()) + button_width_of(choices.last()) as nat + (if choices.len() > 1 {
            1nat
        } else {
            0nat
        })
    }
}

/// How wide a dialog is: its widest line or its row of buttons, whichever
/// wants more, with the borders and padding, held between the two bounds.
pub open spec fn dialog_width(v: DialogView) -> u16 {
    let widest = widest_of(lines_spec(v.message) + v.items) as nat;
    let buttons = buttons_width_of(v.choices);
    clamp_width(((if widest > buttons { widest } else { buttons }) + CHROME) as nat)
}

pub open spec fn clamp_width(w: nat) -> u16 {
    if w < MIN_WIDTH {
        MIN_WIDTH
    } else if w > MAX_WIDTH {
        MAX_WIDTH
    } else {
        w as u16
    }
}

impl Dialog {
    #[verifier::type_invariant]
    spec fn wf(&self) -> bool {
        self.selected < self.choices@.len()
    }

    /// A question answered Yes or No, opening on `No`.
    pub fn new(title: &str, message: &str) -> (d: Self)
        ensures
            d@.title == title@,
            d@.message == message@,
            d@.items == Seq::<Seq<char>>::empty(),
            d@.offset == 0,
            d@.choices == seq![Choice::Yes, Choice::No],
            d@.selected == 1,
    {
        let d = Dialog {
            title: string_of(chars_of(title).as_slice()),
            message: string_of(chars_of(message).as_slice()),
            items: Vec::new(),
            offset: 0,
            choices: vec![Choice::Yes, Choice::No],
            selected: 1,
        };
        assert(d.items@.map_values(|s: String| s@) =~= Seq::<Seq<char>>::empty());
        d
    }

    /// Lists what the answer applies to under the message, scrolled when there
    /// are more of them than the terminal has room for.
    pub fn listing(self, items: Vec<String>) -> (d: Self)
        ensures
            d@.items == items@.map_values(|s: String| s@),
            d@.title == self@.title,
            d@.message == self@.message,
            d@.offset == self@.offset,
            d@.choices == self@.choices,
            d@.selected == self@.selected,
    {
        proof {
            use_type_invariant(&self);
        }
        Dialog {
            title: self.title,
            message: self.message,
            items,
            offset: self.offset,
            choices: self.choices,
            selected: self.selected,
        }
    }

    /// Offers `choices` in place of the Yes/No pair. The dialog opens on the
    /// last of them, which is where the one that does nothing belongs.
    pub fn choices(self, choices: Vec<Choice>) -> (d: Self)
        requires
            choices@.len() > 0,
        ensures
            d@.choices == choices@,
            d@.selected == choices@.len() - 1,
            d@.title == self@.title,
            d@.message == self@.message,
            d@.items == self@.items,
            d@.offset == self@.offset,
    {
        let selected = choices.len() - 1;
        Dialog {
            title: self.title,
            message: self.message,
            items: self.items,
            offset: self.offset,
            choices,
            selected,
        }
    }

    /// The highlighted button.
    pub fn choice(&self) -> (c: Choice)
        ensures
            c == self@.choices[self@.selected as int],
            self@.selected < self@.choices.len(),
    {
        proof {
            use_type_invariant(self);
        }
        self.choices[self.selected]
    }

    /// Moves to the next button along, stopping at either end. Wrapping would
    /// put the button that does nothing one step from the one that does.
    pub fn move_to(&mut self, dir: HorizontalDir)
        ensures
            final(self)@.selected == match dir {
                HorizontalDir::Left => if old(self)@.selected == 0 { 0 } else { (old(self)@.selected - 1) as nat },
                HorizontalDir::Right => if old(self)@.selected + 1 < old(self)@.choices.len() {
                    old(self)@.selected + 1
                } else {
                    (old(self)@.choices.len() - 1) as nat
                },
            },
            final(self)@.choices == old(self)@.choices,
            final(self)@.items == old(self)@.items,
            final(self)@.offset == old(self)@.offset,
            final(self)@.title == old(self)@.title,
            final(self)@.message == old(self)@.message,
    {
        proof {
            use_type_invariant(&*self);
        }
        let last = self.choices.len() - 1;
        let next = match dir {
            HorizontalDir::Left => if self.selected == 0 { 0 } else { self.selected - 1 },
            HorizontalDir::Right => if self.selected + 1 < self.choices.len() { self.selected + 1 } else { last },
        };
        self.selected = next;
    }

    /// Moves the listing by a row. Scrolling past either end is pulled back
    /// when it is laid out, which is where the number of rows on screen is
    /// known.
    pub fn scroll(&mut self, dir: VerticalDir)
        ensures
            final(self)@.offset == match dir {
                VerticalDir::Up => if old(self)@.offset == 0 { 0 } else { (old(self)@.offset - 1) as nat },
                VerticalDir::Down => if old(self)@.offset == usize::MAX { usize::MAX as nat } else { old(self)@.offset + 1 },
            },
            final(self)@.selected == old(self)@.selected,
            final(self)@.choices == old(self)@.choices,
            final(self)@.items == old(self)@.items,
            final(self)@.title == old(self)@.title,
            final(self)@.message == old(self)@.message,
    {
        proof {
            use_type_invariant(&*self);
        }
        let next = match dir {
            VerticalDir::Up => self.offset.saturating_sub(1),
            VerticalDir::Down => self.offset.saturating_add(1),
        };
        self.offset = next;
    }

    /// Pulls the listing back inside itself for `rows` rows on screen, and
    /// says which items show: from the first, this many.
    pub fn fit_listing(&mut self, rows: usize) -> (shown: (usize, usize))
        ensures
            final(self)@.offset == (if old(self)@.offset < (if old(self)@.items.len() >= rows { old(self)@.items.len() - rows } else { 0 }) {
                old(self)@.offset
            } else {
                (if old(self)@.items.len() >= rows { old(self)@.items.len() - rows } else { 0 }) as nat
            }),
            shown.0 == final(self)@.offset,
            shown.1 == (if shown.0 + rows < old(self)@.items.len() { rows as nat } else { (old(self)@.items.len() - shown.0) as nat }),
            final(self)@.items == old(self)@.items,
            final(self)@.selected == old(self)@.selected,
            final(self)@.choices == old(self)@.choices,
            final(self)@.title == old(self)@.title,
            final(self)@.message == old(self)@.message,
    {
        proof {
            use_type_invariant(&*self);
        }
        let total = self.items.len();
        let most = total.saturating_sub(rows);
        let first = if self.offset < most { self.offset } else { most };
        self.offset = first;
        let count = if total - first > rows { rows } else { total - first };
        (first, count)
    }

    pub fn title(&self) -> (t: &String)
        ensures
            t@ == self@.title,
    {
        &self.title
    }

    pub fn message(&self) -> (m: &String)
        ensures
            m@ == self@.message,
    {
        &self.message
    }

    pub fn items(&self) -> (items: &Vec<String>)
        ensures
            items@.map_values(|s: String| s@) == self@.items,
    {
        &self.items
    }

    pub fn choice_list(&self) -> (c: &Vec<Choice>)
        ensures
            c@ == self@.choices,
    {
        &self.choices
    }

    pub fn selected(&self) -> (s: usize)
        ensures
            s == self@.selected,
    {
        self.selected
    }

    /// Columns a button wants: its label and the padding around it.
    pub fn button_width(choice: Choice) -> (w: u16)
        ensures
            w == button_width_of(choice),
    {
        let label = choice.label();
        (display_width(label) as u16).wrapping_add(BUTTON_PADDING)
    }

    /// Columns the widest line wants, held between `MIN_WIDTH` and
    /// `MAX_WIDTH`. Measured in columns rather than bytes, since a name can
    /// hold anything the filesystem allowed. The button row is measured with
    /// the text: four buttons are wider than most questions about them, and a
    /// box sized to the question alone would cut them off.
    pub fn width(&self) -> (w: u16)
        ensures
            w == dialog_width(self@),
    {
        let message = chars_of(self.message.as_str());
        let lines = lines_of(&message);
        let ghost all = lines_spec(self@.message) + self@.items;
        let ghost texts = lines@.map_values(|l: Vec<char>| l@);
        assert(texts == lines_spec(self@.message));
        let mut widest: u16 = 0;
        let mut i: usize = 0;
        while i < lines.len()
            invariant
                i <= lines@.len(),
                texts == lines@.map_values(|l: Vec<char>| l@),
                all == texts + self@.items,
                widest == widest_of(all.take(i as int)),
            decreases lines.len() - i,
        {
            assert(all.take(i + 1).drop_last() =~= all.take(i as int));
            assert(all.take(i + 1).last() == lines@[i as int]@);
            let text = string_of(lines[i].as_slice());
            let w = display_width(text.as_str()) as u16;
            if w > widest {
                widest = w;
            }
            i += 1;
        }
        let mut j: usize = 0;
        while j < self.items.len()
            invariant
                j <= self@.items.len(),
                i == texts.len(),
                all == texts + self@.items,
                self@.items == self.items@.map_values(|s: String| s@),
                widest == widest_of(all.take(i + j)),
            decreases self.items.len() - j,
        {
            assert(all.take(i + j + 1).drop_last() =~= all.take(i + j));
            assert(all.take(i + j + 1).last() == self.items@[j as int]@);
            let w = display_width(self.items[j].as_str()) as u16;
            if w > widest {
                widest = w;
            }
            j += 1;
        }
        assert(all.take(i + j) =~= all);
        let mut buttons: u128 = 0;
        let mut k: usize = 0;
        while k < self.choices.len()
            invariant
                k <= self@.choices.len(),
                self@.choices == self.choices@,
                buttons == buttons_width_of(self@.choices.take(k as int)),
                buttons <= k * 0x2_0000,
            decreases self.choices.len() - k,
        {
            assert(self@.choices.take(k + 1).drop_last() =~= self@.choices.take(k as int));
            let w = Self::button_width(self.choices[k]) as u128;
            buttons = buttons + w + (if k > 0 { 1 } else { 0 });
            k += 1;
        }
        assert(self@.choices.take(k as int) =~= self@.choices);
        let wanted: u128 = if (widest as u128) > buttons { widest as u128 } else { buttons };
        let total = wanted + (CHROME as u128);
        if total < MIN_WIDTH as u128 {
            MIN_WIDTH
        } else if total > MAX_WIDTH as u128 {
            MAX_WIDTH
        } else {
            total as u16
        }
    }

    /// Rows the dialog wants: the borders, the message, a blank row before a
    /// listing when there is one, the listing, and the buttons.
    pub fn wanted_rows(&self) -> (rows: u16)
        ensures
            rows == ((2 + lines_spec(self@.message).len() + (if self@.items.len() > 0 { 1nat } else { 0 })
                + self@.items.len() + 1) % 0x10000) as u16,
    {
        let message = chars_of(self.message.as_str());
        let lines = lines_of(&message);
        assert(lines@.len() == lines@.map_values(|l: Vec<char>| l@).len());
        let gap: u64 = if self.items.len() > 0 { 1 } else { 0 };
        let total: u128 = 2 + (lines.len() as u128) + (gap as u128) + (self.items.len() as u128) + 1;
        (total % 0x10000) as u16
    }
}

} // verus!
