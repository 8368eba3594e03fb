//! A box asking for one line of text, with a title saying what for.

use vstd::prelude::*;

use crate::keys::{Binding, KeyBinding, KeyCode};
use crate::ui::text_input::{HorizontalDir, TextInput, TextInputView};

verus! {

/// What a prompt key does.
#[derive(Clone, Copy, Debug, PartialEq, Eq)]
pub enum InputMsg {
    MoveCursor(HorizontalDir),
    Confirm,
    Cancel,
}

/// The keys a prompt answers to besides the ones that type.
pub fn prompt_keys() -> (keys: Vec<Binding<InputMsg>>)
    ensures
        keys@.len() == 4,
        keys@[0].msg == InputMsg::MoveCursor(HorizontalDir::Left),
        keys@[1].msg == InputMsg::MoveCursor(HorizontalDir::Right),
        keys@[2].msg == InputMsg::Confirm,
        keys@[3].msg == InputMsg::Cancel,
{
    vec![
        Binding {
            key: KeyBinding::plain(KeyCode::Left),
            msg: InputMsg::MoveCursor(HorizontalDir::Left),
            bar: None,
            help: "Moves cursor left",
        },
        Binding {
            key: KeyBinding::plain(KeyCode::Right),
            msg: InputMsg::MoveCursor(HorizontalDir::Right),
            bar: None,
            help: "Moves cursor right",
        },
        Binding {
            key: KeyBinding::plain(KeyCode::Enter),
            msg: InputMsg::Confirm,
            bar: Some("Confirm"),
            help: "Accepts the name that was typed",
        },
        Binding {
            key: KeyBinding::plain(KeyCode::Esc),
            msg: InputMsg::Cancel,
            bar: Some("Cancel"),
            help: "Closes the prompt and does nothing",
        },
    ]
}

#[derive(Debug)]
pub struct Prompt {
    title: String,
    input: TextInput,
}

pub struct PromptView {
    pub title: Seq<char>,
    pub input: TextInputView,
}

impl View for Prompt {
    type V = PromptView;

    closed spec fn view(&self) -> PromptView {
        PromptView { title: self.title@, input: self.input@ }
    }
}

impl Prompt {
    /// An empty prompt under `title`.
    pub fn new(title: String) -> (p: Self)
        ensures
            p@.title == title@,
            p@.input.text == Seq::<char>::empty(),
            p@.input.cursor == 0,
    {
        Prompt { title, input: TextInput::new() }
    }

    pub fn title(&self) -> (t: &String)
        ensures
            t@ == self@.title,
    {
        &self.title
    }

    pub fn move_cursor(&mut self, dir: HorizontalDir)
        ensures
            final(self)@.title == old(self)@.title,
            final(self)@.input.text == old(self)@.input.text,
            dir == HorizontalDir::Left ==> final(self)@.input.cursor == if old(self)@.input.cursor > 0 {
                (old(self)@.input.cursor - 1) as nat
            } else {
                0
            },
            dir == HorizontalDir::Right ==> final(self)@.input.cursor == if old(self)@.input.cursor
                < old(self)@.input.text.len() {
                old(self)@.input.cursor + 1
            } else {
                old(self)@.input.text.len()
            },
    {
        self.input.move_cursor(dir);
    }

    pub fn text(&self) -> (s: String)
        ensures
            s@ == self@.input.text,
    {
        self.input.text()
    }

    /// Replaces the buffer outright and puts the cursor after the new text.
    pub fn set_text(&mut self, text: &str)
        ensures
            final(self)@.title == old(self)@.title,
            final(self)@.input.text == text@,
            final(self)@.input.cursor == text@.len(),
    {
        self.input.set_text(text);
    }

    pub fn insert(&mut self, c: char)
        ensures
            final(self)@.title == old(self)@.title,
            final(self)@.input.text == old(self)@.input.text.insert(old(self)@.input.cursor as int, c),
            final(self)@.input.cursor == old(self)@.input.cursor + 1,
    {
        self.input.insert(c);
    }

    /// Removes the character before the cursor, if any.
    pub fn backspace(&mut self)
        ensures
            final(self)@.title == old(self)@.title,
            old(self)@.input.cursor == 0 ==> final(self)@.input == old(self)@.input,
            old(self)@.input.cursor > 0 ==> final(self)@.input.text == old(self)@.input.text.remove(
                old(self)@.input.cursor - 1,
            ) && final(self)@.input.cursor == old(self)@.input.cursor - 1,
    {
        self.input.backspace();
    }

    /// The stretch of the buffer the box shows at `width`.
    pub fn visible_text(&self, width: u16) -> (s: String)
        ensures
            s@ == self@.input.text.subrange(
                crate::ui::text_input::window_of(self@.input.text.len(), self@.input.cursor, width as nat).0 as int,
                crate::ui::text_input::window_of(self@.input.text.len(), self@.input.cursor, width as nat).1 as int,
            ),
    {
        self.input.visible_text(width)
    }

    /// Columns from the left edge of the `width`-wide field to the cursor.
    pub fn cursor_column(&self, width: u16) -> (c: u16)
        ensures
            c == crate::ui::toast::display_width_of(self@.input.text.subrange(
                crate::ui::text_input::window_of(self@.input.text.len(), self@.input.cursor, width as nat).0 as int,
                self@.input.cursor as int,
            )) as u16,
    {
        self.input.cursor_column(width)
    }
}

} // verus!
