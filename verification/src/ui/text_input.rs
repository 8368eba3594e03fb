//! One line of editable text: the buffer, the cursor, and the window of it
//! that fits a given width.

use vstd::prelude::*;

use crate::text::{chars_of, string_of};
use crate::ui::toast::{display_width, display_width_of};

verus! {

/// Which way the cursor steps through the typed text.
#[derive(Clone, Copy, Debug, PartialEq, Eq)]
pub enum HorizontalDir {
    Left,
    Right,
}

/// The buffer and where the cursor stands in it. The cursor counts
/// characters, not bytes: it sits between characters.
#[derive(Debug)]
pub struct TextInput {
    text: Vec<char>,
    cursor: usize,
}

pub struct TextInputView {
    pub text: Seq<char>,
    pub cursor: nat,
}

impl View for TextInput {
    type V = TextInputView;

    closed spec fn view(&self) -> TextInputView {
        TextInputView { text: self.text@, cursor: self.cursor as nat }
    }
}

/// The window `[start, end)` of a buffer of `total` characters that fits
/// `width` and holds `cursor`, shifted only as far as needed to keep it in
/// view.
pub open spec fn window_of(total: nat, cursor: nat, width: nat) -> (nat, nat) {
    if total <= width {
        (0, total)
    } else {
        let back = if width >= 1 { (width - 1) as nat } else { 0 };
        let from_cursor = if cursor >= back { (cursor - back) as nat } else { 0 };
        let start = if from_cursor <= total - width { from_cursor } else { (total - width) as nat };
        (start, start + width)
    }
}

impl TextInput {
    #[verifier::type_invariant]
    spec fn cursor_in_text(&self) -> bool {
        self.cursor <= self.text.len()
    }

    pub fn new() -> (t: Self)
        ensures
            t@.text == Seq::<char>::empty(),
            t@.cursor == 0,
    {
        TextInput { text: Vec::new(), cursor: 0 }
    }

    /// Where the cursor stands, in characters; never past the end of the
    /// text.
    pub fn cursor(&self) -> (c: usize)
        ensures
            c == self@.cursor,
            c <= self@.text.len(),
    {
        proof {
            use_type_invariant(self);
        }
        self.cursor
    }

    pub fn text(&self) -> (s: String)
        ensures
            s@ == self@.text,
    {
        string_of(self.text.as_slice())
    }

    /// Replaces the buffer outright and puts the cursor after the new text.
    pub fn set_text(&mut self, text: &str)
        ensures
            final(self)@.text == text@,
            final(self)@.cursor == text@.len(),
    {
        let chars = chars_of(text);
        let cursor = chars.len();
        *self = TextInput { text: chars, cursor };
    }

    pub fn move_cursor(&mut self, dir: HorizontalDir)
        ensures
            final(self)@.text == old(self)@.text,
            dir == HorizontalDir::Left ==> final(self)@.cursor == if old(self)@.cursor > 0 {
                (old(self)@.cursor - 1) as nat
            } else {
                0
            },
            dir == HorizontalDir::Right ==> final(self)@.cursor == if old(self)@.cursor < old(self)@.text.len() {
                old(self)@.cursor + 1
            } else {
                old(self)@.text.len()
            },
    {
        proof {
            use_type_invariant(&*self);
        }
        let len = self.text.len();
        let cursor = match dir {
            HorizontalDir::Left => if self.cursor > 0 {
                self.cursor - 1
            } else {
                0
            },
            HorizontalDir::Right => if self.cursor < len {
                self.cursor + 1
            } else {
                len
            },
        };
        self.cursor = cursor;
    }

    /// Types `c` where the cursor is, and moves the cursor past it.
    pub fn insert(&mut self, c: char)
        ensures
            final(self)@ == typed(old(self)@, c),
    {
        proof {
            use_type_invariant(&*self);
        }
        let at = self.cursor;
        let mut text: Vec<char> = Vec::new();
        self.cursor = 0;
        std::mem::swap(&mut text, &mut self.text);
        text.insert(at, c);
        let n = text.len();
        assert(at < n);
        *self = TextInput { text, cursor: at + 1 };
    }

    /// Removes the character before the cursor, if any.
    pub fn backspace(&mut self)
        ensures
            final(self)@ == erased(old(self)@),
    {
        proof {
            use_type_invariant(&*self);
        }
        if self.cursor == 0 {
            return;
        }
        let at = self.cursor - 1;
        let mut text: Vec<char> = Vec::new();
        self.cursor = 0;
        std::mem::swap(&mut text, &mut self.text);
        text.remove(at);
        *self = TextInput { text, cursor: at };
    }

    /// Char-index bounds `[start, end)` of width `visible_width` that contain
    /// the cursor, shifted only as far as needed to keep it in view.
    fn window(&self, visible_width: u16) -> (w: (usize, usize))
        ensures
            w.0 as nat == window_of(self@.text.len(), self@.cursor, visible_width as nat).0,
            w.1 as nat == window_of(self@.text.len(), self@.cursor, visible_width as nat).1,
            w.0 <= w.1 <= self@.text.len(),
            w.0 <= self@.cursor,
    {
        proof {
            use_type_invariant(self);
        }
        let width = visible_width as usize;
        let total = self.text.len();
        if total <= width {
            return (0, total);
        }
        let back = if width >= 1 { width - 1 } else { 0 };
        let from_cursor = if self.cursor >= back { self.cursor - back } else { 0 };
        let start = if from_cursor <= total - width { from_cursor } else { total - width };
        (start, start + width)
    }

    /// The stretch of the buffer that fits `width`, scrolled only as far as
    /// keeping the cursor in view needs.
    pub fn visible_text(&self, width: u16) -> (s: String)
        ensures
            s@ == self@.text.subrange(
                window_of(self@.text.len(), self@.cursor, width as nat).0 as int,
                window_of(self@.text.len(), self@.cursor, width as nat).1 as int,
            ),
    {
        let (start, end) = self.window(width);
        string_of(&self.text.as_slice()[start..end])
    }

    /// Columns from the left edge of a `width`-wide field to the cursor,
    /// scrolled the same way `visible_text` scrolls.
    pub fn cursor_column(&self, width: u16) -> (c: u16)
        ensures
            c == display_width_of(self@.text.subrange(
                window_of(self@.text.len(), self@.cursor, width as nat).0 as int,
                self@.cursor as int,
            )) as u16,
    {
        proof {
            use_type_invariant(self);
        }
        let (start, _) = self.window(width);
        let before = string_of(&self.text.as_slice()[start..self.cursor]);
        display_width(before.as_str()) as u16
    }
}

/// What `insert` leaves of `before` when it types `c`.
pub open spec fn typed(before: TextInputView, c: char) -> TextInputView {
    TextInputView { text: before.text.insert(before.cursor as int, c), cursor: before.cursor + 1 }
}

/// What `backspace` leaves of `before`.
pub open spec fn erased(before: TextInputView) -> TextInputView {
    if before.cursor == 0 {
        before
    } else {
        TextInputView { text: before.text.remove(before.cursor - 1), cursor: (before.cursor - 1) as nat }
    }
}

/// A backspace takes back the character just typed: the text and the cursor
/// are where they were before it.
pub proof fn backspace_undoes_typing(before: TextInputView, c: char)
    requires
        before.cursor <= before.text.len(),
    ensures
        erased(typed(before, c)) == before,
{
    assert(typed(before, c).text.remove(before.cursor as int) =~= before.text);
}

} // verus!
