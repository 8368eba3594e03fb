//! The text a pane's listing is narrowed to.

use vstd::prelude::*;

use crate::keys::{Binding, KeyBinding, KeyCode};
use crate::text::{ascii_lowercase, ascii_lowered, contains_chars, contains_run, pop_char, push_char};

verus! {

/// What a filter key does. There is no cursor to move: a filter is typed and
/// backspaced, and the listing narrows under it as it goes.
#[derive(Clone, Copy, Debug, PartialEq, Eq)]
pub enum FilterMsg {
    Confirm,
    Cancel,
}

/// The keys a filter answers to besides the ones that type. Every one of them
/// reaches the bar: the filter draws no overlay of its own, so a key missing
/// from the bar would be named nowhere at all.
pub fn filter_keys() -> (keys: Vec<Binding<FilterMsg>>)
    ensures
        keys@.len() == 2,
        keys@[0].msg == FilterMsg::Confirm,
        keys@[1].msg == FilterMsg::Cancel,
        forall|i: int| 0 <= i < keys@.len() ==> #[trigger] keys@[i].bar is Some,
{
    vec![
        Binding {
            key: KeyBinding::plain(KeyCode::Enter),
            msg: FilterMsg::Confirm,
            bar: Some("Keep"),
            help: "Keeps the filter and goes back to browsing what is left",
        },
        Binding {
            key: KeyBinding::plain(KeyCode::Esc),
            msg: FilterMsg::Cancel,
            bar: Some("Clear"),
            help: "Drops the filter and shows the whole listing again",
        },
    ]
}

/// The text a pane's listing is narrowed to.
///
/// Empty is no filter rather than a filter matching nothing, so the state the
/// user leaves behind by deleting what they typed is the state they started
/// from.
#[derive(Debug)]
pub struct Filter {
    text: String,
}

impl View for Filter {
    type V = Seq<char>;

    closed spec fn view(&self) -> Seq<char> {
        self.text@
    }
}

/// Whether a name is in a filter, with ASCII capitals read as small letters.
pub open spec fn filter_matches(filter: Seq<char>, name: Seq<char>) -> bool {
    filter.len() == 0 || contains_run(ascii_lowered(name), ascii_lowered(filter))
}

impl Default for Filter {
    fn default() -> (f: Self)
        ensures
            f@ == Seq::<char>::empty(),
    {
        Filter { text: String::new() }
    }
}

impl Filter {
    pub fn push(&mut self, c: char)
        ensures
            final(self)@ == old(self)@.push(c),
    {
        push_char(&mut self.text, c);
    }

    pub fn pop(&mut self)
        ensures
            final(self)@ == if old(self)@.len() > 0 {
                old(self)@.drop_last()
            } else {
                old(self)@
            },
    {
        pop_char(&mut self.text);
    }

    pub fn text(&self) -> (t: &String)
        ensures
            t@ == self@,
    {
        &self.text
    }

    pub fn is_empty(&self) -> (b: bool)
        ensures
            b == (self@.len() == 0),
    {
        self.text.as_str().is_empty()
    }

    /// Whether `name` is in the filter, ignoring ASCII case. A substring rather
    /// than a prefix: what a name is recognised by is as often its extension
    /// as its beginning.
    pub fn matches(&self, name: &str) -> (m: bool)
        ensures
            m == filter_matches(self@, name@),
    {
        if self.text.as_str().is_empty() {
            return true;
        }
        let hay = ascii_lowercase(name);
        let needle = ascii_lowercase(self.text.as_str());
        contains_chars(&hay, &needle)
    }
}

} // verus!
