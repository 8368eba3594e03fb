//! The find overlay: a query being typed and the hits found for it so far.
//!
//! The hits are appended as the walk reports them and are never reordered,
//! so the cursor stays on what it was put on while the list grows underneath.

use vstd::prelude::*;

use crate::action::VerticalDir;
use crate::fs::directory::DirEntry;
use crate::fs::find::Ended;
use crate::fs::paths::{begins_with, lead, parts, path_parts, parts_of, spell, spelled, Lead};
use crate::keys::{Binding, KeyBinding, KeyCode};
use crate::text::{chars_of, decimal_of, push_decimal_wide, push_str, string_of};
use crate::ui::favorites::{centre_across, centre_down, centred_across, centred_down};
use crate::ui::geometry::Area;
use crate::ui::text_input::{HorizontalDir, TextInput, TextInputView};

verus! {

/// What a key does while the overlay is open.
#[derive(Clone, Copy, Debug, PartialEq, Eq)]
pub enum FindMsg {
    /// Moves through the hits.
    MoveSelection(VerticalDir),
    /// Moves through the typed query.
    MoveCursor(HorizontalDir),
    Confirm,
    Cancel,
}

/// How wide the overlay is.
pub const WIDTH: u16 = 100;

/// How tall the overlay is.
pub const HEIGHT: u16 = 20;

/// The keys the overlay answers to besides the ones that type.
pub fn find_keys() -> (keys: Vec<Binding<FindMsg>>)
    ensures
        keys@.len() == 6,
        keys@[0].msg == FindMsg::MoveSelection(VerticalDir::Up),
        keys@[1].msg == FindMsg::MoveSelection(VerticalDir::Down),
        keys@[2].msg == FindMsg::MoveCursor(HorizontalDir::Left),
        keys@[3].msg == FindMsg::MoveCursor(HorizontalDir::Right),
        keys@[4].msg == FindMsg::Confirm,
        keys@[5].msg == FindMsg::Cancel,
{
    vec![
        Binding {
            key: KeyBinding::plain(KeyCode::Up),
            msg: FindMsg::MoveSelection(VerticalDir::Up),
            bar: None,
            help: "Moves the cursor one result up",
        },
        Binding {
            key: KeyBinding::plain(KeyCode::Down),
            msg: FindMsg::MoveSelection(VerticalDir::Down),
            bar: None,
            help: "Moves the cursor one result down",
        },
        Binding {
            key: KeyBinding::plain(KeyCode::Left),
            msg: FindMsg::MoveCursor(HorizontalDir::Left),
            bar: None,
            help: "Moves cursor left",
        },
        Binding {
            key: KeyBinding::plain(KeyCode::Right),
            msg: FindMsg::MoveCursor(HorizontalDir::Right),
            bar: None,
            help: "Moves cursor right",
        },
        Binding {
            key: KeyBinding::plain(KeyCode::Enter),
            msg: FindMsg::Confirm,
            bar: Some("Go to"),
            help: "Opens the folder holding the result and puts the cursor on it",
        },
        Binding {
            key: KeyBinding::plain(KeyCode::Esc),
            msg: FindMsg::Cancel,
            bar: Some("Cancel"),
            help: "Stops the search and closes the overlay",
        },
    ]
}

/// The overlay's state. The root is where the walk starts: taken when the
/// overlay opens and never read from a panel again, so moving the panel
/// underneath cannot move the search.
#[derive(Debug)]
pub struct Finder {
    root: String,
    input: TextInput,
    hits: Vec<DirEntry>,
    selected: Option<usize>,
    ended: Option<Ended>,
}

pub struct FinderView {
    pub root: Seq<char>,
    pub input: TextInputView,
    pub hits: Seq<DirEntry>,
    pub selected: Option<nat>,
    pub ended: Option<Ended>,
}

impl View for Finder {
    type V = FinderView;

    closed spec fn view(&self) -> FinderView {
        FinderView {
            root: self.root@,
            input: self.input@,
            hits: self.hits@,
            selected: match self.selected {
                Some(i) => Some(i as nat),
                None => None,
            },
            ended: self.ended,
        }
    }
}

/// Where the cursor goes from `idx` among `len` hits, wrapping at either end.
pub open spec fn wrapped(idx: nat, len: nat, dir: VerticalDir) -> nat {
    match dir {
        VerticalDir::Up => if idx == 0 { (len - 1) as nat } else { (idx - 1) as nat },
        VerticalDir::Down => ((idx + 1) as nat % len),
    }
}

/// The hit as it is listed: its path from the search root down, so the depth
/// a breadth-first walk orders by is visible in the row itself. A hit outside
/// the root is listed whole.
pub open spec fn label_spec(root: Seq<char>, hit: Seq<char>) -> Seq<char> {
    if begins_with(path_parts(hit), path_parts(root)) {
        spelled(Lead::Nothing, parts_of(hit).skip(parts_of(root).len() as int))
    } else {
        hit
    }
}

/// The status line: a prompt before anything is typed, then the count, and
/// how the walk ended once it has.
pub open spec fn status_spec(query: Seq<char>, found: nat, ended: Option<Ended>) -> Seq<char> {
    if query.len() == 0 {
        "Type to search"@
    } else {
        match ended {
            None => "Searching, "@ + decimal_of(found) + " found"@,
            Some(Ended::HitLimit) => decimal_of(found) + " found, stopped at the limit"@,
            Some(_) => decimal_of(found) + " found"@,
        }
    }
}

impl Finder {
    #[verifier::type_invariant]
    spec fn cursor_on_a_hit(&self) -> bool {
        &&& (self.selected is None <==> self.hits@.len() == 0)
        &&& (self.selected matches Some(i) ==> i < self.hits@.len())
    }

    /// An overlay with nothing in it, to swap in while one is taken apart.
    fn blank() -> (f: Self)
        ensures
            f@.hits == Seq::<DirEntry>::empty(),
            f@.selected is None,
    {
        Finder { root: String::new(), input: TextInput::new(), hits: Vec::new(), selected: None, ended: None }
    }

    /// An overlay searching under `root`, with nothing typed and nothing found.
    pub fn new(root: &str) -> (f: Self)
        ensures
            f@.root == root@,
            f@.input.text == Seq::<char>::empty(),
            f@.input.cursor == 0,
            f@.hits == Seq::<DirEntry>::empty(),
            f@.selected is None,
            f@.ended is None,
    {
        Finder { root: string_of(chars_of(root).as_slice()), input: TextInput::new(), hits: Vec::new(), selected: None, ended: None }
    }

    /// Where the search runs, so the caller can queue a walk without asking a
    /// panel again.
    pub fn root(&self) -> (r: &String)
        ensures
            r@ == self@.root,
    {
        &self.root
    }

    /// The stretch of the query the field shows at `width`.
    pub fn visible_query(&self, width: u16) -> (s: String)
        ensures
            s@ == self@.input.text.subrange(
                crate::ui::text_input::window_of(self@.input.text.len(), self@.input.cursor, width as nat).0 as int,
                crate::ui::text_input::window_of(self@.input.text.len(), self@.input.cursor, width as nat).1 as int,
            ),
    {
        self.input.visible_text(width)
    }

    /// Columns from the left edge of the `width`-wide field to the cursor.
    pub fn query_cursor_column(&self, width: u16) -> (c: u16)
        ensures
            c == crate::ui::toast::display_width_of(self@.input.text.subrange(
                crate::ui::text_input::window_of(self@.input.text.len(), self@.input.cursor, width as nat).0 as int,
                self@.input.cursor as int,
            )) as u16,
    {
        self.input.cursor_column(width)
    }

    /// The query as typed so far.
    pub fn query(&self) -> (q: String)
        ensures
            q@ == self@.input.text,
    {
        self.input.text()
    }

    pub fn insert(&mut self, c: char)
        ensures
            final(self)@.input.text == old(self)@.input.text.take(old(self)@.input.cursor as int).push(c)
                + old(self)@.input.text.skip(old(self)@.input.cursor as int),
            final(self)@.input.cursor == old(self)@.input.cursor + 1,
            final(self)@.hits == old(self)@.hits,
            final(self)@.selected == old(self)@.selected,
            final(self)@.ended == old(self)@.ended,
            final(self)@.root == old(self)@.root,
    {
        let mut old = Finder::blank();
        std::mem::swap(self, &mut old);
        proof {
            use_type_invariant(&old);
        }
        let Finder { root, mut input, hits, selected, ended } = old;
        input.insert(c);
        *self = Finder { root, input, hits, selected, ended };
    }

    pub fn backspace(&mut self)
        ensures
            old(self)@.input.cursor > 0 ==> final(self)@.input.text == old(self)@.input.text.remove(
                old(self)@.input.cursor - 1) && final(self)@.input.cursor == old(self)@.input.cursor - 1,
            old(self)@.input.cursor == 0 ==> final(self)@.input == old(self)@.input,
            final(self)@.hits == old(self)@.hits,
            final(self)@.selected == old(self)@.selected,
            final(self)@.ended == old(self)@.ended,
            final(self)@.root == old(self)@.root,
    {
        let mut old = Finder::blank();
        std::mem::swap(self, &mut old);
        proof {
            use_type_invariant(&old);
        }
        let Finder { root, mut input, hits, selected, ended } = old;
        input.backspace();
        *self = Finder { root, input, hits, selected, ended };
    }

    pub fn move_cursor(&mut self, dir: HorizontalDir)
        ensures
            final(self)@.input.text == old(self)@.input.text,
            final(self)@.input.cursor == match dir {
                HorizontalDir::Left => if old(self)@.input.cursor > 0 { (old(self)@.input.cursor - 1) as nat } else { 0 },
                HorizontalDir::Right => if old(self)@.input.cursor < old(self)@.input.text.len() {
                    old(self)@.input.cursor + 1
                } else {
                    old(self)@.input.text.len()
                },
            },
            final(self)@.hits == old(self)@.hits,
            final(self)@.selected == old(self)@.selected,
            final(self)@.ended == old(self)@.ended,
            final(self)@.root == old(self)@.root,
    {
        let mut old = Finder::blank();
        std::mem::swap(self, &mut old);
        proof {
            use_type_invariant(&old);
        }
        let Finder { root, mut input, hits, selected, ended } = old;
        input.move_cursor(dir);
        *self = Finder { root, input, hits, selected, ended };
    }

    /// Throws away the hits of the previous query. Called when the query
    /// changes, which is also when the walk behind it is replaced.
    pub fn restart(&mut self)
        ensures
            final(self)@.hits == Seq::<DirEntry>::empty(),
            final(self)@.selected is None,
            final(self)@.ended is None,
            final(self)@.input == old(self)@.input,
            final(self)@.root == old(self)@.root,
    {
        let mut old = Finder::blank();
        std::mem::swap(self, &mut old);
        let Finder { root, input, hits, selected, ended } = old;
        *self = Finder { root, input, hits: Vec::new(), selected: None, ended: None };
    }

    /// Appends what the walk has just reported, putting the cursor on the
    /// first hit of a search that had none yet.
    pub fn extend(&mut self, hits: Vec<DirEntry>)
        ensures
            final(self)@.hits == old(self)@.hits + hits@,
            final(self)@.selected == if old(self)@.selected is None && old(self)@.hits.len() + hits@.len() > 0 {
                Some(0nat)
            } else {
                old(self)@.selected
            },
            final(self)@.ended == old(self)@.ended,
            final(self)@.input == old(self)@.input,
            final(self)@.root == old(self)@.root,
    {
        proof {
            use_type_invariant(&*self);
        }
        let mut more = hits;
        let mut old = Finder::blank();
        std::mem::swap(self, &mut old);
        proof {
            use_type_invariant(&old);
        }
        let Finder { root, input, hits: mut all, selected, ended } = old;
        all.append(&mut more);
        let selected = match selected {
            None => if all.len() > 0 { Some(0) } else { None },
            Some(i) => Some(i),
        };
        *self = Finder { root, input, hits: all, selected, ended };
    }

    /// Records how the walk ended.
    pub fn finish(&mut self, ended: Ended)
        ensures
            final(self)@.ended == Some(ended),
            final(self)@.hits == old(self)@.hits,
            final(self)@.selected == old(self)@.selected,
            final(self)@.input == old(self)@.input,
            final(self)@.root == old(self)@.root,
    {
        proof {
            use_type_invariant(&*self);
        }
        self.ended = Some(ended);
    }

    /// Moves the cursor through the hits, wrapping at either end. Does nothing
    /// while there are none.
    pub fn move_selection(&mut self, dir: VerticalDir)
        ensures
            final(self)@.selected == match old(self)@.selected {
                Some(i) => Some(wrapped(i, old(self)@.hits.len(), dir)),
                None => None,
            },
            final(self)@.hits == old(self)@.hits,
            final(self)@.ended == old(self)@.ended,
            final(self)@.input == old(self)@.input,
            final(self)@.root == old(self)@.root,
    {
        proof {
            use_type_invariant(&*self);
        }
        let idx = match self.selected {
            None => {
                return;
            },
            Some(i) => i,
        };
        let len = self.hits.len();
        let next = match dir {
            VerticalDir::Up => if idx == 0 { len - 1 } else { idx - 1 },
            VerticalDir::Down => (idx + 1) % len,
        };
        self.selected = Some(next);
    }

    /// The hit under the cursor.
    pub fn selected(&self) -> (hit: Option<&DirEntry>)
        ensures
            match self@.selected {
                Some(i) => hit == Some(&self@.hits[i as int]),
                None => hit is None,
            },
    {
        proof {
            use_type_invariant(self);
        }
        match self.selected {
            Some(i) => Some(&self.hits[i]),
            None => None,
        }
    }

    /// The hits found so far, in the order the walk reported them.
    pub fn hits(&self) -> (h: &Vec<DirEntry>)
        ensures
            h@ == self@.hits,
    {
        &self.hits
    }

    /// Where the cursor is among the hits.
    pub fn cursor(&self) -> (c: Option<usize>)
        ensures
            match c {
                Some(i) => self@.selected == Some(i as nat),
                None => self@.selected is None,
            },
    {
        self.selected
    }

    /// The hit as it is listed: its path from the search root down, joined
    /// from its components, or the whole path for a hit outside the root.
    pub fn label(&self, hit: &DirEntry) -> (l: String)
        ensures
            l@ == label_spec(self@.root, hit.path@),
    {
        let path = chars_of(hit.path.as_str());
        let root = chars_of(self.root.as_str());
        let path_parts_v = parts(&path);
        let root_parts_v = parts(&root);
        let under = crate::fs::paths::starts_with(hit.path.as_str(), self.root.as_str());
        if !under {
            return string_of(path.as_slice());
        }
        let ghost ps = path_parts_v@.map_values(|c: Vec<char>| c@);
        let mut rest: Vec<Vec<char>> = Vec::new();
        let mut i: usize = root_parts_v.len();
        while i < path_parts_v.len()
            invariant
                root_parts_v@.len() <= i <= path_parts_v@.len(),
                ps == path_parts_v@.map_values(|c: Vec<char>| c@),
                rest@.map_values(|c: Vec<char>| c@) == ps.subrange(root_parts_v@.len() as int, i as int),
            decreases path_parts_v.len() - i,
        {
            let ghost before = rest@;
            rest.push(path_parts_v[i].clone());
            assert(rest@.map_values(|c: Vec<char>| c@) =~= before.map_values(|c: Vec<char>| c@).push(ps[i as int]));
            assert(ps.subrange(root_parts_v@.len() as int, i + 1) =~= ps.subrange(root_parts_v@.len() as int, i as int).push(ps[i as int]));
            i += 1;
        }
        assert(ps.subrange(root_parts_v@.len() as int, ps.len() as int) =~= ps.skip(root_parts_v@.len() as int));
        string_of(spell(Lead::Nothing, &rest).as_slice())
    }

    /// The status line under the hits.
    pub fn status(&self) -> (s: String)
        ensures
            s@ == status_spec(self@.input.text, self@.hits.len(), self@.ended),
    {
        let query = chars_of(self.input.text().as_str());
        let mut out: Vec<char> = Vec::new();
        if query.len() == 0 {
            push_str(&mut out, "Type to search");
            return string_of(out.as_slice());
        }
        let found = self.hits.len();
        match self.ended {
            None => {
                push_str(&mut out, "Searching, ");
                push_decimal_wide(&mut out, found as u128);
                push_str(&mut out, " found");
            },
            Some(Ended::HitLimit) => {
                push_decimal_wide(&mut out, found as u128);
                push_str(&mut out, " found, stopped at the limit");
            },
            Some(_) => {
                push_decimal_wide(&mut out, found as u128);
                push_str(&mut out, " found");
            },
        }
        string_of(out.as_slice())
    }

    /// The box the overlay is drawn in, centred in `area`.
    pub fn outer_area(area: Area) -> (outer: Area)
        ensures
            outer == centred_down(centred_across(area, WIDTH), HEIGHT),
    {
        centre_down(centre_across(area, WIDTH), HEIGHT)
    }
}

/// The first hit shown when `rows` rows are on screen: the top, unless the
/// cursor would fall below the last row, in which case the list scrolls just
/// far enough to put it there.
pub open spec fn first_shown_spec(cursor: Option<usize>, rows: usize) -> usize {
    match cursor {
        Some(at) => if rows > 0 && at >= rows { (at + 1 - rows) as usize } else { 0 },
        None => 0,
    }
}

/// The first hit shown when `rows` rows are on screen.
pub fn first_shown(cursor: Option<usize>, rows: usize) -> (first: usize)
    ensures
        first == first_shown_spec(cursor, rows),
{
    match cursor {
        Some(at) => if rows > 0 && at >= rows { at - rows + 1 } else { 0 },
        None => 0,
    }
}

} // verus!
