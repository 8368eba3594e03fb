//! The overlay that lists the favorite directories: which of them the cursor
//! is on, and how big a box the list is given.

use ratatui::layout::{Constraint, Flex, Layout, Rect};
use vstd::prelude::*;

use crate::action::VerticalDir;
use crate::keys::{binding_name, Binding, KeyBinding, KeyCode};
use crate::text::{chars_of, push_str, string_of};
use crate::ui::geometry::Area;
use crate::ui::scroll::{position_text, scroll_position};
use crate::ui::toast::{display_width, display_width_of};

verus! {

/// The title of the box.
pub const TITLE: &'static str = "Favorites";

/// What stands before the entry under the cursor.
pub const HIGHLIGHT: &'static str = "> ";

/// The share of the terminal the box may take, in percent, across and down.
pub const MIN_WIDTH_PERCENT: u16 = 30;
pub const MAX_WIDTH_PERCENT: u16 = 80;
pub const MIN_HEIGHT_PERCENT: u16 = 25;
pub const MAX_HEIGHT_PERCENT: u16 = 80;

/// The components a path too long for the box keeps: enough to tell the
/// directory apart from its neighbours.
pub const TAIL: usize = 3;

#[derive(Clone, Copy, Debug, PartialEq, Eq)]
pub enum FavoritesMsg {
    MoveSelection(VerticalDir),
    Confirm,
    Remove,
    Cancel,
}

/// The keys the overlay answers to.
pub fn favorite_keys() -> (keys: Vec<Binding<FavoritesMsg>>)
    ensures
        keys@.len() == 6,
        keys@[0].msg == FavoritesMsg::MoveSelection(VerticalDir::Up),
        keys@[1].msg == FavoritesMsg::MoveSelection(VerticalDir::Down),
        keys@[2].msg == FavoritesMsg::Confirm,
        keys@[3].msg == FavoritesMsg::Remove,
        keys@[4].msg == FavoritesMsg::Remove,
        keys@[5].msg == FavoritesMsg::Cancel,
{
    vec![
        Binding {
            key: KeyBinding::plain(KeyCode::Up),
            msg: FavoritesMsg::MoveSelection(VerticalDir::Up),
            bar: None,
            help: "Moves the cursor one favorite up",
        },
        Binding {
            key: KeyBinding::plain(KeyCode::Down),
            msg: FavoritesMsg::MoveSelection(VerticalDir::Down),
            bar: None,
            help: "Moves the cursor one favorite down",
        },
        Binding {
            key: KeyBinding::plain(KeyCode::Enter),
            msg: FavoritesMsg::Confirm,
            bar: Some("Go to"),
            help: "Opens the directory under the cursor in this panel",
        },
        Binding {
            key: KeyBinding::plain(KeyCode::Char('d')),
            msg: FavoritesMsg::Remove,
            bar: Some("Remove"),
            help: "Takes the directory under the cursor off the list",
        },
        Binding {
            key: KeyBinding::plain(KeyCode::Delete),
            msg: FavoritesMsg::Remove,
            bar: None,
            help: "Takes the directory under the cursor off the list",
        },
        Binding {
            key: KeyBinding::plain(KeyCode::Esc),
            msg: FavoritesMsg::Cancel,
            bar: Some("Cancel"),
            help: "Closes the overlay, staying where the panel is",
        },
    ]
}

/// `percent` of `whole`, rounded down.
pub open spec fn share(whole: u16, percent: u16) -> u16 {
    (whole * percent / 100) as u16
}

/// `wanted` held between `min` and `max` percent of `whole`.
pub open spec fn banded_spec(wanted: u16, whole: u16, min: u16, max: u16) -> u16 {
    if wanted < share(whole, min) {
        share(whole, min)
    } else if wanted > share(whole, max) {
        share(whole, max)
    } else {
        wanted
    }
}

/// `wanted` held between `min` and `max` percent of `whole`, so a short list
/// is not lost in the middle of the terminal and a long one leaves the panels
/// showing around it.
pub fn banded(wanted: u16, whole: u16, min: u16, max: u16) -> (b: u16)
    requires
        min <= max <= 100,
    ensures
        b == banded_spec(wanted, whole, min, max),
        share(whole, min) <= b <= share(whole, max),
{
    assert(whole * min <= whole * max) by (nonlinear_arith)
        requires
            min <= max,
    ;
    assert(whole * max <= whole * 100) by (nonlinear_arith)
        requires
            max <= 100,
    ;
    let low = ((whole as u32) * (min as u32) / 100) as u16;
    let high = ((whole as u32) * (max as u32) / 100) as u16;
    if wanted < low {
        low
    } else if wanted > high {
        high
    } else {
        wanted
    }
}

/// The words of `path` that `Path::components` reads after any root or
/// leading `.`: the runs between `/`, empty ones and `.` left out.
pub open spec fn names_read(p: Seq<char>) -> (Seq<Seq<char>>, Seq<char>)
    decreases p.len(),
{
    if p.len() == 0 {
        (Seq::empty(), Seq::empty())
    } else {
        let (done, current) = names_read(p.drop_last());
        if p.last() == '/' {
            (if current.len() == 0 || current == seq!['.'] { done } else { done.push(current) }, Seq::empty())
        } else {
            (done, current.push(p.last()))
        }
    }
}

pub open spec fn names_of(p: Seq<char>) -> Seq<Seq<char>> {
    let (done, current) = names_read(p);
    if current.len() == 0 || current == seq!['.'] { done } else { done.push(current) }
}

/// How many components stand before the names: the root of an absolute path,
/// or the `.` a relative one starts with.
pub open spec fn lead_of(p: Seq<char>) -> nat {
    if p.len() > 0 && p[0] == '/' {
        1
    } else if p.len() > 0 && p[0] == '.' && (p.len() == 1 || p[1] == '/') {
        1
    } else {
        0
    }
}

/// `names` joined with `/` between them.
pub open spec fn joined(names: Seq<Seq<char>>) -> Seq<char>
    decreases names.len(),
{
    if names.len() == 0 {
        Seq::empty()
    } else if names.len() == 1 {
        names[0]
    } else {
        joined(names.drop_last()) + seq!['/'] + names.last()
    }
}

/// The end of a path the box cannot hold whole: its last `TAIL` components
/// behind `…/`, and the whole path where it has no more than that.
pub open spec fn tail_spec(p: Seq<char>) -> Seq<char> {
    let names = names_of(p);
    let total = lead_of(p) + names.len();
    if total <= TAIL {
        p
    } else {
        seq!['\u{2026}', '/'] + joined(names.skip(names.len() - TAIL))
    }
}

fn names(p: &Vec<char>) -> (n: Vec<Vec<char>>)
    ensures
        n@.map_values(|w: Vec<char>| w@) == names_of(p@),
{
    let mut done: Vec<Vec<char>> = Vec::new();
    let mut current: Vec<char> = Vec::new();
    let mut i: usize = 0;
    while i < p.len()
        invariant
            i <= p@.len(),
            (done@.map_values(|w: Vec<char>| w@), current@) == names_read(p@.take(i as int)),
        decreases p.len() - i,
    {
        assert(p@.take(i + 1).drop_last() =~= p@.take(i as int));
        if p[i] == '/' {
            let skip = current.len() == 0 || (current.len() == 1 && current[0] == '.');
            assert(skip == (current@.len() == 0 || current@ == seq!['.'])) by {
                if current@ == seq!['.'] {
                    assert(current@[0] == '.');
                }
                if current@.len() == 1 && current@[0] == '.' {
                    assert(current@ =~= seq!['.']);
                }
            }
            if !skip {
                let mut word: Vec<char> = Vec::new();
                std::mem::swap(&mut word, &mut current);
                let ghost before = done@;
                done.push(word);
                assert(done@.map_values(|w: Vec<char>| w@) =~= before.map_values(|w: Vec<char>| w@).push(word@));
            } else {
                current = Vec::new();
            }
        } else {
            current.push(p[i]);
        }
        i += 1;
    }
    assert(p@.take(p@.len() as int) =~= p@);
    let skip = current.len() == 0 || (current.len() == 1 && current[0] == '.');
    assert(skip == (current@.len() == 0 || current@ == seq!['.'])) by {
        if current@ == seq!['.'] {
            assert(current@[0] == '.');
        }
        if current@.len() == 1 && current@[0] == '.' {
            assert(current@ =~= seq!['.']);
        }
    }
    if !skip {
        let ghost before = done@;
        done.push(current);
        assert(done@.map_values(|w: Vec<char>| w@) =~= before.map_values(|w: Vec<char>| w@).push(current@));
    }
    done
}

/// The end of a path the box cannot hold whole: its last three components
/// behind `…/`, which is what tells one favorite from another, and the whole
/// path where it has no more than that.
pub fn tail(path: &str) -> (t: String)
    ensures
        t@ == tail_spec(path@),
{
    let p = chars_of(path);
    let words = names(&p);
    let ghost ws = words@.map_values(|w: Vec<char>| w@);
    let lead: usize = if p.len() > 0 && p[0] == '/' {
        1
    } else if p.len() > 0 && p[0] == '.' && (p.len() == 1 || p[1] == '/') {
        1
    } else {
        0
    };
    assert(words@.len() == ws.len());
    if words.len() <= TAIL - lead {
        return string_of(p.as_slice());
    }
    let from = words.len() - TAIL;
    let mut out: Vec<char> = vec!['\u{2026}', '/'];
    let ghost start = out@;
    let mut k: usize = from;
    while k < words.len()
        invariant
            from <= k <= words@.len(),
            ws == words@.map_values(|w: Vec<char>| w@),
            out@ == start + joined(ws.skip(from as int).take(k - from)),
        decreases words.len() - k,
    {
        let ghost before = out@;
        if k > from {
            out.push('/');
        }
        let mut j: usize = 0;
        let ghost mid = out@;
        while j < words[k].len()
            invariant
                k < words@.len(),
                j <= words@[k as int]@.len(),
                out@ == mid + words@[k as int]@.take(j as int),
            decreases words@[k as int]@.len() - j,
        {
            out.push(words[k][j]);
            assert(words@[k as int]@.take(j + 1) =~= words@[k as int]@.take(j as int).push(words@[k as int]@[j as int]));
            j += 1;
        }
        assert(words@[k as int]@.take(j as int) =~= words@[k as int]@);
        proof {
            let names = ws.skip(from as int);
            assert(names.take(k + 1 - from).drop_last() =~= names.take(k - from));
            assert(names.take(k + 1 - from).last() == ws[k as int]);
            if k == from {
                assert(names.take(1) =~= seq![ws[k as int]]);
            }
        }
        k += 1;
    }
    assert(ws.skip(from as int).take(k - from) =~= ws.skip(from as int));
    string_of(out.as_slice())
}

/// Where the cursor stands in the list, and the first row shown. The list
/// moves the offset while it draws, which is why it is kept here.
#[derive(Debug)]
pub struct FavoritesView {
    selected: Option<usize>,
    offset: usize,
}

impl FavoritesView {
    pub closed spec fn selected_spec(&self) -> Option<usize> {
        self.selected
    }

    pub closed spec fn offset_spec(&self) -> usize {
        self.offset
    }

    /// A view of a list `count` long, with the cursor on the first entry if
    /// there is one.
    pub fn new(count: usize) -> (v: Self)
        ensures
            v.selected_spec() == (if count > 0 { Some(0usize) } else { None }),
            v.offset_spec() == 0,
    {
        FavoritesView { selected: if count > 0 { Some(0) } else { None }, offset: 0 }
    }

    pub fn selected(&self) -> (s: Option<usize>)
        ensures
            s == self.selected_spec(),
    {
        self.selected
    }

    /// Puts the cursor on `index`.
    pub fn select(&mut self, index: Option<usize>)
        ensures
            final(self).selected_spec() == index,
            final(self).offset_spec() == old(self).offset_spec(),
    {
        self.selected = index;
    }

    /// The first row the list showed when it was drawn last.
    pub fn offset(&self) -> (o: usize)
        ensures
            o == self.offset_spec(),
    {
        self.offset
    }

    /// Keeps the first row the list settled on while it drew.
    pub fn set_offset(&mut self, offset: usize)
        ensures
            final(self).offset_spec() == offset,
            final(self).selected_spec() == old(self).selected_spec(),
    {
        self.offset = offset;
    }

    /// Moves the cursor a row in a list `count` long, wrapping at either end:
    /// the list is short, and going round is quicker than going back.
    pub fn move_selection(&mut self, dir: VerticalDir, count: usize)
        requires
            old(self).selected_spec() matches Some(i) ==> i < count,
        ensures
            final(self).offset_spec() == old(self).offset_spec(),
            final(self).selected_spec() == match old(self).selected_spec() {
                None => None,
                Some(i) => if count == 0 {
                    Some(i)
                } else {
                    Some(match dir {
                        VerticalDir::Up => ((i + count - 1) % (count as int)) as usize,
                        VerticalDir::Down => ((i + 1) % (count as int)) as usize,
                    })
                },
            },
    {
        let index = match self.selected {
            None => {
                return;
            },
            Some(i) => i,
        };
        if count == 0 {
            return;
        }
        let next = match dir {
            VerticalDir::Up => if index == 0 { count - 1 } else { index - 1 },
            VerticalDir::Down => if index + 1 == count { 0 } else { index + 1 },
        };
        proof {
            let c = count as int;
            let i = index as int;
            match dir {
                VerticalDir::Up => {
                    assert((i + c - 1) % c == (if i == 0 { c - 1 } else { i - 1 })) by (nonlinear_arith)
                        requires
                            0 <= i < c,
                    {
                        if i == 0 {
                            vstd::arithmetic::div_mod::lemma_small_mod((c - 1) as nat, c as nat);
                        } else {
                            vstd::arithmetic::div_mod::lemma_mod_add_multiples_vanish(i - 1, c);
                            vstd::arithmetic::div_mod::lemma_small_mod((i - 1) as nat, c as nat);
                        }
                    }
                },
                VerticalDir::Down => {
                    assert((i + 1) % c == (if i + 1 == c { 0 } else { i + 1 })) by (nonlinear_arith)
                        requires
                            0 <= i < c,
                    {
                        if i + 1 == c {
                            vstd::arithmetic::div_mod::lemma_mod_self_0(c);
                        } else {
                            vstd::arithmetic::div_mod::lemma_small_mod((i + 1) as nat, c as nat);
                        }
                    }
                },
            }
        }
        self.selected = Some(next);
    }

    /// Keeps the cursor on a list that is now `count` long: on the row it was
    /// on where that row is still there, on the last one where the list got
    /// shorter than that, and on nothing where it got empty.
    pub fn fit(&mut self, count: usize)
        ensures
            final(self).offset_spec() == old(self).offset_spec(),
            final(self).selected_spec() == if count == 0 {
                None
            } else {
                let index = match old(self).selected_spec() {
                    Some(i) => i,
                    None => 0,
                };
                Some(if index < count { index } else { (count - 1) as usize })
            },
    {
        if count == 0 {
            self.selected = None;
        } else {
            let index = match self.selected {
                Some(i) => i,
                None => 0,
            };
            self.selected = Some(if index < count { index } else { count - 1 });
        }
    }

    /// What the last row says of an empty list: how to put something on it.
    pub fn hint(add_key: Option<KeyBinding>) -> (h: String)
        ensures
            h@ == match add_key {
                Some(key) => "Nothing here yet \u{2014} "@ + binding_name(key) + " adds the directory you are in"@,
                None => "Nothing here yet"@,
            },
    {
        match add_key {
            Some(key) => {
                let mut out: Vec<char> = Vec::new();
                push_str(&mut out, "Nothing here yet \u{2014} ");
                let name = key.name();
                push_str(&mut out, name.as_str());
                push_str(&mut out, " adds the directory you are in");
                string_of(out.as_slice())
            },
            None => string_of(chars_of("Nothing here yet").as_slice()),
        }
    }

    /// What the last row says: how to put something on an empty list, and
    /// where the reader is in a list that does not fit in `rows`.
    pub fn status(&self, count: usize, add_key: Option<KeyBinding>, rows: usize) -> (s: String)
        ensures
            count == 0 ==> s@ == (match add_key {
                Some(key) => "Nothing here yet \u{2014} "@ + binding_name(key) + " adds the directory you are in"@,
                None => "Nothing here yet"@,
            }),
    {
        if count == 0 {
            return Self::hint(add_key);
        }
        let first = if self.offset < count - 1 { self.offset } else { count - 1 };
        let shown = if rows < count - first { rows } else { count - first };
        match scroll_position(first, shown, count) {
            Some(text) => text,
            None => String::new(),
        }
    }

    /// The widest the last row gets: the hint of an empty list, or the
    /// position at the bottom of a long one.
    pub fn widest_status(count: usize, add_key: Option<KeyBinding>) -> (w: usize)
        ensures
            w == widest_status_spec(count as nat, add_key),
    {
        if count == 0 {
            let text = Self::hint(add_key);
            display_width(text.as_str())
        } else {
            match scroll_position(count - 1, 1, count) {
                Some(text) => display_width(text.as_str()),
                None => {
                    let empty = String::new();
                    display_width(empty.as_str())
                },
            }
        }
    }

    /// The size of the box for `paths` on a terminal `area` big: as wide as
    /// the widest thing in it and as tall as the list and its last row, with
    /// the borders and padding, held within the share of the terminal it may
    /// take.
    pub fn outer_size(paths: &Vec<String>, add_key: Option<KeyBinding>, area: Area) -> (size: (u16, u16))
        ensures
            size == outer_size_spec(paths@.map_values(|p: String| p@), add_key, area),
    {
        let highlight = display_width(HIGHLIGHT) as u128;
        let ghost texts = paths@.map_values(|p: String| p@);
        let mut widest: u128 = 0;
        let mut i: usize = 0;
        while i < paths.len()
            invariant
                i <= paths@.len(),
                texts == paths@.map_values(|p: String| p@),
                highlight == display_width_of(HIGHLIGHT@),
                widest == widest_path(texts.take(i as int)),
            decreases paths.len() - i,
        {
            assert(texts.take(i + 1).drop_last() =~= texts.take(i as int));
            let w = (display_width(paths[i].as_str()) as u128) + highlight;
            if w > widest {
                widest = w;
            }
            i += 1;
        }
        assert(texts.take(i as int) =~= texts);
        let status = Self::widest_status(paths.len(), add_key) as u128;
        if status > widest {
            widest = status;
        }
        let title = display_width(TITLE) as u128;
        if title > widest {
            widest = title;
        }
        let chrome_x: u16 = if area.width < 4 { area.width } else { 4 };
        let chrome_y: u16 = if area.height < 2 { area.height } else { 2 };
        let wanted_width: u16 = if widest > 0xffff { 0xffff } else { widest as u16 };
        let wanted_width = wanted_width.saturating_add(chrome_x);
        let count: u16 = if paths.len() > 0xffff { 0xffff } else { paths.len() as u16 };
        let wanted_height = count.saturating_add(1).saturating_add(chrome_y);
        let width = banded(wanted_width, area.width, MIN_WIDTH_PERCENT, MAX_WIDTH_PERCENT);
        let height = banded(wanted_height, area.height, MIN_HEIGHT_PERCENT, MAX_HEIGHT_PERCENT);
        (width, height)
    }

    /// The box for `paths`, sized by `outer_size` and centred in `area`.
    pub fn outer_area(paths: &Vec<String>, add_key: Option<KeyBinding>, area: Area) -> (outer: Area)
        ensures
            outer == centred_down(
                centred_across(area, outer_size_spec(paths@.map_values(|p: String| p@), add_key, area).0),
                outer_size_spec(paths@.map_values(|p: String| p@), add_key, area).1,
            ),
    {
        let (width, height) = Self::outer_size(paths, add_key, area);
        centre_down(centre_across(area, width), height)
    }
}

/// The widest of `paths` with the highlight in front of it.
pub open spec fn widest_path(paths: Seq<Seq<char>>) -> nat
    decreases paths.len(),
{
    if paths.len() == 0 {
        0
    } else {
        let rest = widest_path(paths.drop_last());
        let w = (display_width_of(paths.last()) + display_width_of(HIGHLIGHT@)) as nat;
        if w > rest { w } else { rest }
    }
}

/// The widest the last row gets: the hint of an empty list, or the position
/// at the bottom of a long one.
pub open spec fn widest_status_spec(count: nat, add_key: Option<KeyBinding>) -> nat {
    if count == 0 {
        display_width_of(match add_key {
            Some(key) => "Nothing here yet \u{2014} "@ + binding_name(key) + " adds the directory you are in"@,
            None => "Nothing here yet"@,
        }) as nat
    } else if count > 1 {
        display_width_of(position_text((count - 1) as nat, 1, count)) as nat
    } else {
        display_width_of(Seq::empty()) as nat
    }
}

/// The size of the box: the widest thing in it and the list with its last
/// row, with the borders and padding, held within its share of the terminal.
pub open spec fn outer_size_spec(paths: Seq<Seq<char>>, add_key: Option<KeyBinding>, area: Area) -> (u16, u16) {
    let widest = {
        let a = widest_path(paths);
        let b = widest_status_spec(paths.len(), add_key);
        let c = display_width_of(TITLE@) as nat;
        let ab = if b > a { b } else { a };
        if c > ab { c } else { ab }
    };
    let chrome_x: u16 = if area.width < 4 { area.width } else { 4 };
    let chrome_y: u16 = if area.height < 2 { area.height } else { 2 };
    let wanted_width: u16 = if widest > 0xffff { 0xffff } else { widest as u16 };
    let count: u16 = if paths.len() > 0xffff { 0xffff } else { paths.len() as u16 };
    (
        banded_spec(wanted_width.saturating_add(chrome_x), area.width, MIN_WIDTH_PERCENT, MAX_WIDTH_PERCENT),
        banded_spec(count.saturating_add(1).saturating_add(chrome_y), area.height, MIN_HEIGHT_PERCENT, MAX_HEIGHT_PERCENT),
    )
}

/// Where ratatui's layout puts a box `width` wide in `area`, centred across.
pub uninterp spec fn centred_across(area: Area, width: u16) -> Area;

/// Where ratatui's layout puts a box `height` tall in `area`, centred down.
pub uninterp spec fn centred_down(area: Area, height: u16) -> Area;

/// `Layout::horizontal([Constraint::Length(width)]).flex(Flex::Center)`,
/// split over `area`. Claims only that the result is the one
/// `centred_across` names.
#[verifier::external_body]
pub(crate) fn centre_across(area: Area, width: u16) -> (c: Area)
    ensures
        c == centred_across(area, width),
{
    let [r] = Layout::horizontal([Constraint::Length(width)]).flex(Flex::Center).areas(
        Rect::new(area.x, area.y, area.width, area.height),
    );
    Area { x: r.x, y: r.y, width: r.width, height: r.height }
}

/// `Layout::vertical([Constraint::Length(height)]).flex(Flex::Center)`,
/// split over `area`. Claims only that the result is the one `centred_down`
/// names.
#[verifier::external_body]
pub(crate) fn centre_down(area: Area, height: u16) -> (c: Area)
    ensures
        c == centred_down(area, height),
{
    let [r] = Layout::vertical([Constraint::Length(height)]).flex(Flex::Center).areas(
        Rect::new(area.x, area.y, area.width, area.height),
    );
    Area { x: r.x, y: r.y, width: r.width, height: r.height }
}

} // verus!
