//! The overlay that lists every key working right now, and how far down it
//! is scrolled.

use vstd::prelude::*;

use crate::action::VerticalDir;
use crate::keys::{binding_name, Binding, GlobalMsg, KeyBinding, KeyCode};
use crate::ui::geometry::Area;
use crate::ui::toast::{display_width, display_width_of};
use ratatui::layout::{Constraint, Flex, Layout, Rect};

verus! {

/// How wide the overlay gets.
pub const WIDTH: u16 = 80;

/// Rows left free above and below.
pub const MARGIN: u16 = 1;

/// Columns between the keys and what they do.
pub const GAP: u16 = 2;

#[derive(Clone, Copy, Debug, PartialEq, Eq)]
pub enum HelpMsg {
    Scroll(VerticalDir),
    ScrollPage(VerticalDir),
    Close,
}

/// The keys the overlay answers to. Every one of them reaches the bar: the
/// overlay draws the keys of the mode underneath, never its own, so a key of
/// its own missing from the bar would be named nowhere at all.
pub fn help_keys() -> (keys: Vec<Binding<HelpMsg>>)
    ensures
        keys@.len() == 5,
        keys@[0].msg == HelpMsg::Scroll(VerticalDir::Up),
        keys@[1].msg == HelpMsg::Scroll(VerticalDir::Down),
        keys@[2].msg == HelpMsg::ScrollPage(VerticalDir::Up),
        keys@[3].msg == HelpMsg::ScrollPage(VerticalDir::Down),
        keys@[4].msg == HelpMsg::Close,
        forall|i: int| 0 <= i < keys@.len() ==> #[trigger] keys@[i].bar is Some,
{
    vec![
        Binding {
            key: KeyBinding::plain(KeyCode::Up),
            msg: HelpMsg::Scroll(VerticalDir::Up),
            bar: Some("Scroll"),
            help: "Scrolls one line up",
        },
        Binding {
            key: KeyBinding::plain(KeyCode::Down),
            msg: HelpMsg::Scroll(VerticalDir::Down),
            bar: Some("Scroll"),
            help: "Scrolls one line down",
        },
        Binding {
            key: KeyBinding::plain(KeyCode::PageUp),
            msg: HelpMsg::ScrollPage(VerticalDir::Up),
            bar: Some("Screen"),
            help: "Scrolls one screen up",
        },
        Binding {
            key: KeyBinding::plain(KeyCode::PageDown),
            msg: HelpMsg::ScrollPage(VerticalDir::Down),
            bar: Some("Screen"),
            help: "Scrolls one screen down",
        },
        Binding {
            key: KeyBinding::plain(KeyCode::Esc),
            msg: HelpMsg::Close,
            bar: Some("Close"),
            help: "Closes the help",
        },
    ]
}

/// How far down the overlay is scrolled, and how many rows it showed last.
#[derive(Debug)]
pub struct HelpState {
    offset: usize,
    rows: usize,
}

impl Default for HelpState {
    fn default() -> (s: Self)
        ensures
            s.offset_spec() == 0,
            s.rows_spec() == 0,
    {
        HelpState { offset: 0, rows: 0 }
    }
}

/// `offset` moved `by` rows the way `dir` says, stopping at the top and at
/// the largest offset there is.
pub open spec fn shifted(offset: usize, by: usize, dir: VerticalDir) -> usize {
    match dir {
        VerticalDir::Up => if offset >= by { (offset - by) as usize } else { 0 },
        VerticalDir::Down => if offset + by <= usize::MAX { (offset + by) as usize } else { usize::MAX },
    }
}

impl HelpState {
    pub closed spec fn offset_spec(&self) -> usize {
        self.offset
    }

    pub closed spec fn rows_spec(&self) -> usize {
        self.rows
    }

    /// The first row shown.
    pub fn offset(&self) -> (o: usize)
        ensures
            o == self.offset_spec(),
    {
        self.offset
    }

    /// The rows shown the last time the overlay was laid out.
    pub fn rows(&self) -> (r: usize)
        ensures
            r == self.rows_spec(),
    {
        self.rows
    }

    /// Scrolls one row.
    pub fn scroll(&mut self, dir: VerticalDir)
        ensures
            final(self).offset_spec() == shifted(old(self).offset_spec(), 1, dir),
            final(self).rows_spec() == old(self).rows_spec(),
    {
        self.shift(1, dir);
    }

    /// Scrolls a screenful: the rows last shown, or one where none were.
    pub fn scroll_page(&mut self, dir: VerticalDir)
        ensures
            final(self).offset_spec() == shifted(
                old(self).offset_spec(),
                if old(self).rows_spec() > 1 { old(self).rows_spec() } else { 1 },
                dir,
            ),
            final(self).rows_spec() == old(self).rows_spec(),
    {
        let by = if self.rows > 1 { self.rows } else { 1 };
        self.shift(by, dir);
    }

    fn shift(&mut self, by: usize, dir: VerticalDir)
        ensures
            final(self).offset_spec() == shifted(old(self).offset_spec(), by, dir),
            final(self).rows_spec() == old(self).rows_spec(),
    {
        self.offset = match dir {
            VerticalDir::Up => self.offset.saturating_sub(by),
            VerticalDir::Down => self.offset.saturating_add(by),
        };
    }

    /// Lays the overlay out for `rows` rows of a table `total` long: scrolling
    /// past the end is pulled back to the last screenful, and the first row
    /// to show comes back.
    pub fn fit(&mut self, rows: usize, total: usize) -> (first: usize)
        ensures
            final(self).rows_spec() == rows,
            final(self).offset_spec() == if old(self).offset_spec() + rows <= total {
                old(self).offset_spec()
            } else if total >= rows {
                (total - rows) as usize
            } else {
                0
            },
            first == final(self).offset_spec(),
            first + rows <= total || first == 0,
    {
        self.rows = rows;
        let most = total.saturating_sub(rows);
        self.offset = if self.offset < most { self.offset } else { most };
        self.offset
    }
}

/// The rows the overlay lists: every binding of the mode underneath, then
/// every global, each as its key and what it does.
pub fn help_rows<T>(bindings: &[Binding<T>], globals: &[Binding<GlobalMsg>]) -> (rows: Vec<(KeyBinding, &'static str)>)
    ensures
        rows@.len() == bindings@.len() + globals@.len(),
        forall|i: int| 0 <= i < bindings@.len() ==> #[trigger] rows@[i] == (bindings@[i].key, bindings@[i].help),
        forall|i: int| 0 <= i < globals@.len() ==> #[trigger] rows@[bindings@.len() + i] == (globals@[i].key, globals@[i].help),
{
    let mut rows: Vec<(KeyBinding, &'static str)> = Vec::new();
    let mut i: usize = 0;
    while i < bindings.len()
        invariant
            i <= bindings@.len(),
            rows@.len() == i,
            forall|k: int| 0 <= k < i ==> #[trigger] rows@[k] == (bindings@[k].key, bindings@[k].help),
        decreases bindings.len() - i,
    {
        rows.push((bindings[i].key, bindings[i].help));
        i += 1;
    }
    let mut j: usize = 0;
    while j < globals.len()
        invariant
            j <= globals@.len(),
            rows@.len() == bindings@.len() + j,
            forall|k: int| 0 <= k < bindings@.len() ==> #[trigger] rows@[k] == (bindings@[k].key, bindings@[k].help),
            forall|k: int| 0 <= k < j ==> #[trigger] rows@[bindings@.len() + k] == (globals@[k].key, globals@[k].help),
        decreases globals.len() - j,
    {
        rows.push((globals[j].key, globals[j].help));
        j += 1;
    }
    rows
}

/// The widest of the names of `keys`, in columns, each measured as a `u16`,
/// or 0 for none.
pub open spec fn widest(keys: Seq<KeyBinding>) -> u16
    decreases keys.len(),
{
    if keys.len() == 0 {
        0
    } else {
        let w = display_width_of(binding_name(keys.last())) as u16;
        let rest = widest(keys.drop_last());
        if w > rest { w } else { rest }
    }
}

/// Where ratatui's layout puts a box at most `width` wide in `area`, centred
/// across.
pub uninterp spec fn fitted_across(area: Area, width: u16) -> Area;

/// Where ratatui's layout puts a box at most `height` tall in `area`, centred
/// down, keeping `margin` rows free above and below.
pub uninterp spec fn fitted_down(area: Area, height: u16, margin: u16) -> Area;

/// `Layout::horizontal([Constraint::Max(width)]).flex(Flex::Center)`, split
/// over `area`. Claims only that the result is the one `fitted_across` names.
#[verifier::external_body]
fn fit_across(area: Area, width: u16) -> (c: Area)
    ensures
        c == fitted_across(area, width),
{
    let [r] = Layout::horizontal([Constraint::Max(width)]).flex(Flex::Center).areas(
        Rect::new(area.x, area.y, area.width, area.height),
    );
    Area { x: r.x, y: r.y, width: r.width, height: r.height }
}

/// `Layout::vertical([Constraint::Max(height)]).flex(Flex::Center)
/// .vertical_margin(margin)`, split over `area`. Claims only that the result
/// is the one `fitted_down` names.
#[verifier::external_body]
fn fit_down(area: Area, height: u16, margin: u16) -> (c: Area)
    ensures
        c == fitted_down(area, height, margin),
{
    let [r] = Layout::vertical([Constraint::Max(height)]).flex(Flex::Center).vertical_margin(margin).areas(
        Rect::new(area.x, area.y, area.width, area.height),
    );
    Area { x: r.x, y: r.y, width: r.width, height: r.height }
}

/// Where the overlay goes on `screen` for `rows`, and how wide its key column
/// is: at most `WIDTH` columns wide and as tall as the rows and its border,
/// centred, with `MARGIN` rows kept free above and below; the key column is as
/// wide as the widest key name over every row, not only the ones on screen, so
/// it holds still while the list scrolls.
pub fn help_area(rows: &Vec<(KeyBinding, &str)>, screen: Area) -> (r: (Area, u16))
    requires
        (rows@.len() as u16) + 2 <= u16::MAX,
    ensures
        r.0 == fitted_down(fitted_across(screen, WIDTH), ((rows@.len() as u16) + 2) as u16, MARGIN),
        r.1 == widest(rows@.map_values(|row: (KeyBinding, &str)| row.0)),
{
    let ghost keys = rows@.map_values(|row: (KeyBinding, &str)| row.0);
    let total: u16 = rows.len() as u16;
    let across = fit_across(screen, WIDTH);
    let area = fit_down(across, total + 2, MARGIN);
    let mut key_width: u16 = 0;
    let mut i: usize = 0;
    while i < rows.len()
        invariant
            i <= rows@.len(),
            keys == rows@.map_values(|row: (KeyBinding, &str)| row.0),
            key_width == widest(keys.take(i as int)),
        decreases rows.len() - i,
    {
        assert(keys.take(i + 1).drop_last() =~= keys.take(i as int));
        let name = rows[i].0.name();
        let w = display_width(name.as_str()) as u16;
        if w > key_width {
            key_width = w;
        }
        i += 1;
    }
    assert(keys.take(rows@.len() as int) =~= keys);
    (area, key_width)
}

} // verus!
