//! The tabs of a panel, and the marks each of them keeps.

use vstd::prelude::*;

use crate::fs::directory::{name_chars, name_or_empty, DirEntry, DirEntryKind};
use crate::fs::paths::{path_parts, same_path, PathParts};
use crate::text::{chars_of, string_of};
use crate::ui::pane::{Pane, PaneError, PaneView};

verus! {

/// Which neighbour of the active tab becomes active, wrapping around the ends.
#[derive(Clone, Copy, Debug, PartialEq, Eq)]
pub enum ToggleDirection {
    Previous,
    Next,
}

/// What a mark action does to the item under the cursor.
#[derive(Clone, Copy, Debug, PartialEq, Eq)]
pub enum MarkOp {
    Toggle,
    Mark,
    Unmark,
}

/// Names one tab for as long as it exists.
#[derive(Clone, Copy, Debug, PartialEq, Eq, Structural)]
pub struct TabId(pub u64);

/// One tab: its name, its pane, and the items marked in it. Marks are kept by
/// path, compared component by component, and survive moving to another
/// directory.
#[derive(Debug)]
pub struct Tab {
    id: TabId,
    title: String,
    pane: Pane,
    marks: Vec<String>,
}

pub struct TabView {
    pub id: TabId,
    pub title: Seq<char>,
    pub pane: PaneView,
    pub marks: Set<PathParts>,
}

/// The paths `marks` holds.
pub open spec fn marked_set(marks: Seq<String>) -> Set<PathParts> {
    Set::new(|p: PathParts| exists|i: int| 0 <= i < marks.len() && path_parts(#[trigger] marks[i]@) == p)
}

impl View for Tab {
    type V = TabView;

    closed spec fn view(&self) -> TabView {
        TabView { id: self.id, title: self.title@, pane: self.pane@, marks: marked_set(self.marks@) }
    }
}

/// Whether the view hides `entry`: the parent is never one of the items on
/// show, and neither is a name beginning with a dot.
pub open spec fn hidden(entry: DirEntry) -> bool {
    entry.kind == DirEntryKind::Parent || {
        let name = name_or_empty(entry.path@);
        name.len() > 0 && name[0] == '.'
    }
}

/// The paths of the first `n` entries the view shows.
pub open spec fn shown_set(entries: Seq<DirEntry>, n: int) -> Set<PathParts> {
    Set::new(|p: PathParts| exists|k: int| 0 <= k < n && #[trigger] shown_at(entries, k, p))
}

/// Whether entry `k` is on show and its path is `p`.
pub open spec fn shown_at(entries: Seq<DirEntry>, k: int, p: PathParts) -> bool {
    !hidden(entries[k]) && path_parts(entries[k].path@) == p
}

/// One more entry adds its path to what is on show, unless the view hides it.
proof fn lemma_shown_step(entries: Seq<DirEntry>, i: int)
    requires
        0 <= i < entries.len(),
    ensures
        shown_set(entries, i + 1) == if hidden(entries[i]) {
            shown_set(entries, i)
        } else {
            shown_set(entries, i).insert(path_parts(entries[i].path@))
        },
{
    if hidden(entries[i]) {
        assert forall|p: PathParts| shown_set(entries, i + 1).contains(p) <==> shown_set(entries, i).contains(p) by {
            if shown_set(entries, i + 1).contains(p) {
                let k = choose|k: int| 0 <= k < i + 1 && #[trigger] shown_at(entries, k, p);
                assert(k != i);
            }
        }
        assert(shown_set(entries, i + 1) =~= shown_set(entries, i));
    } else {
        assert forall|p: PathParts| shown_set(entries, i + 1).contains(p) <==> shown_set(entries, i).insert(path_parts(entries[i].path@)).contains(p) by {
            if p == path_parts(entries[i].path@) {
                assert(shown_at(entries, i, p));
            }
        }
        assert(shown_set(entries, i + 1) =~= shown_set(entries, i).insert(path_parts(entries[i].path@)));
    }
}

/// Whether `marks` holds `path`.
fn holds(marks: &Vec<String>, path: &str) -> (found: bool)
    ensures
        found == marked_set(marks@).contains(path_parts(path@)),
{
    let mut i: usize = 0;
    while i < marks.len()
        invariant
            i <= marks@.len(),
            forall|j: int| 0 <= j < i ==> path_parts(#[trigger] marks@[j]@) != path_parts(path@),
        decreases marks.len() - i,
    {
        if same_path(marks[i].as_str(), path) {
            assert(path_parts(marks@[i as int]@) == path_parts(path@));
            return true;
        }
        i += 1;
    }
    false
}

/// `marks` without `path`, compared component by component.
fn without(marks: Vec<String>, path: &str) -> (kept: Vec<String>)
    ensures
        marked_set(kept@) == marked_set(marks@).remove(path_parts(path@)),
{
    let mut kept: Vec<String> = Vec::new();
    let mut i: usize = 0;
    while i < marks.len()
        invariant
            i <= marks@.len(),
            forall|p: PathParts| #[trigger] marked_set(kept@).contains(p) <==> (p != path_parts(path@)
                && exists|j: int| 0 <= j < i && path_parts(#[trigger] marks@[j]@) == p),
        decreases marks.len() - i,
    {
        if !same_path(marks[i].as_str(), path) {
            let ghost before = kept@;
            kept.push(marks[i].clone());
            assert forall|p: PathParts| #[trigger] marked_set(kept@).contains(p) <==> (p != path_parts(path@)
                && exists|j: int| 0 <= j < i + 1 && path_parts(#[trigger] marks@[j]@) == p) by {
                if marked_set(kept@).contains(p) {
                    let k = choose|k: int| 0 <= k < kept@.len() && path_parts(#[trigger] kept@[k]@) == p;
                    if k < before.len() {
                        assert(marked_set(before).contains(p));
                    }
                }
                if p != path_parts(path@) && exists|j: int| 0 <= j < i + 1 && path_parts(#[trigger] marks@[j]@) == p {
                    let j = choose|j: int| 0 <= j < i + 1 && path_parts(#[trigger] marks@[j]@) == p;
                    if j < i {
                        assert(marked_set(before).contains(p));
                        let k = choose|k: int| 0 <= k < before.len() && path_parts(#[trigger] before[k]@) == p;
                        assert(kept@[k] == before[k]);
                    } else {
                        assert(kept@[kept@.len() - 1]@ == marks@[i as int]@);
                    }
                }
            }
        } else {
            assert forall|p: PathParts| #[trigger] marked_set(kept@).contains(p) <==> (p != path_parts(path@)
                && exists|j: int| 0 <= j < i + 1 && path_parts(#[trigger] marks@[j]@) == p) by {
                if p != path_parts(path@) && exists|j: int| 0 <= j < i + 1 && path_parts(#[trigger] marks@[j]@) == p {
                    let j = choose|j: int| 0 <= j < i + 1 && path_parts(#[trigger] marks@[j]@) == p;
                    assert(j < i);
                }
            }
        }
        i += 1;
    }
    assert(marked_set(kept@) =~= marked_set(marks@).remove(path_parts(path@)));
    kept
}

/// `marks` with `path` in it.
fn with(marks: Vec<String>, path: &str) -> (all: Vec<String>)
    ensures
        marked_set(all@) == marked_set(marks@).insert(path_parts(path@)),
{
    if holds(&marks, path) {
        assert(marked_set(marks@) =~= marked_set(marks@).insert(path_parts(path@)));
        return marks;
    }
    let mut all = marks;
    let ghost before = all@;
    all.push(string_of(chars_of(path).as_slice()));
    assert forall|p: PathParts| #[trigger] marked_set(all@).contains(p) <==> marked_set(before).insert(path_parts(path@)).contains(p) by {
        if marked_set(all@).contains(p) {
            let k = choose|k: int| 0 <= k < all@.len() && path_parts(#[trigger] all@[k]@) == p;
            if k < before.len() {
                assert(all@[k] == before[k]);
                assert(marked_set(before).contains(p));
            }
        }
        if marked_set(before).contains(p) {
            let k = choose|k: int| 0 <= k < before.len() && path_parts(#[trigger] before[k]@) == p;
            assert(all@[k] == before[k]);
            assert(marked_set(all@).contains(p));
        }
        if p == path_parts(path@) {
            assert(path_parts(all@[all@.len() - 1]@) == p);
        }
    }
    assert(marked_set(all@) =~= marked_set(before).insert(path_parts(path@)));
    all
}

impl Tab {
    /// A tab named `title` with `id`, waiting for the listing of `dir`, with
    /// nothing marked.
    pub fn new(id: TabId, title: String, dir: &str) -> (t: Self)
        ensures
            t@.id == id,
            t@.title == title@,
            t@.pane.directory.path == dir@,
            t@.pane.directory.entries.len() == 0,
            t@.pane.selected is None,
            t@.marks == Set::<PathParts>::empty(),
    {
        let t = Tab { id, title, pane: Pane::empty(dir), marks: Vec::new() };
        assert(t@.marks =~= Set::<PathParts>::empty());
        t
    }

    pub fn id(&self) -> (i: TabId)
        ensures
            i == self@.id,
    {
        self.id
    }

    pub fn get_pane(&self) -> (p: &Pane)
        ensures
            p@ == self@.pane,
    {
        &self.pane
    }

    pub fn get_pane_mut(&mut self) -> (p: &mut Pane)
        ensures
            p@ == old(self)@.pane,
            final(self)@.pane == final(p)@,
            final(self)@.id == old(self)@.id,
            final(self)@.title == old(self)@.title,
            final(self)@.marks == old(self)@.marks,
    {
        &mut self.pane
    }

    /// Whether `path` is marked.
    pub fn is_marked(&self, path: &str) -> (m: bool)
        ensures
            m == self@.marks.contains(path_parts(path@)),
    {
        holds(&self.marks, path)
    }

    /// The marked paths, each once, in the order they were marked.
    pub fn get_selected_items(&self) -> (items: &Vec<String>)
        ensures
            marked_set(items@) == self@.marks,
    {
        &self.marks
    }

    pub fn get_title(&self) -> (t: &String)
        ensures
            t@ == self@.title,
    {
        &self.title
    }

    pub fn rename(&mut self, title: String)
        ensures
            final(self)@.title == title@,
            final(self)@.id == old(self)@.id,
            final(self)@.pane == old(self)@.pane,
            final(self)@.marks == old(self)@.marks,
    {
        self.title = title;
    }

    /// Marks, unmarks or flips the item under the cursor. The parent entry is
    /// never marked.
    pub fn apply_mark(&mut self, op: MarkOp) -> (r: Result<(), PaneError>)
        ensures
            final(self)@.id == old(self)@.id,
            final(self)@.title == old(self)@.title,
            final(self)@.pane == old(self)@.pane,
            match old(self)@.pane.selected {
                None => r == Err::<(), PaneError>(PaneError::NoItemSelected) && final(self)@.marks == old(self)@.marks,
                Some(i) => r is Ok && {
                    let entry = old(self)@.pane.directory.entries[i as int];
                    let p = path_parts(entry.path@);
                    if entry.kind == DirEntryKind::Parent {
                        final(self)@.marks == old(self)@.marks
                    } else {
                        final(self)@.marks == match op {
                            MarkOp::Mark => old(self)@.marks.insert(p),
                            MarkOp::Unmark => old(self)@.marks.remove(p),
                            MarkOp::Toggle => toggled(old(self)@.marks, p),
                        }
                    }
                },
            },
    {
        let path = match self.pane.selected_entry() {
            Err(e) => {
                return Err(e);
            },
            Ok(entry) => {
                if entry.kind == DirEntryKind::Parent {
                    return Ok(());
                }
                string_of(chars_of(entry.path.as_str()).as_slice())
            },
        };
        let mut marks: Vec<String> = Vec::new();
        std::mem::swap(&mut marks, &mut self.marks);
        self.marks = match op {
            MarkOp::Mark => with(marks, path.as_str()),
            MarkOp::Unmark => without(marks, path.as_str()),
            MarkOp::Toggle => if holds(&marks, path.as_str()) {
                without(marks, path.as_str())
            } else {
                with(marks, path.as_str())
            },
        };
        Ok(())
    }

    /// Marks every item the view shows: every entry of the listing but the
    /// parent and the names beginning with a dot. Marks made elsewhere stay.
    pub fn mark_visible(&mut self)
        ensures
            final(self)@.id == old(self)@.id,
            final(self)@.title == old(self)@.title,
            final(self)@.pane == old(self)@.pane,
            final(self)@.marks == old(self)@.marks.union(shown_set(old(self)@.pane.directory.entries,
                old(self)@.pane.directory.entries.len() as int)),
    {
        let ghost start = self@.marks;
        let ghost entries_v = self@.pane.directory.entries;
        let mut marks: Vec<String> = Vec::new();
        std::mem::swap(&mut marks, &mut self.marks);
        let entries = self.pane.directory().entries();
        let mut i: usize = 0;
        proof {
            assert(shown_set(entries_v, 0) =~= Set::<PathParts>::empty());
            assert(start.union(shown_set(entries_v, 0)) =~= start);
        }
        while i < entries.len()
            invariant
                i <= entries@.len(),
                entries@ == entries_v,
                marked_set(marks@) == start.union(shown_set(entries_v, i as int)),
            decreases entries.len() - i,
        {
            let entry = &entries[i];
            let name = name_chars(entry.path.as_str());
            let dotted = name.len() > 0 && name[0] == '.';
            proof {
                lemma_shown_step(entries_v, i as int);
            }
            if entry.kind != DirEntryKind::Parent && !dotted {
                marks = with(marks, entry.path.as_str());
                assert(marked_set(marks@) =~= start.union(shown_set(entries_v, i + 1)));
            } else {
                assert(hidden(entries_v[i as int]));
            }
            i += 1;
        }
        self.marks = marks;
    }

    /// Unmarks everything.
    pub fn deselect_items(&mut self)
        ensures
            final(self)@.marks == Set::<PathParts>::empty(),
            final(self)@.id == old(self)@.id,
            final(self)@.title == old(self)@.title,
            final(self)@.pane == old(self)@.pane,
    {
        self.marks = Vec::new();
        assert(self@.marks =~= Set::<PathParts>::empty());
    }

    /// Marks each of `paths`, as a job hands back what it could not do.
    pub fn mark_paths(&mut self, paths: Vec<String>)
        ensures
            final(self)@.marks == old(self)@.marks.union(marked_set(paths@)),
            final(self)@.id == old(self)@.id,
            final(self)@.title == old(self)@.title,
            final(self)@.pane == old(self)@.pane,
    {
        let ghost start = self@.marks;
        let mut marks: Vec<String> = Vec::new();
        std::mem::swap(&mut marks, &mut self.marks);
        let mut i: usize = 0;
        while i < paths.len()
            invariant
                i <= paths@.len(),
                marked_set(marks@) == start.union(marked_set(paths@.take(i as int))),
            decreases paths.len() - i,
        {
            marks = with(marks, paths[i].as_str());
            assert(marked_set(paths@.take(i + 1)) =~= marked_set(paths@.take(i as int)).insert(path_parts(paths@[i as int]@))) by {
                assert forall|p: PathParts| marked_set(paths@.take(i + 1)).contains(p) <==> marked_set(paths@.take(i as int)).insert(path_parts(paths@[i as int]@)).contains(p) by {
                    if marked_set(paths@.take(i + 1)).contains(p) {
                        let k = choose|k: int| 0 <= k < i + 1 && path_parts(#[trigger] paths@.take(i + 1)[k]@) == p;
                        if k < i {
                            assert(paths@.take(i as int)[k] == paths@.take(i + 1)[k]);
                        }
                    }
                    if marked_set(paths@.take(i as int)).contains(p) {
                        let k = choose|k: int| 0 <= k < i && path_parts(#[trigger] paths@.take(i as int)[k]@) == p;
                        assert(paths@.take(i as int)[k] == paths@.take(i + 1)[k]);
                    }
                    if p == path_parts(paths@[i as int]@) {
                        assert(paths@.take(i + 1)[i as int] == paths@[i as int]);
                    }
                }
            }
            assert(marked_set(marks@) =~= start.union(marked_set(paths@.take(i + 1))));
            i += 1;
        }
        assert(paths@.take(paths@.len() as int) =~= paths@);
        self.marks = marks;
    }
}

/// The tabs of a panel and which one is active. There is always at least one.
#[derive(Debug)]
pub struct TabList {
    tabs: Vec<Tab>,
    active: usize,
}

pub struct TabListView {
    pub tabs: Seq<Tab>,
    pub active: nat,
}

impl View for TabList {
    type V = TabListView;

    closed spec fn view(&self) -> TabListView {
        TabListView { tabs: self.tabs@, active: self.active as nat }
    }
}

impl TabList {
    /// Whether the active tab is one of the tabs, as every method keeps it.
    pub open spec fn wf(&self) -> bool {
        &&& self@.tabs.len() > 0
        &&& self@.active < self@.tabs.len()
    }

    /// The tabs `tabs`, the first of them active.
    pub fn new(tabs: Vec<Tab>) -> (l: Self)
        requires
            tabs@.len() > 0,
        ensures
            l.wf(),
            l@.tabs == tabs@,
            l@.active == 0,
    {
        TabList { tabs, active: 0 }
    }

    pub fn len(&self) -> (n: usize)
        ensures
            n == self@.tabs.len(),
    {
        self.tabs.len()
    }

    pub fn active(&self) -> (a: usize)
        ensures
            a == self@.active,
    {
        self.active
    }

    pub fn tabs(&self) -> (t: &Vec<Tab>)
        ensures
            t@ == self@.tabs,
    {
        &self.tabs
    }

    pub fn add_tab(&mut self, tab: Tab)
        requires
            old(self).wf(),
        ensures
            final(self).wf(),
            final(self)@.tabs == old(self)@.tabs.push(tab),
            final(self)@.active == old(self)@.active,
    {
        self.tabs.push(tab);
    }

    /// Closes the active tab and gives back its id, leaving the cursor on the
    /// tab that followed it, or on the new last one when it was the last. The
    /// only tab is never closed.
    pub fn close_active(&mut self) -> (closed: Option<TabId>)
        requires
            old(self).wf(),
        ensures
            final(self).wf(),
            old(self)@.tabs.len() == 1 ==> closed is None && final(self)@ == old(self)@,
            old(self)@.tabs.len() > 1 ==> closed == Some(old(self)@.tabs[old(self)@.active as int]@.id)
                && final(self)@.tabs == old(self)@.tabs.remove(old(self)@.active as int)
                && final(self)@.active == if old(self)@.active < final(self)@.tabs.len() {
                    old(self)@.active
                } else {
                    (final(self)@.tabs.len() - 1) as nat
                },
    {
        if self.tabs.len() == 1 {
            return None;
        }
        let closed = self.tabs.remove(self.active);
        let last = self.tabs.len() - 1;
        self.active = if self.active < last { self.active } else { last };
        Some(closed.id)
    }

    /// The active tab.
    pub fn active_tab(&self) -> (t: &Tab)
        requires
            self.wf(),
        ensures
            *t == self@.tabs[self@.active as int],
    {
        &self.tabs[self.active]
    }

    /// The active tab, to change.
    pub fn active_tab_mut(&mut self) -> (t: &mut Tab)
        requires
            old(self).wf(),
        ensures
            *t == old(self)@.tabs[old(self)@.active as int],
            final(self)@.tabs == old(self)@.tabs.update(old(self)@.active as int, *final(t)),
            final(self)@.active == old(self)@.active,
    {
        let i = self.active;
        &mut self.tabs[i]
    }

    /// The tab `id` names, if it is still open: work queued from a tab
    /// outlives the tab, and this is how it finds out.
    pub fn tab_mut(&mut self, id: TabId) -> (t: Option<&mut Tab>)
        ensures
            match t {
                Some(t) => exists|i: int| 0 <= i < old(self)@.tabs.len() && old(self)@.tabs[i]@.id == id
                    && (forall|j: int| 0 <= j < i ==> (#[trigger] old(self)@.tabs[j])@.id != id)
                    && *t == old(self)@.tabs[i]
                    && final(self)@.tabs == old(self)@.tabs.update(i, *final(t)),
                None => (forall|i: int| 0 <= i < old(self)@.tabs.len() ==> (#[trigger] old(self)@.tabs[i])@.id != id)
                    && final(self)@.tabs == old(self)@.tabs,
            },
            final(self)@.active == old(self)@.active,
    {
        let mut i: usize = 0;
        let mut found: Option<usize> = None;
        while i < self.tabs.len() && found.is_none()
            invariant
                i <= self@.tabs.len(),
                found matches Some(k) ==> k < self@.tabs.len() && self@.tabs[k as int]@.id == id
                    && forall|j: int| 0 <= j < k ==> (#[trigger] self@.tabs[j])@.id != id,
                found is None ==> forall|j: int| 0 <= j < i ==> (#[trigger] self@.tabs[j])@.id != id,
            decreases self.tabs.len() - i + (if found is None { 1int } else { 0int }),
        {
            if self.tabs[i].id == id {
                found = Some(i);
            } else {
                i += 1;
            }
        }
        match found {
            Some(k) => {
                assert(forall|j: int| 0 <= j < k ==> (#[trigger] old(self)@.tabs[j])@.id != id);
                Some(&mut self.tabs[k])
            },
            None => None,
        }
    }

    /// Makes the neighbour of the active tab active, wrapping at either end.
    pub fn toggle(&mut self, dir: ToggleDirection)
        requires
            old(self).wf(),
        ensures
            final(self).wf(),
            final(self)@.tabs == old(self)@.tabs,
            final(self)@.active == match dir {
                ToggleDirection::Previous => if old(self)@.active == 0 {
                    (old(self)@.tabs.len() - 1) as nat
                } else {
                    (old(self)@.active - 1) as nat
                },
                ToggleDirection::Next => ((old(self)@.active + 1) as nat) % old(self)@.tabs.len(),
            },
    {
        let n = self.tabs.len();
        self.active = match dir {
            ToggleDirection::Previous => if self.active == 0 { n - 1 } else { self.active - 1 },
            ToggleDirection::Next => (self.active + 1) % n,
        };
    }
}

/// The marks once `p` is flipped: taken away when it was marked, put in
/// when it was not.
pub open spec fn toggled(marks: Set<PathParts>, p: PathParts) -> Set<PathParts> {
    if marks.contains(p) {
        marks.remove(p)
    } else {
        marks.insert(p)
    }
}

/// Flipping the mark of one item twice leaves the marks as they were.
pub proof fn toggling_twice_restores(marks: Set<PathParts>, p: PathParts)
    ensures
        toggled(toggled(marks, p), p) == marks,
{
    assert(toggled(toggled(marks, p), p) =~= marks);
}

} // verus!
