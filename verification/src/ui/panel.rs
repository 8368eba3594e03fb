//! One half of the screen: its tabs, and which tab the listing in flight
//! belongs to.
//!
//! One reader serves every tab of a panel, so there is at most one listing in
//! flight per side, and the two rules that follow from that are the whole of
//! this module: an answer belongs to the tab that asked for it, and a tab that
//! loses the reader has to ask again.

use vstd::prelude::*;

use crate::fs::directory::{Detail, DirEntry, DirEntryKind};
use crate::fs::paths::path_parts;
use crate::fs::sizes::DirSizes;
use crate::text::same_text;
use crate::fs::listing::Listed;
use crate::fs::reader::Drained;
use crate::fs::worker::Health;
use crate::ui::pane::{detail_wanted, unsent, AwaitedView, Entered, Pane, PaneError};
use crate::ui::tab::{Tab, TabId, TabList};
use crate::fs::paths::PathParts;

verus! {

/// The texts of `v`.
pub open spec fn texts(v: Seq<String>) -> Seq<Seq<char>> {
    v.map_values(|s: String| s@)
}

/// The tab at `i` held the reader for the listing in flight and loses it to
/// the active tab: it is the first tab carrying the id the reader was asked
/// for, and that id is not the active tab's.
pub open spec fn loses_reader(tabs: Seq<Tab>, active: int, holder: Option<TabId>, i: int) -> bool {
    &&& holder == Some(tabs[i]@.id)
    &&& tabs[i]@.id != tabs[active]@.id
    &&& forall|j: int| 0 <= j < i ==> (#[trigger] tabs[j])@.id != tabs[i]@.id
}

/// The directories among `entries`, in listing order.
pub open spec fn directories_of(entries: Seq<DirEntry>) -> Seq<Seq<char>>
    decreases entries.len(),
{
    if entries.len() == 0 {
        Seq::empty()
    } else {
        let rest = directories_of(entries.drop_last());
        if entries.last().kind == DirEntryKind::Directory {
            rest.push(entries.last().path@)
        } else {
            rest
        }
    }
}

/// The directories of `dirs` that `sizes` holds no total for, in order.
pub open spec fn unmeasured(dirs: Seq<Seq<char>>, sizes: Map<PathParts, u64>) -> Seq<Seq<char>>
    decreases dirs.len(),
{
    if dirs.len() == 0 {
        Seq::empty()
    } else {
        let rest = unmeasured(dirs.drop_last(), sizes);
        if sizes.contains_key(path_parts(dirs.last())) {
            rest
        } else {
            rest.push(dirs.last())
        }
    }
}

/// The directories `entries` lists.
fn directories(entries: &[DirEntry]) -> (dirs: Vec<String>)
    ensures
        texts(dirs@) == directories_of(entries@),
{
    let mut dirs: Vec<String> = Vec::new();
    let mut i: usize = 0;
    while i < entries.len()
        invariant
            i <= entries@.len(),
            texts(dirs@) == directories_of(entries@.take(i as int)),
        decreases entries.len() - i,
    {
        assert(entries@.take(i + 1).drop_last() =~= entries@.take(i as int));
        if entries[i].kind == DirEntryKind::Directory {
            let ghost before = dirs@;
            dirs.push(entries[i].path.clone());
            assert(texts(dirs@) =~= texts(before).push(entries@[i as int].path@));
        }
        i += 1;
    }
    assert(entries@.take(entries@.len() as int) =~= entries@);
    dirs
}

/// The directories of `dirs` that `sizes` holds no total for.
fn unmeasured_of(dirs: &Vec<String>, sizes: &DirSizes) -> (missing: Vec<String>)
    ensures
        texts(missing@) == unmeasured(texts(dirs@), sizes@),
{
    let mut missing: Vec<String> = Vec::new();
    let mut i: usize = 0;
    while i < dirs.len()
        invariant
            i <= dirs@.len(),
            texts(missing@) == unmeasured(texts(dirs@).take(i as int), sizes@),
        decreases dirs.len() - i,
    {
        assert(texts(dirs@).take(i + 1).drop_last() =~= texts(dirs@).take(i as int));
        assert(texts(dirs@).take(i + 1).last() == dirs@[i as int]@);
        if sizes.get(dirs[i].as_str()).is_none() {
            let ghost before = missing@;
            missing.push(dirs[i].clone());
            assert(texts(missing@) =~= texts(before).push(dirs@[i as int]@));
        }
        i += 1;
    }
    assert(texts(dirs@).take(dirs@.len() as int) =~= texts(dirs@));
    missing
}

/// A copy of `v`.
fn copied(v: &Vec<String>) -> (c: Vec<String>)
    ensures
        texts(c@) == texts(v@),
{
    let mut c: Vec<String> = Vec::new();
    let mut i: usize = 0;
    while i < v.len()
        invariant
            i <= v@.len(),
            texts(c@) == texts(v@).take(i as int),
        decreases v.len() - i,
    {
        let ghost before = c@;
        c.push(v[i].clone());
        assert(texts(c@) =~= texts(before).push(v@[i as int]@));
        assert(texts(v@).take(i + 1) =~= texts(v@).take(i as int).push(v@[i as int]@));
        i += 1;
    }
    assert(texts(v@).take(v@.len() as int) =~= texts(v@));
    c
}

/// Whether every text of `wanted` is among `asked`.
fn all_asked(wanted: &Vec<String>, asked: &Vec<String>) -> (all: bool)
    ensures
        all == forall|i: int| 0 <= i < wanted@.len() ==> #[trigger] texts(asked@).contains(wanted@[i]@),
{
    let mut i: usize = 0;
    while i < wanted.len()
        invariant
            i <= wanted@.len(),
            forall|k: int| 0 <= k < i ==> #[trigger] texts(asked@).contains(wanted@[k]@),
        decreases wanted.len() - i,
    {
        let mut found = false;
        let mut j: usize = 0;
        while j < asked.len()
            invariant
                i < wanted@.len(),
                j <= asked@.len(),
                !found ==> forall|k: int| 0 <= k < j ==> asked@[k]@ != wanted@[i as int]@,
                found ==> texts(asked@).contains(wanted@[i as int]@),
            decreases asked.len() - j,
        {
            if same_text(asked[j].as_str(), wanted[i].as_str()) {
                assert(texts(asked@)[j as int] == wanted@[i as int]@);
                found = true;
            }
            j += 1;
        }
        if !found {
            assert(!texts(asked@).contains(wanted@[i as int]@)) by {
                if texts(asked@).contains(wanted@[i as int]@) {
                    let k = choose|k: int| 0 <= k < texts(asked@).len() && texts(asked@)[k] == wanted@[i as int]@;
                    assert(asked@[k]@ == wanted@[i as int]@);
                }
            }
            return false;
        }
        i += 1;
    }
    true
}

/// What the panel's reader had to say on one pass of the loop.
#[derive(Debug)]
pub struct Collected {
    pub health: Health,
    /// The listing that could not be read, for the caller to report.
    pub error: Option<PaneError>,
    /// What the tab that asked wants done about the entry it entered.
    pub entered: Entered,
}

/// The tabs of one panel and the tab the outstanding listing was asked for.
#[derive(Debug)]
pub struct Panel {
    tabs: TabList,
    listing_for: Option<TabId>,
    /// Where the totals in flight were asked for, and which directories they
    /// were asked for.
    measuring: Option<(String, Vec<String>)>,
}

impl Panel {
    pub open spec fn wf(&self) -> bool {
        self.tabs_spec().wf()
    }

    pub closed spec fn tabs_spec(&self) -> TabList {
        self.tabs
    }

    pub closed spec fn listing_for_spec(&self) -> Option<TabId> {
        self.listing_for
    }

    pub closed spec fn measuring_spec(&self) -> Option<(Seq<char>, Seq<Seq<char>>)> {
        match self.measuring {
            Some((dir, asked)) => Some((dir@, texts(asked@))),
            None => None,
        }
    }

    /// A panel holding `first`, with nothing asked for yet.
    pub fn new(first: Tab) -> (p: Self)
        ensures
            p.wf(),
            p.tabs_spec()@.tabs == seq![first],
            p.tabs_spec()@.active == 0,
            p.listing_for_spec() is None,
            p.measuring_spec() is None,
    {
        let tabs = TabList::new(vec![first]);
        Panel { tabs, listing_for: None, measuring: None }
    }

    pub fn tabs(&self) -> (t: &TabList)
        ensures
            *t == self.tabs_spec(),
    {
        &self.tabs
    }

    pub fn tabs_mut(&mut self) -> (t: &mut TabList)
        ensures
            *t == old(self).tabs_spec(),
            final(self).tabs_spec() == *final(t),
            final(self).listing_for_spec() == old(self).listing_for_spec(),
    {
        &mut self.tabs
    }

    /// The pane of the active tab.
    pub fn active_pane(&self) -> (p: &Pane)
        requires
            self.wf(),
        ensures
            p@ == self.tabs_spec()@.tabs[self.tabs_spec()@.active as int]@.pane,
    {
        self.tabs.active_tab().get_pane()
    }

    /// Hands over what the active tab is waiting for, read with at least
    /// `detail`: the path to list, or `None` when it waits for nothing it has
    /// not asked for already. The tab that held the reader before, if it was
    /// another, loses it and has to ask again.
    pub fn send_wanted(&mut self, detail: Detail) -> (sent: Option<String>)
        requires
            old(self).wf(),
        ensures
            final(self).wf(),
            final(self).tabs_spec()@.active == old(self).tabs_spec()@.active,
            final(self).tabs_spec()@.tabs.len() == old(self).tabs_spec()@.tabs.len(),
            sent is Some ==> final(self).listing_for_spec() == Some(
                old(self).tabs_spec()@.tabs[old(self).tabs_spec()@.active as int]@.id),
            sent is None ==> final(self).listing_for_spec() == old(self).listing_for_spec(),
            final(self).measuring_spec() == old(self).measuring_spec(),
            ({
                let a = old(self).tabs_spec()@.active as int;
                let before = old(self).tabs_spec()@.tabs;
                let after = final(self).tabs_spec()@.tabs;
                let wanted = detail_wanted(before[a]@.pane, detail);
                &&& (sent is Some <==> wanted is ToSend)
                &&& (wanted matches AwaitedView::ToSend(r) ==> (sent matches Some(path) && path@ == r.path
                    && after[a]@.pane.awaited == AwaitedView::Sent(r)))
                &&& (!(wanted is ToSend) ==> after[a]@.pane.awaited == wanted)
                &&& after[a]@.pane.directory == before[a]@.pane.directory
                &&& after[a]@.pane.selected == before[a]@.pane.selected
                &&& after[a]@.id == before[a]@.id
                &&& after[a]@.title == before[a]@.title
                &&& after[a]@.marks == before[a]@.marks
                &&& forall|i: int| 0 <= i < before.len() && i != a ==> {
                    if sent is Some && loses_reader(before, a, old(self).listing_for_spec(), i) {
                        &&& after[i]@.pane.awaited == unsent(before[i]@.pane.awaited)
                        &&& after[i]@.pane.directory == before[i]@.pane.directory
                        &&& after[i]@.pane.selected == before[i]@.pane.selected
                        &&& after[i]@.id == before[i]@.id
                        &&& after[i]@.title == before[i]@.title
                        &&& after[i]@.marks == before[i]@.marks
                    } else {
                        #[trigger] after[i] == before[i]
                    }
                }
            }),
    {
        let ghost before = self.tabs@.tabs;
        let ghost a = self.tabs@.active as int;
        let id = self.tabs.active_tab().id();
        let sent = {
            let tab = self.tabs.active_tab_mut();
            let pane = tab.get_pane_mut();
            pane.want_detail(detail);
            pane.take_unsent()
        };
        let path = match sent {
            Some(p) => p,
            None => {
                return None;
            },
        };
        let ghost mid = self.tabs@.tabs;
        assert(forall|i: int| 0 <= i < before.len() && i != a ==> #[trigger] mid[i] == before[i]);
        assert(mid[a]@.id == id);
        let previous = self.listing_for;
        self.listing_for = Some(id);
        match previous {
            Some(prev) => {
                if prev != id {
                    match self.tabs.tab_mut(prev) {
                        Some(tab) => {
                            let ghost held = *tab;
                            tab.get_pane_mut().unsend();
                            proof {
                                let after = self.tabs@.tabs;
                                let k = choose|k: int|
                                    0 <= k < mid.len() && mid[k]@.id == prev && (forall|j: int| 0 <= j < k ==> (#[trigger] mid[j])@.id != prev)
                                        && held == mid[k] && after == mid.update(k, after[k]);
                                assert(k != a);
                                assert(loses_reader(before, a, previous, k)) by {
                                    assert forall|j: int| 0 <= j < k implies (#[trigger] before[j])@.id != before[k]@.id by {
                                        if j == a {
                                            assert(before[a]@.id == id);
                                        } else {
                                            assert(mid[j] == before[j]);
                                        }
                                    }
                                }
                                assert forall|i: int| 0 <= i < before.len() && i != a && i != k implies !loses_reader(before, a, previous, i) by {
                                    if loses_reader(before, a, previous, i) {
                                        if i < k {
                                            assert(mid[i] == before[i]);
                                            assert(mid[i]@.id != prev);
                                        } else {
                                            assert(before[k]@.id == prev);
                                        }
                                    }
                                }
                                assert forall|i: int| 0 <= i < before.len() && i != a && i != k implies #[trigger] after[i] == before[i] by {
                                    assert(mid[i] == before[i]);
                                }
                            }
                        },
                        None => {
                            assert forall|i: int| 0 <= i < before.len() && i != a implies !loses_reader(before, a, previous, i) by {
                                assert((#[trigger] mid[i])@.id != prev);
                            }
                        },
                    }
                } else {
                    assert forall|i: int| 0 <= i < before.len() && i != a implies !loses_reader(before, a, previous, i) by {
                        assert(before[a]@.id == id);
                    }
                }
            },
            None => {},
        }
        Some(path)
    }

    /// The pane of the active tab, to be changed in place; the other tabs and
    /// the listing in flight are left as they are.
    pub fn active_pane_mut(&mut self) -> (p: &mut Pane)
        requires
            old(self).wf(),
        ensures
            p@ == old(self).tabs_spec()@.tabs[old(self).tabs_spec()@.active as int]@.pane,
            final(self).wf(),
            final(self).listing_for_spec() == old(self).listing_for_spec(),
            final(self).tabs_spec()@.active == old(self).tabs_spec()@.active,
            final(self).tabs_spec()@.tabs.len() == old(self).tabs_spec()@.tabs.len(),
            final(self).tabs_spec()@.tabs[final(self).tabs_spec()@.active as int]@.pane == final(p)@,
            forall|i: int| 0 <= i < old(self).tabs_spec()@.tabs.len() && i != old(self).tabs_spec()@.active
                ==> #[trigger] final(self).tabs_spec()@.tabs[i] == old(self).tabs_spec()@.tabs[i],
    {
        self.tabs.active_tab_mut().get_pane_mut()
    }

    /// Takes what the reader sent on one pass and gives the newest listing to
    /// the tab that asked for it. Older ones describe a directory that tab
    /// has already left, and the reader has dropped them.
    pub fn collect_listing(&mut self, drained: Drained<Result<Listed, String>>) -> (c: Collected)
        requires
            old(self).wf(),
        ensures
            final(self).wf(),
            c.health == drained.health,
            final(self).tabs_spec()@.active == old(self).tabs_spec()@.active,
            final(self).tabs_spec()@.tabs.len() == old(self).tabs_spec()@.tabs.len(),
            drained.msgs@.len() == 0 ==> c.error is None && c.entered is Nothing
                && final(self).tabs_spec()@.tabs == old(self).tabs_spec()@.tabs
                && final(self).listing_for_spec() == old(self).listing_for_spec(),
            drained.msgs@.len() > 0 ==> final(self).listing_for_spec() is None,
            drained.msgs@.len() > 0 && old(self).listing_for_spec() is None ==> c.error is None
                && c.entered is Nothing && final(self).tabs_spec()@.tabs == old(self).tabs_spec()@.tabs,
    {
        let Drained { msgs, health } = drained;
        let mut msgs = msgs;
        let (entered, error) = match msgs.pop() {
            Some(listing) => match self.deliver(listing) {
                Ok(entered) => (entered, None),
                Err(e) => (Entered::Nothing, Some(e)),
            },
            None => (Entered::Nothing, None),
        };
        Collected { health, error, entered }
    }

    /// The directories whose totals the active tab should be asked for, or
    /// `None` when everything it wants is already on its way.
    ///
    /// A tab standing somewhere new has all of them measured again, the ones
    /// `sizes` already knows included, since a total goes stale with any
    /// change below it. A tab that stays asks for the ones `sizes` does not
    /// know, unless every one of them was asked for already; what is sent
    /// replaces the running walk, so those it was still on are asked again.
    pub fn send_sizing(&mut self, sizes: &DirSizes) -> (dirs: Option<Vec<String>>)
        requires
            old(self).wf(),
        ensures
            final(self).wf(),
            final(self).tabs_spec() == old(self).tabs_spec(),
            final(self).listing_for_spec() == old(self).listing_for_spec(),
            ({
                let pane = old(self).tabs_spec()@.tabs[old(self).tabs_spec()@.active as int]@.pane;
                let here = pane.directory.path;
                let all = directories_of(pane.directory.entries);
                let missing = unmeasured(all, sizes@);
                match old(self).measuring_spec() {
                    Some((dir, asked)) => if dir == here {
                        if forall|i: int| 0 <= i < missing.len() ==> #[trigger] asked.contains(missing[i]) {
                            dirs is None && final(self).measuring_spec() == old(self).measuring_spec()
                        } else {
                            dirs matches Some(v) && texts(v@) == missing && final(self).measuring_spec() == Some((here, missing))
                        }
                    } else {
                        dirs matches Some(v) && texts(v@) == all && final(self).measuring_spec() == Some((here, all))
                    },
                    None => dirs matches Some(v) && texts(v@) == all && final(self).measuring_spec() == Some((here, all)),
                }
            }),
    {
        let (here, all) = {
            let pane = self.tabs.active_tab().get_pane();
            let here = pane.get_current_dir().clone();
            (here, directories(pane.directory().entries()))
        };
        let same = match &self.measuring {
            Some((dir, _)) => same_text(dir.as_str(), here.as_str()),
            None => false,
        };
        if same {
            let missing = unmeasured_of(&all, sizes);
            let asked_already = match &self.measuring {
                Some((_, asked)) => all_asked(&missing, asked),
                None => false,
            };
            if asked_already {
                proof {
                    let asked = self.measuring_spec().unwrap().1;
                    assert forall|i: int| 0 <= i < texts(missing@).len() implies #[trigger] asked.contains(texts(missing@)[i]) by {
                        assert(texts(self.measuring.unwrap().1@).contains(missing@[i]@));
                    }
                }
                return None;
            }
            proof {
                let asked = self.measuring_spec().unwrap().1;
                let m = texts(missing@);
                assert(!(forall|i: int| 0 <= i < m.len() ==> #[trigger] asked.contains(m[i]))) by {
                    let i = choose|i: int| 0 <= i < missing@.len() && !#[trigger] texts(self.measuring.unwrap().1@).contains(missing@[i]@);
                    assert(!asked.contains(m[i]));
                }
            }
            self.measuring = Some((here, copied(&missing)));
            return Some(missing);
        }
        self.measuring = Some((here, copied(&all)));
        Some(all)
    }

    /// Forgets which directories were asked for, so the next
    /// [`Panel::send_sizing`] asks for everything missing. The walk in flight
    /// is the caller's to cancel.
    pub fn restart_sizing(&mut self)
        ensures
            final(self).tabs_spec() == old(self).tabs_spec(),
            final(self).listing_for_spec() == old(self).listing_for_spec(),
            final(self).measuring_spec() == match old(self).measuring_spec() {
                Some((dir, _)) => Some((dir, Seq::<Seq<char>>::empty())),
                None => None,
            },
    {
        let taken = self.measuring.take();
        match taken {
            Some((dir, _)) => {
                let none: Vec<String> = Vec::new();
                assert(texts(none@) =~= Seq::<Seq<char>>::empty());
                self.measuring = Some((dir, none));
            },
            None => {},
        }
    }

    /// Stops measuring for a pane that has nothing to show the totals in, and
    /// says whether anything was being measured, which is then the caller's
    /// to cancel.
    pub fn stop_sizing(&mut self) -> (was: bool)
        ensures
            was == old(self).measuring_spec() is Some,
            final(self).measuring_spec() is None,
            final(self).tabs_spec() == old(self).tabs_spec(),
            final(self).listing_for_spec() == old(self).listing_for_spec(),
    {
        self.measuring.take().is_some()
    }

    /// Hands the newest listing the reader sent to the tab that asked for
    /// it; an answer for a tab that has since closed goes nowhere.
    pub fn deliver(&mut self, listing: Result<Listed, String>) -> (r: Result<Entered, PaneError>)
        requires
            old(self).wf(),
        ensures
            final(self).wf(),
            final(self).listing_for_spec() is None,
            final(self).tabs_spec()@.active == old(self).tabs_spec()@.active,
            final(self).tabs_spec()@.tabs.len() == old(self).tabs_spec()@.tabs.len(),
            old(self).listing_for_spec() is None ==> (r matches Ok(Entered::Nothing)
                && final(self).tabs_spec()@.tabs == old(self).tabs_spec()@.tabs),
    {
        let id = match self.listing_for {
            Some(id) => id,
            None => {
                return Ok(Entered::Nothing);
            },
        };
        self.listing_for = None;
        match self.tabs.tab_mut(id) {
            Some(tab) => tab.get_pane_mut().listed(listing),
            None => Ok(Entered::Nothing),
        }
    }
}

} // verus!
