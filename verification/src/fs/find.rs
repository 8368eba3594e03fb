//! The search behind the find overlay: a walk of the tree below a panel,
//! breadth first, for entries whose name holds what was typed.
//!
//! The walk alternates reading a directory with deciding what of it to keep,
//! so it is kept here as the deciding half: the caller reads the directory
//! the walk asks for and hands the entries back.

use std::collections::VecDeque;
use vstd::prelude::*;

use crate::fs::directory::{fold_case, folded, name_chars, name_or_empty, DirEntry, DirEntryKind};
use crate::fs::reader::Drained;
use crate::fs::worker::Health;
use crate::text::{chars_of, contains_chars, contains_run, same_text, string_of};

verus! {

/// How a walk came to an end.
#[derive(Clone, Copy, Debug, PartialEq, Eq)]
pub enum Ended {
    /// Every directory in reach was read.
    Exhausted,
    /// As many hits as the limit allows were found.
    HitLimit,
    /// A newer search replaced this one.
    Cancelled,
}

/// How far a walk goes.
#[derive(Clone, Debug)]
pub struct Limits {
    /// Hits after which the walk stops.
    pub max_hits: usize,
    /// Levels below the root the walk descends.
    pub max_depth: usize,
    /// Names of directories the walk never enters.
    pub skip_dirs: Vec<String>,
}

impl Default for Limits {
    fn default() -> (l: Self)
        ensures
            l.max_hits == 200,
            l.max_depth == 16,
            l.skip_dirs@.len() == 3,
            l.skip_dirs@.map_values(|d: String| d@) == seq![".git"@, "node_modules"@, "target"@],
    {
        let l = Limits {
            max_hits: 200,
            max_depth: 16,
            skip_dirs: vec![
                string_of(chars_of(".git").as_slice()),
                string_of(chars_of("node_modules").as_slice()),
                string_of(chars_of("target").as_slice()),
            ],
        };
        assert(l.skip_dirs@.map_values(|d: String| d@) =~= seq![".git"@, "node_modules"@, "target"@]);
        l
    }
}

/// Whether the walk stays out of a directory at `path`: its name is one of
/// the names skipped.
pub open spec fn skips_spec(skip_dirs: Seq<Seq<char>>, path: Seq<char>) -> bool {
    crate::fs::directory::file_name_of(path) is Some && skip_dirs.contains(name_or_empty(path))
}

impl Limits {
    /// Whether the walk stays out of the directory at `path`.
    pub fn skips(&self, path: &str) -> (s: bool)
        ensures
            s == skips_spec(self.skip_dirs@.map_values(|d: String| d@), path@),
    {
        let ghost names = self.skip_dirs@.map_values(|d: String| d@);
        match crate::fs::directory::file_name(path) {
            None => false,
            Some(name) => {
                let text = string_of(name.as_slice());
                let mut i: usize = 0;
                while i < self.skip_dirs.len()
                    invariant
                        i <= self.skip_dirs@.len(),
                        names == self.skip_dirs@.map_values(|d: String| d@),
                        text@ == name@,
                        name@ == name_or_empty(path@),
                        crate::fs::directory::file_name_of(path@) == Some(name@),
                        forall|k: int| 0 <= k < i ==> names[k] != name@,
                    decreases self.skip_dirs.len() - i,
                {
                    if same_text(self.skip_dirs[i].as_str(), text.as_str()) {
                        assert(names[i as int] == name@);
                        assert(names.contains(name@));
                        return true;
                    }
                    i += 1;
                }
                false
            },
        }
    }
}

/// What a walk keeps between the directories it reads: what it looks for,
/// the directories still to read with how deep each is, and how many hits it
/// has made.
#[derive(Debug)]
pub struct Walk {
    needle: Vec<char>,
    queue: VecDeque<(String, usize)>,
    hits: usize,
    limits: Limits,
}

/// The state of a walk, for the contracts.
pub struct WalkView {
    pub needle: Seq<char>,
    pub pending: Seq<(Seq<char>, usize)>,
    pub hits: nat,
    pub max_hits: nat,
    pub max_depth: nat,
    pub skip_dirs: Seq<Seq<char>>,
}

impl View for Walk {
    type V = WalkView;

    closed spec fn view(&self) -> WalkView {
        WalkView {
            needle: self.needle@,
            pending: queued_view(self.queue@),
            hits: self.hits as nat,
            max_hits: self.limits.max_hits as nat,
            max_depth: self.limits.max_depth as nat,
            skip_dirs: self.limits.skip_dirs@.map_values(|d: String| d@),
        }
    }
}

/// What visiting one directory came to: the hits in order, the directories to
/// read later in order, and whether the hits reached the limit.
pub type Visited = (Seq<DirEntry>, Seq<(Seq<char>, usize)>, nat, bool);

/// One entry of a directory at `depth` visited: a hit where its folded name
/// holds the needle, stopping once the hits reach the limit, and a directory
/// to read later where it is one, is not too deep and is not skipped. The
/// parent is passed over, and nothing is looked at once the limit is hit.
pub open spec fn visit_step(st: Visited, e: DirEntry, depth: usize, v: WalkView) -> Visited {
    if st.3 || e.kind == DirEntryKind::Parent {
        st
    } else {
        let hit = contains_run(fold_case(name_or_empty(e.path@)), v.needle);
        let found = if hit { st.0.push(e) } else { st.0 };
        let hits = if hit { st.2 + 1 } else { st.2 };
        if hit && hits >= v.max_hits {
            (found, st.1, hits, true)
        } else if e.kind == DirEntryKind::Directory && depth < v.max_depth && !skips_spec(v.skip_dirs, e.path@) {
            (found, st.1.push((e.path@, (depth + 1) as usize)), hits, false)
        } else {
            (found, st.1, hits, false)
        }
    }
}

pub open spec fn visit_spec(entries: Seq<DirEntry>, depth: usize, v: WalkView) -> Visited
    decreases entries.len(),
{
    if entries.len() == 0 {
        (Seq::empty(), Seq::empty(), v.hits, false)
    } else {
        visit_step(visit_spec(entries.drop_last(), depth, v), entries.last(), depth, v)
    }
}

/// Whether `pending` is read level by level: no directory waits behind one
/// that is deeper, and no two waiting are more than a level apart.
pub open spec fn level_ordered(pending: Seq<(Seq<char>, usize)>) -> bool {
    forall|i: int, j: int| 0 <= i < j < pending.len() ==> #[trigger] pending[i].1 <= #[trigger] pending[j].1
        && pending[j].1 <= pending[i].1 + 1
}

/// Every directory a visit queues is one level below the directory visited.
proof fn lemma_queued_one_below(entries: Seq<DirEntry>, depth: usize, v: WalkView)
    requires
        v.max_depth <= usize::MAX,
    ensures
        forall|k: int| 0 <= k < visit_spec(entries, depth, v).1.len() ==> #[trigger] visit_spec(entries, depth, v).1[k].1
            == depth + 1,
    decreases entries.len(),
{
    if entries.len() > 0 {
        lemma_queued_one_below(entries.drop_last(), depth, v);
        let before = visit_spec(entries.drop_last(), depth, v);
        let after = visit_spec(entries, depth, v);
        assert forall|k: int| 0 <= k < after.1.len() implies #[trigger] after.1[k].1 == depth + 1 by {
            if k < before.1.len() {
                assert(after.1[k] == before.1[k]);
            }
        }
    }
}

/// The walk is breadth first: when the directory at the head of a level
/// ordered queue is read and what it holds is queued behind the rest, the
/// queue is still level ordered, so no directory is read before every
/// directory above it.
pub proof fn the_walk_goes_level_by_level(v: WalkView, entries: Seq<DirEntry>)
    requires
        v.pending.len() > 0,
        level_ordered(v.pending),
        v.max_depth <= usize::MAX,
    ensures
        level_ordered(v.pending.drop_first() + visit_spec(entries, v.pending[0].1, v).1),
{
    let d = v.pending[0].1;
    let rest = v.pending.drop_first();
    let added = visit_spec(entries, d, v).1;
    lemma_queued_one_below(entries, d, v);
    let all = rest + added;
    assert forall|i: int, j: int| 0 <= i < j < all.len() implies #[trigger] all[i].1 <= #[trigger] all[j].1
        && all[j].1 <= all[i].1 + 1 by {
        if j < rest.len() {
            assert(all[i] == v.pending[i + 1] && all[j] == v.pending[j + 1]);
        } else if i < rest.len() {
            assert(all[i] == v.pending[i + 1]);
            assert(all[j] == added[j - rest.len()]);
            assert(v.pending[0].1 <= v.pending[i + 1].1 <= v.pending[0].1 + 1);
        } else {
            assert(all[i] == added[i - rest.len()] && all[j] == added[j - rest.len()]);
        }
    }
}

/// A visit stops at the hit limit: the hits it counts never pass the limit,
/// it stops exactly when they reach it, and each hit counted is one it hands
/// back.
pub proof fn a_visit_stops_at_the_limit(entries: Seq<DirEntry>, depth: usize, v: WalkView)
    requires
        v.hits < v.max_hits,
    ensures
        visit_spec(entries, depth, v).2 <= v.max_hits,
        visit_spec(entries, depth, v).3 <==> visit_spec(entries, depth, v).2 == v.max_hits,
        visit_spec(entries, depth, v).0.len() == visit_spec(entries, depth, v).2 - v.hits,
    decreases entries.len(),
{
    if entries.len() > 0 {
        a_visit_stops_at_the_limit(entries.drop_last(), depth, v);
    }
}

/// A directory whose name is among the names skipped is never queued: every
/// directory a visit queues either has no file name or has one that is not
/// skipped, whatever else the entries are.
pub proof fn skipped_directories_are_never_queued(entries: Seq<DirEntry>, depth: usize, v: WalkView)
    ensures
        forall|k: int| 0 <= k < visit_spec(entries, depth, v).1.len() ==> (
            crate::fs::directory::file_name_of(#[trigger] visit_spec(entries, depth, v).1[k].0) matches Some(name)
                ==> !v.skip_dirs.contains(name)),
    decreases entries.len(),
{
    if entries.len() > 0 {
        skipped_directories_are_never_queued(entries.drop_last(), depth, v);
        let before = visit_spec(entries.drop_last(), depth, v);
        let after = visit_spec(entries, depth, v);
        assert forall|k: int| 0 <= k < after.1.len() implies (crate::fs::directory::file_name_of(
            #[trigger] after.1[k].0,
        ) matches Some(name) ==> !v.skip_dirs.contains(name)) by {
            if k < before.1.len() {
                assert(after.1[k] == before.1[k]);
            }
        }
    }
}

/// Every other directory is read in its turn: a directory entry that is not
/// itself a hit, lies above the depth limit, and has a name that is not
/// skipped goes to the back of the queue, one level down, while the walk is
/// still looking.
pub proof fn an_unskipped_directory_is_queued(st: Visited, e: DirEntry, depth: usize, v: WalkView, name: Seq<char>)
    requires
        !st.3,
        e.kind == DirEntryKind::Directory,
        crate::fs::directory::file_name_of(e.path@) == Some(name),
        !v.skip_dirs.contains(name),
        depth < v.max_depth,
        !contains_run(fold_case(name), v.needle),
    ensures
        visit_step(st, e, depth, v).1 == st.1.push((e.path@, (depth + 1) as usize)),
        visit_step(st, e, depth, v).0 == st.0,
        !visit_step(st, e, depth, v).3,
{
}

/// Under the default limits, no directory named `.git`, `node_modules` or
/// `target` is ever queued.
pub proof fn the_default_walk_stays_out_of_build_and_vcs_directories(entries: Seq<DirEntry>, depth: usize, v: WalkView)
    requires
        v.skip_dirs == seq![".git"@, "node_modules"@, "target"@],
    ensures
        forall|k: int| 0 <= k < visit_spec(entries, depth, v).1.len() ==> {
            let name = crate::fs::directory::file_name_of(#[trigger] visit_spec(entries, depth, v).1[k].0);
            name != Some(".git"@) && name != Some("node_modules"@) && name != Some("target"@)
        },
{
    skipped_directories_are_never_queued(entries, depth, v);
    assert(v.skip_dirs[0] == ".git"@ && v.skip_dirs[1] == "node_modules"@ && v.skip_dirs[2] == "target"@);
}

fn copy_entry(e: &DirEntry) -> (c: DirEntry)
    ensures
        c.path@ == e.path@,
        c.kind == e.kind,
        c.meta == e.meta,
{
    DirEntry { path: string_of(chars_of(e.path.as_str()).as_slice()), kind: e.kind, meta: e.meta }
}

impl Walk {
    /// A walk of the tree below `root` for names that hold `query`, compared
    /// in lower case.
    pub fn start(root: &str, query: &str, limits: Limits) -> (w: Self)
        ensures
            w@.needle == fold_case(query@),
            w@.pending == seq![(root@, 0usize)],
            w@.hits == 0,
            w@.max_hits == limits.max_hits,
            w@.max_depth == limits.max_depth,
            w@.skip_dirs == limits.skip_dirs@.map_values(|d: String| d@),
    {
        let needle = folded(&chars_of(query));
        let mut queue: VecDeque<(String, usize)> = VecDeque::new();
        queue.push_back((string_of(chars_of(root).as_slice()), 0usize));
        let w = Walk { needle, queue, hits: 0, limits };
        assert(w@.pending =~= seq![(root@, 0usize)]);
        w
    }

    /// The next directory to read and how deep it is, or `None` once there is
    /// none left, which is where the walk is exhausted.
    pub fn next_dir(&mut self) -> (dir: Option<(String, usize)>)
        ensures
            final(self)@.needle == old(self)@.needle,
            final(self)@.hits == old(self)@.hits,
            final(self)@.max_hits == old(self)@.max_hits,
            final(self)@.max_depth == old(self)@.max_depth,
            final(self)@.skip_dirs == old(self)@.skip_dirs,
            old(self)@.pending.len() == 0 ==> dir is None && final(self)@.pending.len() == 0,
            old(self)@.pending.len() > 0 ==> (dir matches Some(d) && (d.0@, d.1) == old(self)@.pending[0]
                && final(self)@.pending == old(self)@.pending.drop_first()),
    {
        let ghost before = self.queue@;
        let front = self.queue.pop_front();
        proof {
            if front is Some {
                assert(queued_view(self.queue@) =~= queued_view(before).drop_first());
            }
        }
        front
    }

    /// Visits the entries of a directory at `depth`: the hits it holds, in
    /// order, come back, and the directories below it are queued behind those
    /// already waiting. `Some(HitLimit)` once the hits reach the limit.
    pub fn visit(&mut self, entries: &[DirEntry], depth: usize) -> (found: (Vec<DirEntry>, Option<Ended>))
        requires
            old(self)@.hits < old(self)@.max_hits || old(self)@.hits == 0,
        ensures
            final(self)@.needle == old(self)@.needle,
            final(self)@.max_hits == old(self)@.max_hits,
            final(self)@.max_depth == old(self)@.max_depth,
            final(self)@.skip_dirs == old(self)@.skip_dirs,
            found.0@.len() == visit_spec(entries@, depth, old(self)@).0.len(),
            forall|i: int| 0 <= i < found.0@.len() ==> (#[trigger] found.0@[i]).path@ == visit_spec(entries@, depth, old(self)@).0[i].path@
                && found.0@[i].kind == visit_spec(entries@, depth, old(self)@).0[i].kind
                && found.0@[i].meta == visit_spec(entries@, depth, old(self)@).0[i].meta,
            final(self)@.pending == old(self)@.pending + visit_spec(entries@, depth, old(self)@).1,
            final(self)@.hits == visit_spec(entries@, depth, old(self)@).2,
            found.1 == (if visit_spec(entries@, depth, old(self)@).3 { Some(Ended::HitLimit) } else { None }),
            found.1 is None ==> (final(self)@.hits < final(self)@.max_hits || final(self)@.hits == 0),
    {
        let ghost v = self@;
        let mut found: Vec<DirEntry> = Vec::new();
        let mut queued: Vec<(String, usize)> = Vec::new();
        let mut stopped = false;
        let mut hits = self.hits;
        let mut i: usize = 0;
        assert(visit_spec(entries@.take(0), depth, v).1 =~= Seq::new(queued@.len(), |k: int| (queued@[k].0@, queued@[k].1)));
        while i < entries.len()
            invariant
                i <= entries@.len(),
                self@ == v,
                self.limits.max_hits == v.max_hits,
                self.limits.max_depth == v.max_depth,
                self.needle@ == v.needle,
                self.limits.skip_dirs@.map_values(|d: String| d@) == v.skip_dirs,
                found@.len() == visit_spec(entries@.take(i as int), depth, v).0.len(),
                forall|k: int| 0 <= k < found@.len() ==> (#[trigger] found@[k]).path@ == visit_spec(entries@.take(i as int), depth, v).0[k].path@
                    && found@[k].kind == visit_spec(entries@.take(i as int), depth, v).0[k].kind
                    && found@[k].meta == visit_spec(entries@.take(i as int), depth, v).0[k].meta,
                queued_view(queued@) == visit_spec(entries@.take(i as int), depth, v).1,
                hits == visit_spec(entries@.take(i as int), depth, v).2,
                stopped == visit_spec(entries@.take(i as int), depth, v).3,
                !stopped ==> (visit_spec(entries@.take(i as int), depth, v).2 < v.max_hits || visit_spec(entries@.take(i as int), depth, v).2 == 0),
            decreases entries.len() - i,
        {
            assert(entries@.take(i + 1).drop_last() =~= entries@.take(i as int));
            assert(entries@.take(i + 1).last() == entries@[i as int]);
            let ghost st = visit_spec(entries@.take(i as int), depth, v);
            let e = &entries[i];
            if !stopped && e.kind != DirEntryKind::Parent {
                let name = name_chars(e.path.as_str());
                let low = folded(&name);
                let hit = contains_chars(&low, &self.needle);
                if hit {
                    let ghost before = found@;
                    found.push(copy_entry(e));
                    assert(forall|k: int| 0 <= k < before.len() ==> found@[k] == before[k]);
                    hits = hits + 1;
                }
                if hit && hits >= self.limits.max_hits {
                    stopped = true;
                } else if e.kind == DirEntryKind::Directory && depth < self.limits.max_depth && !self.limits.skips(e.path.as_str()) {
                    let ghost before = queued@;
                    queued.push((string_of(chars_of(e.path.as_str()).as_slice()), depth + 1));
                    assert(queued_view(queued@) =~= queued_view(before).push((e.path@, (depth + 1) as usize)));
                }
            }
            i += 1;
        }
        assert(entries@.take(entries@.len() as int) =~= entries@);
        self.hits = hits;
        let ghost pending_before = self@.pending;
        let ghost add = queued_view(queued@);
        let mut j: usize = 0;
        while j < queued.len()
            invariant
                j <= queued@.len(),
                add == queued_view(queued@),
                queued_view(self.queue@) == pending_before + add.take(j as int),
                self.needle@ == v.needle,
                self.hits == hits,
                self.limits.max_hits == v.max_hits,
                self.limits.max_depth == v.max_depth,
                self.limits.skip_dirs@.map_values(|d: String| d@) == v.skip_dirs,
            decreases queued.len() - j,
        {
            let ghost q0 = self.queue@;
            self.queue.push_back((string_of(chars_of(queued[j].0.as_str()).as_slice()), queued[j].1));
            assert(queued_view(self.queue@) =~= queued_view(q0).push(add[j as int]));
            assert(add.take(j + 1) =~= add.take(j as int).push(add[j as int]));
            j += 1;
        }
        assert(add.take(add.len() as int) =~= add);
        (found, if stopped { Some(Ended::HitLimit) } else { None })
    }
}

/// Each of `queued` by the characters of its path, beside its depth.
pub open spec fn queued_view(queued: Seq<(String, usize)>) -> Seq<(Seq<char>, usize)> {
    Seq::new(queued.len(), |k: int| (queued[k].0@, queued[k].1))
}

/// One search: the tree below `root`, for names holding `query`.
#[derive(Debug)]
pub struct Search {
    pub root: String,
    pub query: String,
}

/// What a search sends back: hits as they are found, and once, how it ended.
#[derive(Debug)]
pub enum SearchMsg {
    Hits(Vec<DirEntry>),
    Done(Ended),
}

/// Everything a search sent since the last look, gathered: the hits in the
/// order they came, how it ended if it has, and whether the reader is still
/// there.
#[derive(Debug)]
pub struct Found {
    pub hits: Vec<DirEntry>,
    pub ended: Option<Ended>,
    pub health: Health,
}

/// The hits `msgs` carry, in order.
pub open spec fn hits_of(msgs: Seq<SearchMsg>) -> Seq<DirEntry>
    decreases msgs.len(),
{
    if msgs.len() == 0 {
        Seq::empty()
    } else {
        hits_of(msgs.drop_last()) + match msgs.last() {
            SearchMsg::Hits(h) => h@,
            SearchMsg::Done(_) => Seq::empty(),
        }
    }
}

/// How the last `Done` of `msgs` says the search ended, if one did.
pub open spec fn ended_of(msgs: Seq<SearchMsg>) -> Option<Ended>
    decreases msgs.len(),
{
    if msgs.len() == 0 {
        None
    } else {
        match msgs.last() {
            SearchMsg::Done(e) => Some(e),
            SearchMsg::Hits(_) => ended_of(msgs.drop_last()),
        }
    }
}

impl Found {
    /// Gathers what a reader drained into one answer.
    pub fn fold(drained: Drained<SearchMsg>) -> (found: Self)
        ensures
            found.hits@ == hits_of(drained.msgs@),
            found.ended == ended_of(drained.msgs@),
            found.health == drained.health,
    {
        let Drained { msgs, health } = drained;
        let ghost all = msgs@;
        let mut hits: Vec<DirEntry> = Vec::new();
        let mut ended: Option<Ended> = None;
        let mut rest = msgs;
        let mut n: usize = 0;
        assert(all.skip(0) =~= all);
        assert(all.len() == rest.len());
        while rest.len() > 0
            invariant
                rest@.len() + n == all.len(),
                all.len() <= usize::MAX,
                rest@ == all.skip(n as int),
                hits@ == hits_of(all.take(n as int)),
                ended == ended_of(all.take(n as int)),
            decreases rest@.len(),
        {
            let ghost before = rest@;
            let msg = rest.remove(0);
            assert(msg == all[n as int]);
            assert(rest@ =~= all.skip(n + 1));
            assert(all.take(n + 1).drop_last() =~= all.take(n as int));
            match msg {
                SearchMsg::Hits(mut more) => {
                    hits.append(&mut more);
                },
                SearchMsg::Done(e) => {
                    ended = Some(e);
                },
            }
            n += 1;
        }
        assert(all.take(n as int) =~= all);
        Found { hits, ended, health }
    }
}

} // verus!
