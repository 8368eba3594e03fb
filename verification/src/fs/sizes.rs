//! What the files below a directory add up to: what one walk counts of each
//! entry it meets, and where the totals are kept between one listing and the
//! next.

use vstd::prelude::*;

use crate::fs::paths::{lead, parts, path_parts, popped, same_path, Lead, PathParts};
use crate::text::chars_of;

verus! {

/// What a walk reads of one entry: whether it is a directory, the device it
/// lives on, its inode, how many names it has, and its length.
#[derive(Clone, Copy, Debug)]
pub struct Stat {
    pub is_dir: bool,
    pub dev: u64,
    pub ino: u64,
    pub nlink: u64,
    pub len: u64,
}

/// What a walk does with an entry.
#[derive(Clone, Copy, Debug, PartialEq, Eq, Structural)]
pub enum Counted {
    /// A directory on the device the walk started on: walked into.
    Descend,
    /// A directory on another device: left alone, like `du -x`.
    Skip,
    /// A file with more than one name: counted once, however many of its
    /// names the walk meets.
    Linked,
    /// Anything else: its length counts.
    Single,
}

/// What a walk started on `device` does with an entry read as `stat`. A
/// symlink is read as the link, so a link to a directory is sized as a link.
pub open spec fn counted_spec(stat: Stat, device: u64) -> Counted {
    if stat.is_dir {
        if stat.dev == device { Counted::Descend } else { Counted::Skip }
    } else if stat.nlink > 1 {
        Counted::Linked
    } else {
        Counted::Single
    }
}

pub fn counted(stat: Stat, device: u64) -> (c: Counted)
    ensures
        c == counted_spec(stat, device),
{
    if stat.is_dir {
        if stat.dev == device { Counted::Descend } else { Counted::Skip }
    } else if stat.nlink > 1 {
        Counted::Linked
    } else {
        Counted::Single
    }
}

/// The lengths a walk has counted: files with one name summed as they come,
/// and files with several kept by device and inode so each counts once.
#[derive(Debug)]
pub struct Tally {
    single: u128,
    linked: Vec<((u64, u64), u64)>,
}

pub struct TallyView {
    pub single: nat,
    pub linked: Map<(u64, u64), u64>,
}

/// The inodes `linked` holds, with the length of each; a later entry for an
/// inode stands over an earlier one.
pub open spec fn linked_map(linked: Seq<((u64, u64), u64)>) -> Map<(u64, u64), u64>
    decreases linked.len(),
{
    if linked.len() == 0 {
        Map::empty()
    } else {
        linked_map(linked.drop_last()).insert(linked.last().0, linked.last().1)
    }
}

/// The sum of the values of `linked`, each inode once.
pub open spec fn linked_sum(linked: Seq<((u64, u64), u64)>) -> nat
    decreases linked.len(),
{
    if linked.len() == 0 {
        0
    } else {
        linked_sum(linked.drop_last()) + linked.last().1 as nat
    }
}

/// No inode is listed twice.
pub open spec fn keys_unique(linked: Seq<((u64, u64), u64)>) -> bool {
    forall|i: int, j: int| 0 <= i < j < linked.len() ==> (#[trigger] linked[i]).0 != (#[trigger] linked[j]).0
}

impl View for Tally {
    type V = TallyView;

    closed spec fn view(&self) -> TallyView {
        TallyView { single: self.single as nat, linked: linked_map(self.linked@) }
    }
}

impl Tally {
    #[verifier::type_invariant]
    spec fn each_inode_once(&self) -> bool {
        keys_unique(self.linked@)
    }

    /// The total of what was counted: every file with one name, and every
    /// file with several once.
    pub closed spec fn total_spec(&self) -> nat {
        self.single as nat + linked_sum(self.linked@)
    }

    /// Nothing counted yet.
    pub fn new() -> (t: Self)
        ensures
            t@.single == 0,
            t@.linked == Map::<(u64, u64), u64>::empty(),
            t.total_spec() == 0,
    {
        Tally { single: 0, linked: Vec::new() }
    }

    /// Counts one file read as `stat`: by its length when it has one name,
    /// and once by its inode when it has several.
    pub fn count(&mut self, stat: Stat)
        requires
            old(self)@.single + stat.len < u128::MAX,
        ensures
            final(self)@ == counted_in(old(self)@, stat),
    {
        proof {
            use_type_invariant(&*self);
        }
        if stat.nlink > 1 {
            let key = (stat.dev, stat.ino);
            let mut i: usize = 0;
            while i < self.linked.len()
                invariant
                    i <= self.linked@.len(),
                    keys_unique(self.linked@),
                    self@ == old(self)@,
                    stat.nlink > 1,
                    key == (stat.dev, stat.ino),
                    forall|j: int| 0 <= j < i ==> (#[trigger] self.linked@[j]).0 != key,
                decreases self.linked.len() - i,
            {
                if self.linked[i].0.0 == key.0 && self.linked[i].0.1 == key.1 {
                    let mut linked: Vec<((u64, u64), u64)> = Vec::new();
                    std::mem::swap(&mut linked, &mut self.linked);
                    let ghost before = linked@;
                    linked.set(i, (key, stat.len));
                    proof {
                        lemma_set_existing(before, i as int, stat.len);
                    }
                    self.linked = linked;
                    return;
                }
                i += 1;
            }
            let mut linked: Vec<((u64, u64), u64)> = Vec::new();
            std::mem::swap(&mut linked, &mut self.linked);
            let ghost before = linked@;
            linked.push((key, stat.len));
            assert(linked@.drop_last() =~= before);
            assert forall|a: int, b: int| 0 <= a < b < linked@.len() implies (#[trigger] linked@[a]).0 != (#[trigger] linked@[b]).0 by {
                if b < before.len() {
                    assert(linked@[a] == before[a] && linked@[b] == before[b]);
                } else {
                    assert(linked@[a] == before[a]);
                }
            }
            self.linked = linked;
        } else {
            self.single = self.single + stat.len as u128;
        }
    }

    /// The total of what was counted.
    pub fn total(&self) -> (t: u128)
        requires
            self.total_spec() <= u128::MAX,
        ensures
            t == self.total_spec(),
    {
        let mut sum: u128 = self.single;
        let mut i: usize = 0;
        proof {
            lemma_sum_prefix_bounded(self.linked@, 0);
        }
        while i < self.linked.len()
            invariant
                i <= self.linked@.len(),
                sum == self.single + linked_sum(self.linked@.take(i as int)),
                self.single + linked_sum(self.linked@) <= u128::MAX,
            decreases self.linked.len() - i,
        {
            assert(self.linked@.take(i + 1).drop_last() =~= self.linked@.take(i as int));
            proof {
                lemma_sum_prefix_bounded(self.linked@, i + 1);
            }
            sum = sum + self.linked[i].1 as u128;
            i += 1;
        }
        assert(self.linked@.take(i as int) =~= self.linked@);
        sum
    }
}

/// Writing over the entry already listing an inode changes its length in the
/// map and nothing else.
proof fn lemma_set_existing(linked: Seq<((u64, u64), u64)>, i: int, len: u64)
    requires
        0 <= i < linked.len(),
        keys_unique(linked),
    ensures
        keys_unique(linked.update(i, (linked[i].0, len))),
        linked_map(linked.update(i, (linked[i].0, len))) == linked_map(linked).insert(linked[i].0, len),
    decreases linked.len(),
{
    let updated = linked.update(i, (linked[i].0, len));
    assert forall|a: int, b: int| 0 <= a < b < updated.len() implies (#[trigger] updated[a]).0 != (#[trigger] updated[b]).0 by {
        assert(updated[a].0 == linked[a].0);
        assert(updated[b].0 == linked[b].0);
    }
    if i == linked.len() - 1 {
        assert(updated.drop_last() =~= linked.drop_last());
    } else {
        assert(updated.drop_last() =~= linked.drop_last().update(i, (linked[i].0, len)));
        lemma_set_existing(linked.drop_last(), i, len);
        assert(linked.last().0 != linked[i].0);
        assert(linked_map(updated) =~= linked_map(linked).insert(linked[i].0, len));
    }
}

/// Every prefix of the list sums to no more than the whole.
proof fn lemma_sum_prefix_bounded(linked: Seq<((u64, u64), u64)>, n: int)
    requires
        0 <= n <= linked.len(),
    ensures
        linked_sum(linked.take(n)) <= linked_sum(linked),
    decreases linked.len() - n,
{
    if n < linked.len() {
        lemma_sum_prefix_bounded(linked, n + 1);
        assert(linked.take(n + 1).drop_last() =~= linked.take(n));
    } else {
        assert(linked.take(n) =~= linked);
    }
}

/// The totals of the directories measured so far, by path compared component
/// by component. One total for each path.
#[derive(Debug)]
pub struct DirSizes {
    sizes: Vec<(String, u64)>,
}

/// The totals `sizes` holds; a later entry for a path stands over an earlier
/// one.
pub open spec fn sizes_map(sizes: Seq<(String, u64)>) -> Map<PathParts, u64>
    decreases sizes.len(),
{
    if sizes.len() == 0 {
        Map::empty()
    } else {
        sizes_map(sizes.drop_last()).insert(path_parts(sizes.last().0@), sizes.last().1)
    }
}

/// Whether `k` is `p` or one of the directories above it, as
/// `Path::ancestors` walks them.
pub open spec fn is_ancestor(k: PathParts, p: PathParts) -> bool {
    ||| (k.0 == p.0 && k.1.len() <= p.1.len() && k.1 == p.1.take(k.1.len() as int))
    ||| (p.0 == Lead::Dot && k == (Lead::Nothing, Seq::<Seq<char>>::empty()))
}

impl View for DirSizes {
    type V = Map<PathParts, u64>;

    closed spec fn view(&self) -> Map<PathParts, u64> {
        sizes_map(self.sizes@)
    }
}

impl DirSizes {
    pub fn new() -> (d: Self)
        ensures
            d@ == Map::<PathParts, u64>::empty(),
    {
        DirSizes { sizes: Vec::new() }
    }

    /// The total measured for `dir`, if any.
    pub fn get(&self, dir: &str) -> (t: Option<u64>)
        ensures
            match t {
                Some(v) => self@.contains_key(path_parts(dir@)) && self@[path_parts(dir@)] == v,
                None => !self@.contains_key(path_parts(dir@)),
            },
    {
        let mut i: usize = self.sizes.len();
        while i > 0
            invariant
                i <= self.sizes@.len(),
                forall|j: int| i <= j < self.sizes@.len() ==> path_parts((#[trigger] self.sizes@[j]).0@) != path_parts(dir@),
            decreases i,
        {
            if same_path(self.sizes[i - 1].0.as_str(), dir) {
                proof {
                    lemma_last_wins(self.sizes@, i - 1, path_parts(dir@));
                }
                return Some(self.sizes[i - 1].1);
            }
            i -= 1;
        }
        proof {
            lemma_absent(self.sizes@, path_parts(dir@));
        }
        None
    }

    /// Records `total` for `dir`, over whatever was recorded for it before.
    pub fn insert(&mut self, dir: String, total: u64)
        ensures
            final(self)@ == old(self)@.insert(path_parts(dir@), total),
    {
        self.sizes.push((dir, total));
        assert(self.sizes@.drop_last() =~= old(self).sizes@);
    }

    /// Forgets the totals of `path` and of every directory above it, since a
    /// change at `path` changes what each of them adds up to.
    pub fn forget(&mut self, path: &str)
        ensures
            forall|k: PathParts| #[trigger] final(self)@.contains_key(k) <==> (old(self)@.contains_key(k) && !is_ancestor(k, path_parts(path@))),
            forall|k: PathParts| #[trigger] final(self)@.contains_key(k) ==> final(self)@[k] == old(self)@[k],
    {
        let chars = chars_of(path);
        let p_lead = lead(&chars);
        let p_parts = parts(&chars);
        let ghost pp = path_parts(path@);
        let mut kept: Vec<(String, u64)> = Vec::new();
        let mut i: usize = 0;
        while i < self.sizes.len()
            invariant
                i <= self.sizes@.len(),
                pp == path_parts(path@),
                pp == (p_lead, p_parts@.map_values(|c: Vec<char>| c@)),
                self@ == old(self)@,
                sizes_map(kept@) == sizes_map(self.sizes@.take(i as int)).restrict(
                    sizes_map(self.sizes@.take(i as int)).dom().filter(|k: PathParts| !is_ancestor(k, pp))),
            decreases self.sizes.len() - i,
        {
            let entry = &self.sizes[i];
            let ghost ek = path_parts(entry.0@);
            let above = ancestor(entry.0.as_str(), p_lead, &p_parts);
            assert(self.sizes@.take(i + 1).drop_last() =~= self.sizes@.take(i as int));
            let ghost before = kept@;
            if !above {
                kept.push((entry.0.clone(), entry.1));
                assert(kept@.drop_last() =~= before);
            }
            assert(sizes_map(kept@) =~= sizes_map(self.sizes@.take(i + 1)).restrict(
                sizes_map(self.sizes@.take(i + 1)).dom().filter(|k: PathParts| !is_ancestor(k, pp))));
            i += 1;
        }
        assert(self.sizes@.take(i as int) =~= self.sizes@);
        self.sizes = kept;
    }
}

/// Whether the path `k` is `p` (given by its lead and components) or a
/// directory above it.
fn ancestor(k: &str, p_lead: Lead, p_parts: &Vec<Vec<char>>) -> (a: bool)
    ensures
        a == is_ancestor(path_parts(k@), (p_lead, p_parts@.map_values(|c: Vec<char>| c@))),
{
    let chars = chars_of(k);
    let k_lead = lead(&chars);
    let k_parts = parts(&chars);
    let ghost kp = k_parts@.map_values(|c: Vec<char>| c@);
    let ghost pv = p_parts@.map_values(|c: Vec<char>| c@);
    if p_lead == Lead::Dot && k_lead == Lead::Nothing && k_parts.len() == 0 {
        assert(kp =~= Seq::<Seq<char>>::empty());
        return true;
    }
    assert(kp.len() == k_parts@.len() && pv.len() == p_parts@.len());
    if k_lead != p_lead || k_parts.len() > p_parts.len() {
        proof {
            if p_lead == Lead::Dot && (k_lead, kp) == (Lead::Nothing, Seq::<Seq<char>>::empty()) {
                assert(k_parts@.len() == 0);
            }
        }
        return false;
    }
    let mut i: usize = 0;
    while i < k_parts.len()
        invariant
            i <= k_parts@.len(),
            k_parts@.len() <= p_parts@.len(),
            kp == k_parts@.map_values(|c: Vec<char>| c@),
            pv == p_parts@.map_values(|c: Vec<char>| c@),
            kp.take(i as int) == pv.take(i as int),
            (k_lead, kp) == path_parts(k@),
            k_lead == p_lead,
        decreases k_parts.len() - i,
    {
        if !same_chars(&k_parts[i], &p_parts[i]) {
            assert(pv.take(kp.len() as int)[i as int] != kp[i as int]);
            return false;
        }
        assert(kp.take(i + 1) =~= kp.take(i as int).push(kp[i as int]));
        assert(pv.take(i + 1) =~= pv.take(i as int).push(pv[i as int]));
        i += 1;
    }
    assert(kp.take(i as int) =~= kp);
    true
}

/// Whether two spellings are the same.
fn same_chars(a: &Vec<char>, b: &Vec<char>) -> (s: bool)
    ensures
        s == (a@ == b@),
{
    if a.len() != b.len() {
        return false;
    }
    let mut i: usize = 0;
    while i < a.len()
        invariant
            i <= a@.len(),
            a@.len() == b@.len(),
            a@.take(i as int) == b@.take(i as int),
        decreases a.len() - i,
    {
        if a[i] != b[i] {
            return false;
        }
        assert(a@.take(i + 1) =~= a@.take(i as int).push(a@[i as int]));
        assert(b@.take(i + 1) =~= b@.take(i as int).push(b@[i as int]));
        i += 1;
    }
    assert(a@ =~= a@.take(i as int));
    assert(b@ =~= b@.take(i as int));
    true
}

/// The last entry naming `k` is the one the map holds.
proof fn lemma_last_wins(sizes: Seq<(String, u64)>, i: int, k: PathParts)
    requires
        0 <= i < sizes.len(),
        path_parts(sizes[i].0@) == k,
        forall|j: int| i < j < sizes.len() ==> path_parts((#[trigger] sizes[j]).0@) != k,
    ensures
        sizes_map(sizes).contains_key(k),
        sizes_map(sizes)[k] == sizes[i].1,
    decreases sizes.len(),
{
    if i < sizes.len() - 1 {
        lemma_last_wins(sizes.drop_last(), i, k);
    }
}

/// A path no entry names is not in the map.
proof fn lemma_absent(sizes: Seq<(String, u64)>, k: PathParts)
    requires
        forall|j: int| 0 <= j < sizes.len() ==> path_parts((#[trigger] sizes[j]).0@) != k,
    ensures
        !sizes_map(sizes).contains_key(k),
    decreases sizes.len(),
{
    if sizes.len() > 0 {
        lemma_absent(sizes.drop_last(), k);
    }
}

/// What `count` makes of `before` when it counts a file read as `stat`.
pub open spec fn counted_in(before: TallyView, stat: Stat) -> TallyView {
    if stat.nlink > 1 {
        TallyView { single: before.single, linked: before.linked.insert((stat.dev, stat.ino), stat.len) }
    } else {
        TallyView { single: before.single + stat.len as nat, linked: before.linked }
    }
}

/// A file with several names counts once: meeting it again under another of
/// its names leaves the tally as it was after the first.
pub proof fn a_linked_file_counts_once(before: TallyView, stat: Stat)
    requires
        stat.nlink > 1,
    ensures
        counted_in(counted_in(before, stat), stat) == counted_in(before, stat),
{
    assert(counted_in(counted_in(before, stat), stat).linked =~= counted_in(before, stat).linked);
}

} // verus!
