//! One directory listing, and the order its entries are kept in.

use vstd::prelude::*;

use crate::fs::paths::{parent, parent_of};
use crate::text::{chars_of, lowercase_of, lowercase, string_of};

verus! {

/// How two things compare: the first comes before the second, they are level,
/// or it comes after.
#[derive(PartialEq, Eq, Clone, Copy, Debug)]
pub enum Compared {
    Less,
    Equal,
    Greater,
}

/// What an entry of a listing is.
#[derive(PartialEq, Eq, Structural, Clone, Copy, Debug)]
pub enum DirEntryKind {
    Parent,
    Directory,
    Symlink,
    File,
}

/// Where a kind of entry stands in a listing: the parent leads, then
/// directories, symlinks, and files last.
pub open spec fn rank_of(kind: DirEntryKind) -> u8 {
    match kind {
        DirEntryKind::Parent => 0,
        DirEntryKind::Directory => 1,
        DirEntryKind::Symlink => 2,
        DirEntryKind::File => 3,
    }
}

impl DirEntryKind {
    /// Position in the listing: the parent leads, then directories, symlinks,
    /// and files last.
    pub fn rank(self) -> (r: u8)
        ensures
            r == rank_of(self),
    {
        match self {
            DirEntryKind::Parent => 0,
            DirEntryKind::Directory => 1,
            DirEntryKind::Symlink => 2,
            DirEntryKind::File => 3,
        }
    }
}

/// How much of each entry a listing was read with.
#[derive(PartialEq, Eq, Structural, Clone, Copy, Debug)]
pub enum Detail {
    NamesOnly,
    WithMetadata,
}

/// What a `stat` of an entry said, for the columns that show it.
#[derive(PartialEq, Eq, Clone, Copy, Debug)]
pub struct EntryMeta {
    pub size: u64,
    /// Seconds since the epoch.
    pub modified: i64,
}

#[derive(Debug)]
pub struct DirEntry {
    pub path: String,
    pub kind: DirEntryKind,
    pub meta: Option<EntryMeta>,
}

/// One directory listing, sorted on construction. A `Directory` is a snapshot:
/// nothing mutates it, and a newer listing means reading another one.
#[derive(Debug)]
pub struct Directory {
    path: String,
    entries: Vec<DirEntry>,
    detail: Detail,
}

/// The comparison `str::cmp` and `Iterator::cmp` make of two strings of
/// characters: the first place they differ decides, and a prefix comes first.
pub open spec fn lex_order(a: Seq<char>, b: Seq<char>) -> Compared
    decreases a.len(),
{
    if a.len() == 0 {
        if b.len() == 0 {
            Compared::Equal
        } else {
            Compared::Less
        }
    } else if b.len() == 0 {
        Compared::Greater
    } else if a[0] < b[0] {
        Compared::Less
    } else if a[0] > b[0] {
        Compared::Greater
    } else {
        lex_order(a.drop_first(), b.drop_first())
    }
}

/// `first`, unless it is `Equal`, in which case `second` decides.
pub open spec fn then(first: Compared, second: Compared) -> Compared {
    match first {
        Compared::Equal => second,
        _ => first,
    }
}

pub open spec fn flip(o: Compared) -> Compared {
    match o {
        Compared::Less => Compared::Greater,
        Compared::Equal => Compared::Equal,
        Compared::Greater => Compared::Less,
    }
}

pub open spec fn order_u8(a: u8, b: u8) -> Compared {
    if a < b {
        Compared::Less
    } else if a > b {
        Compared::Greater
    } else {
        Compared::Equal
    }
}

/// The state of a left-to-right reading of a path: the last component
/// finished so far, and the one still being read. Empty components and `.`
/// are passed over, the way `Path::components` normalises them.
pub open spec fn components_read(p: Seq<char>) -> (Option<Seq<char>>, Seq<char>)
    decreases p.len(),
{
    if p.len() == 0 {
        (None, Seq::empty())
    } else {
        let (last, current) = components_read(p.drop_last());
        if p.last() == '/' {
            (finished(last, current), Seq::empty())
        } else {
            (last, current.push(p.last()))
        }
    }
}

/// `last` after the component `current` has ended.
pub open spec fn finished(last: Option<Seq<char>>, current: Seq<char>) -> Option<Seq<char>> {
    if current.len() == 0 || current == seq!['.'] {
        last
    } else {
        Some(current)
    }
}

/// The last component of a path, or `None` when it has none or ends in `..`,
/// which is what `Path::file_name` says of it.
pub open spec fn file_name_of(p: Seq<char>) -> Option<Seq<char>> {
    let (last, current) = components_read(p);
    match finished(last, current) {
        Some(name) => if name == seq!['.', '.'] {
            None
        } else {
            Some(name)
        },
        None => None,
    }
}

/// The file name of `p`, with a path that has none counting as empty.
pub open spec fn name_or_empty(p: Seq<char>) -> Seq<char> {
    match file_name_of(p) {
        Some(name) => name,
        None => Seq::empty(),
    }
}

/// Every character of `s` folded to lower case, one after the other.
pub open spec fn fold_case(s: Seq<char>) -> Seq<char>
    decreases s.len(),
{
    if s.len() == 0 {
        Seq::empty()
    } else {
        fold_case(s.drop_last()) + lowercase_of(s.last())
    }
}

/// How two paths are ordered by name: folded to lower case first, and by the
/// names as they are when the folded ones are the same.
pub open spec fn name_order(a: Seq<char>, b: Seq<char>) -> Compared {
    let (x, y) = (name_or_empty(a), name_or_empty(b));
    then(lex_order(fold_case(x), fold_case(y)), lex_order(x, y))
}

impl DirEntry {
    /// What the ordering of a listing reads of an entry.
    pub open spec fn key(self) -> (u8, Seq<char>, Seq<char>) {
        (rank_of(self.kind), fold_case(name_or_empty(self.path@)), name_or_empty(self.path@))
    }
}

/// The order of a listing: by rank, then by name.
pub open spec fn entry_order(a: DirEntry, b: DirEntry) -> Compared {
    then(order_u8(rank_of(a.kind), rank_of(b.kind)), name_order(a.path@, b.path@))
}

/// Every entry of `s` comes no later than every entry after it.
pub open spec fn sorted(s: Seq<DirEntry>) -> bool {
    forall|i: int, j: int| 0 <= i < j < s.len() ==> entry_order(s[i], s[j]) != Compared::Greater
}

pub proof fn lemma_lex_flip(a: Seq<char>, b: Seq<char>)
    ensures
        lex_order(b, a) == flip(lex_order(a, b)),
    decreases a.len(),
{
    if a.len() > 0 && b.len() > 0 && a[0] == b[0] {
        lemma_lex_flip(a.drop_first(), b.drop_first());
    }
}

pub proof fn lemma_lex_equal(a: Seq<char>, b: Seq<char>)
    ensures
        (lex_order(a, b) == Compared::Equal) == (a == b),
    decreases a.len(),
{
    if a.len() == 0 || b.len() == 0 {
        if a.len() == 0 && b.len() == 0 {
            assert(a =~= b);
        }
    } else if a[0] == b[0] {
        lemma_lex_equal(a.drop_first(), b.drop_first());
        if a.drop_first() == b.drop_first() {
            assert forall|i: int| 0 <= i < a.len() implies a[i] == b[i] by {
                if i > 0 {
                    assert(a[i] == a.drop_first()[i - 1]);
                    assert(b[i] == b.drop_first()[i - 1]);
                }
            }
            assert(a =~= b);
        } else if a == b {
            assert(a.drop_first() =~= b.drop_first());
        }
    } else if a == b {
        assert(a[0] == b[0]);
    }
}

pub proof fn lemma_lex_refl(a: Seq<char>)
    ensures
        lex_order(a, a) == Compared::Equal,
    decreases a.len(),
{
    if a.len() > 0 {
        lemma_lex_refl(a.drop_first());
    }
}

pub proof fn lemma_lex_trans(a: Seq<char>, b: Seq<char>, c: Seq<char>)
    requires
        lex_order(a, b) != Compared::Greater,
        lex_order(b, c) != Compared::Greater,
    ensures
        lex_order(a, c) != Compared::Greater,
        lex_order(a, b) == Compared::Less || lex_order(b, c) == Compared::Less ==> lex_order(a, c)
            == Compared::Less,
    decreases a.len(),
{
    lemma_lex_equal(a, b);
    lemma_lex_equal(b, c);
    if a.len() > 0 && b.len() > 0 && c.len() > 0 && a[0] == b[0] && b[0]
        == (c[0]) {
        lemma_lex_trans(a.drop_first(), b.drop_first(), c.drop_first());
    }
}

/// The order of a listing is a total preorder on its entries: any two are
/// comparable, the comparison runs the same way read backwards, and it is
/// transitive.
pub proof fn lemma_entry_order_total(a: DirEntry, b: DirEntry)
    ensures
        entry_order(b, a) == flip(entry_order(a, b)),
{
    lemma_lex_flip(fold_case(name_or_empty(a.path@)), fold_case(name_or_empty(b.path@)));
    lemma_lex_flip(name_or_empty(a.path@), name_or_empty(b.path@));
}

pub proof fn lemma_entry_order_trans(a: DirEntry, b: DirEntry, c: DirEntry)
    requires
        entry_order(a, b) != Compared::Greater,
        entry_order(b, c) != Compared::Greater,
    ensures
        entry_order(a, c) != Compared::Greater,
        entry_order(a, b) == Compared::Less || entry_order(b, c) == Compared::Less ==> entry_order(a, c)
            == Compared::Less,
{
    let (fa, fb, fc) = (
        fold_case(name_or_empty(a.path@)),
        fold_case(name_or_empty(b.path@)),
        fold_case(name_or_empty(c.path@)),
    );
    let (na, nb, nc) = (name_or_empty(a.path@), name_or_empty(b.path@), name_or_empty(c.path@));
    lemma_lex_equal(fa, fb);
    lemma_lex_equal(fb, fc);
    lemma_lex_equal(na, nb);
    lemma_lex_equal(nb, nc);
    lemma_lex_flip(fa, fb);
    lemma_lex_flip(fb, fc);
    lemma_lex_flip(na, nb);
    lemma_lex_flip(nb, nc);
    if rank_of(a.kind) == rank_of(b.kind) && rank_of(b.kind) == rank_of(c.kind) {
        if lex_order(fa, fb) != Compared::Greater && lex_order(fb, fc) != Compared::Greater {
            lemma_lex_trans(fa, fb, fc);
        }
        if lex_order(fa, fb) == Compared::Equal && lex_order(fb, fc) == Compared::Equal {
            lemma_lex_trans(na, nb, nc);
        }
    }
}

/// Compares two strings of characters the way `Iterator::cmp` does.
pub(crate) fn lex_compare(a: &Vec<char>, b: &Vec<char>) -> (o: Compared)
    ensures
        o == lex_order(a@, b@),
{
    let mut i: usize = 0;
    assert(a@.skip(0) =~= a@);
    assert(b@.skip(0) =~= b@);
    while i < a.len() && i < b.len()
        invariant
            i <= a.len(),
            i <= b.len(),
            lex_order(a@, b@) == lex_order(a@.skip(i as int), b@.skip(i as int)),
        decreases a.len() - i,
    {
        if a[i] < b[i] {
            return Compared::Less;
        }
        if a[i] > b[i] {
            return Compared::Greater;
        }
        assert(a@.skip(i as int).drop_first() =~= a@.skip(i + 1));
        assert(b@.skip(i as int).drop_first() =~= b@.skip(i + 1));
        i += 1;
    }
    if i < b.len() {
        Compared::Less
    } else if i < a.len() {
        Compared::Greater
    } else {
        Compared::Equal
    }
}

/// The last component of `path`, or `None` when it has none or ends in `..`.
pub fn file_name(path: &str) -> (name: Option<Vec<char>>)
    ensures
        name matches Some(n) ==> file_name_of(path@) == Some(n@),
        name is None ==> file_name_of(path@) is None,
{
    let chars = chars_of(path);
    let mut last: Option<Vec<char>> = None;
    let mut current: Vec<char> = Vec::new();
    let mut i: usize = 0;
    while i < chars.len()
        invariant
            i <= chars.len(),
            chars@ == path@,
            components_read(chars@.take(i as int)).1 == current@,
            components_read(chars@.take(i as int)).0 is None <==> last is None,
            last matches Some(v) ==> components_read(chars@.take(i as int)).0 == Some(v@),
        decreases chars.len() - i,
    {
        assert(chars@.take(i + 1).drop_last() =~= chars@.take(i as int));
        assert(chars@.take(i + 1).last() == chars@[i as int]);
        let c = chars[i];
        if c == '/' {
            let ends = ends_component(&current);
            if ends {
                last = Some(current);
            }
            current = Vec::new();
        } else {
            current.push(c);
        }
        i += 1;
    }
    assert(chars@.take(chars.len() as int) =~= chars@);
    if ends_component(&current) {
        last = Some(current);
    }
    match last {
        Some(name) => {
            if name.len() == 2 && name[0] == '.' && name[1] == '.' {
                assert(name@ =~= seq!['.', '.']);
                None
            } else {
                assert(name@ != seq!['.', '.']) by {
                    if name@ == seq!['.', '.'] {
                        assert(name@[0] == '.' && name@[1] == '.');
                    }
                }
                Some(name)
            }
        },
        None => None,
    }
}

/// Whether a component read so far is one `Path::components` keeps: neither
/// empty nor `.`.
fn ends_component(current: &Vec<char>) -> (keeps: bool)
    ensures
        keeps == !(current@.len() == 0 || current@ == seq!['.']),
{
    if current.len() == 1 && current[0] == '.' {
        assert(current@ =~= seq!['.']);
        false
    } else {
        assert(current@ != seq!['.']) by {
            if current@ == seq!['.'] {
                assert(current@[0] == '.');
            }
        }
        current.len() > 0
    }
}

/// The file name of `path`, with a path that has none counting as empty.
pub fn name_chars(path: &str) -> (name: Vec<char>)
    ensures
        name@ == name_or_empty(path@),
{
    match file_name(path) {
        Some(name) => name,
        None => Vec::new(),
    }
}

/// Every character of `s` folded to lower case.
pub fn folded(s: &Vec<char>) -> (f: Vec<char>)
    ensures
        f@ == fold_case(s@),
{
    let mut f: Vec<char> = Vec::new();
    let mut i: usize = 0;
    while i < s.len()
        invariant
            i <= s.len(),
            f@ == fold_case(s@.take(i as int)),
        decreases s.len() - i,
    {
        let mut lower = lowercase(s[i]);
        assert(s@.take(i + 1).drop_last() =~= s@.take(i as int));
        f.append(&mut lower);
        i += 1;
    }
    assert(s@.take(s.len() as int) =~= s@);
    f
}

/// Orders two paths by their file name, folding each character to lower case
/// as it is read, and falls back to the unfolded names when the folded ones
/// come out equal. A path with no file name counts as empty.
pub fn compare_file_names(a: &str, b: &str) -> (o: Compared)
    ensures
        o == name_order(a@, b@),
{
    let x = name_chars(a);
    let y = name_chars(b);
    let by_folded = lex_compare(&folded(&x), &folded(&y));
    match by_folded {
        Compared::Equal => lex_compare(&x, &y),
        other => other,
    }
}

/// Orders entries by [`DirEntryKind::rank`], and two entries of the same rank
/// by [`compare_file_names`].
pub fn compare_entries(a: &DirEntry, b: &DirEntry) -> (o: Compared)
    ensures
        o == entry_order(*a, *b),
{
    let (ra, rb) = (a.kind.rank(), b.kind.rank());
    if ra < rb {
        Compared::Less
    } else if ra > rb {
        Compared::Greater
    } else {
        compare_file_names(a.path.as_str(), b.path.as_str())
    }
}

/// Where `x` goes into `out`: before the first entry it comes before, or at
/// the end.
pub open spec fn slot_for(out: Seq<DirEntry>, x: DirEntry) -> nat
    decreases out.len(),
{
    if out.len() == 0 || entry_order(x, out[0]) == Compared::Less {
        0
    } else {
        1 + slot_for(out.drop_first(), x)
    }
}

/// `s` in listing order, taken one entry at a time from the front, each going
/// in after every entry it does not come before. Entries that compare equal
/// therefore keep the order they were given in.
pub open spec fn listing_order(s: Seq<DirEntry>) -> Seq<DirEntry>
    decreases s.len(),
{
    if s.len() == 0 {
        s
    } else {
        let out = listing_order(s.drop_last());
        out.insert(slot_for(out, s.last()) as int, s.last())
    }
}

/// The slot found by walking `out` from the front is the one `slot_for` names.
proof fn lemma_slot_for(out: Seq<DirEntry>, x: DirEntry, p: int)
    requires
        0 <= p <= out.len(),
        forall|k: int| 0 <= k < p ==> entry_order(x, #[trigger] out[k]) != Compared::Less,
        p < out.len() ==> entry_order(x, out[p]) == Compared::Less,
    ensures
        slot_for(out, x) == p,
    decreases p,
{
    if p > 0 {
        assert(entry_order(x, out[0]) != Compared::Less);
        assert forall|k: int| 0 <= k < p - 1 implies entry_order(x, #[trigger] out.drop_first()[k]) != Compared::Less by {
            assert(out.drop_first()[k] == out[k + 1]);
        }
        if p < out.len() {
            assert(out.drop_first()[p - 1] == out[p]);
        }
        lemma_slot_for(out.drop_first(), x, p - 1);
    }
}

/// `entries` in listing order, by inserting each one after every entry it
/// does not come before.
fn sort_entries(entries: Vec<DirEntry>) -> (sorted_entries: Vec<DirEntry>)
    ensures
        sorted(sorted_entries@),
        sorted_entries@.to_multiset() == entries@.to_multiset(),
        sorted_entries@ == listing_order(entries@),
{
    broadcast use vstd::seq_lib::group_to_multiset_ensures;

    let mut out: Vec<DirEntry> = Vec::new();
    let mut rest = entries;
    let ghost original = rest@;
    let ghost mut taken: int = 0;
    assert(original.take(0) =~= Seq::<DirEntry>::empty());
    while rest.len() > 0
        invariant
            sorted(out@),
            out@.to_multiset().add(rest@.to_multiset()) == original.to_multiset(),
            0 <= taken <= original.len(),
            rest@ == original.skip(taken),
            out@ == listing_order(original.take(taken)),
        decreases rest.len(),
    {
        let ghost whole = rest@;
        let x = rest.remove(0);
        proof {
            assert(x == original[taken]);
            assert(original.take(taken + 1).drop_last() =~= original.take(taken));
            assert(original.take(taken + 1).last() == x);
        }
        proof {
            whole.to_multiset_ensures();
            assert(whole.remove(0) == rest@);
            assert(rest@.to_multiset() =~= whole.to_multiset().remove(x));
        }
        let ghost before = out@;
        let mut p: usize = 0;
        while p < out.len()
            invariant
                p <= out.len(),
                out@ == before,
                forall|k: int| 0 <= k < p ==> entry_order(x, out@[k]) != Compared::Less,
            ensures
                p <= out.len(),
                forall|k: int| 0 <= k < p ==> entry_order(x, out@[k]) != Compared::Less,
                p < out.len() ==> entry_order(x, out@[p as int]) == Compared::Less,
            decreases out.len() - p,
        {
            match compare_entries(&x, &out[p]) {
                Compared::Less => break,
                _ => {},
            }
            p += 1;
        }
        proof {
            assert forall|k: int| 0 <= k < p implies entry_order(out@[k], x) != Compared::Greater by {
                lemma_entry_order_total(x, out@[k]);
            }
            if p < out.len() {
                assert(entry_order(x, out@[p as int]) == Compared::Less);
                assert forall|k: int| p <= k < out.len() implies entry_order(x, out@[k])
                    == Compared::Less by {
                    if k > p {
                        lemma_entry_order_trans(x, out@[p as int], out@[k]);
                    }
                }
            }
        }
        proof {
            lemma_slot_for(out@, x, p as int);
        }
        out.insert(p, x);
        proof {
            taken = taken + 1;
            assert(rest@ =~= original.skip(taken));
            let t = out@;
            t.to_multiset_ensures();
            assert(t.remove(p as int) =~= before);
            assert(t[p as int] == x);
            assert(t.to_multiset().remove(x) =~= before.to_multiset());
            assert(t.to_multiset().count(x) > 0) by {
                assert(t.contains(x));
            }
            assert(t.to_multiset() =~= before.to_multiset().insert(x));
            assert forall|i: int, j: int| 0 <= i < j < t.len() implies entry_order(t[i], t[j])
                != Compared::Greater by {
                if i < p && j < p {
                    assert(t[i] == before[i] && t[j] == before[j]);
                } else if i < p && j == p {
                } else if i < p && j > p {
                    assert(t[i] == before[i] && t[j] == before[j - 1]);
                    lemma_entry_order_trans(before[i], x, before[j - 1]);
                } else if i == p {
                    assert(t[j] == before[j - 1]);
                    lemma_entry_order_total(x, before[j - 1]);
                } else {
                    assert(t[i] == before[i - 1] && t[j] == before[j - 1]);
                }
            }
        }
    }
    assert(taken == original.len());
    assert(original.take(taken) =~= original);
    out
}

/// What a listing holds: where it was read, its entries in listing order, and
/// how much of each entry was read.
pub struct DirectoryView {
    pub path: Seq<char>,
    pub entries: Seq<DirEntry>,
    pub detail: Detail,
}

impl View for Directory {
    type V = DirectoryView;

    closed spec fn view(&self) -> DirectoryView {
        DirectoryView { path: self.path@, entries: self.entries@, detail: self.detail }
    }
}

impl Directory {
    /// Sorts `entries` with [`compare_entries`] and stores them under `path`.
    /// The entries are taken as given: nothing checks that they live in
    /// `path`, and no `Parent` entry is added.
    pub fn new(path: String, entries: Vec<DirEntry>, detail: Detail) -> (d: Self)
        ensures
            d@.path == path@,
            d@.detail == detail,
            sorted(d@.entries),
            d@.entries.to_multiset() == entries@.to_multiset(),
            d@.entries == listing_order(entries@),
    {
        Directory { path, entries: sort_entries(entries), detail }
    }

    pub fn path(&self) -> (p: &String)
        ensures
            p@ == self@.path,
    {
        &self.path
    }

    pub fn entries(&self) -> (e: &[DirEntry])
        ensures
            e@ == self@.entries,
    {
        self.entries.as_slice()
    }

    pub fn len(&self) -> (n: usize)
        ensures
            n == self@.entries.len(),
    {
        self.entries.len()
    }

    pub fn get(&self, index: usize) -> (e: Option<&DirEntry>)
        ensures
            index < self@.entries.len() ==> e == Some(&self@.entries[index as int]),
            index >= self@.entries.len() ==> e is None,
    {
        if index < self.entries.len() {
            Some(&self.entries[index])
        } else {
            None
        }
    }

    /// How much of each entry the listing was read with.
    pub fn detail(&self) -> (d: Detail)
        ensures
            d == self@.detail,
    {
        self.detail
    }
}

/// One entry as reading its directory found it, before it is listed.
#[derive(Debug)]
pub struct Found {
    pub path: String,
    /// Whether the entry itself is a symlink, read without following it.
    pub is_symlink: bool,
    pub is_dir: bool,
    /// Its size and time, where they were read.
    pub meta: Option<EntryMeta>,
}

/// What a found entry is listed as: a symlink as one whatever it points at,
/// then a directory, then anything else as a file.
pub open spec fn found_kind(is_symlink: bool, is_dir: bool) -> DirEntryKind {
    if is_symlink {
        DirEntryKind::Symlink
    } else if is_dir {
        DirEntryKind::Directory
    } else {
        DirEntryKind::File
    }
}

/// `e` lists `f` at `detail`: same path, the kind `found_kind` gives, and the
/// metadata only where it is wanted.
pub open spec fn lists(e: DirEntry, f: Found, detail: Detail) -> bool {
    &&& e.path@ == f.path@
    &&& e.kind == found_kind(f.is_symlink, f.is_dir)
    &&& e.meta == if detail == Detail::WithMetadata { f.meta } else { None }
}

/// The entries a listing of `path` is made of, before sorting: the parent
/// first where `path` has one, then what reading it found, in order.
pub open spec fn gathered(raw: Seq<DirEntry>, path: Seq<char>, found: Seq<Found>, detail: Detail) -> bool {
    let lead: int = if parent_of(path) is Some { 1 } else { 0 };
    &&& raw.len() == lead + found.len()
    &&& parent_of(path) matches Some(p) ==> raw[0].path@ == p && raw[0].kind == DirEntryKind::Parent && raw[0].meta is None
    &&& forall|k: int| 0 <= k < found.len() ==> lists(#[trigger] raw[lead + k], found[k], detail)
}

/// The listing of `path` from what reading it found: the parent entry first
/// where there is a parent, then each entry found, with its metadata only
/// where `detail` asks for it, all in listing order.
pub fn assemble(path: &str, found: Vec<Found>, detail: Detail) -> (d: Directory)
    ensures
        d@.path == path@,
        d@.detail == detail,
        exists|raw: Seq<DirEntry>| gathered(raw, path@, found@, detail) && d@.entries == listing_order(raw),
{
    let mut raw: Vec<DirEntry> = Vec::new();
    let lead: usize = match parent(path) {
        Some(p) => {
            raw.push(DirEntry { path: p, kind: DirEntryKind::Parent, meta: None });
            1
        },
        None => 0,
    };
    let ghost all = found@;
    let n = found.len();
    let mut rest = found;
    let mut i: usize = 0;
    while rest.len() > 0
        invariant
            i <= all.len(),
            n == all.len(),
            rest@ == all.skip(i as int),
            lead == (if parent_of(path@) is Some { 1int } else { 0 }),
            raw@.len() == lead + i,
            parent_of(path@) matches Some(p) ==> raw@[0].path@ == p && raw@[0].kind == DirEntryKind::Parent
                && raw@[0].meta is None,
            forall|k: int| 0 <= k < i ==> lists(#[trigger] raw@[lead + k], all[k], detail),
        decreases rest.len(),
    {
        assert(rest@.len() == all.len() - i);
        let f = rest.remove(0);
        assert(f == all[i as int]);
        let kind = if f.is_symlink {
            DirEntryKind::Symlink
        } else if f.is_dir {
            DirEntryKind::Directory
        } else {
            DirEntryKind::File
        };
        let meta = match detail {
            Detail::WithMetadata => f.meta,
            Detail::NamesOnly => None,
        };
        raw.push(DirEntry { path: f.path, kind, meta });
        assert(rest@ =~= all.skip(i + 1));
        i += 1;
    }
    assert(all.skip(i as int).len() == 0);
    let ghost gathered_raw = raw@;
    let d = Directory::new(string_of(chars_of(path).as_slice()), raw, detail);
    assert(gathered(gathered_raw, path@, all, detail));
    d
}

} // verus!
