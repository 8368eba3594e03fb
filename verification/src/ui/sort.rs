//! The order a pane lists its entries in.

use vstd::prelude::*;

use crate::fs::directory::{
    compare_file_names, file_name, fold_case, lemma_lex_flip, lex_compare, lex_order, name_or_empty, name_order, order_u8,
    rank_of, then, Compared,
    Detail, DirEntry, DirEntryKind, file_name_of,
};
use crate::text::{str_lowercase_of, string_of, to_lowercase};
use core::cmp::Ordering;

verus! {

/// What a listing is ordered by, within each kind of entry.
#[derive(Clone, Copy, Debug, PartialEq, Eq)]
pub enum SortKey {
    Name,
    Modified,
    Size,
    Extension,
}

/// Whether a key runs its own way or the other.
///
/// A key's own way is the one it is usually asked for in: names and
/// extensions from A, sizes from the largest, times from the newest.
#[derive(Clone, Copy, Debug, PartialEq, Eq)]
pub enum Order {
    Natural,
    Reversed,
}

/// How a pane orders its listing.
///
/// The parent leads and directories come before symlinks and files whatever
/// the key; the key orders the entries within each of those groups, and two
/// entries it cannot tell apart fall back to their names.
#[derive(Clone, Copy, Debug, PartialEq, Eq)]
pub struct Sort {
    pub key: SortKey,
    pub order: Order,
}

/// The part of a file name after its last dot, when there is a dot that does
/// not start the name, which is what `Path::extension` says.
pub open spec fn extension_in(name: Seq<char>) -> Option<Seq<char>>
    decreases name.len(),
{
    if name.len() == 0 {
        None
    } else if name.last() == '.' {
        if name.len() == 1 {
            None
        } else {
            Some(Seq::empty())
        }
    } else {
        match extension_in(name.drop_last()) {
            Some(e) => Some(e.push(name.last())),
            None => None,
        }
    }
}

/// The extension of an entry folded to lower case, `None` for a name without
/// one.
pub open spec fn extension_spec(entry: DirEntry) -> Option<Seq<char>> {
    match file_name_of(entry.path@) {
        Some(name) => match extension_in(name) {
            Some(e) => Some(str_lowercase_of(e)),
            None => None,
        },
        None => None,
    }
}

/// How `Option::cmp` orders two options: nothing before something.
pub open spec fn option_order<T>(a: Option<T>, b: Option<T>, inner: spec_fn(T, T) -> Compared) -> Compared {
    match (a, b) {
        (None, None) => Compared::Equal,
        (None, Some(_)) => Compared::Less,
        (Some(_), None) => Compared::Greater,
        (Some(x), Some(y)) => inner(x, y),
    }
}

pub open spec fn order_u64(a: u64, b: u64) -> Compared {
    if a < b {
        Compared::Less
    } else if a > b {
        Compared::Greater
    } else {
        Compared::Equal
    }
}

pub open spec fn order_i64(a: i64, b: i64) -> Compared {
    if a < b {
        Compared::Less
    } else if a > b {
        Compared::Greater
    } else {
        Compared::Equal
    }
}

/// The size the size column shows: a directory's measured total, and nothing
/// for the parent or for an entry read without metadata.
pub open spec fn size_spec(entry: DirEntry, total: Option<u64>) -> Option<u64> {
    match entry.kind {
        DirEntryKind::Parent => None,
        DirEntryKind::Directory => total,
        _ => match entry.meta {
            Some(meta) => Some(meta.size),
            None => None,
        },
    }
}

pub open spec fn modified_spec(entry: DirEntry) -> Option<i64> {
    match entry.meta {
        Some(meta) => Some(meta.modified),
        None => None,
    }
}

pub open spec fn reverse_of(c: Compared) -> Compared {
    match c {
        Compared::Less => Compared::Greater,
        Compared::Equal => Compared::Equal,
        Compared::Greater => Compared::Less,
    }
}

pub open spec fn ordering_of(c: Compared) -> Ordering {
    match c {
        Compared::Less => Ordering::Less,
        Compared::Equal => Ordering::Equal,
        Compared::Greater => Ordering::Greater,
    }
}

impl Sort {
    /// The order every pane starts in: by name, from A.
    pub open spec fn initial() -> Sort {
        Sort { key: SortKey::Name, order: Order::Natural }
    }

    /// What the key alone says of `a` against `b`, run its own way.
    pub open spec fn by_key_spec(self, a: DirEntry, b: DirEntry, total_a: Option<u64>, total_b: Option<u64>) -> Compared {
        match self.key {
            SortKey::Name => name_order(a.path@, b.path@),
            SortKey::Extension => option_order(extension_spec(a), extension_spec(b), |x: Seq<char>, y: Seq<char>| lex_order(x, y)),
            SortKey::Size => option_order(size_spec(b, total_b), size_spec(a, total_a), |x: u64, y: u64| order_u64(x, y)),
            SortKey::Modified => option_order(modified_spec(b), modified_spec(a), |x: i64, y: i64| order_i64(x, y)),
        }
    }

    /// The whole order: the kind first, then the key the way it runs, then
    /// the names.
    pub open spec fn compare_spec(self, a: DirEntry, b: DirEntry, total_a: Option<u64>, total_b: Option<u64>) -> Compared {
        let by_key = match self.order {
            Order::Natural => self.by_key_spec(a, b, total_a, total_b),
            Order::Reversed => reverse_of(self.by_key_spec(a, b, total_a, total_b)),
        };
        then(order_u8(rank_of(a.kind), rank_of(b.kind)), then(by_key, name_order(a.path@, b.path@)))
    }
}

impl Default for Sort {
    fn default() -> (s: Self)
        ensures
            s == Sort::initial(),
    {
        Sort { key: SortKey::Name, order: Order::Natural }
    }
}

impl Sort {
    /// The next key along, run its own way.
    pub fn next_key(self) -> (s: Self)
        ensures
            s.order == Order::Natural,
            s.key == match self.key {
                SortKey::Name => SortKey::Modified,
                SortKey::Modified => SortKey::Size,
                SortKey::Size => SortKey::Extension,
                SortKey::Extension => SortKey::Name,
            },
    {
        let key = match self.key {
            SortKey::Name => SortKey::Modified,
            SortKey::Modified => SortKey::Size,
            SortKey::Size => SortKey::Extension,
            SortKey::Extension => SortKey::Name,
        };
        Sort { key, order: Order::Natural }
    }

    /// The same key, run the other way.
    pub fn reversed(self) -> (s: Self)
        ensures
            s.key == self.key,
            s.order != self.order,
    {
        let order = match self.order {
            Order::Natural => Order::Reversed,
            Order::Reversed => Order::Natural,
        };
        Sort { key: self.key, order }
    }

    /// Whether this key orders by what directories measure to, so they are
    /// worth measuring.
    pub fn by_size(self) -> (b: bool)
        ensures
            b == (self.key == SortKey::Size),
    {
        match self.key {
            SortKey::Size => true,
            _ => false,
        }
    }

    /// How much of each entry a listing has to be read with for this key to
    /// have anything to compare.
    pub fn detail(self) -> (d: Detail)
        ensures
            d == (match self.key {
                SortKey::Name | SortKey::Extension => Detail::NamesOnly,
                SortKey::Modified | SortKey::Size => Detail::WithMetadata,
            }),
    {
        match self.key {
            SortKey::Name | SortKey::Extension => Detail::NamesOnly,
            SortKey::Modified | SortKey::Size => Detail::WithMetadata,
        }
    }

    /// Describes the order for the border of the pane, or `None` for the one
    /// every pane starts in.
    pub fn label(self) -> (l: Option<String>)
        ensures
            self == Sort::initial() ==> l is None,
            self != Sort::initial() ==> (l matches Some(text) && text@ == label_text(self)),
    {
        if matches!(self.key, SortKey::Name) && matches!(self.order, Order::Natural) {
            return None;
        }
        let mut text = String::from_str("by ");
        let key: &str = match self.key {
            SortKey::Name => "name",
            SortKey::Modified => "time",
            SortKey::Size => "size",
            SortKey::Extension => "extension",
        };
        text.append(key);
        match self.order {
            Order::Natural => {},
            Order::Reversed => text.append(", reversed"),
        }
        Some(text)
    }

    /// Compares two entries of a listing. `total_a` and `total_b` are what
    /// the two measured to when they are directories, `None` while nobody
    /// knows.
    pub fn compare(self, a: &DirEntry, b: &DirEntry, total_a: Option<u64>, total_b: Option<u64>) -> (o: Ordering)
        ensures
            o == ordering_of(self.compare_spec(*a, *b, total_a, total_b)),
    {
        let by_key = match self.key {
            SortKey::Name => compare_file_names(a.path.as_str(), b.path.as_str()),
            SortKey::Extension => compare_extensions(&extension(a), &extension(b)),
            SortKey::Size => compare_counts(size(b, total_b), size(a, total_a)),
            SortKey::Modified => compare_times(modified(b), modified(a)),
        };
        let by_key = match self.order {
            Order::Natural => by_key,
            Order::Reversed => match by_key {
                Compared::Less => Compared::Greater,
                Compared::Equal => Compared::Equal,
                Compared::Greater => Compared::Less,
            },
        };
        let (ra, rb) = (a.kind.rank(), b.kind.rank());
        let whole = if ra < rb {
            Compared::Less
        } else if ra > rb {
            Compared::Greater
        } else {
            match by_key {
                Compared::Equal => compare_file_names(a.path.as_str(), b.path.as_str()),
                other => other,
            }
        };
        match whole {
            Compared::Less => Ordering::Less,
            Compared::Equal => Ordering::Equal,
            Compared::Greater => Ordering::Greater,
        }
    }
}

/// The words a label is made of, for a sort other than the initial one.
pub open spec fn label_text(s: Sort) -> Seq<char> {
    let key = match s.key {
        SortKey::Name => "name"@,
        SortKey::Modified => "time"@,
        SortKey::Size => "size"@,
        SortKey::Extension => "extension"@,
    };
    match s.order {
        Order::Natural => "by "@ + key,
        Order::Reversed => "by "@ + key + ", reversed"@,
    }
}

fn compare_extensions(a: &Option<Vec<char>>, b: &Option<Vec<char>>) -> (c: Compared)
    ensures
        c == option_order(
            match a { Some(v) => Some(v@), None => None },
            match b { Some(v) => Some(v@), None => None },
            |x: Seq<char>, y: Seq<char>| lex_order(x, y),
        ),
{
    match (a, b) {
        (None, None) => Compared::Equal,
        (None, Some(_)) => Compared::Less,
        (Some(_), None) => Compared::Greater,
        (Some(x), Some(y)) => lex_compare(x, y),
    }
}

fn compare_counts(a: Option<u64>, b: Option<u64>) -> (c: Compared)
    ensures
        c == option_order(a, b, |x: u64, y: u64| order_u64(x, y)),
{
    match (a, b) {
        (None, None) => Compared::Equal,
        (None, Some(_)) => Compared::Less,
        (Some(_), None) => Compared::Greater,
        (Some(x), Some(y)) => if x < y {
            Compared::Less
        } else if x > y {
            Compared::Greater
        } else {
            Compared::Equal
        },
    }
}

fn compare_times(a: Option<i64>, b: Option<i64>) -> (c: Compared)
    ensures
        c == option_order(a, b, |x: i64, y: i64| order_i64(x, y)),
{
    match (a, b) {
        (None, None) => Compared::Equal,
        (None, Some(_)) => Compared::Less,
        (Some(_), None) => Compared::Greater,
        (Some(x), Some(y)) => if x < y {
            Compared::Less
        } else if x > y {
            Compared::Greater
        } else {
            Compared::Equal
        },
    }
}

/// Where the extension of `name` starts, if it has one: past the last dot,
/// when that dot does not start the name.
pub open spec fn extension_from(name: Seq<char>, dot: Option<int>) -> Option<Seq<char>> {
    match dot {
        None => None,
        Some(d) => if d == 0 {
            None
        } else {
            Some(name.skip(d + 1))
        },
    }
}

/// The extension of `name`, as `Path::extension` reads it.
fn extension_of_name(name: &Vec<char>) -> (e: Option<Vec<char>>)
    ensures
        match e {
            Some(v) => extension_in(name@) == Some(v@),
            None => extension_in(name@) is None,
        },
{
    let mut dot: Option<usize> = None;
    let mut i: usize = 0;
    while i < name.len()
        invariant
            i <= name.len(),
            dot matches Some(d) ==> d < i,
            extension_from(name@.take(i as int), match dot { Some(d) => Some(d as int), None => None })
                == extension_in(name@.take(i as int)),
        decreases name.len() - i,
    {
        let ghost before = name@.take(i as int);
        assert(name@.take(i + 1).drop_last() =~= before);
        if name[i] == '.' {
            dot = Some(i);
            assert(name@.take(i + 1).skip(i + 1) =~= Seq::<char>::empty());
        } else {
            match dot {
                Some(d) => {
                    assert(name@.take(i + 1).skip(d + 1) =~= before.skip(d + 1).push(name@[i as int]));
                },
                None => {},
            }
        }
        i += 1;
    }
    assert(name@.take(name.len() as int) =~= name@);
    match dot {
        None => None,
        Some(d) => if d == 0 {
            None
        } else {
            let mut v: Vec<char> = Vec::new();
            let mut k: usize = d + 1;
            while k < name.len()
                invariant
                    d + 1 <= k <= name.len(),
                    v@ == name@.subrange(d + 1, k as int),
                decreases name.len() - k,
            {
                v.push(name[k]);
                k += 1;
            }
            assert(v@ =~= name@.skip(d + 1));
            Some(v)
        },
    }
}

/// The extension of `entry` folded to lower case, `None` for a name without
/// one.
fn extension(entry: &DirEntry) -> (e: Option<Vec<char>>)
    ensures
        match e {
            Some(v) => extension_spec(*entry) == Some(v@),
            None => extension_spec(*entry) is None,
        },
{
    let name = file_name(entry.path.as_str())?;
    let found = extension_of_name(&name)?;
    let lowered = to_lowercase(string_of(found.as_slice()).as_str());
    Some(crate::text::chars_of(lowered.as_str()))
}

/// The size the size column shows: a directory's measured total, and nothing
/// for the parent or for an entry read without metadata.
fn size(entry: &DirEntry, total: Option<u64>) -> (s: Option<u64>)
    ensures
        s == size_spec(*entry, total),
{
    match entry.kind {
        DirEntryKind::Parent => None,
        DirEntryKind::Directory => total,
        DirEntryKind::Symlink | DirEntryKind::File => match entry.meta {
            Some(meta) => Some(meta.size),
            None => None,
        },
    }
}

fn modified(entry: &DirEntry) -> (m: Option<i64>)
    ensures
        m == modified_spec(*entry),
{
    match entry.meta {
        Some(meta) => Some(meta.modified),
        None => None,
    }
}

/// Sizes run from the largest: of two files, or two symlinks, whose sizes
/// were read, the larger comes first when sorting by size its own way and
/// last when the order is reversed, whatever their names.
pub proof fn sizes_run_from_the_largest(
    a: DirEntry,
    b: DirEntry,
    total_a: Option<u64>,
    total_b: Option<u64>,
    size_a: u64,
    size_b: u64,
)
    requires
        a.kind == b.kind,
        a.kind == DirEntryKind::File || a.kind == DirEntryKind::Symlink,
        a.meta matches Some(m) && m.size == size_a,
        b.meta matches Some(m) && m.size == size_b,
        size_a > size_b,
    ensures
        (Sort { key: SortKey::Size, order: Order::Natural }).compare_spec(a, b, total_a, total_b) == Compared::Less,
        (Sort { key: SortKey::Size, order: Order::Reversed }).compare_spec(a, b, total_a, total_b) == Compared::Greater,
{
}

/// A directory is sized by what it measured to: of two directories whose
/// totals are known, the larger total comes first by size, its own way.
pub proof fn directories_run_from_the_largest_total(a: DirEntry, b: DirEntry, total_a: u64, total_b: u64)
    requires
        a.kind == DirEntryKind::Directory,
        b.kind == DirEntryKind::Directory,
        total_a > total_b,
    ensures
        (Sort { key: SortKey::Size, order: Order::Natural }).compare_spec(a, b, Some(total_a), Some(total_b))
            == Compared::Less,
{
}

/// Times run from the newest: of two entries of one kind whose times were
/// read, the later one comes first when sorting by time its own way.
pub proof fn times_run_from_the_newest(a: DirEntry, b: DirEntry, total_a: Option<u64>, total_b: Option<u64>, time_a: i64, time_b: i64)
    requires
        a.kind == b.kind,
        a.meta matches Some(m) && m.modified == time_a,
        b.meta matches Some(m) && m.modified == time_b,
        time_a > time_b,
    ensures
        (Sort { key: SortKey::Modified, order: Order::Natural }).compare_spec(a, b, total_a, total_b) == Compared::Less,
{
}

/// The key never moves an entry out of its group: whatever the key and the
/// order, an entry of a kind that comes earlier comes first.
pub proof fn kinds_come_before_keys(sort: Sort, a: DirEntry, b: DirEntry, total_a: Option<u64>, total_b: Option<u64>)
    requires
        rank_of(a.kind) < rank_of(b.kind),
    ensures
        sort.compare_spec(a, b, total_a, total_b) == Compared::Less,
{
}

/// Swapping two entries swaps the verdict, whatever the key and the order:
/// if `a` comes before `b`, then `b` comes after `a`.
pub proof fn swapping_entries_swaps_the_verdict(sort: Sort, a: DirEntry, b: DirEntry, total_a: Option<u64>, total_b: Option<u64>)
    ensures
        sort.compare_spec(b, a, total_b, total_a) == reverse_of(sort.compare_spec(a, b, total_a, total_b)),
{
    let (x, y) = (name_or_empty(a.path@), name_or_empty(b.path@));
    lemma_lex_flip(fold_case(x), fold_case(y));
    lemma_lex_flip(x, y);
    match (extension_spec(a), extension_spec(b)) {
        (Some(p), Some(q)) => lemma_lex_flip(p, q),
        _ => {},
    }
}

} // verus!
