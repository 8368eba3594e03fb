//! What an archive holds, read without taking it apart.
//!
//! The names come back as the archive spells them: nothing is joined onto a
//! path, so there is nothing here that could be handed to a program as a file.
//! A zip keeps an index at its end, read here in one go; a tar keeps none, so
//! its stream is walked entry by entry by the caller, and each step of that
//! walk is decided here.

use std::io::Cursor;

use vstd::prelude::*;
use zip::result::ZipError;
use zip::ZipArchive;

use crate::fs::archive::{Contents, Entry, EntryKind};

verus! {

#[verifier::external_type_specification]
#[verifier::external_body]
#[verifier::reject_recursive_types(R)]
pub struct ExZipArchive<R>(ZipArchive<R>);

#[verifier::external_type_specification]
#[verifier::external_body]
#[verifier::reject_recursive_types(T)]
pub struct ExCursor<T>(Cursor<T>);

#[verifier::external_type_specification]
#[verifier::external_body]
pub struct ExZipError(ZipError);

/// One entry of a zip's index as the crate reports it: its name, its size
/// unpacked, whether it is a directory and whether it is a symlink.
pub type RawZipEntry = (Seq<char>, u64, bool, bool);

/// What `ZipArchive::new` reads out of the bytes of a whole archive: `None`
/// where they are not a zip it can open, and otherwise its index, entry by
/// entry, with `None` for an entry that cannot be read.
pub uninterp spec fn zip_listing(bytes: Seq<u8>) -> Option<Seq<Option<RawZipEntry>>>;

/// What an open archive's index holds, entry by entry.
pub uninterp spec fn zip_index(archive: ZipArchive<Cursor<Vec<u8>>>) -> Seq<Option<RawZipEntry>>;

/// `ZipArchive::new` over the bytes of a whole archive, which reads its
/// central directory. Claims that it opens exactly where `zip_listing` says
/// it does, and that the index it opens is that listing.
#[verifier::external_body]
fn open_zip(bytes: Vec<u8>) -> (r: Result<ZipArchive<Cursor<Vec<u8>>>, ZipError>)
    ensures
        match r {
            Ok(archive) => zip_listing(bytes@) == Some(zip_index(archive)),
            Err(_) => zip_listing(bytes@) is None,
        },
{
    ZipArchive::new(Cursor::new(bytes))
}

/// `ZipArchive::len`: the number of entries in the index.
#[verifier::external_body]
fn zip_len(archive: &ZipArchive<Cursor<Vec<u8>>>) -> (n: usize)
    ensures
        n == zip_index(*archive).len(),
{
    archive.len()
}

/// `ZipArchive::by_index_raw`, which finds the entry without decompressing
/// it, and then the entry's `name`, `size`, `is_dir` and `is_symlink`.
/// Claims that what comes back is what the index holds at `index`, that an
/// error is an entry the index cannot give, and that reading leaves the index
/// as it was.
#[verifier::external_body]
fn zip_entry(archive: &mut ZipArchive<Cursor<Vec<u8>>>, index: usize) -> (r: Result<(String, u64, bool, bool), ZipError>)
    requires
        index < zip_index(*old(archive)).len(),
    ensures
        zip_index(*final(archive)) == zip_index(*old(archive)),
        match r {
            Ok(e) => zip_index(*old(archive))[index as int] == Some((e.0@, e.1, e.2, e.3)),
            Err(_) => zip_index(*old(archive))[index as int] is None,
        },
{
    let entry = archive.by_index_raw(index)?;
    let name = entry.name()?.into_owned();
    Ok((name, entry.size(), entry.is_dir(), entry.is_symlink()))
}

/// The message `ZipError` displays. Claims nothing of the words.
#[verifier::external_body]
fn zip_error_text(error: ZipError) -> (text: String) {
    error.to_string()
}

/// What a zip's flags make an entry: a directory first, then a symlink, and a
/// file otherwise.
pub open spec fn zip_kind(is_dir: bool, is_symlink: bool) -> EntryKind {
    if is_dir {
        EntryKind::Directory
    } else if is_symlink {
        EntryKind::Symlink
    } else {
        EntryKind::File
    }
}

/// An entry as the listing holds it.
pub open spec fn entry_view(e: Entry) -> (Seq<char>, u64, EntryKind) {
    (e.name@, e.size, e.kind)
}

/// The listing of a readable index entry.
pub open spec fn listed(raw: RawZipEntry) -> (Seq<char>, u64, EntryKind) {
    (raw.0, raw.1, zip_kind(raw.2, raw.3))
}

/// Whether `e` is entry `i` of `index` as the listing holds it.
pub open spec fn lists_at(index: Seq<Option<RawZipEntry>>, i: int, e: Entry) -> bool {
    match index[i] {
        Some(raw) => entry_view(e) == listed(raw),
        None => false,
    }
}

/// Whether the first `n` entries of `index` can all be read.
pub open spec fn readable_upto(index: Seq<Option<RawZipEntry>>, n: int) -> bool {
    forall|i: int| 0 <= i < n ==> (#[trigger] index[i]) is Some
}

/// How many entries a listing of `index` capped at `limit` holds.
pub open spec fn shown(len: nat, limit: nat) -> nat {
    if len < limit { len } else { limit }
}

/// Whether `contents` is the listing of `index` capped at `limit`: its first
/// entries, each as the index holds it, and clipped where there are more.
pub open spec fn lists(contents: Contents, index: Seq<Option<RawZipEntry>>, limit: nat) -> bool {
    &&& contents.entries@.len() == shown(index.len(), limit)
    &&& forall|i: int| 0 <= i < contents.entries@.len() ==> #[trigger] lists_at(index, i, contents.entries@[i])
    &&& contents.clipped == (index.len() > contents.entries@.len())
}

/// Reads the names in an open zip, stopping at `limit` of them. An entry that
/// cannot be read fails the whole listing with what the crate said of it.
pub fn list_zip(archive: &mut ZipArchive<Cursor<Vec<u8>>>, limit: usize) -> (r: Result<Contents, String>)
    ensures
        readable_upto(zip_index(*old(archive)), shown(zip_index(*old(archive)).len(), limit as nat) as int) <==> r is Ok,
        r matches Ok(contents) ==> lists(contents, zip_index(*old(archive)), limit as nat),
{
    let ghost index = zip_index(*archive);
    let len = zip_len(archive);
    let count = if len < limit { len } else { limit };
    let mut entries: Vec<Entry> = Vec::new();
    let mut i: usize = 0;
    while i < count
        invariant
            i <= count,
            count == shown(index.len(), limit as nat),
            len == index.len(),
            zip_index(*archive) == index,
            index == zip_index(*old(archive)),
            entries@.len() == i,
            readable_upto(index, i as int),
            forall|k: int| 0 <= k < i ==> #[trigger] lists_at(index, k, entries@[k]),
        decreases count - i,
    {
        match zip_entry(archive, i) {
            Ok((name, size, is_dir, is_symlink)) => {
                let kind = if is_dir {
                    EntryKind::Directory
                } else if is_symlink {
                    EntryKind::Symlink
                } else {
                    EntryKind::File
                };
                entries.push(Entry { name, size, kind });
            },
            Err(e) => {
                assert(!readable_upto(index, count as int));
                return Err(zip_error_text(e));
            },
        }
        i += 1;
    }
    let clipped = len > entries.len();
    Ok(Contents { entries, clipped })
}

/// Reads the names in the zip whose bytes are `bytes`, stopping at `limit` of
/// them: an error where the bytes are no zip the crate can open or an entry
/// within the limit cannot be read, and otherwise the listing of its index.
pub fn from_zip(bytes: Vec<u8>, limit: usize) -> (r: Result<Contents, String>)
    ensures
        match zip_listing(bytes@) {
            None => r is Err,
            Some(index) => (readable_upto(index, shown(index.len(), limit as nat) as int) <==> r is Ok)
                && (r matches Ok(contents) ==> lists(contents, index, limit as nat)),
        },
{
    match open_zip(bytes) {
        Err(e) => Err(zip_error_text(e)),
        Ok(mut archive) => list_zip(&mut archive, limit),
    }
}

/// What a tar header says an entry is, as the crate's `EntryType` names it;
/// everything that is neither a directory nor a link is `Other`.
#[derive(Clone, Copy, Debug, PartialEq, Eq)]
pub enum TarKind {
    Directory,
    Symlink,
    Link,
    Other,
}

/// What a tar entry is in a listing: a hard link is shown as a link too.
pub open spec fn tar_kind(kind: TarKind) -> EntryKind {
    match kind {
        TarKind::Directory => EntryKind::Directory,
        TarKind::Symlink | TarKind::Link => EntryKind::Symlink,
        TarKind::Other => EntryKind::File,
    }
}

/// The entry a tar stream gave next, or what went wrong reading it.
#[derive(Debug)]
pub enum TarRead {
    Entry { name: String, size: u64, kind: TarKind },
    Failed(String),
}

/// A tar being listed: the entries read so far, and how many it may hold.
///
/// A tar keeps no index, so the whole stream is read to see what is in it,
/// and for a compressed one that means decompressing it. Between entries the
/// walk asks whether anybody still wants the answer, and the limit is there
/// so that a huge archive stops costing once a screenful has been read.
#[derive(Debug)]
pub struct TarListing {
    entries: Vec<Entry>,
    limit: usize,
}

/// What the walk does after one more entry was asked for.
#[derive(Debug)]
pub enum TarStep {
    /// Ask the stream for the next entry.
    Continue(TarListing),
    /// The walk is over: the listing, nothing where nobody wants it any more,
    /// or what stopped it.
    Finished(Result<Option<Contents>, String>),
}

impl TarListing {
    #[verifier::type_invariant]
    closed spec fn within_limit(self) -> bool {
        self.entries@.len() <= self.limit
    }

    /// The entries read so far, as the listing holds them.
    pub closed spec fn entries_spec(&self) -> Seq<(Seq<char>, u64, EntryKind)> {
        self.entries@.map_values(|e: Entry| entry_view(e))
    }

    pub closed spec fn limit_spec(&self) -> usize {
        self.limit
    }

    /// A listing with nothing read yet, which will hold at most `limit`
    /// entries.
    pub fn new(limit: usize) -> (l: Self)
        ensures
            l.entries_spec() == Seq::<(Seq<char>, u64, EntryKind)>::empty(),
            l.limit_spec() == limit,
    {
        let l = TarListing { entries: Vec::new(), limit };
        assert(l.entries_spec() =~= Seq::<(Seq<char>, u64, EntryKind)>::empty());
        l
    }

    /// Takes in what the stream gave when asked for one more entry: `None`
    /// at its end. Nobody wanting the answer any more ends the walk with
    /// nothing; an entry past the limit ends it with the listing clipped; an
    /// entry that could not be read ends it with the error; and any other
    /// entry joins the listing.
    pub fn step(self, cancelled: bool, next: Option<TarRead>) -> (s: TarStep)
        ensures
            next is None ==> (s matches TarStep::Finished(Ok(Some(c)))
                && c.entries@.map_values(|e: Entry| entry_view(e)) == self.entries_spec() && !c.clipped),
            next is Some && cancelled ==> (s matches TarStep::Finished(Ok(None))),
            next is Some && !cancelled && self.entries_spec().len() == self.limit_spec() ==> (s matches TarStep::Finished(Ok(Some(c)))
                && c.entries@.map_values(|e: Entry| entry_view(e)) == self.entries_spec() && c.clipped),
            !cancelled && self.entries_spec().len() < self.limit_spec() ==> (next matches Some(TarRead::Failed(m))
                ==> (s matches TarStep::Finished(Err(e)) && e@ == m@)),
            !cancelled && self.entries_spec().len() < self.limit_spec() ==> (next matches Some(TarRead::Entry { name, size, kind })
                ==> (s matches TarStep::Continue(l)
                && l.entries_spec() == self.entries_spec().push((name@, size, tar_kind(kind)))
                && l.limit_spec() == self.limit_spec())),
    {
        proof {
            use_type_invariant(&self);
        }
        let TarListing { mut entries, limit } = self;
        match next {
            None => TarStep::Finished(Ok(Some(Contents { entries, clipped: false }))),
            Some(read) => {
                if cancelled {
                    return TarStep::Finished(Ok(None));
                }
                if entries.len() == limit {
                    return TarStep::Finished(Ok(Some(Contents { entries, clipped: true })));
                }
                match read {
                    TarRead::Failed(m) => TarStep::Finished(Err(m)),
                    TarRead::Entry { name, size, kind } => {
                        let kind = match kind {
                            TarKind::Directory => EntryKind::Directory,
                            TarKind::Symlink | TarKind::Link => EntryKind::Symlink,
                            TarKind::Other => EntryKind::File,
                        };
                        let ghost before = entries@;
                        entries.push(Entry { name, size, kind });
                        let l = TarListing { entries, limit };
                        assert(l.entries_spec() =~= before.map_values(|e: Entry| entry_view(e)).push(entry_view(l.entries@.last())));
                        TarStep::Continue(l)
                    },
                }
            },
        }
    }
}

} // verus!
