//! Which container an archive is: read from its first bytes when one is
//! opened, and from its name when one is written.

use std::io::Read;

use flate2::read::GzDecoder;
use vstd::prelude::*;

use crate::text::{ascii_lower, chars_of, lower_code, string_of};

verus! {

/// One name an archive holds, and what it is. There is no path: an entry
/// inside an archive is not anywhere until it is unpacked.
#[derive(Clone, Debug)]
pub struct Entry {
    pub name: String,
    /// The size unpacked, which is what a reader wants to know.
    pub size: u64,
    pub kind: EntryKind,
}

#[derive(Clone, Copy, Debug, PartialEq, Eq)]
pub enum EntryKind {
    Directory,
    Symlink,
    File,
}

/// The names an archive holds, as far as they were read.
#[derive(Debug)]
pub struct Contents {
    pub entries: Vec<Entry>,
    /// Set when the archive goes on past what was read.
    pub clipped: bool,
}

/// A container Mula can both read and write.
#[derive(Clone, Copy, Debug, PartialEq, Eq)]
pub enum Format {
    Zip,
    Tar,
    TarGz,
}

/// The suffixes above as one phrase, for the message a name none of them fits
/// is turned away with.
pub const WRITABLE: &'static str = ".zip, .tar, .tar.gz or .tgz";

/// Whether `name`, lowered to ASCII small letters, ends in `suffix`.
pub open spec fn ends_with_folded(name: Seq<char>, suffix: Seq<char>) -> bool {
    &&& suffix.len() <= name.len()
    &&& forall|i: int|
        0 <= i < suffix.len() ==> #[trigger] ascii_lower(name[name.len() - suffix.len() + i])
            == suffix[i] as u32
}

pub open spec fn tar_gz_suffix() -> Seq<char> {
    seq!['.', 't', 'a', 'r', '.', 'g', 'z']
}

pub open spec fn tgz_suffix() -> Seq<char> {
    seq!['.', 't', 'g', 'z']
}

pub open spec fn zip_suffix() -> Seq<char> {
    seq!['.', 'z', 'i', 'p']
}

pub open spec fn tar_suffix() -> Seq<char> {
    seq!['.', 't', 'a', 'r']
}

/// The suffix `name` asks for a format with, and that format: the suffixes are
/// tried longest first, so `.tar.gz` is matched whole rather than as a `.gz`
/// nobody offers.
pub open spec fn suffix_of(name: Seq<char>) -> Option<(Seq<char>, Format)> {
    if ends_with_folded(name, tar_gz_suffix()) {
        Some((tar_gz_suffix(), Format::TarGz))
    } else if ends_with_folded(name, tgz_suffix()) {
        Some((tgz_suffix(), Format::TarGz))
    } else if ends_with_folded(name, zip_suffix()) {
        Some((zip_suffix(), Format::Zip))
    } else if ends_with_folded(name, tar_suffix()) {
        Some((tar_suffix(), Format::Tar))
    } else {
        None
    }
}

/// The format a name asks for, if any.
pub open spec fn format_of_name(name: Seq<char>) -> Option<Format> {
    match suffix_of(name) {
        Some((_, format)) => Some(format),
        None => None,
    }
}

/// The name without its archive suffix, unless nothing would be left.
pub open spec fn stem_of(name: Seq<char>) -> Seq<char> {
    match suffix_of(name) {
        Some((suffix, _)) => if suffix.len() < name.len() {
            name.subrange(0, name.len() - suffix.len())
        } else {
            name
        },
        None => name,
    }
}

fn ends_with_folded_chars(name: &Vec<char>, suffix: &Vec<char>) -> (b: bool)
    ensures
        b == ends_with_folded(name@, suffix@),
{
    if suffix.len() > name.len() {
        return false;
    }
    let start = name.len() - suffix.len();
    let mut i: usize = 0;
    while i < suffix.len()
        invariant
            suffix@.len() <= name@.len(),
            start + suffix.len() == name.len(),
            i <= suffix@.len(),
            forall|k: int|
                0 <= k < i ==> #[trigger] ascii_lower(name@[name@.len() - suffix@.len() + k])
                    == suffix@[k] as u32,
        decreases suffix.len() - i,
    {
        assert(start + i < name@.len());
        let at: usize = start + i;
        let c = name[at];
        let s = suffix[i];
        let folds = lower_code(c) == (s as u32);
        if !folds {
            assert(ascii_lower(name@[name@.len() - suffix@.len() + i]) != suffix@[i as int] as u32);
            return false;
        }
        i += 1;
    }
    true
}

/// The suffix `name` ends in and the format it asks for, as `suffix_of`.
fn suffix_in(name: &Vec<char>) -> (found: Option<(Vec<char>, Format)>)
    ensures
        match found {
            Some((s, f)) => suffix_of(name@) == Some((s@, f)),
            None => suffix_of(name@) is None,
        },
{
    let tar_gz = vec!['.', 't', 'a', 'r', '.', 'g', 'z'];
    assert(tar_gz@ =~= tar_gz_suffix());
    if ends_with_folded_chars(name, &tar_gz) {
        return Some((tar_gz, Format::TarGz));
    }
    let tgz = vec!['.', 't', 'g', 'z'];
    assert(tgz@ =~= tgz_suffix());
    if ends_with_folded_chars(name, &tgz) {
        return Some((tgz, Format::TarGz));
    }
    let zip = vec!['.', 'z', 'i', 'p'];
    assert(zip@ =~= zip_suffix());
    if ends_with_folded_chars(name, &zip) {
        return Some((zip, Format::Zip));
    }
    let tar = vec!['.', 't', 'a', 'r'];
    assert(tar@ =~= tar_suffix());
    if ends_with_folded_chars(name, &tar) {
        return Some((tar, Format::Tar));
    }
    None
}

impl Format {
    /// The format `name` asks for by how it ends, ignoring case, or `None`
    /// when it ends in none of `.tar.gz`, `.tgz`, `.zip` and `.tar`.
    pub fn of_name(name: &str) -> (f: Option<Self>)
        ensures
            f == format_of_name(name@),
    {
        let chars = chars_of(name);
        match suffix_in(&chars) {
            Some((_, format)) => Some(format),
            None => None,
        }
    }
}

/// `name` without the archive suffix it ends in, which is the name an archive
/// unpacks under. A name ending in no suffix anyone knows is its own stem, and
/// so is a name that is nothing but a suffix — `.zip` unpacks as `.zip`.
pub fn stem(name: &str) -> (s: String)
    ensures
        s@ == stem_of(name@),
{
    let chars = chars_of(name);
    match suffix_in(&chars) {
        Some((suffix, _)) => {
            if suffix.len() < chars.len() {
                let keep = chars.len() - suffix.len();
                let mut kept: Vec<char> = Vec::new();
                let mut i: usize = 0;
                while i < keep
                    invariant
                        keep <= chars@.len(),
                        i <= keep,
                        kept@ == chars@.subrange(0, i as int),
                    decreases keep - i,
                {
                    kept.push(chars[i]);
                    i += 1;
                }
                string_of(kept.as_slice())
            } else {
                string_of(chars.as_slice())
            }
        },
        None => string_of(chars.as_slice()),
    }
}

/// Where a tar header keeps its magic. Both the POSIX spelling and GNU's older
/// one begin with `ustar` there, and a tar old enough to have no magic at all
/// is not recognised.
pub const USTAR_AT: usize = 257;

/// How much of a gzip stream is decompressed to see whether a tar is inside.
/// One tar header is 512 bytes and the magic sits near its end.
pub const GZIP_PEEK: usize = 512;

pub open spec fn ustar() -> Seq<u8> {
    seq![0x75u8, 0x73u8, 0x74u8, 0x61u8, 0x72u8]
}

/// A zip's local header; an archive holding nothing at all is its
/// end-of-central-directory record and no local header, and begins otherwise.
pub open spec fn zip_magic() -> Seq<u8> {
    seq![0x50u8, 0x4bu8, 0x03u8, 0x04u8]
}

pub open spec fn empty_zip_magic() -> Seq<u8> {
    seq![0x50u8, 0x4bu8, 0x05u8, 0x06u8]
}

pub open spec fn gzip_magic() -> Seq<u8> {
    seq![0x1fu8, 0x8bu8]
}

pub open spec fn starts_with(bytes: Seq<u8>, prefix: Seq<u8>) -> bool {
    prefix.len() <= bytes.len() && bytes.subrange(0, prefix.len() as int) == prefix
}

/// Whether a tar header's magic stands where it belongs in `bytes`.
pub open spec fn is_tar_spec(bytes: Seq<u8>) -> bool {
    USTAR_AT + 5 <= bytes.len() && bytes.subrange(USTAR_AT as int, USTAR_AT + 5) == ustar()
}

/// What the gzip decoder gives back of the first `limit` decompressed bytes of
/// `bytes`, or `None` where it fails before that; the stream's own format
/// decides it, and nothing else.
pub uninterp spec fn gunzip_head(bytes: Seq<u8>, limit: usize) -> Option<Seq<u8>>;

/// The format the first bytes of a file announce.
pub open spec fn sniff_spec(bytes: Seq<u8>) -> Option<Format> {
    if starts_with(bytes, zip_magic()) || starts_with(bytes, empty_zip_magic()) {
        Some(Format::Zip)
    } else if is_tar_spec(bytes) {
        Some(Format::Tar)
    } else if starts_with(bytes, gzip_magic()) {
        match gunzip_head(bytes, GZIP_PEEK) {
            Some(head) => if is_tar_spec(head) {
                Some(Format::TarGz)
            } else {
                None
            },
            None => None,
        }
    } else {
        None
    }
}

/// Decompresses at most `limit` bytes of the gzip stream `bytes` with
/// `flate2::read::GzDecoder`, read through `Read::take` and `read_to_end`.
/// Claims only that the result is the one `gunzip_head` names for these
/// arguments, and that `take` lets no more than `limit` bytes through.
#[verifier::external_body]
fn gunzip(bytes: &[u8], limit: usize) -> (head: Option<Vec<u8>>)
    ensures
        head matches Some(h) ==> h@.len() <= limit,
        match head {
            Some(h) => gunzip_head(bytes@, limit) == Some(h@),
            None => gunzip_head(bytes@, limit) is None,
        },
{
    let mut head = Vec::new();
    match GzDecoder::new(bytes).take(limit as u64).read_to_end(&mut head) {
        Ok(_) => Some(head),
        Err(_) => None,
    }
}

fn starts_with_bytes(bytes: &[u8], prefix: &Vec<u8>) -> (b: bool)
    ensures
        b == starts_with(bytes@, prefix@),
{
    if prefix.len() > bytes.len() {
        return false;
    }
    let mut i: usize = 0;
    while i < prefix.len()
        invariant
            prefix@.len() <= bytes@.len(),
            i <= prefix@.len(),
            forall|k: int| 0 <= k < i ==> bytes@[k] == prefix@[k],
        decreases prefix.len() - i,
    {
        if bytes[i] != prefix[i] {
            assert(bytes@.subrange(0, prefix@.len() as int)[i as int] != prefix@[i as int]);
            return false;
        }
        i += 1;
    }
    assert(bytes@.subrange(0, prefix@.len() as int) =~= prefix@);
    true
}

/// Whether `bytes` holds a tar header's magic where it belongs: `ustar` at
/// byte 257.
pub fn is_tar(bytes: &[u8]) -> (b: bool)
    ensures
        b == is_tar_spec(bytes@),
{
    if bytes.len() < USTAR_AT + 5 {
        return false;
    }
    let magic: Vec<u8> = vec![0x75u8, 0x73u8, 0x74u8, 0x61u8, 0x72u8];
    let mut i: usize = 0;
    while i < 5
        invariant
            USTAR_AT + 5 <= bytes@.len(),
            magic@ == ustar(),
            i <= 5,
            forall|k: int| 0 <= k < i ==> bytes@[USTAR_AT + k] == magic@[k],
        decreases 5 - i,
    {
        if bytes[USTAR_AT + i] != magic[i] {
            assert(bytes@.subrange(USTAR_AT as int, USTAR_AT + 5)[i as int] != ustar()[i as int]);
            return false;
        }
        i += 1;
    }
    assert(bytes@.subrange(USTAR_AT as int, USTAR_AT + 5) =~= ustar());
    true
}

/// The format the first bytes of a file announce, or `None` for anything that
/// is not an archive this can open.
///
/// A gzip stream is decompressed far enough to read the header inside it,
/// because gzip says only that something is compressed and Mula unpacks a tar
/// rather than a stream. `bytes` is a prefix of the file, so a tar whose
/// header lies past it is not recognised either.
pub fn sniff(bytes: &[u8]) -> (f: Option<Format>)
    ensures
        f == sniff_spec(bytes@),
{
    let zip: Vec<u8> = vec![0x50u8, 0x4bu8, 0x03u8, 0x04u8];
    let empty_zip: Vec<u8> = vec![0x50u8, 0x4bu8, 0x05u8, 0x06u8];
    assert(zip@ =~= zip_magic());
    assert(empty_zip@ =~= empty_zip_magic());
    if starts_with_bytes(bytes, &zip) || starts_with_bytes(bytes, &empty_zip) {
        return Some(Format::Zip);
    }
    if is_tar(bytes) {
        return Some(Format::Tar);
    }
    let gzip: Vec<u8> = vec![0x1fu8, 0x8bu8];
    assert(gzip@ =~= gzip_magic());
    if starts_with_bytes(bytes, &gzip) {
        return match gunzip(bytes, GZIP_PEEK) {
            Some(head) => if is_tar(head.as_slice()) {
                Some(Format::TarGz)
            } else {
                None
            },
            None => None,
        };
    }
    None
}

/// What unpacking does with one entry of an archive.
#[derive(Clone, Copy, Debug, PartialEq, Eq)]
pub enum Unpacking {
    /// The entry is left out and named among those refused.
    Refuse,
    /// A directory is made, or kept where one already stands.
    MakeDirectory,
    /// A link is made, if its target stays inside the destination.
    MakeLink,
    /// A file is written, and never over one already there.
    WriteFile,
}

/// How an entry is unpacked: one without a name that stays inside the
/// destination, or without a directory to go in, is refused; otherwise a
/// directory, a link or a file is made by what the entry is, and anything
/// else is refused.
pub open spec fn unpacking_spec(safe_name: bool, has_parent: bool, is_dir: bool, is_symlink: bool, is_file: bool) -> Unpacking {
    if !safe_name || !has_parent {
        Unpacking::Refuse
    } else if is_dir {
        Unpacking::MakeDirectory
    } else if is_symlink {
        Unpacking::MakeLink
    } else if is_file {
        Unpacking::WriteFile
    } else {
        Unpacking::Refuse
    }
}

/// How an entry is unpacked, from what the archive says of it.
pub fn unpacking(safe_name: bool, has_parent: bool, is_dir: bool, is_symlink: bool, is_file: bool) -> (u: Unpacking)
    ensures
        u == unpacking_spec(safe_name, has_parent, is_dir, is_symlink, is_file),
{
    if !safe_name || !has_parent {
        Unpacking::Refuse
    } else if is_dir {
        Unpacking::MakeDirectory
    } else if is_symlink {
        Unpacking::MakeLink
    } else if is_file {
        Unpacking::WriteFile
    } else {
        Unpacking::Refuse
    }
}

/// The permission bits an unpacked file gets from the mode its entry
/// records: the owner, group and other bits, nothing more.
pub fn file_mode(mode: Option<u32>) -> (m: Option<u32>)
    ensures
        m == match mode {
            Some(bits) => Some(bits & 0o777u32),
            None => None,
        },
{
    match mode {
        Some(bits) => Some(bits & 0o777),
        None => None,
    }
}

} // verus!
