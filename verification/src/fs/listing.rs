//! What reading one path as a directory comes to: the listing, or what the
//! path is instead when it is not a directory.

use vstd::prelude::*;

use crate::fs::directory::Directory;
use crate::fs::preview::{is_text, is_text_spec};

verus! {

/// What a path is, when it is not a directory. Enough to tell what should open
/// it, and no more.
#[derive(Clone, Copy, Debug, PartialEq, Eq, Structural)]
pub enum Kind {
    /// A regular file whose first bytes hold no NUL.
    Text,
    /// A regular file that is not text: a picture, an archive, a program.
    Opaque,
    /// A fifo, a socket or a device. Opening one blocks whatever opened it for
    /// as long as nobody is at the other end, so it is settled on the metadata
    /// and never opened.
    NotAFile,
}

/// What came of reading a path as a directory.
#[derive(Debug)]
pub enum Listed {
    Directory(Directory),
    /// It is not one. What it is instead travels with the answer, so entering
    /// an entry costs one read rather than two.
    NotADirectory(Kind),
}

/// What a path that is not a directory is: anything but a regular file is
/// settled on its metadata alone, and a regular file is text when its first
/// bytes hold no NUL. `prefix` is what was read of a regular file, and is not
/// looked at for anything else.
pub fn kind_of(regular: bool, prefix: &[u8]) -> (k: Kind)
    ensures
        !regular ==> k == Kind::NotAFile,
        regular ==> k == if is_text_spec(prefix@) { Kind::Text } else { Kind::Opaque },
{
    if !regular {
        return Kind::NotAFile;
    }
    if is_text(prefix) {
        Kind::Text
    } else {
        Kind::Opaque
    }
}

} // verus!
