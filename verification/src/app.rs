//! What the main loop keeps besides the panels: which one is focused, what
//! the opposite one shows, and what a dialog or a prompt is waiting to do.

use vstd::prelude::*;

use crate::fs::ops::MutationOp;
use crate::text::{chars_of, string_of};

verus! {

/// One of the two panels.
#[derive(Clone, Copy, Debug, PartialEq, Eq)]
pub enum Side {
    Left,
    Right,
}

/// The other panel.
pub open spec fn other_side(side: Side) -> Side {
    match side {
        Side::Left => Side::Right,
        Side::Right => Side::Left,
    }
}

/// The other thing to show.
pub open spec fn other_view(o: Opposite) -> Opposite {
    match o {
        Opposite::Listing => Opposite::Preview,
        Opposite::Preview => Opposite::Listing,
    }
}

impl Side {
    /// The other panel.
    pub fn toggle(self) -> (other: Self)
        ensures
            other == other_side(self),
    {
        match self {
            Side::Left => Side::Right,
            Side::Right => Side::Left,
        }
    }
}

/// What the panel opposite the cursor shows.
///
/// Deliberately not a mode. A mode takes over the key table; this only
/// changes what is drawn, so the browse keys and every operation under them
/// go on working while the preview is up.
#[derive(Clone, Copy, Debug, PartialEq, Eq)]
pub enum Opposite {
    Listing,
    Preview,
}

impl Opposite {
    /// The other thing to show.
    pub fn toggle(self) -> (other: Self)
        ensures
            other == other_view(self),
    {
        match self {
            Opposite::Listing => Opposite::Preview,
            Opposite::Preview => Opposite::Listing,
        }
    }
}

/// Toggling always changes what is focused or shown, and toggling twice
/// comes back to where it started.
pub proof fn toggles_undo_themselves(side: Side, opposite: Opposite)
    ensures
        other_side(side) != side,
        other_side(other_side(side)) == side,
        other_view(opposite) != opposite,
        other_view(other_view(opposite)) == opposite,
{
}

/// A filesystem mutation that still needs the name being typed.
#[derive(Debug, Clone)]
pub enum PendingMutation {
    Rename(String),
    CreateEntry(String),
}

impl PendingMutation {
    /// A name ending in `/` creates a directory; anything else creates a
    /// file. Either may carry intermediate directories that do not exist
    /// yet (`fol/fol2/fol3/file1.txt`), which the op creates along the way.
    pub fn op(self, name: String) -> (op: MutationOp)
        ensures
            match self {
                PendingMutation::Rename(target) => op matches MutationOp::Rename { path, new_name }
                    && path@ == target@ && new_name@ == name@,
                PendingMutation::CreateEntry(parent) => if name@.len() > 0 && name@.last() == '/' {
                    op matches MutationOp::CreateDir { parent: p, name: n } && p@ == parent@ && n@
                        == name@.drop_last()
                } else {
                    op matches MutationOp::CreateFile { parent: p, name: n } && p@ == parent@ && n@ == name@
                },
            },
    {
        match self {
            PendingMutation::Rename(target) => MutationOp::Rename { path: target, new_name: name },
            PendingMutation::CreateEntry(parent) => {
                let chars = chars_of(name.as_str());
                if chars.len() > 0 && chars[chars.len() - 1] == '/' {
                    let mut dirs: Vec<char> = Vec::new();
                    let mut i: usize = 0;
                    while i + 1 < chars.len()
                        invariant
                            i + 1 <= chars@.len(),
                            dirs@ == chars@.take(i as int),
                        decreases chars.len() - i,
                    {
                        dirs.push(chars[i]);
                        assert(chars@.take(i + 1) =~= chars@.take(i as int).push(chars@[i as int]));
                        i += 1;
                    }
                    assert(dirs@ =~= chars@.drop_last());
                    MutationOp::CreateDir { parent, name: string_of(dirs.as_slice()) }
                } else {
                    MutationOp::CreateFile { parent, name }
                }
            },
        }
    }
}

/// Where the text of a confirmed prompt goes: into a filesystem mutation, or
/// into the title of the tab that was open for renaming.
#[derive(Debug, Clone)]
pub enum InputTarget {
    Mutation(PendingMutation),
    RenameTab,
}

/// What a dialog carries out once it is answered with `Yes`: the halves that
/// do not ask, which nothing that resolves a key can name.
#[derive(Debug, Clone, Copy, PartialEq, Eq)]
pub enum ConfirmTarget {
    Delete,
    Quit,
}

/// Why the main loop stopped.
#[derive(Debug, Clone, PartialEq, Eq)]
pub enum AppError {
    /// A panel could not do what it was asked, in words.
    Pane(String),
    /// The terminal or the filesystem failed, in words.
    IO(String),
}

} // verus!
