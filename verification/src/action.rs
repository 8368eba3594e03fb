//! What a key can ask of the browser.

use vstd::prelude::*;

use crate::fs::ops::{DeleteMode, TransferOp};
use crate::open::Opener;
use crate::ui::tab::{MarkOp, ToggleDirection};

verus! {

/// Which way the cursor steps through a pane listing.
#[derive(Clone, Copy, Debug, PartialEq, Eq)]
pub enum VerticalDir {
    Up,
    Down,
}

/// Which end of a pane listing the cursor lands on, wherever it was before.
#[derive(Clone, Copy, Debug, PartialEq, Eq)]
pub enum ListEnd {
    First,
    Last,
}

#[derive(Clone, Copy, Debug, PartialEq, Eq)]
pub enum Action {
    Quit,
    CancelJob,
    ToggleSide,
    MoveCursor(VerticalDir),
    MoveCursorTo(ListEnd),
    OpenSelected,
    GoToParent,
    Open(Opener),
    ToggleMark,
    ToggleTab(ToggleDirection),
    MarkAndMove { op: MarkOp, nav_dir: VerticalDir },
    MarkAll,
    Clear,
    Transfer { op: TransferOp },
    /// Opens the prompt for the archive's name.
    Pack,
    /// Unpacks every marked archive into the other panel.
    Unpack,
    /// Opens the confirmation for one of the two deletions.
    Delete(DeleteMode),
    Rename,
    CreateEntry,
    NewTab,
    CloseTab,
    RenameTab,
    Find,
    Filter,
    OpenFavorites,
    /// Puts the directory the focused panel is in on the list of favorites.
    AddFavorite,
    TogglePreview,
    CycleColumns,
    ToggleDotFiles,
    CycleSort,
    ReverseSort,
}

} // verus!
