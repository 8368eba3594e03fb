//! One pane: the listing on screen, the cursor in it, and the listing the
//! pane is waiting for.

use vstd::prelude::*;

use crate::fs::directory::{name_chars, name_or_empty, DirEntry, Detail, Directory, DirectoryView};
use crate::fs::listing::{Kind, Listed};
use crate::fs::paths::{parent, parent_of, path_parts, same_path};
use crate::text::{chars_of, string_of};
use crate::ui::columns::{width_of, Columns};
use crate::ui::icon::Icon;
use crate::ui::label::{clip, clip_spec, name_of, name_of_spec};
use crate::ui::toast::{display_width, display_width_of};

verus! {

/// Why the pane could not do what it was asked.
#[derive(Debug, PartialEq, Eq)]
pub enum PaneError {
    /// Nothing is under the cursor.
    NoItemSelected,
    /// The listing could not be read, in words.
    IO(String),
}

/// Why a listing was asked for. Only entering an entry turns "that is not a
/// directory" into something to open; a pane catching up with the disk finds a
/// directory replaced by a file and says nothing.
#[derive(Clone, Copy, Debug, PartialEq, Eq, Structural)]
pub enum Intent {
    Enter,
    Refresh,
}

/// A listing the pane has asked for, or is about to: where, the entry the
/// cursor lands on once it arrives (when the listing holds it), and why.
#[derive(Debug)]
pub struct Request {
    pub path: String,
    pub focus: Option<String>,
    pub intent: Intent,
}

pub struct RequestView {
    pub path: Seq<char>,
    pub focus: Option<Seq<char>>,
    pub intent: Intent,
}

impl View for Request {
    type V = RequestView;

    open spec fn view(&self) -> RequestView {
        RequestView {
            path: self.path@,
            focus: match self.focus {
                Some(f) => Some(f@),
                None => None,
            },
            intent: self.intent,
        }
    }
}

/// The listing a pane is waiting for. A pane showing what it wants awaits
/// nothing; otherwise it is one request, either still to be handed over or
/// already on its way. The two are held apart so the loop can send a request
/// without sending it again on every pass that follows.
#[derive(Debug)]
pub enum Awaited {
    Nothing,
    ToSend(Request),
    Sent(Request),
}

pub enum AwaitedView {
    Nothing,
    ToSend(RequestView),
    Sent(RequestView),
}

impl View for Awaited {
    type V = AwaitedView;

    open spec fn view(&self) -> AwaitedView {
        match self {
            Awaited::Nothing => AwaitedView::Nothing,
            Awaited::ToSend(r) => AwaitedView::ToSend(r@),
            Awaited::Sent(r) => AwaitedView::Sent(r@),
        }
    }
}

/// What the pane wants done about an answer, beyond what it did with it
/// itself.
#[derive(Debug)]
pub enum Entered {
    /// Nothing. The listing is on screen, or the answer was to a question the
    /// pane has moved on from.
    Nothing,
    /// The entry the user entered is not a directory, and is this to open.
    Open { path: String, kind: Kind },
}

#[derive(Debug)]
pub struct Pane {
    directory: Directory,
    selected: Option<usize>,
    awaited: Awaited,
}

pub struct PaneView {
    pub directory: DirectoryView,
    pub selected: Option<nat>,
    pub awaited: AwaitedView,
}

impl View for Pane {
    type V = PaneView;

    closed spec fn view(&self) -> PaneView {
        PaneView {
            directory: self.directory@,
            selected: match self.selected {
                Some(i) => Some(i as nat),
                None => None,
            },
            awaited: self.awaited@,
        }
    }
}

/// Fits a selection to a listing of `len` entries: nothing while the listing
/// is empty, the first entry when nothing was selected, otherwise the previous
/// index capped at the last entry.
/// What a pane waits for once it is asked to hold at least `detail`: a
/// refresh when it waits for nothing and its listing was read with less.
pub open spec fn detail_wanted(pane: PaneView, detail: Detail) -> AwaitedView {
    if pane.awaited is Nothing && pane.directory.detail == Detail::NamesOnly && detail == Detail::WithMetadata {
        AwaitedView::ToSend(RequestView { path: pane.directory.path, focus: None, intent: Intent::Refresh })
    } else {
        pane.awaited
    }
}

/// What a pane waits for once the request it sent is to be asked again.
pub open spec fn unsent(awaited: AwaitedView) -> AwaitedView {
    match awaited {
        AwaitedView::Sent(r) => AwaitedView::ToSend(r),
        _ => awaited,
    }
}

pub open spec fn clamped_spec(selected: Option<nat>, len: nat) -> Option<nat> {
    if len == 0 {
        None
    } else {
        let i = match selected {
            Some(i) => i,
            None => 0,
        };
        Some(if i < len - 1 { i } else { (len - 1) as nat })
    }
}

/// Fits a selection to a listing of `len` entries.
pub fn clamped(selected: Option<usize>, len: usize) -> (c: Option<usize>)
    ensures
        match c {
            Some(i) => clamped_spec(match selected { Some(s) => Some(s as nat), None => None }, len as nat) == Some(i as nat),
            None => clamped_spec(match selected { Some(s) => Some(s as nat), None => None }, len as nat) is None,
        },
{
    if len == 0 {
        return None;
    }
    let i = match selected {
        Some(i) => i,
        None => 0,
    };
    Some(if i < len - 1 { i } else { len - 1 })
}

/// The first index of `entries` whose path is `path`, compared component by
/// component.
pub open spec fn index_of(entries: Seq<DirEntry>, path: Seq<char>) -> Option<nat> {
    if exists|i: int| 0 <= i < entries.len() && path_parts(#[trigger] entries[i].path@) == path_parts(path) {
        Some(choose|i: nat| i < entries.len() && path_parts(entries[i as int].path@) == path_parts(path)
            && forall|j: int| 0 <= j < i ==> path_parts(#[trigger] entries[j].path@) != path_parts(path))
    } else {
        None
    }
}

/// The columns the mark takes. Both of the strings it draws are this wide, so
/// marking a row cannot shift the name beside it.
pub const MARK_WIDTH: usize = 2;

/// Drawn in the mark column of a marked row.
pub const MARK_BAR: &'static str = "\u{258c} ";

/// Holds the mark column open on an unmarked row.
pub const MARK_BLANK: &'static str = "  ";

/// One row of a listing, before it is drawn: the mark, the icon, the name
/// clipped to the room it has, and the blanks that pad it out so the columns
/// behind it line up.
#[derive(Debug)]
pub struct Row {
    pub mark: &'static str,
    pub icon: Icon,
    pub label: String,
    pub padding: usize,
}

/// The columns an icon takes with the blank behind it.
pub open spec fn icon_width(icon: Icon) -> nat {
    display_width_of(seq![icon.glyph, ' ']) as nat
}

/// The room a row `row_width` wide leaves its name: what the mark, the icon
/// and the columns do not take, and none at all when they take everything.
pub open spec fn name_room(icon: Icon, columns: Columns, row_width: nat) -> nat {
    let taken = MARK_WIDTH + icon_width(icon) + width_of(columns);
    if row_width >= taken { (row_width - taken) as nat } else { 0 }
}

impl Pane {
    #[verifier::type_invariant]
    spec fn cursor_in_listing(&self) -> bool {
        &&& (self.selected is None <==> self.directory@.entries.len() == 0)
        &&& (self.selected matches Some(i) ==> i < self.directory@.entries.len())
    }

    /// Opens `directory` with its first entry selected, or with nothing
    /// selected while the listing is empty.
    pub fn new(directory: Directory) -> (p: Self)
        ensures
            p@.directory == directory@,
            p@.selected == clamped_spec(None, directory@.entries.len()),
            p@.awaited is Nothing,
    {
        let selected = clamped(None, directory.len());
        Pane { directory, selected, awaited: Awaited::Nothing }
    }

    /// A pane with nothing in it, waiting for its first listing. `path` is
    /// what the border shows until that listing arrives.
    pub fn empty(path: &str) -> (p: Self)
        ensures
            p@.directory.path == path@,
            p@.directory.entries.len() == 0,
            p@.selected is None,
            p@.awaited == AwaitedView::ToSend(RequestView { path: path@, focus: None, intent: Intent::Refresh }),
    {
        let directory = Directory::new(string_of(chars_of(path).as_slice()), Vec::new(), Detail::NamesOnly);
        proof {
            vstd::seq_lib::to_multiset_len(directory@.entries);
            vstd::seq_lib::to_multiset_len(Seq::<DirEntry>::empty());
        }
        let mut pane = Pane::new(directory);
        pane.want(string_of(chars_of(path).as_slice()), None, Intent::Refresh);
        pane
    }

    /// The directory on screen.
    pub fn get_current_dir(&self) -> (p: &String)
        ensures
            p@ == self@.directory.path,
    {
        self.directory.path()
    }

    /// The listing on screen.
    pub fn directory(&self) -> (d: &Directory)
        ensures
            d@ == self@.directory,
    {
        &self.directory
    }

    /// Where the cursor is.
    pub fn selected(&self) -> (s: Option<usize>)
        ensures
            match s {
                Some(i) => self@.selected == Some(i as nat),
                None => self@.selected is None,
            },
    {
        self.selected
    }

    /// The entry under the cursor.
    pub fn selected_entry(&self) -> (e: Result<&DirEntry, PaneError>)
        ensures
            match self@.selected {
                Some(i) => e == Ok::<&DirEntry, PaneError>(&self@.directory.entries[i as int]),
                None => e == Err::<&DirEntry, PaneError>(PaneError::NoItemSelected),
            },
    {
        proof {
            use_type_invariant(self);
        }
        match self.selected {
            Some(i) => match self.directory.get(i) {
                Some(e) => Ok(e),
                None => Err(PaneError::NoItemSelected),
            },
            None => Err(PaneError::NoItemSelected),
        }
    }

    /// Waits for the listing of the selected entry, whatever that entry turns
    /// out to be. A path that is not a directory comes back saying what it is
    /// instead, which `listed` hands on to be opened. Nothing is read here,
    /// not even to find out whether the entry is a directory at all.
    pub fn change_directory(&mut self) -> (r: Result<(), PaneError>)
        ensures
            final(self)@.directory == old(self)@.directory,
            final(self)@.selected == old(self)@.selected,
            match old(self)@.selected {
                Some(i) => r is Ok && final(self)@.awaited == AwaitedView::ToSend(RequestView {
                    path: old(self)@.directory.entries[i as int].path@,
                    focus: None,
                    intent: Intent::Enter,
                }),
                None => r == Err::<(), PaneError>(PaneError::NoItemSelected) && final(self)@.awaited == old(self)@.awaited,
            },
    {
        let path = match self.selected_entry() {
            Ok(entry) => string_of(chars_of(entry.path.as_str()).as_slice()),
            Err(e) => {
                return Err(e);
            },
        };
        self.want(path, None, Intent::Enter);
        Ok(())
    }

    /// Moves the cursor one item up, wrapping from the first item to the
    /// last. Does nothing while nothing is selected.
    pub fn select_prev(&mut self)
        ensures
            final(self)@.directory == old(self)@.directory,
            final(self)@.awaited == old(self)@.awaited,
            final(self)@.selected == match old(self)@.selected {
                Some(i) => Some(if i == 0 { (old(self)@.directory.entries.len() - 1) as nat } else { (i - 1) as nat }),
                None => None,
            },
    {
        proof {
            use_type_invariant(&*self);
        }
        if let Some(idx) = self.selected {
            let len = self.directory.len();
            self.selected = Some(if idx == 0 { len - 1 } else { idx - 1 });
        }
    }

    /// Moves the cursor one item down, wrapping from the last item to the
    /// first. Does nothing while nothing is selected.
    pub fn select_next(&mut self)
        ensures
            final(self)@.directory == old(self)@.directory,
            final(self)@.awaited == old(self)@.awaited,
            final(self)@.selected == match old(self)@.selected {
                Some(i) => Some(((i + 1) as nat) % old(self)@.directory.entries.len()),
                None => None,
            },
    {
        proof {
            use_type_invariant(&*self);
        }
        if let Some(idx) = self.selected {
            let len = self.directory.len();
            self.selected = Some((idx + 1) % len);
        }
    }

    /// Moves the cursor to the first item. Does nothing while nothing is
    /// selected.
    pub fn select_first(&mut self)
        ensures
            final(self)@.directory == old(self)@.directory,
            final(self)@.awaited == old(self)@.awaited,
            final(self)@.selected == match old(self)@.selected {
                Some(_) => Some(0nat),
                None => None,
            },
    {
        proof {
            use_type_invariant(&*self);
        }
        if self.selected.is_some() {
            self.selected = Some(0);
        }
    }

    /// Moves the cursor to the last item. Does nothing while nothing is
    /// selected.
    pub fn select_last(&mut self)
        ensures
            final(self)@.directory == old(self)@.directory,
            final(self)@.awaited == old(self)@.awaited,
            final(self)@.selected == match old(self)@.selected {
                Some(_) => Some((old(self)@.directory.entries.len() - 1) as nat),
                None => None,
            },
    {
        proof {
            use_type_invariant(&*self);
        }
        if self.selected.is_some() {
            self.selected = Some(self.directory.len() - 1);
        }
    }

    /// Waits for the listing of the directory holding `path`, with the cursor
    /// landing on `path` itself once it arrives. A path with no parent is its
    /// own directory, which is what the filesystem root is.
    pub fn reveal_path(&mut self, path: &str)
        ensures
            final(self)@.directory == old(self)@.directory,
            final(self)@.selected == old(self)@.selected,
            final(self)@.awaited == AwaitedView::ToSend(RequestView {
                path: match parent_of(path@) {
                    Some(p) => p,
                    None => path@,
                },
                focus: Some(path@),
                intent: Intent::Refresh,
            }),
    {
        let dir = match parent(path) {
            Some(p) => p,
            None => string_of(chars_of(path).as_slice()),
        };
        self.want(dir, Some(string_of(chars_of(path).as_slice())), Intent::Refresh);
    }

    /// Waits for the current directory to be read again when the listing on
    /// screen was read with less than `detail`. A pane already waiting is left
    /// alone: its request goes out under the detail wanted at the moment it
    /// is handed over.
    pub fn want_detail(&mut self, detail: Detail)
        ensures
            final(self)@.directory == old(self)@.directory,
            final(self)@.selected == old(self)@.selected,
            final(self)@.awaited == detail_wanted(old(self)@, detail),
    {
        let waiting = match self.awaited {
            Awaited::Nothing => false,
            _ => true,
        };
        let thinner = match (self.directory.detail(), detail) {
            (Detail::NamesOnly, Detail::WithMetadata) => true,
            _ => false,
        };
        if !waiting && thinner {
            self.refresh();
        }
    }

    /// Waits for the current directory to be read again. The cursor keeps its
    /// index, capped at the last entry of the new listing.
    pub fn refresh(&mut self)
        ensures
            final(self)@.directory == old(self)@.directory,
            final(self)@.selected == old(self)@.selected,
            final(self)@.awaited == AwaitedView::ToSend(RequestView { path: old(self)@.directory.path, focus: None, intent: Intent::Refresh }),
    {
        let path = string_of(chars_of(self.directory.path().as_str()).as_slice());
        self.want(path, None, Intent::Refresh);
    }

    /// Puts down what the pane is waiting for, replacing whatever it waited
    /// for before. A request that had already gone out is left behind: its
    /// answer belongs to an older generation, and the reader drops it.
    fn want(&mut self, path: String, focus: Option<String>, intent: Intent)
        ensures
            final(self)@.directory == old(self)@.directory,
            final(self)@.selected == old(self)@.selected,
            final(self)@.awaited == AwaitedView::ToSend(Request { path, focus, intent }@),
    {
        proof {
            use_type_invariant(&*self);
        }
        self.awaited = Awaited::ToSend(Request { path, focus, intent });
    }

    /// The listing the pane is waiting for and has not asked for yet, marked
    /// as asked on the way out so the next pass of the loop does not send it
    /// again.
    pub fn take_unsent(&mut self) -> (p: Option<String>)
        ensures
            final(self)@.directory == old(self)@.directory,
            final(self)@.selected == old(self)@.selected,
            match old(self)@.awaited {
                AwaitedView::ToSend(r) => p matches Some(path) && path@ == r.path && final(self)@.awaited == AwaitedView::Sent(r),
                _ => p is None && final(self)@.awaited == old(self)@.awaited,
            },
    {
        proof {
            use_type_invariant(&*self);
        }
        let mut awaited = Awaited::Nothing;
        std::mem::swap(&mut awaited, &mut self.awaited);
        match awaited {
            Awaited::ToSend(request) => {
                let path = string_of(chars_of(request.path.as_str()).as_slice());
                self.awaited = Awaited::Sent(request);
                Some(path)
            },
            other => {
                self.awaited = other;
                None
            },
        }
    }

    /// Puts a request that has gone out back to being unsent, so it is asked
    /// again. What the pane waits for does not change, only whether the reader
    /// has been told about it.
    pub fn unsend(&mut self)
        ensures
            final(self)@.directory == old(self)@.directory,
            final(self)@.selected == old(self)@.selected,
            final(self)@.awaited == unsent(old(self)@.awaited),
    {
        proof {
            use_type_invariant(&*self);
        }
        let mut awaited = Awaited::Nothing;
        std::mem::swap(&mut awaited, &mut self.awaited);
        match awaited {
            Awaited::Sent(request) => {
                self.awaited = Awaited::ToSend(request);
            },
            other => {
                self.awaited = other;
            },
        }
    }

    /// Replaces the listing and brings the selection back into range.
    fn set_directory(&mut self, directory: Directory)
        ensures
            final(self)@.directory == directory@,
            final(self)@.selected == clamped_spec(old(self)@.selected, directory@.entries.len()),
            final(self)@.awaited == old(self)@.awaited,
    {
        proof {
            use_type_invariant(&*self);
        }
        let selected = clamped(self.selected, directory.len());
        let mut awaited = Awaited::Nothing;
        std::mem::swap(&mut awaited, &mut self.awaited);
        *self = Pane { directory, selected, awaited };
    }

    /// Puts the cursor on `path` when the listing holds it, and leaves it
    /// where it is when it does not.
    fn select_path(&mut self, path: &str)
        ensures
            final(self)@.directory == old(self)@.directory,
            final(self)@.awaited == old(self)@.awaited,
            final(self)@.selected == match index_of(old(self)@.directory.entries, path@) {
                Some(i) => Some(i),
                None => old(self)@.selected,
            },
    {
        proof {
            use_type_invariant(&*self);
        }
        let entries = self.directory.entries();
        let mut i: usize = 0;
        while i < entries.len()
            invariant
                i <= entries@.len(),
                entries@ == self@.directory.entries,
                self@.directory == old(self)@.directory,
                self@.awaited == old(self)@.awaited,
                self@.selected == old(self)@.selected,
                forall|j: int| 0 <= j < i ==> path_parts(#[trigger] entries@[j].path@) != path_parts(path@),
            decreases entries.len() - i,
        {
            if same_path(entries[i].path.as_str(), path) {
                proof {
                    let chosen = index_of(entries@, path@);
                    assert(chosen is Some);
                    let k = chosen->0;
                    if k < i {
                        assert(path_parts(entries@[k as int].path@) == path_parts(path@));
                    } else if k > i {
                        assert(path_parts(entries@[i as int].path@) == path_parts(path@));
                    }
                }
                self.selected = Some(i);
                return;
            }
            i += 1;
        }
    }

    /// Folds in the answer to the read the pane was waiting for: the listing
    /// replaces what is on screen, and a failure leaves the pane on the one it
    /// already had and comes back to be reported.
    ///
    /// An answer of "not a directory" is not a failure: entering the entry
    /// under the cursor asks for the listing of something that may be a file,
    /// and it comes back to be opened. A pane merely catching up with the disk
    /// asked no such question and is told nothing. Either way the pane stops
    /// waiting, so a directory that cannot be read is not asked for again on
    /// every pass that follows.
    pub fn listed(&mut self, listing: Result<Listed, String>) -> (r: Result<Entered, PaneError>)
        ensures
            final(self)@.awaited is Nothing,
            listing matches Err(e) ==> (r matches Err(PaneError::IO(m)) && m@ == e@
                && final(self)@.directory == old(self)@.directory && final(self)@.selected == old(self)@.selected),
            listing matches Ok(Listed::NotADirectory(kind)) ==> (final(self)@.directory == old(self)@.directory
                && final(self)@.selected == old(self)@.selected
                && match old(self)@.awaited {
                    AwaitedView::Sent(req) => if req.intent == Intent::Enter {
                        r matches Ok(Entered::Open { path, kind: k }) && path@ == req.path && k == kind
                    } else {
                        r matches Ok(Entered::Nothing)
                    },
                    _ => r matches Ok(Entered::Nothing),
                }),
            listing matches Ok(Listed::Directory(d)) ==> (r matches Ok(Entered::Nothing)
                && final(self)@.directory == d@
                && final(self)@.selected == match old(self)@.awaited {
                    AwaitedView::Sent(req) => match req.focus {
                        Some(f) => match index_of(d@.entries, f) {
                            Some(i) => Some(i),
                            None => clamped_spec(old(self)@.selected, d@.entries.len()),
                        },
                        None => clamped_spec(old(self)@.selected, d@.entries.len()),
                    },
                    _ => clamped_spec(old(self)@.selected, d@.entries.len()),
                }),
    {
        proof {
            use_type_invariant(&*self);
        }
        let mut awaited = Awaited::Nothing;
        std::mem::swap(&mut awaited, &mut self.awaited);
        let request = match awaited {
            Awaited::Sent(request) => Some(request),
            _ => None,
        };
        match listing {
            Err(e) => Err(PaneError::IO(e)),
            Ok(Listed::Directory(directory)) => {
                self.set_directory(directory);
                match request {
                    Some(Request { focus: Some(focus), .. }) => self.select_path(focus.as_str()),
                    _ => {},
                }
                Ok(Entered::Nothing)
            },
            Ok(Listed::NotADirectory(kind)) => match request {
                Some(request) => match request.intent {
                    Intent::Enter => Ok(Entered::Open { path: request.path, kind }),
                    Intent::Refresh => Ok(Entered::Nothing),
                },
                None => Ok(Entered::Nothing),
            },
        }
    }

    /// One row, `row_width` columns wide: the mark, the icon, the name padded
    /// out to whatever is left, and the cells of `columns` behind it. A pane
    /// too narrow to hold the columns leaves the name no room at all rather
    /// than borrowing any back from them. Every row, the parent included, is
    /// labelled by the last component of its path; the root labels itself.
    pub fn row(entry: &DirEntry, marked: bool, columns: Columns, row_width: usize) -> (row: Row)
        ensures
            row.mark@ == (if marked { MARK_BAR@ } else { MARK_BLANK@ }),
            row.label@ == clip_spec(name_of_spec(entry.path@), name_room(row.icon, columns, row_width as nat)),
            row.padding == if name_room(row.icon, columns, row_width as nat) >= display_width_of(row.label@) {
                (name_room(row.icon, columns, row_width as nat) - display_width_of(row.label@)) as nat
            } else {
                0
            },
    {
        let icon = Icon::icon_for(entry);
        let glyph = string_of(vec![icon.glyph, ' '].as_slice());
        assert(glyph@ =~= seq![icon.glyph, ' ']);
        let icon_w = display_width(glyph.as_str()) as u128;
        let taken: u128 = MARK_WIDTH as u128 + icon_w + columns.width() as u128;
        let room: usize = if row_width as u128 >= taken { (row_width as u128 - taken) as usize } else { 0 };
        let name = name_of(entry.path.as_str());
        let label = clip(name.as_str(), room);
        let label_w = display_width(label.as_str());
        let padding = if room >= label_w { room - label_w } else { 0 };
        Row { mark: if marked { MARK_BAR } else { MARK_BLANK }, icon, label, padding }
    }
}

} // verus!
