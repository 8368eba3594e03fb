//! The directories Mula jumps to, kept as a TOML file of their own.
//!
//! The list is written every time it changes and read once at start. A file
//! that could not be read is never written: the user's own list is still in
//! it, and one add would replace it with one entry.

use vstd::prelude::*;

use crate::config::{entries_of, entries_view, item_view, parse_document, toml_read, NodeView, TomlEntry, TomlNode};
use crate::text::{chars_of, same_text, string_of};

verus! {

/// The key the list is kept under.
pub const KEY: &'static str = "favorites";

/// The line that opens the file.
pub const HEADER: &'static str = "# The directories Mula jumps to. Written by Mula itself.\n";

/// Why the list could not be read or written.
#[derive(Debug, Clone, PartialEq, Eq)]
pub enum FavoritesError {
    /// There is no home directory to keep the favorites in.
    NoHome,
    /// The file could not be read.
    Unreadable { path: String, reason: String },
    /// The file is not valid TOML.
    Malformed { path: String, reason: String },
    /// The file holds something other than a list of paths under the key.
    NotPaths { path: String },
    /// A path is not text, and only text can be written down.
    NotText { path: String },
    /// The file could not be written.
    Unwritable { path: String, reason: String },
    /// The file could not be read, so it is left as it is until Mula restarts.
    ReadOnly,
}

#[derive(Clone, Copy, Debug, PartialEq, Eq)]
pub enum Added {
    Added,
    AlreadyListed,
}

/// What a TOML document holds under the key, as plain values: nothing, a
/// value that is not a list, or a list whose strings are kept and whose other
/// values are `None`.
#[derive(Debug)]
pub enum Listed {
    Absent,
    NotAList,
    List(Vec<Option<String>>),
}

/// Each of `items` by its characters.
pub open spec fn optional_texts(items: Seq<Option<String>>) -> Seq<Option<Seq<char>>> {
    Seq::new(items.len(), |i: int| match items[i] {
        Some(s) => Some(s@),
        None => None,
    })
}

/// What a document says under the key, for the contracts.
pub enum ListedView {
    Absent,
    NotAList,
    List(Seq<Option<Seq<char>>>),
}

impl View for Listed {
    type V = ListedView;

    open spec fn view(&self) -> ListedView {
        match self {
            Listed::Absent => ListedView::Absent,
            Listed::NotAList => ListedView::NotAList,
            Listed::List(items) => ListedView::List(optional_texts(items@)),
        }
    }
}

/// What a document's value under the key is, as the list reads it.
pub open spec fn node_listed(node: NodeView) -> ListedView {
    match node {
        NodeView::List(items) => ListedView::List(items),
        _ => ListedView::NotAList,
    }
}

/// What the entries of a document hold under the key: the value of the first
/// entry with that key, or nothing.
pub open spec fn listed_of(entries: Seq<(Seq<char>, NodeView)>) -> ListedView
    decreases entries.len(),
{
    if entries.len() == 0 {
        ListedView::Absent
    } else if entries[0].0 == KEY@ {
        node_listed(entries[0].1)
    } else {
        listed_of(entries.drop_first())
    }
}

/// What the `toml` parser makes of `text` under the key, or the message of
/// the error that stopped it.
pub open spec fn document_listed(text: Seq<char>) -> Result<ListedView, Seq<char>> {
    match toml_read(text) {
        Ok(entries) => Ok(listed_of(entries)),
        Err(m) => Err(m),
    }
}

/// The value under the key among `entries`, taken out of them.
fn listed_under(entries: Vec<TomlEntry>) -> (l: Listed)
    ensures
        l@ == listed_of(entries_view(entries@)),
{
    let mut rest = entries;
    while rest.len() > 0
        invariant
            listed_of(entries_view(entries@)) == listed_of(entries_view(rest@)),
        decreases rest.len(),
    {
        let ghost all = entries_view(rest@);
        let entry = rest.remove(0);
        assert(entries_view(rest@) =~= all.drop_first());
        if same_text(entry.key.as_str(), KEY) {
            return match entry.value {
                TomlNode::List(items) => {
                    assert(optional_texts(items@) =~= items@.map_values(|item: Option<String>| item_view(item)));
                    Listed::List(items)
                },
                _ => Listed::NotAList,
            };
        }
    }
    Listed::Absent
}

/// The header is a comment line, which the parser passes over.
proof fn header_is_a_comment()
    ensures
        comment_line(HEADER@),
{
    reveal_strlit("# The directories Mula jumps to. Written by Mula itself.\n");
    assert(HEADER@ == "# The directories Mula jumps to. Written by Mula itself.\n"@);
}

/// The text `toml` writes for a table holding `items` as an array of strings
/// under `key`.
pub uninterp spec fn toml_list_document(key: Seq<char>, items: Seq<Seq<char>>) -> Seq<char>;

/// A line TOML reads as a comment alone: a `#`, printable ASCII, and the end
/// of the line.
pub open spec fn comment_line(c: Seq<char>) -> bool {
    &&& c.len() >= 2
    &&& c[0] == '#'
    &&& c.last() == '\n'
    &&& forall|i: int| 0 < i < c.len() - 1 ==> 0x20 <= (#[trigger] c[i] as int) <= 0x7e
}

/// A document of one entry, `key`, holding `items` as an array of strings.
pub open spec fn one_list(key: Seq<char>, items: Seq<Seq<char>>) -> Result<Seq<(Seq<char>, NodeView)>, Seq<char>> {
    Ok(seq![(key, NodeView::List(items.map_values(|p: Seq<char>| Some(p))))])
}

/// Writes a `toml::Table` holding `items` as an array of strings under `key`.
/// Claims that the text is the one `toml_list_document` names, and that the
/// `toml` parser, given that text behind any comment line, reads back one
/// entry, `key`, holding the same strings in the same order: `toml` quotes a
/// key and escapes a string as needed so that parsing gives them back.
#[verifier::external_body]
fn render_list(key: &str, items: &Vec<String>) -> (text: String)
    ensures
        text@ == toml_list_document(key@, items@.map_values(|p: String| p@)),
        forall|c: Seq<char>| comment_line(c) ==> #[trigger] toml_read(c + text@) == one_list(key@, items@.map_values(|p: String| p@)),
{
    let listed = items.iter().map(|item| toml::Value::String(item.clone())).collect();
    let mut document = toml::Table::new();
    document.insert(key.to_string(), toml::Value::Array(listed));
    document.to_string()
}

/// The list a document's value under the key gives, or why it gives none.
pub open spec fn paths_of(file: Seq<char>, listed: ListedView) -> Result<Seq<Seq<char>>, ()> {
    match listed {
        ListedView::Absent => Ok(Seq::empty()),
        ListedView::NotAList => Err(()),
        ListedView::List(items) => if forall|i: int| 0 <= i < items.len() ==> #[trigger] items[i] is Some {
            Ok(Seq::new(items.len(), |i: int| items[i].unwrap()))
        } else {
            Err(())
        },
    }
}

/// Why a read of the file came back without its text.
#[derive(Debug, Clone, PartialEq, Eq)]
pub enum ReadFailure {
    /// There is no file yet, which is an empty list.
    NotFound,
    /// Anything else, in words.
    Other(String),
}

/// What the list is, from the value a document holds under the key: a file
/// with nothing under the key is an empty list, and anything but a list of
/// strings is turned away.
pub fn paths_from(file: &str, listed: Listed) -> (paths: Result<Vec<String>, FavoritesError>)
    ensures
        match paths_of(file@, listed@) {
            Ok(p) => paths matches Ok(v) && v@.map_values(|s: String| s@) == p,
            Err(()) => paths matches Err(FavoritesError::NotPaths { path }) && path@ == file@,
        },
{
    match &listed {
        Listed::Absent => {
            let v: Vec<String> = Vec::new();
            assert(v@.map_values(|s: String| s@) =~= Seq::<Seq<char>>::empty());
            Ok(v)
        },
        Listed::NotAList => Err(FavoritesError::NotPaths { path: string_of(chars_of(file).as_slice()) }),
        Listed::List(items) => {
            let ghost want = optional_texts(items@);
            assert(listed@ == ListedView::List(want));
            let mut out: Vec<String> = Vec::new();
            let mut i: usize = 0;
            while i < items.len()
                invariant
                    i <= items@.len(),
                    want == optional_texts(items@),
                    listed@ == ListedView::List(want),
                    out@.len() == i,
                    forall|k: int| 0 <= k < i ==> #[trigger] want[k] == Some(out@[k]@),
                decreases items.len() - i,
            {
                match &items[i] {
                    Some(s) => {
                        out.push(string_of(chars_of(s.as_str()).as_slice()));
                    },
                    None => {
                        assert(!(want[i as int] is Some));
                        assert(!(forall|k: int| 0 <= k < want.len() ==> #[trigger] want[k] is Some));
                        assert(listed@ == ListedView::List(want));
                        return Err(FavoritesError::NotPaths { path: string_of(chars_of(file).as_slice()) });
                    },
                }
                i += 1;
            }
            assert(out@.map_values(|s: String| s@) =~= Seq::new(want.len(), |i: int| want[i].unwrap()));
            Ok(out)
        },
    }
}

/// The list `text`, read from `file`, holds.
pub fn parse(file: &str, text: &str) -> (paths: Result<Vec<String>, FavoritesError>)
    ensures
        match document_listed(text@) {
            Err(_) => paths matches Err(FavoritesError::Malformed { path, .. }) && path@ == file@,
            Ok(listed) => match paths_of(file@, listed) {
                Ok(p) => paths matches Ok(v) && v@.map_values(|s: String| s@) == p,
                Err(()) => paths matches Err(FavoritesError::NotPaths { path }) && path@ == file@,
            },
        },
{
    match parse_document(text) {
        Err(reason) => Err(FavoritesError::Malformed { path: string_of(chars_of(file).as_slice()), reason }),
        Ok(document) => paths_from(file, listed_under(entries_of(&document))),
    }
}

/// The list a read of `file` gives: a file that is not there yet is an empty
/// list, one that could not be read is an error, and the text of one that
/// was read is parsed.
pub fn read_outcome(file: &str, read: Result<String, ReadFailure>) -> (paths: Result<Vec<String>, FavoritesError>)
    ensures
        read == Err::<String, ReadFailure>(ReadFailure::NotFound) ==> (paths matches Ok(v) && v@.len() == 0),
        read matches Err(ReadFailure::Other(reason)) ==> (paths matches Err(FavoritesError::Unreadable { path, reason: r }) && path@ == file@ && r@ == reason@),
        read matches Ok(text) ==> (match document_listed(text@) {
            Err(_) => paths matches Err(FavoritesError::Malformed { path, .. }) && path@ == file@,
            Ok(listed) => match paths_of(file@, listed) {
                Ok(p) => paths matches Ok(v) && v@.map_values(|s: String| s@) == p,
                Err(()) => paths matches Err(FavoritesError::NotPaths { path }) && path@ == file@,
            },
        }),
{
    match read {
        Err(ReadFailure::NotFound) => Ok(Vec::new()),
        Err(ReadFailure::Other(reason)) => Err(FavoritesError::Unreadable { path: string_of(chars_of(file).as_slice()), reason }),
        Ok(text) => parse(file, text.as_str()),
    }
}

#[derive(Debug)]
pub struct Favorites {
    paths: Vec<String>,
    file: Option<String>,
}

/// What the list holds: its paths, and where it is written, if anywhere.
pub struct FavoritesView {
    pub paths: Seq<Seq<char>>,
    pub file: Option<Seq<char>>,
}

impl View for Favorites {
    type V = FavoritesView;

    closed spec fn view(&self) -> FavoritesView {
        FavoritesView {
            paths: self.paths@.map_values(|p: String| p@),
            file: match self.file {
                Some(f) => Some(f@),
                None => None,
            },
        }
    }
}

/// The text the file holds for `paths`: the header, then the document.
pub open spec fn file_text(paths: Seq<Seq<char>>) -> Seq<char> {
    HEADER@ + toml_list_document(KEY@, paths)
}

/// `text`, read as the file's contents, gives back `paths` as the list.
pub open spec fn reads_back_as(file: Seq<char>, text: Seq<char>, paths: Seq<Seq<char>>) -> bool {
    document_listed(text) matches Ok(listed) && paths_of(file, listed) == Ok::<Seq<Seq<char>>, ()>(paths)
}

/// `write` was handed `file` and `text` and gave `answer`.
pub open spec fn written<W: Fn(&str, &str) -> Result<(), FavoritesError>>(
    write: W,
    file: Seq<char>,
    text: Seq<char>,
    answer: Result<(), FavoritesError>,
) -> bool {
    exists|a: &str, b: &str| a@ == file && b@ == text && #[trigger] call_ensures(write, (a, b), answer)
}

/// The index of the first of `paths` that is `path`.
pub open spec fn index_of(paths: Seq<Seq<char>>, path: Seq<char>) -> Option<int> {
    if exists|i: int| 0 <= i < paths.len() && paths[i] == path {
        Some(choose|i: int| 0 <= i < paths.len() && paths[i] == path && forall|j: int| 0 <= j < i ==> paths[j] != path)
    } else {
        None
    }
}

fn position(paths: &Vec<String>, path: &str) -> (at: Option<usize>)
    ensures
        match at {
            Some(i) => i < paths@.len() && paths@[i as int]@ == path@ && forall|j: int| 0 <= j < i ==> paths@[j]@ != path@,
            None => forall|j: int| 0 <= j < paths@.len() ==> paths@[j]@ != path@,
        },
{
    let mut i: usize = 0;
    while i < paths.len()
        invariant
            i <= paths@.len(),
            forall|j: int| 0 <= j < i ==> paths@[j]@ != path@,
        decreases paths.len() - i,
    {
        if same_text(paths[i].as_str(), path) {
            return Some(i);
        }
        i += 1;
    }
    None
}

impl Favorites {
    /// A list that was read from `file`.
    pub fn open(file: &str, paths: Vec<String>) -> (f: Self)
        ensures
            f@.paths == paths@.map_values(|p: String| p@),
            f@.file == Some(file@),
    {
        Favorites { paths, file: Some(string_of(chars_of(file).as_slice())) }
    }

    /// A list that is written nowhere: the file could not be read, or there is
    /// nowhere to keep one.
    pub fn closed() -> (f: Self)
        ensures
            f@.paths.len() == 0,
            f@.file is None,
    {
        let f = Favorites { paths: Vec::new(), file: None };
        assert(f@.paths =~= Seq::<Seq<char>>::empty());
        f
    }

    pub fn paths(&self) -> (p: &Vec<String>)
        ensures
            p@.map_values(|s: String| s@) == self@.paths,
    {
        &self.paths
    }

    /// Where the list is written, if anywhere.
    pub fn file(&self) -> (f: Option<&String>)
        ensures
            match f {
                Some(s) => self@.file == Some(s@),
                None => self@.file is None,
            },
    {
        match &self.file {
            Some(f) => Some(f),
            None => None,
        }
    }

    /// Writes `paths` out through `write`, which is handed the file and its
    /// whole text; a list written nowhere is refused before anything is
    /// written. What is handed over reads back as the same list.
    fn save<W: Fn(&str, &str) -> Result<(), FavoritesError>>(file: &Option<String>, paths: &Vec<String>, write: &W) -> (r: Result<(), FavoritesError>)
        requires
            forall|a: &str, b: &str| #[trigger] write.requires((a, b)),
        ensures
            match file {
                None => r == Err::<(), FavoritesError>(FavoritesError::ReadOnly),
                Some(f) => {
                    &&& written(*write, f@, file_text(paths@.map_values(|p: String| p@)), r)
                    &&& reads_back_as(f@, file_text(paths@.map_values(|p: String| p@)), paths@.map_values(|p: String| p@))
                },
            },
    {
        match file {
            None => Err(FavoritesError::ReadOnly),
            Some(f) => {
                let ghost ps = paths@.map_values(|p: String| p@);
                let mut text: Vec<char> = chars_of(HEADER);
                let document = render_list(KEY, paths);
                let mut rest = chars_of(document.as_str());
                text.append(&mut rest);
                let whole = string_of(text.as_slice());
                proof {
                    let items = ps.map_values(|p: Seq<char>| Some(p));
                    header_is_a_comment();
                    assert(toml_read(HEADER@ + document@) == one_list(KEY@, ps));
                    assert(listed_of(seq![(KEY@, NodeView::List(items))]) == ListedView::List(items));
                    assert(whole@ == file_text(ps));
                    assert(forall|i: int| 0 <= i < items.len() ==> #[trigger] items[i] is Some);
                    assert(Seq::new(items.len(), |i: int| items[i].unwrap()) =~= ps);
                }
                let a = f.as_str();
                let b = whole.as_str();
                let r = write(a, b);
                proof {
                    assert(a@ == f@ && b@ == file_text(ps) && call_ensures(*write, (a, b), r));
                }
                r
            },
        }
    }

    /// Adds `path` at the end and writes the list out through `write`. A path
    /// already listed is left where it is. Where the list cannot be written,
    /// it is left as it was and the error comes back.
    pub fn add<W: Fn(&str, &str) -> Result<(), FavoritesError>>(&mut self, path: &str, write: &W) -> (r: Result<Added, FavoritesError>)
        requires
            forall|a: &str, b: &str| #[trigger] write.requires((a, b)),
        ensures
            final(self)@.file == old(self)@.file,
            old(self)@.paths.contains(path@) ==> (r == Ok::<Added, FavoritesError>(Added::AlreadyListed)
                && final(self)@.paths == old(self)@.paths),
            !old(self)@.paths.contains(path@) ==> match r {
                Ok(a) => a == Added::Added && final(self)@.paths == old(self)@.paths.push(path@),
                Err(_) => final(self)@.paths == old(self)@.paths,
            },
            !old(self)@.paths.contains(path@) && old(self)@.file is None ==> r == Err::<Added, FavoritesError>(FavoritesError::ReadOnly),
            !old(self)@.paths.contains(path@) && old(self)@.file is Some ==> {
                let f = old(self)@.file.unwrap();
                let text = file_text(old(self)@.paths.push(path@));
                &&& written(*write, f, text, match r {
                    Ok(_) => Ok::<(), FavoritesError>(()),
                    Err(e) => Err::<(), FavoritesError>(e),
                })
                &&& reads_back_as(f, text, old(self)@.paths.push(path@))
            },
    {
        match position(&self.paths, path) {
            Some(i) => {
                assert(self@.paths[i as int] == path@);
                return Ok(Added::AlreadyListed);
            },
            None => {
                assert(!self@.paths.contains(path@)) by {
                    if self@.paths.contains(path@) {
                        let j = choose|j: int| 0 <= j < self@.paths.len() && self@.paths[j] == path@;
                        assert(self.paths@[j]@ == path@);
                    }
                }
            },
        }
        let mut candidate: Vec<String> = Vec::new();
        let mut i: usize = 0;
        while i < self.paths.len()
            invariant
                i <= self.paths@.len(),
                candidate@.map_values(|p: String| p@) == self.paths@.map_values(|p: String| p@).take(i as int),
            decreases self.paths.len() - i,
        {
            let ghost before = candidate@;
            let copy = string_of(chars_of(self.paths[i].as_str()).as_slice());
            candidate.push(copy);
            assert(candidate@.map_values(|p: String| p@) =~= before.map_values(|p: String| p@).push(copy@));
            assert(self.paths@.map_values(|p: String| p@).take(i + 1) =~= self.paths@.map_values(|p: String| p@).take(i as int).push(self.paths@[i as int]@));
            i += 1;
        }
        let ghost before = candidate@;
        candidate.push(string_of(chars_of(path).as_slice()));
        assert(candidate@.map_values(|p: String| p@) =~= self@.paths.push(path@)) by {
            assert(self.paths@.map_values(|p: String| p@).take(self.paths@.len() as int) =~= self@.paths);
        }
        let saved = Self::save(&self.file, &candidate, write);
        proof {
            if self@.file is Some {
                let text = file_text(self@.paths.push(path@));
                assert(written(*write, self@.file.unwrap(), text, saved));
                assert(reads_back_as(self@.file.unwrap(), text, self@.paths.push(path@)));
            }
        }
        match saved {
            Err(e) => {
                assert(saved == Err::<(), FavoritesError>(e));
                Err(e)
            },
            Ok(u) => {
                assert(saved == Ok::<(), FavoritesError>(u));
                self.paths = candidate;
                Ok(Added::Added)
            },
        }
    }

    /// Takes `path` off the list and writes the list out through `write`. A
    /// path that is not listed is nothing to do. Where the list cannot be
    /// written, it is left as it was and the error comes back.
    pub fn remove<W: Fn(&str, &str) -> Result<(), FavoritesError>>(&mut self, path: &str, write: &W) -> (r: Result<(), FavoritesError>)
        requires
            forall|a: &str, b: &str| #[trigger] write.requires((a, b)),
        ensures
            final(self)@.file == old(self)@.file,
            !old(self)@.paths.contains(path@) ==> (r is Ok && final(self)@.paths == old(self)@.paths),
            old(self)@.paths.contains(path@) ==> exists|i: int| {
                &&& 0 <= i < old(self)@.paths.len()
                &&& #[trigger] old(self)@.paths[i] == path@
                &&& forall|j: int| 0 <= j < i ==> old(self)@.paths[j] != path@
                &&& match r {
                    Ok(()) => final(self)@.paths == old(self)@.paths.remove(i),
                    Err(_) => final(self)@.paths == old(self)@.paths,
                }
                &&& match old(self)@.file {
                    None => r == Err::<(), FavoritesError>(FavoritesError::ReadOnly),
                    Some(f) => {
                        &&& written(*write, f, file_text(old(self)@.paths.remove(i)), r)
                        &&& reads_back_as(f, file_text(old(self)@.paths.remove(i)), old(self)@.paths.remove(i))
                    },
                }
            },
    {
        let at = match position(&self.paths, path) {
            None => {
                assert(!self@.paths.contains(path@)) by {
                    if self@.paths.contains(path@) {
                        let j = choose|j: int| 0 <= j < self@.paths.len() && self@.paths[j] == path@;
                        assert(self.paths@[j]@ == path@);
                    }
                }
                return Ok(());
            },
            Some(i) => i,
        };
        let mut candidate: Vec<String> = Vec::new();
        let mut i: usize = 0;
        while i < self.paths.len()
            invariant
                i <= self.paths@.len(),
                at < self.paths@.len(),
                candidate@.map_values(|p: String| p@) == (if i <= at {
                    self@.paths.take(i as int)
                } else {
                    self@.paths.remove(at as int).take(i - 1)
                }),
                self@.paths == self.paths@.map_values(|p: String| p@),
            decreases self.paths.len() - i,
        {
            if i != at {
                let ghost before = candidate@;
                let copy = string_of(chars_of(self.paths[i].as_str()).as_slice());
                candidate.push(copy);
                assert(candidate@.map_values(|p: String| p@) =~= before.map_values(|p: String| p@).push(copy@));
                if i < at {
                    assert(candidate@.map_values(|p: String| p@) =~= self@.paths.take(i + 1));
                } else {
                    assert(candidate@.map_values(|p: String| p@) =~= self@.paths.remove(at as int).take(i as int));
                }
            } else {
                assert(self@.paths.take(at as int) =~= self@.paths.remove(at as int).take(at as int));
            }
            i += 1;
        }
        assert(self@.paths.remove(at as int).take(self@.paths.len() - 1) =~= self@.paths.remove(at as int));
        assert(self@.paths[at as int] == path@);
        let saved = Self::save(&self.file, &candidate, write);
        proof {
            let i = at as int;
            let rest = self@.paths.remove(i);
            if self@.file is Some {
                assert(written(*write, self@.file.unwrap(), file_text(rest), saved));
                assert(reads_back_as(self@.file.unwrap(), file_text(rest), rest));
            }
            assert(self@.paths[i] == path@);
        }
        match saved {
            Err(e) => {
                assert(saved == Err::<(), FavoritesError>(e));
                Err(e)
            },
            Ok(u) => {
                assert(saved == Ok::<(), FavoritesError>(u));
                self.paths = candidate;
                Ok(())
            },
        }
    }
}

/// Adding a path that was not listed and then removing it leaves the list
/// as it was: `add` puts it last, and `remove` takes out the first path equal
/// to it, which can only be that one.
pub proof fn adding_then_removing_restores(paths: Seq<Seq<char>>, p: Seq<char>, i: int)
    requires
        !paths.contains(p),
        0 <= i < paths.push(p).len(),
        paths.push(p)[i] == p,
        forall|j: int| 0 <= j < i ==> paths.push(p)[j] != p,
    ensures
        paths.push(p).remove(i) == paths,
{
    if i < paths.len() {
        assert(paths[i] == p);
        assert(paths.contains(p));
    }
    assert(paths.push(p).remove(i) =~= paths);
}

} // verus!
