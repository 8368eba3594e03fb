//! Keys: what a key is, how it is named and read back, and the tables that
//! say what each key does.

use vstd::prelude::*;

use crate::action::{Action, ListEnd, VerticalDir};
use crate::fs::ops::{DeleteMode, TransferOp};
use crate::open::Opener;
use crate::text::{
    ascii_lower, chars_of, decimal_of, eq_ignore_ascii_case, is_white_space, lowercase, lowercase_of, push_decimal,
    push_str, same_ignoring_ascii_case, same_text, string_of, white_space,
};
use crate::ui::tab::{MarkOp, ToggleDirection};

verus! {

/// A key of the keyboard, as far as a binding can name one.
#[derive(Clone, Copy, Debug, PartialEq, Eq)]
pub enum KeyCode {
    Backspace,
    Enter,
    Left,
    Right,
    Up,
    Down,
    Home,
    End,
    PageUp,
    PageDown,
    Tab,
    BackTab,
    Delete,
    Insert,
    F(u8),
    Char(char),
    Null,
    Esc,
    CapsLock,
    ScrollLock,
    NumLock,
    PrintScreen,
    Pause,
    Menu,
    KeypadBegin,
    /// A media or modifier key, which no binding names.
    Other,
}

/// The modifiers a binding can ask for. Every other modifier a terminal
/// reports is left out before a key is compared.
#[derive(Clone, Copy, Debug, PartialEq, Eq)]
pub struct KeyModifiers {
    pub ctrl: bool,
    pub alt: bool,
    pub shift: bool,
}

/// A key as it was pressed: the code, and which of the three modifiers a
/// binding can name were held.
#[derive(Clone, Copy, Debug, PartialEq, Eq)]
pub struct KeyPress {
    pub code: KeyCode,
    pub mods: KeyModifiers,
}

#[derive(Clone, Copy, Debug, PartialEq, Eq)]
pub struct KeyBinding {
    pub code: KeyCode,
    pub mods: KeyModifiers,
}

pub open spec fn no_mods() -> KeyModifiers {
    KeyModifiers { ctrl: false, alt: false, shift: false }
}

impl KeyBinding {
    pub fn plain(code: KeyCode) -> (k: Self)
        ensures
            k == (KeyBinding { code, mods: no_mods() }),
    {
        KeyBinding { code, mods: KeyModifiers { ctrl: false, alt: false, shift: false } }
    }

    pub fn ctrl(code: KeyCode) -> (k: Self)
        ensures
            k == (KeyBinding { code, mods: KeyModifiers { ctrl: true, alt: false, shift: false } }),
    {
        KeyBinding { code, mods: KeyModifiers { ctrl: true, alt: false, shift: false } }
    }

    pub fn shift(self) -> (k: Self)
        ensures
            k == (KeyBinding { code: self.code, mods: KeyModifiers { shift: true, ..self.mods } }),
    {
        KeyBinding { code: self.code, mods: KeyModifiers { ctrl: self.mods.ctrl, alt: self.mods.alt, shift: true } }
    }

    pub fn alt(self) -> (k: Self)
        ensures
            k == (KeyBinding { code: self.code, mods: KeyModifiers { alt: true, ..self.mods } }),
    {
        KeyBinding { code: self.code, mods: KeyModifiers { ctrl: self.mods.ctrl, alt: true, shift: self.mods.shift } }
    }

    /// Whether `press` is this key, held with exactly these modifiers.
    pub fn matches(&self, press: &KeyPress) -> (m: bool)
        ensures
            m == (self.code == press.code && self.mods == press.mods),
    {
        same_code(self.code, press.code) && self.mods.ctrl == press.mods.ctrl && self.mods.alt
            == press.mods.alt && self.mods.shift == press.mods.shift
    }

    /// The binding as the bar, the help and a config file spell it:
    /// `Ctrl+Alt+Shift+<key>`.
    pub fn name(&self) -> (s: String)
        ensures
            s@ == binding_name(*self),
    {
        let mut out: Vec<char> = Vec::new();
        if self.mods.ctrl {
            push_str(&mut out, "Ctrl+");
        }
        if self.mods.alt {
            push_str(&mut out, "Alt+");
        }
        if self.mods.shift {
            push_str(&mut out, "Shift+");
        }
        push_code_name(&mut out, self.code);
        proof {
            assert(out@ =~= binding_name(*self));
        }
        string_of(out.as_slice())
    }
}

/// Whether two codes are the same key.
pub fn same_code(a: KeyCode, b: KeyCode) -> (same: bool)
    ensures
        same == (a == b),
{
    match (a, b) {
        (KeyCode::F(x), KeyCode::F(y)) => x == y,
        (KeyCode::Char(x), KeyCode::Char(y)) => x == y,
        (KeyCode::Backspace, KeyCode::Backspace) => true,
        (KeyCode::Enter, KeyCode::Enter) => true,
        (KeyCode::Left, KeyCode::Left) => true,
        (KeyCode::Right, KeyCode::Right) => true,
        (KeyCode::Up, KeyCode::Up) => true,
        (KeyCode::Down, KeyCode::Down) => true,
        (KeyCode::Home, KeyCode::Home) => true,
        (KeyCode::End, KeyCode::End) => true,
        (KeyCode::PageUp, KeyCode::PageUp) => true,
        (KeyCode::PageDown, KeyCode::PageDown) => true,
        (KeyCode::Tab, KeyCode::Tab) => true,
        (KeyCode::BackTab, KeyCode::BackTab) => true,
        (KeyCode::Delete, KeyCode::Delete) => true,
        (KeyCode::Insert, KeyCode::Insert) => true,
        (KeyCode::Null, KeyCode::Null) => true,
        (KeyCode::Esc, KeyCode::Esc) => true,
        (KeyCode::CapsLock, KeyCode::CapsLock) => true,
        (KeyCode::ScrollLock, KeyCode::ScrollLock) => true,
        (KeyCode::NumLock, KeyCode::NumLock) => true,
        (KeyCode::PrintScreen, KeyCode::PrintScreen) => true,
        (KeyCode::Pause, KeyCode::Pause) => true,
        (KeyCode::Menu, KeyCode::Menu) => true,
        (KeyCode::KeypadBegin, KeyCode::KeypadBegin) => true,
        (KeyCode::Other, KeyCode::Other) => true,
        _ => false,
    }
}

/// Whether two bindings name the same key with the same modifiers.
pub fn same_binding(a: KeyBinding, b: KeyBinding) -> (same: bool)
    ensures
        same == (a == b),
{
    same_code(a.code, b.code) && a.mods.ctrl == b.mods.ctrl && a.mods.alt == b.mods.alt
        && a.mods.shift == b.mods.shift
}

/// How a key is spelled. Backspace, Delete and Enter are written the one way
/// on every platform, so a config file carried between machines reads the
/// same; the rest are the names the terminal library gives them.
pub open spec fn code_name(code: KeyCode) -> Seq<char> {
    match code {
        KeyCode::Backspace => "Backspace"@,
        KeyCode::Delete => "Delete"@,
        KeyCode::Enter => "Enter"@,
        KeyCode::Left => "Left"@,
        KeyCode::Right => "Right"@,
        KeyCode::Up => "Up"@,
        KeyCode::Down => "Down"@,
        KeyCode::Home => "Home"@,
        KeyCode::End => "End"@,
        KeyCode::PageUp => "Page Up"@,
        KeyCode::PageDown => "Page Down"@,
        KeyCode::Tab => "Tab"@,
        KeyCode::BackTab => "Back Tab"@,
        KeyCode::Insert => "Insert"@,
        KeyCode::F(n) => "F"@ + decimal_of(n as nat),
        KeyCode::Char(c) => if c == ' ' {
            "Space"@
        } else {
            seq![c]
        },
        KeyCode::Null => "Null"@,
        KeyCode::Esc => "Esc"@,
        KeyCode::CapsLock => "Caps Lock"@,
        KeyCode::ScrollLock => "Scroll Lock"@,
        KeyCode::NumLock => "Num Lock"@,
        KeyCode::PrintScreen => "Print Screen"@,
        KeyCode::Pause => "Pause"@,
        KeyCode::Menu => "Menu"@,
        KeyCode::KeypadBegin => "Begin"@,
        KeyCode::Other => "Other"@,
    }
}

/// How a binding is spelled: its modifiers, then its key.
pub open spec fn binding_name(k: KeyBinding) -> Seq<char> {
    (if k.mods.ctrl { "Ctrl+"@ } else { Seq::empty() }) + (if k.mods.alt { "Alt+"@ } else {
        Seq::empty()
    }) + (if k.mods.shift { "Shift+"@ } else { Seq::empty() }) + code_name(k.code)
}

fn push_code_name(out: &mut Vec<char>, code: KeyCode)
    ensures
        final(out)@ == old(out)@ + code_name(code),
{
    match code {
        KeyCode::Backspace => push_str(out, "Backspace"),
        KeyCode::Delete => push_str(out, "Delete"),
        KeyCode::Enter => push_str(out, "Enter"),
        KeyCode::Left => push_str(out, "Left"),
        KeyCode::Right => push_str(out, "Right"),
        KeyCode::Up => push_str(out, "Up"),
        KeyCode::Down => push_str(out, "Down"),
        KeyCode::Home => push_str(out, "Home"),
        KeyCode::End => push_str(out, "End"),
        KeyCode::PageUp => push_str(out, "Page Up"),
        KeyCode::PageDown => push_str(out, "Page Down"),
        KeyCode::Tab => push_str(out, "Tab"),
        KeyCode::BackTab => push_str(out, "Back Tab"),
        KeyCode::Insert => push_str(out, "Insert"),
        KeyCode::F(n) => {
            push_str(out, "F");
            push_decimal(out, n as u64);
            proof {
                assert(final(out)@ =~= old(out)@ + ("F"@ + decimal_of(n as nat)));
            }
        },
        KeyCode::Char(c) => if c == ' ' {
            push_str(out, "Space")
        } else {
            out.push(c);
            proof {
                assert(final(out)@ =~= old(out)@ + seq![c]);
            }
        },
        KeyCode::Null => push_str(out, "Null"),
        KeyCode::Esc => push_str(out, "Esc"),
        KeyCode::CapsLock => push_str(out, "Caps Lock"),
        KeyCode::ScrollLock => push_str(out, "Scroll Lock"),
        KeyCode::NumLock => push_str(out, "Num Lock"),
        KeyCode::PrintScreen => push_str(out, "Print Screen"),
        KeyCode::Pause => push_str(out, "Pause"),
        KeyCode::Menu => push_str(out, "Menu"),
        KeyCode::KeypadBegin => push_str(out, "Begin"),
        KeyCode::Other => push_str(out, "Other"),
    }
}

/// One entry of a key table: the key, what it does, how the bar labels it
/// (if at all), and what the help says of it.
#[derive(Debug)]
pub struct Binding<T> {
    pub key: KeyBinding,
    pub msg: T,
    pub bar: Option<&'static str>,
    pub help: &'static str,
}

/// Why a key table or a key name was refused.
#[derive(Debug, PartialEq, Eq)]
pub enum BindingError {
    Duplicate { key: KeyBinding },
    UnknownKey { name: String },
}

/// The index of the first binding of `bindings` that `press` reaches.
pub open spec fn first_match<T>(bindings: Seq<Binding<T>>, press: KeyPress) -> Option<int> {
    if exists|i: int| 0 <= i < bindings.len() && #[trigger] bindings[i].key == (KeyBinding { code: press.code, mods: press.mods }) {
        Some(choose|i: int| 0 <= i < bindings.len() && bindings[i].key == (KeyBinding { code: press.code, mods: press.mods })
            && forall|j: int| 0 <= j < i ==> #[trigger] bindings[j].key != (KeyBinding { code: press.code, mods: press.mods }))
    } else {
        None
    }
}

/// Returns the message the first matching binding carries, or `None` if the
/// key is unbound.
pub fn resolve<T: Copy>(bindings: &[Binding<T>], press: &KeyPress) -> (m: Option<T>)
    ensures
        match m {
            Some(msg) => exists|i: int| 0 <= i < bindings@.len() && bindings@[i].key.matches_spec(*press)
                && bindings@[i].msg == msg && forall|j: int| 0 <= j < i ==> !#[trigger] bindings@[j].key.matches_spec(*press),
            None => forall|i: int| 0 <= i < bindings@.len() ==> !#[trigger] bindings@[i].key.matches_spec(*press),
        },
{
    let mut i: usize = 0;
    while i < bindings.len()
        invariant
            i <= bindings@.len(),
            forall|j: int| 0 <= j < i ==> !#[trigger] bindings@[j].key.matches_spec(*press),
        decreases bindings.len() - i,
    {
        if bindings[i].key.matches(press) {
            return Some(bindings[i].msg);
        }
        i += 1;
    }
    None
}

impl KeyBinding {
    pub open spec fn matches_spec(self, press: KeyPress) -> bool {
        self.code == press.code && self.mods == press.mods
    }
}

/// Returns the index of the first binding whose message satisfies `pred`, or
/// `None` if no binding does.
pub fn find<T, F: Fn(&T) -> bool>(bindings: &[Binding<T>], pred: F) -> (found: Option<usize>)
    requires
        forall|i: int| 0 <= i < bindings@.len() ==> call_requires(pred, (&bindings@[i].msg,)),
    ensures
        match found {
            Some(i) => i < bindings@.len() && call_ensures(pred, (&bindings@[i as int].msg,), true)
                && forall|k: int| 0 <= k < i ==> call_ensures(pred, (&bindings@[k].msg,), false),
            None => forall|k: int| 0 <= k < bindings@.len() ==> call_ensures(pred, (&bindings@[k].msg,), false),
        },
{
    let mut i: usize = 0;
    while i < bindings.len()
        invariant
            i <= bindings@.len(),
            forall|k: int| 0 <= k < bindings@.len() ==> call_requires(pred, (&bindings@[k].msg,)),
            forall|k: int| 0 <= k < i ==> call_ensures(pred, (&bindings@[k].msg,), false),
        decreases bindings.len() - i,
    {
        if pred(&bindings[i].msg) {
            return Some(i);
        }
        i += 1;
    }
    None
}

/// No two entries of `bindings` take one key.
pub open spec fn keys_distinct<T>(bindings: Seq<Binding<T>>) -> bool {
    distinct_before(bindings, bindings.len() as int)
}

/// Compares every entry against the ones after it and returns the first key
/// that two entries share. Only the key is compared; two entries may carry
/// one message.
pub fn validate<T>(bindings: &[Binding<T>]) -> (r: Result<(), BindingError>)
    ensures
        r is Ok <==> keys_distinct(bindings@),
        r matches Err(e) ==> e matches BindingError::Duplicate { key } && first_duplicate(bindings@, key),
{
    let mut i: usize = 0;
    while i < bindings.len()
        invariant
            i <= bindings@.len(),
            distinct_before(bindings@, i as int),
        decreases bindings.len() - i,
    {
        let mut j: usize = i + 1;
        while j < bindings.len()
            invariant
                i < bindings@.len(),
                i + 1 <= j <= bindings@.len(),
                distinct_before(bindings@, i as int),
                forall|b: int| i < b < j ==> bindings@[i as int].key != #[trigger] bindings@[b].key,
            decreases bindings.len() - j,
        {
            if same_binding(bindings[i].key, bindings[j].key) {
                assert(first_duplicate(bindings@, bindings@[i as int].key)) by {
                    assert(0 <= i < j < bindings@.len());
                }
                return Err(BindingError::Duplicate { key: bindings[i].key });
            }
            j += 1;
        }
        i += 1;
    }
    Ok(())
}

/// No entry before `i` shares its key with any entry after it.
pub open spec fn distinct_before<T>(bindings: Seq<Binding<T>>, i: int) -> bool {
    forall|a: int, b: int| 0 <= a < b < bindings.len() && a < i ==> #[trigger] bindings[a].key != #[trigger] bindings[b].key
}

/// `key` is the key of the first entry that a later entry shares its key
/// with.
pub open spec fn first_duplicate<T>(bindings: Seq<Binding<T>>, key: KeyBinding) -> bool {
    exists|i: int, j: int| #![trigger bindings[i], bindings[j]] 0 <= i < j < bindings.len() && bindings[i].key == key
        && bindings[j].key == key && distinct_before(bindings, i)
}

/// What a key does whatever is on screen.
#[derive(Clone, Copy, Debug, PartialEq, Eq)]
pub enum GlobalMsg {
    ShowHelp,
}

/// The keys that work in every mode, resolved before the mode's own table so
/// nothing can shadow them. F1 rather than `?`, because a global has to
/// survive the modes that read text.
pub fn global_keys() -> (keys: Vec<Binding<GlobalMsg>>)
    ensures
        keys@ == seq![
            Binding { key: key(KeyCode::F(1)), msg: GlobalMsg::ShowHelp, bar: None, help: "Lists every key available right now" },
        ],
{
    let keys = vec![Binding {
        key: KeyBinding::plain(KeyCode::F(1)),
        msg: GlobalMsg::ShowHelp,
        bar: None,
        help: "Lists every key available right now",
    }];
    assert(keys@ =~= seq![
        Binding { key: key(KeyCode::F(1)), msg: GlobalMsg::ShowHelp, bar: None, help: "Lists every key available right now" },
    ]);
    keys
}

/// One action a config file can name, and everything about it that stays in
/// code: how it reads in the bar and the help, and which keys reach it when no
/// config says otherwise.
#[derive(Debug)]
pub struct Entry {
    pub name: &'static str,
    pub action: Action,
    pub keys: Vec<KeyBinding>,
    pub bar: Option<&'static str>,
    pub help: &'static str,
}

/// The rows one entry adds to a table when it is reached by `keys`: one per
/// key, in order, with only the first carrying the bar label.
pub open spec fn rows_of(e: Entry, keys: Seq<KeyBinding>) -> Seq<Binding<Action>> {
    Seq::new(keys.len(), |i: int| Binding {
        key: keys[i],
        msg: e.action,
        bar: if i == 0 { e.bar } else { None },
        help: e.help,
    })
}

/// The keys the first override naming `name` gives, if any does.
pub open spec fn override_for(name: Seq<char>, overrides: Seq<(String, Vec<KeyBinding>)>) -> Option<Seq<KeyBinding>>
    decreases overrides.len(),
{
    if overrides.len() == 0 {
        None
    } else if overrides[0].0@ == name {
        Some(overrides[0].1@)
    } else {
        override_for(name, overrides.drop_first())
    }
}

/// The keys an entry is reached by: what an override gives it, else its own.
pub open spec fn keys_for(e: Entry, overrides: Seq<(String, Vec<KeyBinding>)>) -> Seq<KeyBinding> {
    match override_for(e.name@, overrides) {
        Some(keys) => keys,
        None => e.keys@,
    }
}

/// The table a catalogue builds, entry after entry.
pub open spec fn table_spec(catalogue: Seq<Entry>, overrides: Seq<(String, Vec<KeyBinding>)>) -> Seq<Binding<Action>>
    decreases catalogue.len(),
{
    if catalogue.len() == 0 {
        Seq::empty()
    } else {
        table_spec(catalogue.drop_last(), overrides) + rows_of(catalogue.last(), keys_for(catalogue.last(), overrides))
    }
}

fn keys_override<'a>(name: &str, overrides: &'a [(String, Vec<KeyBinding>)]) -> (k: Option<&'a Vec<KeyBinding>>)
    ensures
        match k {
            Some(keys) => override_for(name@, overrides@) == Some(keys@),
            None => override_for(name@, overrides@) is None,
        },
{
    let mut i: usize = 0;
    assert(overrides@.skip(0) =~= overrides@);
    while i < overrides.len()
        invariant
            i <= overrides@.len(),
            override_for(name@, overrides@) == override_for(name@, overrides@.skip(i as int)),
        decreases overrides.len() - i,
    {
        assert(overrides@.skip(i as int).drop_first() =~= overrides@.skip(i + 1));
        if same_text(overrides[i].0.as_str(), name) {
            return Some(&overrides[i].1);
        }
        i += 1;
    }
    None
}

/// Builds the table `resolve` walks, in catalogue order, asking `overrides`
/// which keys reach each action and falling back to the entry's own.
///
/// Only the first key of an action carries the bar label: an action reachable
/// two ways is still one entry in the bar, and every one of its keys is listed
/// in the help.
pub fn table(catalogue: &[Entry], overrides: &[(String, Vec<KeyBinding>)]) -> (t: Vec<Binding<Action>>)
    ensures
        t@ == table_spec(catalogue@, overrides@),
{
    let mut t: Vec<Binding<Action>> = Vec::new();
    let mut e: usize = 0;
    while e < catalogue.len()
        invariant
            e <= catalogue@.len(),
            t@ == table_spec(catalogue@.take(e as int), overrides@),
        decreases catalogue.len() - e,
    {
        let entry = &catalogue[e];
        let keys = match keys_override(entry.name, overrides) {
            Some(keys) => keys,
            None => &entry.keys,
        };
        let ghost before = t@;
        let mut i: usize = 0;
        while i < keys.len()
            invariant
                i <= keys@.len(),
                keys@ == keys_for(*entry, overrides@),
                t@ == before + rows_of(*entry, keys@).take(i as int),
            decreases keys.len() - i,
        {
            let bar = if i == 0 { entry.bar } else { None };
            t.push(Binding { key: keys[i], msg: entry.action, bar, help: entry.help });
            assert(t@ =~= before + rows_of(*entry, keys@).take(i + 1));
            i += 1;
        }
        assert(rows_of(*entry, keys@).take(keys@.len() as int) =~= rows_of(*entry, keys@));
        assert(catalogue@.take(e + 1).drop_last() =~= catalogue@.take(e as int));
        e += 1;
    }
    assert(catalogue@.take(catalogue@.len() as int) =~= catalogue@);
    t
}

/// A key held with no modifier.
pub open spec fn key(code: KeyCode) -> KeyBinding {
    KeyBinding { code, mods: no_mods() }
}

/// A key held with Shift.
pub open spec fn shifted(code: KeyCode) -> KeyBinding {
    KeyBinding { code, mods: KeyModifiers { ctrl: false, alt: false, shift: true } }
}

/// A key held with Alt.
pub open spec fn alted(code: KeyCode) -> KeyBinding {
    KeyBinding { code, mods: KeyModifiers { ctrl: false, alt: true, shift: false } }
}

/// `e` is the entry named `name` that `k` alone reaches, with the given
/// action, bar label and help line.
pub open spec fn describes(
    e: Entry,
    name: &str,
    action: Action,
    k: KeyBinding,
    bar: Option<&str>,
    help: &str,
) -> bool {
    &&& e.name == name
    &&& e.action == action
    &&& e.keys@ == seq![k]
    &&& e.bar == bar
    &&& e.help == help
}

/// The Browse catalogue this program is built with, entry by entry.
pub open spec fn default_catalogue(c: Seq<Entry>) -> bool {
    &&& c.len() == 34
    &&& describes(c[0], "cursor.up", Action::MoveCursor(VerticalDir::Up), key(KeyCode::Up), None, "Moves the cursor one item up")
    &&& describes(c[1], "cursor.down", Action::MoveCursor(VerticalDir::Down), key(KeyCode::Down), None, "Moves the cursor one item down")
    &&& describes(c[2], "cursor.first", Action::MoveCursorTo(ListEnd::First), key(KeyCode::Char('g')), None, "Moves the cursor to the first item")
    &&& describes(c[3], "cursor.last", Action::MoveCursorTo(ListEnd::Last), shifted(KeyCode::Char('G')), None, "Moves the cursor to the last item")
    &&& describes(c[4], "panel.toggle", Action::ToggleSide, key(KeyCode::Tab), None, "Focuses the other panel")
    &&& describes(c[5], "entry.open", Action::OpenSelected, key(KeyCode::Enter), None, "Enters a directory, or opens a file with what belongs to it")
    &&& describes(c[6], "panel.parent", Action::GoToParent, key(KeyCode::Backspace), None, "Leaves for the directory above, wherever the cursor is")
    &&& describes(c[7], "mark.toggle", Action::ToggleMark, key(KeyCode::Char(' ')), None, "Marks or unmarks the item under the cursor")
    &&& describes(c[8], "mark.up", Action::MarkAndMove { op: MarkOp::Mark, nav_dir: VerticalDir::Up }, shifted(KeyCode::Up), None, "Marks the item under the cursor and moves up")
    &&& describes(c[9], "mark.down", Action::MarkAndMove { op: MarkOp::Mark, nav_dir: VerticalDir::Down }, shifted(KeyCode::Down), None, "Marks the item under the cursor and moves down")
    &&& describes(c[10], "unmark.up", Action::MarkAndMove { op: MarkOp::Unmark, nav_dir: VerticalDir::Up }, alted(KeyCode::Up), None, "Unmarks the item under the cursor and moves up")
    &&& describes(c[11], "unmark.down", Action::MarkAndMove { op: MarkOp::Unmark, nav_dir: VerticalDir::Down }, alted(KeyCode::Down), None, "Unmarks the item under the cursor and moves down")
    &&& describes(c[12], "mark.all", Action::MarkAll, key(KeyCode::Char('a')), None, "Marks every item the panel is showing")
    &&& describes(c[13], "panel.clear", Action::Clear, key(KeyCode::Esc), None, "Drops the filter, or unmarks everything when there is no filter")
    &&& describes(c[14], "entry.rename", Action::Rename, key(KeyCode::F(2)), Some("Rename"), "Renames the item under the cursor")
    &&& describes(c[15], "entry.view", Action::Open(Opener::View), key(KeyCode::F(3)), Some("View"), "Opens the file under the cursor in $PAGER")
    &&& describes(c[16], "entry.edit", Action::Open(Opener::Edit), key(KeyCode::F(4)), Some("Edit"), "Opens the file under the cursor in $EDITOR")
    &&& describes(c[17], "transfer.copy", Action::Transfer { op: TransferOp::Copy }, key(KeyCode::F(5)), Some("Copy"), "Copies marked items into the other panel")
    &&& describes(c[18], "transfer.move", Action::Transfer { op: TransferOp::Move }, key(KeyCode::F(6)), Some("Move"), "Moves marked items into the other panel")
    &&& describes(c[19], "entry.create", Action::CreateEntry, key(KeyCode::F(7)), Some("New"), "Creates a file, or a folder if the name ends with /")
    &&& describes(c[20], "entry.delete", Action::Delete(DeleteMode::Trash), key(KeyCode::F(8)), Some("Delete"), "Moves marked items to the trash, asking first")
    &&& describes(c[21], "entry.delete-permanent", Action::Delete(DeleteMode::Permanent), shifted(KeyCode::F(8)), None, "Deletes marked items for good, without the trash, asking first")
    &&& describes(c[22], "job.cancel", Action::CancelJob, key(KeyCode::F(9)), None, "Stops the running operation")
    &&& describes(c[23], "view.quick", Action::TogglePreview, key(KeyCode::Char('v')), None, "Shows what is under the cursor in the other panel")
    &&& describes(c[24], "view.columns", Action::CycleColumns, key(KeyCode::Char('c')), None, "Drops a column from the listing, and brings them all back")
    &&& describes(c[25], "view.dotfiles", Action::ToggleDotFiles, key(KeyCode::Char('.')), None, "Shows or hides the entries whose names begin with a dot")
    &&& describes(c[26], "panel.find", Action::Find, key(KeyCode::Char('/')), None, "Searches the tree below this panel for a name")
    &&& describes(c[27], "panel.filter", Action::Filter, key(KeyCode::Char('f')), None, "Narrows this listing to the names holding what you type")
    &&& describes(c[28], "tab.new", Action::NewTab, key(KeyCode::Char('t')), None, "Opens a new tab in the focused panel")
    &&& describes(c[29], "tab.close", Action::CloseTab, key(KeyCode::Char('w')), None, "Closes the active tab, unless it is the only one")
    &&& describes(c[30], "tab.rename", Action::RenameTab, key(KeyCode::Char('r')), None, "Renames the active tab")
    &&& describes(c[31], "tab.previous", Action::ToggleTab(ToggleDirection::Previous), key(KeyCode::Char('[')), None, "Switches to the previous tab, wrapping to the last one")
    &&& describes(c[32], "tab.next", Action::ToggleTab(ToggleDirection::Next), key(KeyCode::Char(']')), None, "Switches to the next tab, wrapping to the first one")
    &&& describes(c[33], "app.quit", Action::Quit, key(KeyCode::Char('q')), Some("Quit"), "Leaves Mula")
}

/// Every action a key can reach in Browse, with the keys that reach it when
/// no config says otherwise. `table` walks this in order, so it is also the
/// order `resolve` matches in and the order the help overlay lists.
pub fn browse_actions() -> (catalogue: Vec<Entry>)
    ensures
        default_catalogue(catalogue@),
{
    let c = vec![
        Entry {
            name: "cursor.up",
            action: Action::MoveCursor(VerticalDir::Up),
            keys: vec![KeyBinding::plain(KeyCode::Up)],
            bar: None,
            help: "Moves the cursor one item up",
        },
        Entry {
            name: "cursor.down",
            action: Action::MoveCursor(VerticalDir::Down),
            keys: vec![KeyBinding::plain(KeyCode::Down)],
            bar: None,
            help: "Moves the cursor one item down",
        },
        Entry {
            name: "cursor.first",
            action: Action::MoveCursorTo(ListEnd::First),
            keys: vec![KeyBinding::plain(KeyCode::Char('g'))],
            bar: None,
            help: "Moves the cursor to the first item",
        },
        Entry {
            name: "cursor.last",
            action: Action::MoveCursorTo(ListEnd::Last),
            keys: vec![KeyBinding::plain(KeyCode::Char('G')).shift()],
            bar: None,
            help: "Moves the cursor to the last item",
        },
        Entry {
            name: "panel.toggle",
            action: Action::ToggleSide,
            keys: vec![KeyBinding::plain(KeyCode::Tab)],
            bar: None,
            help: "Focuses the other panel",
        },
        Entry {
            name: "entry.open",
            action: Action::OpenSelected,
            keys: vec![KeyBinding::plain(KeyCode::Enter)],
            bar: None,
            help: "Enters a directory, or opens a file with what belongs to it",
        },
        Entry {
            name: "panel.parent",
            action: Action::GoToParent,
            keys: vec![KeyBinding::plain(KeyCode::Backspace)],
            bar: None,
            help: "Leaves for the directory above, wherever the cursor is",
        },
        Entry {
            name: "mark.toggle",
            action: Action::ToggleMark,
            keys: vec![KeyBinding::plain(KeyCode::Char(' '))],
            bar: None,
            help: "Marks or unmarks the item under the cursor",
        },
        Entry {
            name: "mark.up",
            action: Action::MarkAndMove { op: MarkOp::Mark, nav_dir: VerticalDir::Up },
            keys: vec![KeyBinding::plain(KeyCode::Up).shift()],
            bar: None,
            help: "Marks the item under the cursor and moves up",
        },
        Entry {
            name: "mark.down",
            action: Action::MarkAndMove { op: MarkOp::Mark, nav_dir: VerticalDir::Down },
            keys: vec![KeyBinding::plain(KeyCode::Down).shift()],
            bar: None,
            help: "Marks the item under the cursor and moves down",
        },
        Entry {
            name: "unmark.up",
            action: Action::MarkAndMove { op: MarkOp::Unmark, nav_dir: VerticalDir::Up },
            keys: vec![KeyBinding::plain(KeyCode::Up).alt()],
            bar: None,
            help: "Unmarks the item under the cursor and moves up",
        },
        Entry {
            name: "unmark.down",
            action: Action::MarkAndMove { op: MarkOp::Unmark, nav_dir: VerticalDir::Down },
            keys: vec![KeyBinding::plain(KeyCode::Down).alt()],
            bar: None,
            help: "Unmarks the item under the cursor and moves down",
        },
        Entry {
            name: "mark.all",
            action: Action::MarkAll,
            keys: vec![KeyBinding::plain(KeyCode::Char('a'))],
            bar: None,
            help: "Marks every item the panel is showing",
        },
        Entry {
            name: "panel.clear",
            action: Action::Clear,
            keys: vec![KeyBinding::plain(KeyCode::Esc)],
            bar: None,
            help: "Drops the filter, or unmarks everything when there is no filter",
        },
        Entry {
            name: "entry.rename",
            action: Action::Rename,
            keys: vec![KeyBinding::plain(KeyCode::F(2))],
            bar: Some("Rename"),
            help: "Renames the item under the cursor",
        },
        Entry {
            name: "entry.view",
            action: Action::Open(Opener::View),
            keys: vec![KeyBinding::plain(KeyCode::F(3))],
            bar: Some("View"),
            help: "Opens the file under the cursor in $PAGER",
        },
        Entry {
            name: "entry.edit",
            action: Action::Open(Opener::Edit),
            keys: vec![KeyBinding::plain(KeyCode::F(4))],
            bar: Some("Edit"),
            help: "Opens the file under the cursor in $EDITOR",
        },
        Entry {
            name: "transfer.copy",
            action: Action::Transfer { op: TransferOp::Copy },
            keys: vec![KeyBinding::plain(KeyCode::F(5))],
            bar: Some("Copy"),
            help: "Copies marked items into the other panel",
        },
        Entry {
            name: "transfer.move",
            action: Action::Transfer { op: TransferOp::Move },
            keys: vec![KeyBinding::plain(KeyCode::F(6))],
            bar: Some("Move"),
            help: "Moves marked items into the other panel",
        },
        Entry {
            name: "entry.create",
            action: Action::CreateEntry,
            keys: vec![KeyBinding::plain(KeyCode::F(7))],
            bar: Some("New"),
            help: "Creates a file, or a folder if the name ends with /",
        },
        Entry {
            name: "entry.delete",
            action: Action::Delete(DeleteMode::Trash),
            keys: vec![KeyBinding::plain(KeyCode::F(8))],
            bar: Some("Delete"),
            help: "Moves marked items to the trash, asking first",
        },
        Entry {
            name: "entry.delete-permanent",
            action: Action::Delete(DeleteMode::Permanent),
            keys: vec![KeyBinding::plain(KeyCode::F(8)).shift()],
            bar: None,
            help: "Deletes marked items for good, without the trash, asking first",
        },
        Entry {
            name: "job.cancel",
            action: Action::CancelJob,
            keys: vec![KeyBinding::plain(KeyCode::F(9))],
            bar: None,
            help: "Stops the running operation",
        },
        Entry {
            name: "view.quick",
            action: Action::TogglePreview,
            keys: vec![KeyBinding::plain(KeyCode::Char('v'))],
            bar: None,
            help: "Shows what is under the cursor in the other panel",
        },
        Entry {
            name: "view.columns",
            action: Action::CycleColumns,
            keys: vec![KeyBinding::plain(KeyCode::Char('c'))],
            bar: None,
            help: "Drops a column from the listing, and brings them all back",
        },
        Entry {
            name: "view.dotfiles",
            action: Action::ToggleDotFiles,
            keys: vec![KeyBinding::plain(KeyCode::Char('.'))],
            bar: None,
            help: "Shows or hides the entries whose names begin with a dot",
        },
        Entry {
            name: "panel.find",
            action: Action::Find,
            keys: vec![KeyBinding::plain(KeyCode::Char('/'))],
            bar: None,
            help: "Searches the tree below this panel for a name",
        },
        Entry {
            name: "panel.filter",
            action: Action::Filter,
            keys: vec![KeyBinding::plain(KeyCode::Char('f'))],
            bar: None,
            help: "Narrows this listing to the names holding what you type",
        },
        Entry {
            name: "tab.new",
            action: Action::NewTab,
            keys: vec![KeyBinding::plain(KeyCode::Char('t'))],
            bar: None,
            help: "Opens a new tab in the focused panel",
        },
        Entry {
            name: "tab.close",
            action: Action::CloseTab,
            keys: vec![KeyBinding::plain(KeyCode::Char('w'))],
            bar: None,
            help: "Closes the active tab, unless it is the only one",
        },
        Entry {
            name: "tab.rename",
            action: Action::RenameTab,
            keys: vec![KeyBinding::plain(KeyCode::Char('r'))],
            bar: None,
            help: "Renames the active tab",
        },
        Entry {
            name: "tab.previous",
            action: Action::ToggleTab(ToggleDirection::Previous),
            keys: vec![KeyBinding::plain(KeyCode::Char('['))],
            bar: None,
            help: "Switches to the previous tab, wrapping to the last one",
        },
        Entry {
            name: "tab.next",
            action: Action::ToggleTab(ToggleDirection::Next),
            keys: vec![KeyBinding::plain(KeyCode::Char(']'))],
            bar: None,
            help: "Switches to the next tab, wrapping to the first one",
        },
        Entry {
            name: "app.quit",
            action: Action::Quit,
            keys: vec![KeyBinding::plain(KeyCode::Char('q'))],
            bar: Some("Quit"),
            help: "Leaves Mula",
        },
    ];
    proof {
        assert forall|i: int| 0 <= i < c@.len() implies #[trigger] c@[i].keys@ =~= seq![c@[i].keys@[0]] by {}
    }
    c
}

/// `s` without the whitespace it starts with.
pub open spec fn trim_start(s: Seq<char>) -> Seq<char>
    decreases s.len(),
{
    if s.len() > 0 && is_white_space(s[0]) {
        trim_start(s.drop_first())
    } else {
        s
    }
}

/// `s` without the whitespace it ends with.
pub open spec fn trim_end(s: Seq<char>) -> Seq<char>
    decreases s.len(),
{
    if s.len() > 0 && is_white_space(s.last()) {
        trim_end(s.drop_last())
    } else {
        s
    }
}

/// `s` without whitespace at either end, as `str::trim` leaves it.
pub open spec fn trim_spec(s: Seq<char>) -> Seq<char> {
    trim_end(trim_start(s))
}

/// `s` without whitespace at either end.
pub fn trim(s: &Vec<char>) -> (t: Vec<char>)
    ensures
        t@ == trim_spec(s@),
{
    let mut start: usize = 0;
    assert(s@.skip(0) =~= s@);
    while start < s.len() && white_space(s[start])
        invariant
            start <= s@.len(),
            trim_start(s@) == trim_start(s@.skip(start as int)),
        decreases s.len() - start,
    {
        assert(s@.skip(start as int).drop_first() =~= s@.skip(start + 1));
        start += 1;
    }
    let mut end: usize = s.len();
    let ghost front = s@.skip(start as int);
    assert(front.take(front.len() as int) =~= front);
    while end > start && white_space(s[end - 1])
        invariant
            start <= end <= s@.len(),
            front == s@.skip(start as int),
            trim_end(front) == trim_end(front.take(end - start)),
        decreases end,
    {
        assert(front.take(end - start).drop_last() =~= front.take(end - start - 1));
        end -= 1;
    }
    let mut t: Vec<char> = Vec::new();
    let mut i = start;
    while i < end
        invariant
            start <= i <= end,
            end <= s@.len(),
            t@ == s@.subrange(start as int, i as int),
        decreases end - i,
    {
        t.push(s[i]);
        i += 1;
    }
    proof {
        assert(front.take(end - start) =~= s@.subrange(start as int, end as int));
        if start < s@.len() {
            assert(!is_white_space(front[0]));
        }
        if end > start {
            assert(!is_white_space(front.take(end - start).last()));
        }
    }
    t
}

/// Where `c` first stands in `s`.
pub open spec fn first_index(s: Seq<char>, c: char) -> Option<nat>
    decreases s.len(),
{
    if s.len() == 0 {
        None
    } else if s[0] == c {
        Some(0)
    } else {
        match first_index(s.drop_first(), c) {
            Some(i) => Some(i + 1),
            None => None,
        }
    }
}

proof fn lemma_first_index(s: Seq<char>, c: char)
    ensures
        first_index(s, c) matches Some(i) ==> i < s.len() && s[i as int] == c,
    decreases s.len(),
{
    if s.len() > 0 && s[0] != c {
        lemma_first_index(s.drop_first(), c);
    }
}

fn find_char(s: &Vec<char>, c: char) -> (at: Option<usize>)
    ensures
        match at {
            Some(i) => first_index(s@, c) == Some(i as nat),
            None => first_index(s@, c) is None,
        },
{
    let mut i: usize = 0;
    assert(s@.skip(0) =~= s@);
    while i < s.len()
        invariant
            i <= s@.len(),
            first_index(s@, c) == match first_index(s@.skip(i as int), c) {
                Some(k) => Some((k + i) as nat),
                None => None,
            },
        decreases s.len() - i,
    {
        assert(s@.skip(i as int).drop_first() =~= s@.skip(i + 1));
        if s[i] == c {
            return Some(i);
        }
        i += 1;
    }
    None
}

/// A modifier a key name can start with.
#[derive(Clone, Copy, Debug, PartialEq, Eq)]
pub enum Modifier {
    Ctrl,
    Alt,
    Shift,
}

/// The modifier `head` names, ignoring ASCII case: `ctrl` or `control`,
/// `alt`, `opt` or `option`, and `shift`.
pub open spec fn modifier_of(head: Seq<char>) -> Option<Modifier> {
    if same_ignoring_ascii_case(head, "ctrl"@) || same_ignoring_ascii_case(head, "control"@) {
        Some(Modifier::Ctrl)
    } else if same_ignoring_ascii_case(head, "alt"@) || same_ignoring_ascii_case(head, "opt"@)
        || same_ignoring_ascii_case(head, "option"@) {
        Some(Modifier::Alt)
    } else if same_ignoring_ascii_case(head, "shift"@) {
        Some(Modifier::Shift)
    } else {
        None
    }
}

pub open spec fn with_modifier(mods: KeyModifiers, m: Modifier) -> KeyModifiers {
    match m {
        Modifier::Ctrl => KeyModifiers { ctrl: true, ..mods },
        Modifier::Alt => KeyModifiers { alt: true, ..mods },
        Modifier::Shift => KeyModifiers { shift: true, ..mods },
    }
}

/// The modifiers `s` starts with and what is left after them. Only what comes
/// before a `+` can be a modifier, so `Ctrl++` is Ctrl and the plus sign.
pub open spec fn strip_mods(s: Seq<char>, mods: KeyModifiers) -> (KeyModifiers, Seq<char>)
    decreases s.len(),
{
    match first_index(s, '+') {
        None => (mods, s),
        Some(i) => if i < s.len() {
            match modifier_of(trim_spec(s.take(i as int))) {
                None => (mods, s),
                Some(m) => strip_mods(s.skip((i + 1) as int), with_modifier(mods, m)),
            }
        } else {
            (mods, s)
        },
    }
}

/// What `str::parse::<u8>` makes of `digits`: an optional `+`, then at least
/// one decimal digit and nothing else, to a value a `u8` holds.
pub open spec fn small_number(s: Seq<char>) -> Option<u8> {
    if s.len() > 0 && s[0] == '+' {
        digits_u8(s.drop_first())
    } else {
        digits_u8(s)
    }
}

/// What the decimal digits `digits` are worth, where they are at least one
/// digit, nothing else, and a value a `u8` holds.
pub open spec fn digits_u8(digits: Seq<char>) -> Option<u8> {
    if digits.len() > 0 && (forall|i: int| 0 <= i < digits.len() ==> '0' <= #[trigger] digits[i] <= '9')
        && digit_value(digits) <= 255 {
        Some(digit_value(digits) as u8)
    } else {
        None
    }
}

pub open spec fn digit_value(d: Seq<char>) -> nat
    decreases d.len(),
{
    if d.len() == 0 {
        0
    } else {
        digit_value(d.drop_last()) * 10 + ((d.last() as u32) - 0x30) as nat
    }
}

/// The characters of `name` that are not whitespace, each as `char::to_lowercase`
/// has it.
pub open spec fn flattened(name: Seq<char>) -> Seq<char>
    decreases name.len(),
{
    if name.len() == 0 {
        Seq::empty()
    } else {
        flattened(name.drop_last()) + if is_white_space(name.last()) {
            Seq::empty()
        } else {
            lowercase_of(name.last())
        }
    }
}

/// The key a flattened name spells out.
pub open spec fn named_code(flat: Seq<char>) -> Option<KeyCode> {
    if flat == "backspace"@ {
        Some(KeyCode::Backspace)
    } else if flat == "delete"@ || flat == "del"@ || flat == "fwddel"@ {
        Some(KeyCode::Delete)
    } else if flat == "enter"@ || flat == "return"@ {
        Some(KeyCode::Enter)
    } else if flat == "space"@ {
        Some(KeyCode::Char(' '))
    } else if flat == "left"@ {
        Some(KeyCode::Left)
    } else if flat == "right"@ {
        Some(KeyCode::Right)
    } else if flat == "up"@ {
        Some(KeyCode::Up)
    } else if flat == "down"@ {
        Some(KeyCode::Down)
    } else if flat == "home"@ {
        Some(KeyCode::Home)
    } else if flat == "end"@ {
        Some(KeyCode::End)
    } else if flat == "pageup"@ {
        Some(KeyCode::PageUp)
    } else if flat == "pagedown"@ {
        Some(KeyCode::PageDown)
    } else if flat == "tab"@ {
        Some(KeyCode::Tab)
    } else if flat == "backtab"@ {
        Some(KeyCode::BackTab)
    } else if flat == "insert"@ {
        Some(KeyCode::Insert)
    } else if flat == "esc"@ || flat == "escape"@ {
        Some(KeyCode::Esc)
    } else {
        None
    }
}

/// The key `name` names: a single character is itself, and otherwise case and
/// inner spaces are ignored, so `Page Up`, `PageUp` and `pageup` are one key.
pub open spec fn code_of_name(name: Seq<char>) -> Option<KeyCode> {
    if name.len() == 1 {
        Some(KeyCode::Char(name[0]))
    } else {
        let flat = flattened(name);
        if flat.len() > 0 && flat[0] == 'f' && small_number(flat.drop_first()) is Some {
            Some(KeyCode::F(small_number(flat.drop_first()).unwrap()))
        } else {
            named_code(flat)
        }
    }
}

/// Whether `c` is an upper-case letter, as `char::is_uppercase` says by the
/// Unicode tables the standard library carries.
pub uninterp spec fn is_upper(c: char) -> bool;

/// `char::is_uppercase`. Claims only that the answer is the one `is_upper`
/// names for `c`.
#[verifier::external_body]
fn upper(c: char) -> (u: bool)
    ensures
        u == is_upper(c),
{
    c.is_uppercase()
}

/// What a key name reads as: the modifiers it starts with, then the key. A
/// capital letter carries Shift whether or not the name says so, since the
/// terminal reports a capital typed with Shift held.
pub open spec fn parse_spec(s: Seq<char>) -> Result<KeyBinding, Seq<char>> {
    let (mods, rest) = strip_mods(trim_spec(s), no_mods());
    match code_of_name(trim_spec(rest)) {
        None => Err(trim_spec(s)),
        Some(code) => Ok(KeyBinding {
            code,
            mods: match code {
                KeyCode::Char(c) => if is_upper(c) { KeyModifiers { shift: true, ..mods } } else { mods },
                _ => mods,
            },
        }),
    }
}

fn modifier_named(head: &Vec<char>) -> (m: Option<Modifier>)
    ensures
        m == modifier_of(head@),
{
    if eq_ignore_ascii_case(head, &chars_of("ctrl")) || eq_ignore_ascii_case(head, &chars_of("control")) {
        Some(Modifier::Ctrl)
    } else if eq_ignore_ascii_case(head, &chars_of("alt")) || eq_ignore_ascii_case(head, &chars_of("opt"))
        || eq_ignore_ascii_case(head, &chars_of("option")) {
        Some(Modifier::Alt)
    } else if eq_ignore_ascii_case(head, &chars_of("shift")) {
        Some(Modifier::Shift)
    } else {
        None
    }
}

fn digits_u8_of(d: &Vec<char>) -> (n: Option<u8>)
    ensures
        n == digits_u8(d@),
{
    if d.len() == 0 {
        return None;
    }
    let mut value: u32 = 0;
    let mut i: usize = 0;
    while i < d.len()
        invariant
            i <= d@.len(),
            d@.len() > 0,
            forall|k: int| 0 <= k < i ==> '0' <= #[trigger] d@[k] <= '9',
            value == digit_value(d@.take(i as int)),
            value <= 255,
        decreases d.len() - i,
    {
        let c = d[i];
        if !('0' <= c && c <= '9') {
            assert(!('0' <= d@[i as int] <= '9'));
            return None;
        }
        assert(d@.take(i + 1).drop_last() =~= d@.take(i as int));
        let next = value * 10 + ((c as u32) - 0x30);
        if next > 255 {
            proof {
                if forall|k: int| 0 <= k < d@.len() ==> '0' <= #[trigger] d@[k] <= '9' {
                    lemma_digit_value_grows(d@, (i + 1) as nat);
                }
            }
            return None;
        }
        value = next;
        i += 1;
    }
    assert(d@.take(d@.len() as int) =~= d@);
    Some(value as u8)
}

fn small_number_of(s: &Vec<char>) -> (n: Option<u8>)
    ensures
        n == small_number(s@),
{
    if s.len() > 0 && s[0] == '+' {
        let mut rest: Vec<char> = Vec::new();
        let mut i: usize = 1;
        while i < s.len()
            invariant
                1 <= i <= s@.len(),
                rest@ == s@.subrange(1, i as int),
            decreases s.len() - i,
        {
            rest.push(s[i]);
            i += 1;
        }
        assert(rest@ =~= s@.drop_first());
        digits_u8_of(&rest)
    } else {
        digits_u8_of(s)
    }
}

proof fn lemma_digit_value_grows(d: Seq<char>, n: nat)
    requires
        n <= d.len(),
        forall|i: int| 0 <= i < d.len() ==> '0' <= #[trigger] d[i] <= '9',
    ensures
        digit_value(d.take(n as int)) <= digit_value(d),
    decreases d.len(),
{
    if n < d.len() {
        assert(d.drop_last().take(n as int) =~= d.take(n as int));
        lemma_digit_value_grows(d.drop_last(), n);
    } else {
        assert(d.take(n as int) =~= d);
    }
}

fn named(flat: &String) -> (code: Option<KeyCode>)
    ensures
        code == named_code(flat@),
{
    let f = flat.as_str();
    if same_text(f, "backspace") {
        Some(KeyCode::Backspace)
    } else if same_text(f, "delete") || same_text(f, "del") || same_text(f, "fwddel") {
        Some(KeyCode::Delete)
    } else if same_text(f, "enter") || same_text(f, "return") {
        Some(KeyCode::Enter)
    } else if same_text(f, "space") {
        Some(KeyCode::Char(' '))
    } else if same_text(f, "left") {
        Some(KeyCode::Left)
    } else if same_text(f, "right") {
        Some(KeyCode::Right)
    } else if same_text(f, "up") {
        Some(KeyCode::Up)
    } else if same_text(f, "down") {
        Some(KeyCode::Down)
    } else if same_text(f, "home") {
        Some(KeyCode::Home)
    } else if same_text(f, "end") {
        Some(KeyCode::End)
    } else if same_text(f, "pageup") {
        Some(KeyCode::PageUp)
    } else if same_text(f, "pagedown") {
        Some(KeyCode::PageDown)
    } else if same_text(f, "tab") {
        Some(KeyCode::Tab)
    } else if same_text(f, "backtab") {
        Some(KeyCode::BackTab)
    } else if same_text(f, "insert") {
        Some(KeyCode::Insert)
    } else if same_text(f, "esc") || same_text(f, "escape") {
        Some(KeyCode::Esc)
    } else {
        None
    }
}

/// Reads a key name the way `KeyBinding::name` writes one: case and inner
/// spaces are ignored, so `Page Up`, `PageUp` and `pageup` are one key.
pub fn parse_code(name: &Vec<char>) -> (code: Option<KeyCode>)
    ensures
        code == code_of_name(name@),
{
    if name.len() == 1 {
        return Some(KeyCode::Char(name[0]));
    }
    let mut flat: Vec<char> = Vec::new();
    let mut i: usize = 0;
    while i < name.len()
        invariant
            i <= name@.len(),
            flat@ == flattened(name@.take(i as int)),
        decreases name.len() - i,
    {
        assert(name@.take(i + 1).drop_last() =~= name@.take(i as int));
        let c = name[i];
        if !white_space(c) {
            let mut lower = lowercase(c);
            flat.append(&mut lower);
        } else {
            assert(flat@ =~= flat@ + Seq::<char>::empty());
        }
        i += 1;
    }
    assert(name@.take(name@.len() as int) =~= name@);
    if flat.len() > 0 && flat[0] == 'f' {
        let mut number: Vec<char> = Vec::new();
        let mut k: usize = 1;
        while k < flat.len()
            invariant
                1 <= k <= flat@.len(),
                number@ == flat@.subrange(1, k as int),
            decreases flat.len() - k,
        {
            number.push(flat[k]);
            k += 1;
        }
        assert(number@ =~= flat@.drop_first());
        if let Some(n) = small_number_of(&number) {
            return Some(KeyCode::F(n));
        }
    }
    named(&string_of(flat.as_slice()))
}

/// Reads `Ctrl+Alt+Shift+<key>`, the shape `KeyBinding::name` writes. A name
/// that is no key comes back as an error naming what was read.
pub fn parse_binding(s: &str) -> (k: Result<KeyBinding, BindingError>)
    ensures
        match parse_spec(s@) {
            Ok(b) => k == Ok::<KeyBinding, BindingError>(b),
            Err(name) => k matches Err(BindingError::UnknownKey { name: n }) && n@ == name,
        },
{
    let whole = trim(&chars_of(s));
    let mut mods = KeyModifiers { ctrl: false, alt: false, shift: false };
    let mut rest: Vec<char> = whole.clone();
    assert(rest@ == whole@);
    let ghost goal = strip_mods(trim_spec(s@), no_mods());
    loop
        invariant
            strip_mods(rest@, mods) == goal,
            whole@ == trim_spec(s@),
        ensures
            goal == (mods, rest@),
            whole@ == trim_spec(s@),
        decreases rest@.len(),
    {
        let plus = match find_char(&rest, '+') {
            None => {
                break;
            },
            Some(i) => i,
        };
        proof {
            lemma_first_index(rest@, '+');
        }
        let mut head: Vec<char> = Vec::new();
        let mut j: usize = 0;
        while j < plus
            invariant
                j <= plus,
                plus < rest@.len(),
                head@ == rest@.take(j as int),
            decreases plus - j,
        {
            head.push(rest[j]);
            assert(rest@.take(j + 1) =~= rest@.take(j as int).push(rest@[j as int]));
            j += 1;
        }
        let m = match modifier_named(&trim(&head)) {
            None => {
                break;
            },
            Some(m) => m,
        };
        match m {
            Modifier::Ctrl => {
                mods.ctrl = true;
            },
            Modifier::Alt => {
                mods.alt = true;
            },
            Modifier::Shift => {
                mods.shift = true;
            },
        }
        let mut tail: Vec<char> = Vec::new();
        let mut k = plus + 1;
        while k < rest.len()
            invariant
                plus < k <= rest@.len(),
                tail@ == rest@.subrange(plus + 1, k as int),
            decreases rest.len() - k,
        {
            tail.push(rest[k]);
            k += 1;
        }
        assert(tail@ =~= rest@.skip(plus + 1));
        rest = tail;
    }
    let code = match parse_code(&trim(&rest)) {
        None => {
            return Err(BindingError::UnknownKey { name: string_of(whole.as_slice()) });
        },
        Some(code) => code,
    };
    if let KeyCode::Char(c) = code {
        if upper(c) {
            mods.shift = true;
        }
    }
    Ok(KeyBinding { code, mods })
}

/// `name` with its spaces dropped and its ASCII capitals made small, which
/// is what reading a key name does to a name written in ASCII.
pub open spec fn ascii_flat(name: Seq<char>) -> Seq<char>
    decreases name.len(),
{
    if name.len() == 0 {
        Seq::empty()
    } else {
        ascii_flat(name.drop_last()) + if name.last() == ' ' {
            Seq::<char>::empty()
        } else {
            seq![ascii_lower(name.last()) as char]
        }
    }
}

/// The keys known by a name of their own rather than by a character or a
/// number: the ones `code_name` spells out in words.
pub open spec fn has_word_name(code: KeyCode) -> bool {
    match code {
        KeyCode::Backspace | KeyCode::Delete | KeyCode::Enter | KeyCode::Left | KeyCode::Right | KeyCode::Up
        | KeyCode::Down | KeyCode::Home | KeyCode::End | KeyCode::PageUp | KeyCode::PageDown | KeyCode::Tab
        | KeyCode::BackTab | KeyCode::Insert | KeyCode::Esc => true,
        KeyCode::Char(c) => c == ' ',
        _ => false,
    }
}

/// The name a key is written under reads back as that key: for every key
/// with a name in words, the name `KeyBinding::name` writes for it, read the
/// way a key name is read (spaces dropped, capitals made small), is that key
/// and no other, so a binding written out and read back is where it was.
pub proof fn written_key_names_read_back(code: KeyCode)
    requires
        has_word_name(code),
    ensures
        named_code(ascii_flat(code_name(code))) == Some(code),
{
    reveal_strlit("Backspace");
    reveal_strlit("Delete");
    reveal_strlit("Enter");
    reveal_strlit("Left");
    reveal_strlit("Right");
    reveal_strlit("Up");
    reveal_strlit("Down");
    reveal_strlit("Home");
    reveal_strlit("End");
    reveal_strlit("Page Up");
    reveal_strlit("Page Down");
    reveal_strlit("Tab");
    reveal_strlit("Back Tab");
    reveal_strlit("Insert");
    reveal_strlit("Esc");
    reveal_strlit("Space");
    reveal_strlit("backspace");
    reveal_strlit("delete");
    reveal_strlit("del");
    reveal_strlit("fwddel");
    reveal_strlit("enter");
    reveal_strlit("return");
    reveal_strlit("space");
    reveal_strlit("left");
    reveal_strlit("right");
    reveal_strlit("up");
    reveal_strlit("down");
    reveal_strlit("home");
    reveal_strlit("end");
    reveal_strlit("pageup");
    reveal_strlit("pagedown");
    reveal_strlit("tab");
    reveal_strlit("backtab");
    reveal_strlit("insert");
    reveal_strlit("esc");
    reveal_strlit("escape");
    reveal_with_fuel(ascii_flat, 12);
    match code {
        KeyCode::Backspace => {
            assert(ascii_flat("Backspace"@) =~= "backspace"@);
            assert(named_code("backspace"@) == Some(KeyCode::Backspace));
        },
        KeyCode::Delete => {
            assert(ascii_flat("Delete"@) =~= "delete"@);
            assert(named_code("delete"@) == Some(KeyCode::Delete));
        },
        KeyCode::Enter => {
            assert(ascii_flat("Enter"@) =~= "enter"@);
            assert(named_code("enter"@) == Some(KeyCode::Enter));
        },
        KeyCode::Left => {
            assert(ascii_flat("Left"@) =~= "left"@);
            assert(named_code("left"@) == Some(KeyCode::Left));
        },
        KeyCode::Right => {
            assert(ascii_flat("Right"@) =~= "right"@);
            assert("right"@[0] != "enter"@[0] && "right"@[0] != "space"@[0]);
            assert(named_code("right"@) == Some(KeyCode::Right));
        },
        KeyCode::Up => {
            assert(ascii_flat("Up"@) =~= "up"@);
            assert(named_code("up"@) == Some(KeyCode::Up));
        },
        KeyCode::Down => {
            assert(ascii_flat("Down"@) =~= "down"@);
            assert("down"@[0] != "left"@[0]);
            assert(named_code("down"@) == Some(KeyCode::Down));
        },
        KeyCode::Home => {
            assert(ascii_flat("Home"@) =~= "home"@);
            assert("home"@[0] != "left"@[0] && "home"@[0] != "down"@[0]);
            assert(named_code("home"@) == Some(KeyCode::Home));
        },
        KeyCode::End => {
            assert(ascii_flat("End"@) =~= "end"@);
            assert("end"@[0] != "del"@[0]);
            assert(named_code("end"@) == Some(KeyCode::End));
        },
        KeyCode::PageUp => {
            assert(ascii_flat("Page Up"@) =~= "pageup"@);
            assert("pageup"@[0] != "delete"@[0] && "pageup"@[0] != "fwddel"@[0] && "pageup"@[0] != "return"@[0]);
            assert(named_code("pageup"@) == Some(KeyCode::PageUp));
        },
        KeyCode::PageDown => {
            assert(ascii_flat("Page Down"@) =~= "pagedown"@);
            assert(named_code("pagedown"@) == Some(KeyCode::PageDown));
        },
        KeyCode::Tab => {
            assert(ascii_flat("Tab"@) =~= "tab"@);
            assert("tab"@[0] != "del"@[0] && "tab"@[0] != "end"@[0]);
            assert(named_code("tab"@) == Some(KeyCode::Tab));
        },
        KeyCode::BackTab => {
            assert(ascii_flat("Back Tab"@) =~= "backtab"@);
            assert(named_code("backtab"@) == Some(KeyCode::BackTab));
        },
        KeyCode::Insert => {
            assert(ascii_flat("Insert"@) =~= "insert"@);
            assert("insert"@[0] != "delete"@[0] && "insert"@[0] != "fwddel"@[0] && "insert"@[0] != "return"@[0] && "insert"@[0] != "pageup"@[0]);
            assert(named_code("insert"@) == Some(KeyCode::Insert));
        },
        KeyCode::Esc => {
            assert(ascii_flat("Esc"@) =~= "esc"@);
            assert("esc"@[0] != "del"@[0] && "esc"@[1] != "end"@[1] && "esc"@[0] != "tab"@[0]);
            assert(named_code("esc"@) == Some(KeyCode::Esc));
        },
        _ => {
            assert(ascii_flat("Space"@) =~= "space"@);
            assert("space"@[0] != "enter"@[0]);
            assert(named_code("space"@) == Some(KeyCode::Char(' ')));
        },
    }
}

/// A name of one character is that character's key, whatever the character,
/// with Shift added exactly for a capital.
pub proof fn a_one_character_name_is_that_character(c: char)
    requires
        !is_white_space(c),
        c != '+',
    ensures
        parse_spec(seq![c]) == Ok::<KeyBinding, Seq<char>>(KeyBinding {
            code: KeyCode::Char(c),
            mods: KeyModifiers { ctrl: false, alt: false, shift: is_upper(c) },
        }),
{
    let s = seq![c];
    assert(trim_start(s.drop_first()) =~= Seq::<char>::empty());
    assert(trim_start(s) == s);
    assert(trim_end(s) == s);
    assert(trim_spec(s) == s);
    reveal_with_fuel(first_index, 2);
    assert(s.drop_first() =~= Seq::<char>::empty());
    assert(first_index(s, '+') is None);
}

proof fn lemma_first_index_absent(s: Seq<char>, c: char)
    requires
        forall|i: int| 0 <= i < s.len() ==> #[trigger] s[i] != c,
    ensures
        first_index(s, c) is None,
    decreases s.len(),
{
    if s.len() > 0 {
        assert forall|i: int| 0 <= i < s.drop_first().len() implies #[trigger] s.drop_first()[i] != c by {
            assert(s.drop_first()[i] == s[i + 1]);
        }
        lemma_first_index_absent(s.drop_first(), c);
    }
}

proof fn lemma_first_index_concat(a: Seq<char>, b: Seq<char>, c: char)
    requires
        first_index(a, c) is None,
    ensures
        first_index(a + b, c) == match first_index(b, c) {
            Some(j) => Some(j + a.len()),
            None => None::<nat>,
        },
    decreases a.len(),
{
    if a.len() == 0 {
        assert(a + b =~= b);
    } else {
        assert((a + b).drop_first() =~= a.drop_first() + b);
        assert((a + b)[0] == a[0]);
        lemma_first_index_concat(a.drop_first(), b, c);
    }
}

proof fn lemma_decimal_digits(n: nat)
    ensures
        forall|i: int| 0 <= i < decimal_of(n).len() ==> '0' <= #[trigger] decimal_of(n)[i] <= '9',
    decreases n,
{
    if n >= 10 {
        lemma_decimal_digits(n / 10);
        assert forall|i: int| 0 <= i < decimal_of(n).len() implies '0' <= #[trigger] decimal_of(n)[i] <= '9' by {
            if i < decimal_of(n / 10).len() {
                assert(decimal_of(n)[i] == decimal_of(n / 10)[i]);
            }
        }
    }
}

/// A name that starts with a modifier word and a plus sign reads that
/// modifier and goes on with what follows.
proof fn lemma_strip_word(word: Seq<char>, m: Modifier, rest: Seq<char>, mods: KeyModifiers)
    requires
        modifier_of(word) == Some(m),
        first_index(word, '+') is None,
        trim_spec(word) == word,
    ensures
        strip_mods(word + seq!['+'] + rest, mods) == strip_mods(rest, with_modifier(mods, m)),
{
    let s = word + seq!['+'] + rest;
    assert(s =~= word + (seq!['+'] + rest));
    lemma_first_index_concat(word, seq!['+'] + rest, '+');
    assert((seq!['+'] + rest)[0] == '+');
    assert(first_index(seq!['+'] + rest, '+') == Some(0nat));
    assert(s.take(word.len() as int) =~= word);
    assert(s.skip(word.len() + 1int) =~= rest);
}

/// No name a key is written under starts with a modifier: reading the
/// modifiers off it leaves it whole.
proof fn lemma_code_name_is_no_modifier(code: KeyCode, mods: KeyModifiers)
    ensures
        strip_mods(code_name(code), mods) == (mods, code_name(code)),
{
    match code {
        KeyCode::Backspace => {
            reveal_strlit("Backspace");
            lemma_first_index_absent("Backspace"@, '+');
        },
        KeyCode::Delete => {
            reveal_strlit("Delete");
            lemma_first_index_absent("Delete"@, '+');
        },
        KeyCode::Enter => {
            reveal_strlit("Enter");
            lemma_first_index_absent("Enter"@, '+');
        },
        KeyCode::Left => {
            reveal_strlit("Left");
            lemma_first_index_absent("Left"@, '+');
        },
        KeyCode::Right => {
            reveal_strlit("Right");
            lemma_first_index_absent("Right"@, '+');
        },
        KeyCode::Up => {
            reveal_strlit("Up");
            lemma_first_index_absent("Up"@, '+');
        },
        KeyCode::Down => {
            reveal_strlit("Down");
            lemma_first_index_absent("Down"@, '+');
        },
        KeyCode::Home => {
            reveal_strlit("Home");
            lemma_first_index_absent("Home"@, '+');
        },
        KeyCode::End => {
            reveal_strlit("End");
            lemma_first_index_absent("End"@, '+');
        },
        KeyCode::PageUp => {
            reveal_strlit("Page Up");
            lemma_first_index_absent("Page Up"@, '+');
        },
        KeyCode::PageDown => {
            reveal_strlit("Page Down");
            lemma_first_index_absent("Page Down"@, '+');
        },
        KeyCode::Tab => {
            reveal_strlit("Tab");
            lemma_first_index_absent("Tab"@, '+');
        },
        KeyCode::BackTab => {
            reveal_strlit("Back Tab");
            lemma_first_index_absent("Back Tab"@, '+');
        },
        KeyCode::Insert => {
            reveal_strlit("Insert");
            lemma_first_index_absent("Insert"@, '+');
        },
        KeyCode::Null => {
            reveal_strlit("Null");
            lemma_first_index_absent("Null"@, '+');
        },
        KeyCode::Esc => {
            reveal_strlit("Esc");
            lemma_first_index_absent("Esc"@, '+');
        },
        KeyCode::CapsLock => {
            reveal_strlit("Caps Lock");
            lemma_first_index_absent("Caps Lock"@, '+');
        },
        KeyCode::ScrollLock => {
            reveal_strlit("Scroll Lock");
            lemma_first_index_absent("Scroll Lock"@, '+');
        },
        KeyCode::NumLock => {
            reveal_strlit("Num Lock");
            lemma_first_index_absent("Num Lock"@, '+');
        },
        KeyCode::PrintScreen => {
            reveal_strlit("Print Screen");
            lemma_first_index_absent("Print Screen"@, '+');
        },
        KeyCode::Pause => {
            reveal_strlit("Pause");
            lemma_first_index_absent("Pause"@, '+');
        },
        KeyCode::Menu => {
            reveal_strlit("Menu");
            lemma_first_index_absent("Menu"@, '+');
        },
        KeyCode::KeypadBegin => {
            reveal_strlit("Begin");
            lemma_first_index_absent("Begin"@, '+');
        },
        KeyCode::Other => {
            reveal_strlit("Other");
            lemma_first_index_absent("Other"@, '+');
        },
        KeyCode::F(n) => {
            reveal_strlit("F");
            lemma_decimal_digits(n as nat);
            let name = "F"@ + decimal_of(n as nat);
            assert forall|i: int| 0 <= i < name.len() implies #[trigger] name[i] != '+' by {
                if i > 0 {
                    assert(name[i] == decimal_of(n as nat)[i - 1]);
                }
            }
            lemma_first_index_absent(name, '+');
        },
        KeyCode::Char(c) => {
            if c == ' ' {
                reveal_strlit("Space");
                lemma_first_index_absent("Space"@, '+');
            } else if c == '+' {
                let name = seq![c];
                assert(first_index(name, '+') == Some(0nat));
                assert(name.take(0) =~= Seq::<char>::empty());
                assert(trim_start(Seq::<char>::empty()) == Seq::<char>::empty());
                assert(trim_spec(Seq::<char>::empty()) == Seq::<char>::empty());
                reveal_strlit("ctrl");
                reveal_strlit("control");
                reveal_strlit("alt");
                reveal_strlit("opt");
                reveal_strlit("option");
                reveal_strlit("shift");
                assert(modifier_of(Seq::<char>::empty()) is None);
            } else {
                let name = seq![c];
                lemma_first_index_absent(name, '+');
            }
        },
    }
}

proof fn lemma_modifier_words()
    ensures
        modifier_of("Ctrl"@) == Some(Modifier::Ctrl),
        modifier_of("Alt"@) == Some(Modifier::Alt),
        modifier_of("Shift"@) == Some(Modifier::Shift),
        first_index("Ctrl"@, '+') is None,
        first_index("Alt"@, '+') is None,
        first_index("Shift"@, '+') is None,
        trim_spec("Ctrl"@) == "Ctrl"@,
        trim_spec("Alt"@) == "Alt"@,
        trim_spec("Shift"@) == "Shift"@,
        "Ctrl+"@ == "Ctrl"@ + seq!['+'],
        "Alt+"@ == "Alt"@ + seq!['+'],
        "Shift+"@ == "Shift"@ + seq!['+'],
{
    reveal_strlit("Ctrl");
    reveal_strlit("Alt");
    reveal_strlit("Shift");
    reveal_strlit("Ctrl+");
    reveal_strlit("Alt+");
    reveal_strlit("Shift+");
    reveal_strlit("ctrl");
    reveal_strlit("control");
    reveal_strlit("alt");
    reveal_strlit("opt");
    reveal_strlit("option");
    reveal_strlit("shift");
    assert("Ctrl+"@ =~= "Ctrl"@ + seq!['+']);
    assert("Alt+"@ =~= "Alt"@ + seq!['+']);
    assert("Shift+"@ =~= "Shift"@ + seq!['+']);
    lemma_first_index_absent("Ctrl"@, '+');
    lemma_first_index_absent("Alt"@, '+');
    lemma_first_index_absent("Shift"@, '+');
    assert(same_ignoring_ascii_case("Ctrl"@, "ctrl"@));
    assert(same_ignoring_ascii_case("Alt"@, "alt"@));
    assert(same_ignoring_ascii_case("Shift"@, "shift"@));
    assert(!same_ignoring_ascii_case("Alt"@, "ctrl"@));
    assert(!same_ignoring_ascii_case("Shift"@, "alt"@));
    assert(!same_ignoring_ascii_case("Shift"@, "opt"@));
    assert(!same_ignoring_ascii_case("Shift"@, "ctrl"@));
    assert(!same_ignoring_ascii_case("Shift"@, "option"@));
    assert(!same_ignoring_ascii_case("Shift"@, "control"@));
    assert(!same_ignoring_ascii_case("Alt"@, "control"@));
    assert(trim_start("Ctrl"@) == "Ctrl"@);
    assert(trim_start("Alt"@) == "Alt"@);
    assert(trim_start("Shift"@) == "Shift"@);
}

/// The modifiers a binding is written with are read back from its name, and
/// what is left is the name of its key: reading `Ctrl+Alt+Shift+<key>` gives
/// exactly the modifiers written, whichever of them there are and whatever
/// the key.
pub proof fn written_modifiers_read_back(k: KeyBinding)
    ensures
        strip_mods(binding_name(k), no_mods()) == (k.mods, code_name(k.code)),
{
    lemma_modifier_words();
    let d = code_name(k.code);
    let c_part: Seq<char> = if k.mods.shift { "Shift+"@ } else { Seq::empty() };
    let a_part: Seq<char> = if k.mods.alt { "Alt+"@ } else { Seq::empty() };
    let k_part: Seq<char> = if k.mods.ctrl { "Ctrl+"@ } else { Seq::empty() };
    let after_alt = c_part + d;
    let after_ctrl = a_part + after_alt;
    assert(binding_name(k) =~= k_part + after_ctrl);
    let m0 = no_mods();
    let m1 = if k.mods.ctrl { with_modifier(m0, Modifier::Ctrl) } else { m0 };
    let m2 = if k.mods.alt { with_modifier(m1, Modifier::Alt) } else { m1 };
    let m3 = if k.mods.shift { with_modifier(m2, Modifier::Shift) } else { m2 };
    if k.mods.ctrl {
        assert(k_part + after_ctrl =~= "Ctrl"@ + seq!['+'] + after_ctrl);
        lemma_strip_word("Ctrl"@, Modifier::Ctrl, after_ctrl, m0);
    } else {
        assert(k_part + after_ctrl =~= after_ctrl);
    }
    if k.mods.alt {
        assert(after_ctrl =~= "Alt"@ + seq!['+'] + after_alt);
        lemma_strip_word("Alt"@, Modifier::Alt, after_alt, m1);
    } else {
        assert(after_ctrl =~= after_alt);
    }
    if k.mods.shift {
        assert(after_alt =~= "Shift"@ + seq!['+'] + d);
        lemma_strip_word("Shift"@, Modifier::Shift, d, m2);
    } else {
        assert(after_alt =~= d);
    }
    lemma_code_name_is_no_modifier(k.code, m3);
    assert(m3 == k.mods);
}

/// A binding of a character key reads back as itself from the name it is
/// written under, modifiers and all, for every character that is not
/// whitespace; a capital reads back with Shift, since the name of a capital is
/// read as typed with Shift held.
pub proof fn character_bindings_read_back(k: KeyBinding, c: char)
    requires
        k.code == KeyCode::Char(c),
        !is_white_space(c),
        is_upper(c) ==> k.mods.shift,
    ensures
        parse_spec(binding_name(k)) == Ok::<KeyBinding, Seq<char>>(k),
{
    lemma_modifier_words();
    written_modifiers_read_back(k);
    let name = binding_name(k);
    assert(c != ' ');
    assert(code_name(k.code) == seq![c]);
    assert(name.len() > 0 && name.last() == c);
    assert(!is_white_space(name[0])) by {
        reveal_strlit("Ctrl+");
        reveal_strlit("Alt+");
        reveal_strlit("Shift+");
    }
    assert(trim_start(name) == name);
    assert(trim_end(name) == name);
    let one = seq![c];
    assert(trim_start(one.drop_first()) =~= Seq::<char>::empty());
    assert(trim_start(one) == one);
    assert(trim_end(one) == one);
}

} // verus!
