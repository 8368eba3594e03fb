//! The config file: which keys reach which Browse action.
//!
//! The file lives at `$XDG_CONFIG_HOME/mula/config.toml`, else
//! `~/.config/mula/config.toml`, on every platform (see `places`). A missing
//! file and a missing home are not errors: they are the defaults.

use vstd::prelude::*;

use crate::action::Action;
use crate::favorites::ReadFailure;
use crate::keys::{
    browse_actions, global_keys, parse_binding, parse_spec, same_binding, table, table_spec, validate,
    keys_distinct, first_duplicate, override_for, keys_for, rows_of, default_catalogue, key, Binding, BindingError, Entry, GlobalMsg, KeyBinding, KeyCode,
};
use crate::text::{chars_of, same_text, string_of};

verus! {

#[verifier::external_type_specification]
#[verifier::external_body]
pub struct ExTomlValue(toml::Value);

#[verifier::external_type_specification]
#[verifier::external_body]
#[verifier::reject_recursive_types(K)]
#[verifier::reject_recursive_types(V)]
pub struct ExTomlMap<K, V>(toml::map::Map<K, V>);

/// A value of a TOML document, as far as the config reads one: text, a list
/// whose items are text or not, a table, or anything else.
#[derive(Debug)]
pub enum TomlNode {
    Text(String),
    /// The items of an array, each its text if it is a string.
    List(Vec<Option<String>>),
    Table(Vec<TomlEntry>),
    Other,
}

/// One key of a table and the value under it.
#[derive(Debug)]
pub struct TomlEntry {
    pub key: String,
    pub value: TomlNode,
}

/// A value of a TOML document, for the contracts.
pub enum NodeView {
    Text(Seq<char>),
    List(Seq<Option<Seq<char>>>),
    Table(Seq<(Seq<char>, NodeView)>),
    Other,
}

/// The text of an item, if it has one.
pub open spec fn item_view(item: Option<String>) -> Option<Seq<char>> {
    match item {
        Some(s) => Some(s@),
        None => None,
    }
}

impl TomlNode {
    pub open spec fn node_view(self) -> NodeView
        decreases self,
    {
        match self {
            TomlNode::Text(s) => NodeView::Text(s@),
            TomlNode::List(items) => NodeView::List(items@.map_values(|item: Option<String>| item_view(item))),
            TomlNode::Table(entries) => NodeView::Table(
                Seq::new(
                    entries@.len(),
                    |i: int|
                        if 0 <= i < entries@.len() {
                            (entries@[i].key@, entries@[i].value.node_view())
                        } else {
                            (Seq::empty(), NodeView::Other)
                        },
                ),
            ),
            TomlNode::Other => NodeView::Other,
        }
    }
}

/// The entries of a table, for the contracts.
pub open spec fn entries_view(entries: Seq<TomlEntry>) -> Seq<(Seq<char>, NodeView)> {
    Seq::new(entries.len(), |i: int| (entries[i].key@, entries[i].value.node_view()))
}

/// What `toml` reads `text` as: the entries of the document's top table, in
/// the order its map walks them, or the message of the error that stopped it.
pub uninterp spec fn toml_read(text: Seq<char>) -> Result<Seq<(Seq<char>, NodeView)>, Seq<char>>;

/// The entries a `toml` table holds, in the order its map walks them.
pub uninterp spec fn toml_entries(table: toml::map::Map<String, toml::Value>) -> Seq<(Seq<char>, NodeView)>;

/// Parses `text` with `toml` into a `toml::Table`, or the message of the
/// error that stopped it. Claims only that what came back is what `toml_read`
/// names for `text`: the table through `toml_entries`, the error by its text.
#[verifier::external_body]
pub(crate) fn parse_document(text: &str) -> (r: Result<toml::map::Map<String, toml::Value>, String>)
    ensures
        match r {
            Ok(t) => toml_read(text@) == Ok::<Seq<(Seq<char>, NodeView)>, Seq<char>>(toml_entries(t)),
            Err(m) => toml_read(text@) == Err::<Seq<(Seq<char>, NodeView)>, Seq<char>>(m@),
        },
{
    text.parse::<toml::Table>().map_err(|error| error.to_string())
}

/// Walks a `toml::Table` with its map's iterator and writes each value down
/// by its variant: a string as text, an array as its items' `as_str`, a table
/// by the same walk, anything else as `Other`. Claims only that the entries
/// are the ones `toml_entries` names for the table.
#[verifier::external_body]
pub(crate) fn entries_of(table: &toml::map::Map<String, toml::Value>) -> (entries: Vec<TomlEntry>)
    ensures
        entries_view(entries@) == toml_entries(*table),
{
    table.iter().map(|(key, value)| TomlEntry {
        key: key.clone(),
        value: match value {
            toml::Value::String(text) => TomlNode::Text(text.clone()),
            toml::Value::Array(items) => TomlNode::List(items.iter().map(|item| item.as_str().map(String::from)).collect()),
            toml::Value::Table(nested) => TomlNode::Table(entries_of(nested)),
            _ => TomlNode::Other,
        },
    }).collect()
}


/// The words a text comes before another in: code point by code point, and a
/// text before every longer one that starts with it. UTF-8 keeps this order,
/// so it is the order a `BTreeMap<String, _>` keeps its keys in.
pub open spec fn text_less(a: Seq<char>, b: Seq<char>) -> bool
    decreases a.len(),
{
    if b.len() == 0 {
        false
    } else if a.len() == 0 {
        true
    } else if a[0] != b[0] {
        a[0] < b[0]
    } else {
        text_less(a.drop_first(), b.drop_first())
    }
}

/// No text comes before itself.
pub proof fn text_less_irreflexive(a: Seq<char>)
    ensures
        !text_less(a, a),
    decreases a.len(),
{
    if a.len() > 0 {
        text_less_irreflexive(a.drop_first());
    }
}

/// The order is transitive.
pub proof fn text_less_transitive(a: Seq<char>, b: Seq<char>, c: Seq<char>)
    requires
        text_less(a, b),
        text_less(b, c),
    ensures
        text_less(a, c),
    decreases a.len(),
{
    if a.len() > 0 && b.len() > 0 && c.len() > 0 && a[0] == b[0] && b[0] == c[0] {
        text_less_transitive(a.drop_first(), b.drop_first(), c.drop_first());
    }
}

/// Of two different texts, one comes before the other.
pub proof fn text_less_total(a: Seq<char>, b: Seq<char>)
    requires
        a != b,
    ensures
        text_less(a, b) || text_less(b, a),
    decreases a.len(),
{
    if a.len() > 0 && b.len() > 0 {
        if a[0] == b[0] {
            if a.drop_first() == b.drop_first() {
                assert(a =~= seq![a[0]] + a.drop_first());
                assert(b =~= seq![b[0]] + b.drop_first());
            }
            text_less_total(a.drop_first(), b.drop_first());
        }
    } else if a.len() == 0 && b.len() == 0 {
        assert(a =~= b);
    }
}

/// Whether `a` comes before `b`.
fn less_text(a: &str, b: &str) -> (less: bool)
    ensures
        less == text_less(a@, b@),
{
    let x = chars_of(a);
    let y = chars_of(b);
    let mut i: usize = 0;
    assert(x@.skip(0) =~= x@);
    assert(y@.skip(0) =~= y@);
    while i < x.len() && i < y.len()
        invariant
            i <= x@.len(),
            i <= y@.len(),
            x@ == a@,
            y@ == b@,
            text_less(a@, b@) == text_less(x@.skip(i as int), y@.skip(i as int)),
        decreases x.len() - i,
    {
        if x[i] != y[i] {
            return x[i] < y[i];
        }
        assert(x@.skip(i as int).drop_first() =~= x@.skip(i + 1));
        assert(y@.skip(i as int).drop_first() =~= y@.skip(i + 1));
        i += 1;
    }
    assert(x@.skip(i as int).len() == 0 || y@.skip(i as int).len() == 0);
    i < y.len()
}

/// Why a key name was refused, for the contracts.
pub enum BindingView {
    Duplicate(KeyBinding),
    UnknownKey(Seq<char>),
}

pub open spec fn binding_view(e: BindingError) -> BindingView {
    match e {
        BindingError::Duplicate { key } => BindingView::Duplicate(key),
        BindingError::UnknownKey { name } => BindingView::UnknownKey(name@),
    }
}

/// Why the config file was not taken.
#[derive(Debug)]
pub enum ConfigError {
    /// The file is there but could not be read.
    Unreadable { path: String, reason: String },
    /// The file is not valid TOML.
    Malformed { path: String, reason: String },
    /// `keys.browse` is something other than a table.
    NotATable,
    /// `keys.browse` names something that is not an action.
    UnknownAction { name: String },
    /// The value under an action is neither a key nor a list of keys.
    NotKeys { name: String },
    /// A key given to an action is not the name of a key.
    BadKey { name: String, source: BindingError },
    /// Two actions end up on one key.
    Clash { source: BindingError },
    /// An action takes a key that works in every mode and never reaches Browse.
    ShadowsGlobal { name: String, key: KeyBinding },
}

/// Why the config file was not taken, for the contracts.
pub enum Refusal {
    Unreadable(Seq<char>, Seq<char>),
    Malformed(Seq<char>, Seq<char>),
    NotATable,
    UnknownAction(Seq<char>),
    NotKeys(Seq<char>),
    BadKey(Seq<char>, BindingView),
    Clash(BindingView),
    ShadowsGlobal(Seq<char>, KeyBinding),
}

impl View for ConfigError {
    type V = Refusal;

    open spec fn view(&self) -> Refusal {
        match self {
            ConfigError::Unreadable { path, reason } => Refusal::Unreadable(path@, reason@),
            ConfigError::Malformed { path, reason } => Refusal::Malformed(path@, reason@),
            ConfigError::NotATable => Refusal::NotATable,
            ConfigError::UnknownAction { name } => Refusal::UnknownAction(name@),
            ConfigError::NotKeys { name } => Refusal::NotKeys(name@),
            ConfigError::BadKey { name, source } => Refusal::BadKey(name@, binding_view(*source)),
            ConfigError::Clash { source } => Refusal::Clash(binding_view(*source)),
            ConfigError::ShadowsGlobal { name, key } => Refusal::ShadowsGlobal(name@, *key),
        }
    }
}

/// The keys `texts` name, in order, or the first that names none.
pub open spec fn parsed_all(name: Seq<char>, texts: Seq<Seq<char>>) -> Result<Seq<KeyBinding>, Refusal>
    decreases texts.len(),
{
    if texts.len() == 0 {
        Ok(Seq::empty())
    } else {
        match parsed_all(name, texts.drop_last()) {
            Err(e) => Err(e),
            Ok(keys) => match parse_spec(texts.last()) {
                Ok(k) => Ok(keys.push(k)),
                Err(n) => Err(Refusal::BadKey(name, BindingView::UnknownKey(n))),
            },
        }
    }
}

/// The keys one action is bound to: a key name, or a list of them. An empty
/// list leaves the action reachable by no key at all.
pub open spec fn keys_spec(name: Seq<char>, value: NodeView) -> Result<Seq<KeyBinding>, Refusal> {
    match value {
        NodeView::Text(one) => parsed_all(name, seq![one]),
        NodeView::List(items) => if forall|i: int| 0 <= i < items.len() ==> #[trigger] items[i] is Some {
            parsed_all(name, Seq::new(items.len(), |i: int| items[i].unwrap()))
        } else {
            Err(Refusal::NotKeys(name))
        },
        _ => Err(Refusal::NotKeys(name)),
    }
}

/// A name that fails among the first `k` fails the whole list the same way.
proof fn parsed_all_stops(name: Seq<char>, texts: Seq<Seq<char>>, k: int)
    requires
        0 <= k <= texts.len(),
        parsed_all(name, texts.take(k)) is Err,
    ensures
        parsed_all(name, texts) == parsed_all(name, texts.take(k)),
    decreases texts.len() - k,
{
    if k == texts.len() {
        assert(texts.take(k) =~= texts);
    } else {
        assert(texts.take(k + 1).drop_last() =~= texts.take(k));
        parsed_all_stops(name, texts, k + 1);
    }
}

/// Reads the keys under one action.
fn keys_of(name: &String, value: &TomlNode) -> (r: Result<Vec<KeyBinding>, ConfigError>)
    ensures
        match keys_spec(name@, value.node_view()) {
            Ok(k) => r matches Ok(v) && v@ == k,
            Err(e) => r matches Err(x) && x@ == e,
        },
{
    match value {
        TomlNode::Text(one) => {
            assert(value.node_view() == NodeView::Text(one@));
            assert(seq![one@].drop_last() =~= Seq::<Seq<char>>::empty());
            assert(seq![one@].last() == one@);
            assert(parsed_all(name@, Seq::<Seq<char>>::empty()) == Ok::<Seq<KeyBinding>, Refusal>(Seq::empty()));
            match parse_binding(one.as_str()) {
                Ok(key) => {
                    let v = vec![key];
                    assert(v@ =~= Seq::<KeyBinding>::empty().push(key));
                    Ok(v)
                },
                Err(source) => Err(ConfigError::BadKey { name: name.clone(), source }),
            }
        },
        TomlNode::List(items) => {
            let ghost view = value.node_view();
            let ghost seen = items@.map_values(|item: Option<String>| item_view(item));
            assert(view == NodeView::List(seen));
            let mut i: usize = 0;
            while i < items.len()
                invariant
                    i <= items@.len(),
                    seen == items@.map_values(|item: Option<String>| item_view(item)),
                    view == NodeView::List(seen),
                    view == value.node_view(),
                    forall|j: int| 0 <= j < i ==> #[trigger] seen[j] is Some,
                decreases items.len() - i,
            {
                if items[i].is_none() {
                    assert(seen[i as int] is None);
                    assert(!(forall|j: int| 0 <= j < seen.len() ==> #[trigger] seen[j] is Some));
                    return Err(ConfigError::NotKeys { name: name.clone() });
                }
                i += 1;
            }
            let ghost texts = Seq::new(seen.len(), |j: int| seen[j].unwrap());
            let mut keys: Vec<KeyBinding> = Vec::new();
            let mut k: usize = 0;
            while k < items.len()
                invariant
                    k <= items@.len(),
                    seen == items@.map_values(|item: Option<String>| item_view(item)),
                    view == NodeView::List(seen),
                    view == value.node_view(),
                    forall|j: int| 0 <= j < items@.len() ==> #[trigger] seen[j] is Some,
                    texts == Seq::new(seen.len(), |j: int| seen[j].unwrap()),
                    parsed_all(name@, texts.take(k as int)) == Ok::<Seq<KeyBinding>, Refusal>(keys@),
                decreases items.len() - k,
            {
                assert(texts.take(k + 1).drop_last() =~= texts.take(k as int));
                let text = match &items[k] {
                    Some(t) => t,
                    None => {
                        assert(seen[k as int] is Some);
                        return Err(ConfigError::NotKeys { name: name.clone() });
                    },
                };
                match parse_binding(text.as_str()) {
                    Ok(key) => keys.push(key),
                    Err(source) => {
                        proof {
                            parsed_all_stops(name@, texts, k + 1);
                        }
                        return Err(ConfigError::BadKey { name: name.clone(), source });
                    },
                }
                k += 1;
            }
            assert(texts.take(items@.len() as int) =~= texts);
            assert(forall|j: int| 0 <= j < seen.len() ==> #[trigger] seen[j] is Some);
            Ok(keys)
        },
        TomlNode::Table(_) => {
            assert(value.node_view() is Table);
            Err(ConfigError::NotKeys { name: name.clone() })
        },
        TomlNode::Other => {
            assert(value.node_view() is Other);
            Err(ConfigError::NotKeys { name: name.clone() })
        },
    }
}


/// The actions a config has moved so far, by name, in the order of their
/// names; `keys::table` reads it as its overrides.
pub open spec fn sorted_names(b: Seq<(String, Vec<KeyBinding>)>) -> bool {
    forall|i: int, j: int| 0 <= i < j < b.len() ==> text_less(#[trigger] b[i].0@, #[trigger] b[j].0@)
}

/// The keys each moved action is given, as a map from its name.
pub open spec fn bound_map(b: Seq<(String, Vec<KeyBinding>)>) -> Map<Seq<char>, Seq<KeyBinding>> {
    Map::new(|n: Seq<char>| override_for(n, b) is Some, |n: Seq<char>| override_for(n, b).unwrap())
}

/// `override_for` finds the first entry that carries a name, and nothing
/// when none does.
proof fn override_for_first(n: Seq<char>, b: Seq<(String, Vec<KeyBinding>)>)
    ensures
        (forall|i: int| 0 <= i < b.len() ==> #[trigger] b[i].0@ != n) ==> override_for(n, b) is None,
        forall|i: int|
            0 <= i < b.len() && #[trigger] b[i].0@ == n && (forall|j: int| 0 <= j < i ==> b[j].0@ != n)
                ==> override_for(n, b) == Some(b[i].1@),
    decreases b.len(),
{
    if b.len() > 0 {
        override_for_first(n, b.drop_first());
        assert forall|i: int|
            0 <= i < b.len() && #[trigger] b[i].0@ == n && (forall|j: int| 0 <= j < i ==> b[j].0@ != n)
                implies override_for(n, b) == Some(b[i].1@) by {
            if i > 0 {
                assert(b.drop_first()[i - 1] == b[i]);
                assert forall|j: int| 0 <= j < i - 1 implies b.drop_first()[j].0@ != n by {
                    assert(b.drop_first()[j] == b[j + 1]);
                }
            }
        }
        if forall|i: int| 0 <= i < b.len() ==> #[trigger] b[i].0@ != n {
            assert forall|i: int| 0 <= i < b.drop_first().len() implies #[trigger] b.drop_first()[i].0@ != n by {
                assert(b.drop_first()[i] == b[i + 1]);
            }
        }
    }
}

/// What a sorted bound says of every name: the entry that carries it, or
/// nothing.
proof fn bound_map_of_sorted(b: Seq<(String, Vec<KeyBinding>)>)
    requires
        sorted_names(b),
    ensures
        forall|i: int| 0 <= i < b.len() ==> #[trigger] bound_map(b).contains_key(b[i].0@)
            && bound_map(b)[b[i].0@] == b[i].1@,
        forall|n: Seq<char>| #[trigger] bound_map(b).contains_key(n)
            ==> exists|i: int| 0 <= i < b.len() && #[trigger] b[i].0@ == n,
{
    assert forall|i: int| 0 <= i < b.len() implies #[trigger] bound_map(b).contains_key(b[i].0@)
        && bound_map(b)[b[i].0@] == b[i].1@ by {
        override_for_first(b[i].0@, b);
        assert forall|j: int| 0 <= j < i implies b[j].0@ != b[i].0@ by {
            text_less_irreflexive(b[i].0@);
        }
    }
    assert forall|n: Seq<char>| #[trigger] bound_map(b).contains_key(n)
        implies exists|i: int| 0 <= i < b.len() && #[trigger] b[i].0@ == n by {
        override_for_first(n, b);
    }
}

/// Puts `keys` under `name`, in its place by name, in place of whatever the
/// name was given before.
fn insert_bound(bound: &mut Vec<(String, Vec<KeyBinding>)>, name: String, keys: Vec<KeyBinding>)
    requires
        sorted_names(old(bound)@),
    ensures
        sorted_names(final(bound)@),
        bound_map(final(bound)@) == bound_map(old(bound)@).insert(name@, keys@),
{
    let ghost before = bound@;
    let ghost n = name@;
    let ghost k = keys@;
    let mut i: usize = 0;
    while i < bound.len()
        invariant
            bound@ == before,
            before == old(bound)@,
            sorted_names(before),
            i <= before.len(),
            forall|j: int| 0 <= j < i ==> text_less(#[trigger] before[j].0@, n),
            n == name@,
            k == keys@,
        decreases bound.len() - i,
    {
        let here = same_text(bound[i].0.as_str(), name.as_str());
        let first = !here && less_text(name.as_str(), bound[i].0.as_str());
        if here || first {
            if here {
                bound.remove(i);
            }
            bound.insert(i, (name, keys));
            proof {
                let after = bound@;
                let rest = if here { before.skip(i + 1) } else { before.skip(i as int) };
                assert(after =~= before.take(i as int) + seq![after[i as int]] + rest);
                assert(before =~= before.take(i as int) + (if here { seq![before[i as int]] } else { Seq::empty() }) + rest);
                assert forall|a: int, c: int| 0 <= a < c < after.len() implies text_less(#[trigger] after[a].0@, #[trigger] after[c].0@) by {
                    if c == i {
                        assert(after[a] == before[a]);
                    } else if a == i {
                        if here {
                            assert(after[c] == before[c]);
                        } else {
                            assert(after[c] == before[c - 1]);
                            if c - 1 > i {
                                text_less_transitive(n, before[i as int].0@, before[c - 1].0@);
                            }
                        }
                    } else if a < i {
                        if here || c < i {
                            assert(after[a] == before[a]);
                        } else {
                            assert(after[a] == before[a]);
                            assert(after[c] == before[c - 1]);
                        }
                        if !(here || c < i) {
                            assert(text_less(before[a].0@, before[c - 1].0@));
                        }
                    } else {
                        if here {
                            assert(after[a] == before[a]);
                            assert(after[c] == before[c]);
                        } else {
                            assert(after[a] == before[a - 1]);
                            assert(after[c] == before[c - 1]);
                        }
                    }
                }
                let was = if here { seq![before[i as int]] } else { Seq::empty() };
                same_bound_but_one(before.take(i as int), rest, was, after[i as int], n, k);
                assert(bound_map(after) == bound_map(before.take(i as int) + seq![after[i as int]] + rest));
                assert(bound_map(before) == bound_map(before.take(i as int) + was + rest));
                assert(bound_map(after) == bound_map(before).insert(n, k));
            }
            return;
        }
        proof {
            text_less_total(n, before[i as int].0@);
        }
        i += 1;
    }
    bound.push((name, keys));
    proof {
        let after = bound@;
        assert(after =~= before + seq![after[before.len() as int]]);
        assert(before =~= before + Seq::empty() + Seq::empty());
        same_bound_but_one(before, Seq::empty(), Seq::empty(), after[before.len() as int], n, k);
        assert(after =~= before + seq![after[before.len() as int]] + Seq::empty());
    }
}

/// `override_for` over two runs one after the other.
proof fn override_for_split(n: Seq<char>, x: Seq<(String, Vec<KeyBinding>)>, y: Seq<(String, Vec<KeyBinding>)>)
    ensures
        override_for(n, x + y) == match override_for(n, x) {
            Some(k) => Some(k),
            None => override_for(n, y),
        },
    decreases x.len(),
{
    if x.len() > 0 {
        assert((x + y).drop_first() =~= x.drop_first() + y);
        override_for_split(n, x.drop_first(), y);
    } else {
        assert(x + y =~= y);
    }
}

/// Replacing, or putting in, the one entry for `n` between runs that do not
/// carry `n` gives `n` the new keys and leaves every other name as it was.
proof fn same_bound_but_one(
    x: Seq<(String, Vec<KeyBinding>)>,
    y: Seq<(String, Vec<KeyBinding>)>,
    was: Seq<(String, Vec<KeyBinding>)>,
    now: (String, Vec<KeyBinding>),
    n: Seq<char>,
    k: Seq<KeyBinding>,
)
    requires
        forall|j: int| 0 <= j < x.len() ==> text_less(#[trigger] x[j].0@, n),
        was.len() == 0 || (was.len() == 1 && was[0].0@ == n),
        now.0@ == n,
        now.1@ == k,
    ensures
        bound_map(x + seq![now] + y) == bound_map(x + was + y).insert(n, k),
{
    assert(forall|j: int| 0 <= j < x.len() ==> #[trigger] x[j].0@ != n) by {
        assert forall|j: int| 0 <= j < x.len() implies #[trigger] x[j].0@ != n by {
            if x[j].0@ == n {
                text_less_irreflexive(n);
            }
        }
    }
    override_for_first(n, x);
    assert forall|m: Seq<char>| #![all_triggers] override_for(m, x + seq![now] + y) == (if m == n { Some(k) } else { override_for(m, x + was + y) }) by {
        override_for_split(m, x + seq![now], y);
        override_for_split(m, x, seq![now]);
        override_for_split(m, x + was, y);
        override_for_split(m, x, was);
        override_for_first(m, seq![now]);
        override_for_first(m, was);
        if m == n {
            assert(seq![now][0].0@ == m);
        }
    }
    assert(bound_map(x + seq![now] + y) =~= bound_map(x + was + y).insert(n, k));
}


/// The name a key gets under `prefix`: the two joined with `.`.
pub open spec fn dotted(prefix: Seq<char>, key: Seq<char>) -> Seq<char> {
    if prefix.len() == 0 {
        key
    } else {
        prefix + seq!['.'] + key
    }
}

/// Walks the entries of a table under `[keys.browse]`, putting each action's
/// keys into `bound` by its name, nested tables joined with `.`, a later name
/// replacing an earlier one; or the first value that is no keys.
///
/// TOML turns `transfer.copy = ["y"]` into a table and `"transfer.copy" =
/// ["y"]` into one key, and a config file should not turn on where the quotes
/// went: flattening makes both name the same action.
pub open spec fn collect_spec(
    prefix: Seq<char>,
    entries: Seq<(Seq<char>, NodeView)>,
    bound: Map<Seq<char>, Seq<KeyBinding>>,
) -> Result<Map<Seq<char>, Seq<KeyBinding>>, Refusal>
    decreases entries,
{
    if entries.len() == 0 {
        Ok(bound)
    } else {
        let name = dotted(prefix, entries[0].0);
        let step = match entries[0].1 {
            NodeView::Table(nested) => collect_spec(name, nested, bound),
            value => match keys_spec(name, value) {
                Ok(keys) => Ok(bound.insert(name, keys)),
                Err(e) => Err(e),
            },
        };
        match step {
            Err(e) => Err(e),
            Ok(next) => collect_spec(prefix, entries.drop_first(), next),
        }
    }
}

/// Joins `prefix` and `key` with `.`, or gives `key` alone under no prefix.
fn dotted_name(prefix: &String, key: &String) -> (name: String)
    ensures
        name@ == dotted(prefix@, key@),
{
    let front = chars_of(prefix.as_str());
    if front.len() == 0 {
        return key.clone();
    }
    let mut joined = front;
    joined.push('.');
    let mut back = chars_of(key.as_str());
    joined.append(&mut back);
    string_of(joined.as_slice())
}

/// Walks `entries` under `prefix` into `bound`, as `collect_spec` does.
fn collect(prefix: &String, entries: &Vec<TomlEntry>, bound: &mut Vec<(String, Vec<KeyBinding>)>) -> (r: Result<(), ConfigError>)
    requires
        sorted_names(old(bound)@),
    ensures
        sorted_names(final(bound)@),
        match collect_spec(prefix@, entries_view(entries@), bound_map(old(bound)@)) {
            Ok(m) => r is Ok && bound_map(final(bound)@) == m,
            Err(e) => r matches Err(x) && x@ == e,
        },
    decreases entries@,
{
    let ghost all = entries_view(entries@);
    let ghost start = bound_map(bound@);
    let mut i: usize = 0;
    assert(all.skip(0) =~= all);
    while i < entries.len()
        invariant
            i <= entries@.len(),
            all == entries_view(entries@),
            start == bound_map(old(bound)@),
            sorted_names(bound@),
            collect_spec(prefix@, all, start) == collect_spec(prefix@, all.skip(i as int), bound_map(bound@)),
        decreases entries.len() - i,
    {
        let entry = &entries[i];
        let name = dotted_name(prefix, &entry.key);
        let ghost rest = all.skip(i as int);
        let ghost here = bound_map(bound@);
        assert(rest[0] == (entry.key@, entry.value.node_view()));
        assert(rest.drop_first() =~= all.skip(i + 1));
        match &entry.value {
            TomlNode::Table(nested) => {
                proof {
                    let t = match entry.value.node_view() {
                        NodeView::Table(t) => t,
                        _ => Seq::empty(),
                    };
                    assert(entry.value.node_view() is Table);
                    assert(t =~= entries_view(nested@));
                    assert(entry.value.node_view() == NodeView::Table(entries_view(nested@)));
                }
                assert(decreases_to!(entries@ => nested@)) by {
                    assert(decreases_to!(entries@ => entries@[i as int]));
                    assert(decreases_to!(entries@[i as int] => entries@[i as int].value));
                }
                let walked = collect(&name, nested, bound);
                if let Err(e) = walked {
                    return Err(e);
                }
            },
            _ => {
                assert(!(entry.value.node_view() is Table));
                match keys_of(&name, &entry.value) {
                    Ok(keys) => insert_bound(bound, name, keys),
                    Err(e) => {
                        return Err(e);
                    },
                }
            },
        }
        i += 1;
    }
    Ok(())
}


/// The value under `key` in a table, if the table has one.
pub open spec fn lookup(entries: Seq<(Seq<char>, NodeView)>, key: Seq<char>) -> Option<NodeView>
    decreases entries.len(),
{
    if entries.len() == 0 {
        None
    } else if entries[0].0 == key {
        Some(entries[0].1)
    } else {
        lookup(entries.drop_first(), key)
    }
}

/// Finds the value under `key` in a table.
fn lookup_entry<'a>(entries: &'a Vec<TomlEntry>, key: &str) -> (found: Option<&'a TomlNode>)
    ensures
        match found {
            Some(v) => lookup(entries_view(entries@), key@) == Some(v.node_view()),
            None => lookup(entries_view(entries@), key@) is None,
        },
{
    let ghost all = entries_view(entries@);
    let mut i: usize = 0;
    assert(all.skip(0) =~= all);
    while i < entries.len()
        invariant
            i <= entries@.len(),
            all == entries_view(entries@),
            lookup(all, key@) == lookup(all.skip(i as int), key@),
        decreases entries.len() - i,
    {
        assert(all.skip(i as int)[0] == (entries@[i as int].key@, entries@[i as int].value.node_view()));
        assert(all.skip(i as int).drop_first() =~= all.skip(i + 1));
        if same_text(entries[i].key.as_str(), key) {
            return Some(&entries[i].value);
        }
        i += 1;
    }
    None
}

/// What a document holds under `[keys.browse]`, if anything: `keys` has to be
/// a table for `browse` to be looked for in it.
pub open spec fn browse_of(document: Seq<(Seq<char>, NodeView)>) -> Option<NodeView> {
    match lookup(document, "keys"@) {
        Some(NodeView::Table(keys)) => lookup(keys, "browse"@),
        _ => None,
    }
}

/// The keys each action named under `[keys.browse]` is given, or why the
/// table was turned away before any name was checked.
pub open spec fn bound_spec(document: Seq<(Seq<char>, NodeView)>) -> Result<Map<Seq<char>, Seq<KeyBinding>>, Refusal> {
    match browse_of(document) {
        None => Ok(Map::empty()),
        Some(NodeView::Table(t)) => collect_spec(Seq::empty(), t, Map::empty()),
        Some(_) => Err(Refusal::NotATable),
    }
}

/// `name` is the name of an action of the catalogue.
pub open spec fn is_action(catalogue: Seq<Entry>, name: Seq<char>) -> bool {
    exists|i: int| 0 <= i < catalogue.len() && #[trigger] catalogue[i].name@ == name
}

/// `key` works in every mode.
pub open spec fn is_global(globals: Seq<Binding<GlobalMsg>>, key: KeyBinding) -> bool {
    exists|g: int| 0 <= g < globals.len() && #[trigger] globals[g].key == key
}

/// The index of the first of `keys` that works in every mode.
pub open spec fn first_global(globals: Seq<Binding<GlobalMsg>>, keys: Seq<KeyBinding>, i: int) -> bool {
    &&& 0 <= i < keys.len()
    &&& is_global(globals, keys[i])
    &&& forall|j: int| 0 <= j < i ==> !is_global(globals, #[trigger] keys[j])
}

/// What is wrong with giving `keys` to `name`, if anything: a name that is no
/// action, or a key a global takes, which would never reach Browse since the
/// globals are resolved first.
pub open spec fn fault(catalogue: Seq<Entry>, globals: Seq<Binding<GlobalMsg>>, name: Seq<char>, keys: Seq<KeyBinding>) -> Option<Refusal> {
    if !is_action(catalogue, name) {
        Some(Refusal::UnknownAction(name))
    } else if exists|i: int| first_global(globals, keys, i) {
        Some(Refusal::ShadowsGlobal(name, keys[choose|i: int| first_global(globals, keys, i)]))
    } else {
        None
    }
}

/// No name in `m` is at fault.
pub open spec fn faultless(catalogue: Seq<Entry>, globals: Seq<Binding<GlobalMsg>>, m: Map<Seq<char>, Seq<KeyBinding>>) -> bool {
    forall|n: Seq<char>| #[trigger] m.contains_key(n) ==> fault(catalogue, globals, n, m[n]) is None
}

/// `refusal` is the fault of the name that comes first among those at fault,
/// which is the one a walk in the order of the names meets first.
pub open spec fn first_fault(
    catalogue: Seq<Entry>,
    globals: Seq<Binding<GlobalMsg>>,
    m: Map<Seq<char>, Seq<KeyBinding>>,
    refusal: Refusal,
) -> bool {
    exists|n: Seq<char>|
        #![trigger m.contains_key(n)]
        m.contains_key(n) && fault(catalogue, globals, n, m[n]) == Some(refusal) && forall|o: Seq<char>|
            #![trigger m.contains_key(o)]
            m.contains_key(o) && fault(catalogue, globals, o, m[o]) is Some ==> !text_less(o, n)
}

/// Whether `name` is the name of an action of the catalogue.
fn names_action(catalogue: &[Entry], name: &String) -> (known: bool)
    ensures
        known == is_action(catalogue@, name@),
{
    let mut c: usize = 0;
    while c < catalogue.len()
        invariant
            c <= catalogue@.len(),
            forall|j: int| 0 <= j < c ==> #[trigger] catalogue@[j].name@ != name@,
        decreases catalogue.len() - c,
    {
        if same_text(catalogue[c].name, name.as_str()) {
            return true;
        }
        c += 1;
    }
    false
}

/// Whether `key` works in every mode.
fn takes_global(globals: &[Binding<GlobalMsg>], key: KeyBinding) -> (taken: bool)
    ensures
        taken == is_global(globals@, key),
{
    let mut g: usize = 0;
    while g < globals.len()
        invariant
            g <= globals@.len(),
            forall|h: int| 0 <= h < g ==> #[trigger] globals@[h].key != key,
        decreases globals.len() - g,
    {
        if same_binding(globals[g].key, key) {
            return true;
        }
        g += 1;
    }
    false
}

/// Checks one name against the catalogue and its keys against the globals.
fn fault_of(catalogue: &[Entry], globals: &[Binding<GlobalMsg>], name: &String, keys: &Vec<KeyBinding>) -> (r: Option<ConfigError>)
    ensures
        match fault(catalogue@, globals@, name@, keys@) {
            Some(f) => r matches Some(e) && e@ == f,
            None => r is None,
        },
{
    if !names_action(catalogue, name) {
        return Some(ConfigError::UnknownAction { name: name.clone() });
    }
    let mut k: usize = 0;
    while k < keys.len()
        invariant
            k <= keys@.len(),
            is_action(catalogue@, name@),
            forall|j: int| 0 <= j < k ==> !is_global(globals@, #[trigger] keys@[j]),
        decreases keys.len() - k,
    {
        if takes_global(globals, keys[k]) {
            proof {
                assert(first_global(globals@, keys@, k as int));
                let i = choose|i: int| first_global(globals@, keys@, i);
                if i < k {
                    assert(!is_global(globals@, keys@[i]));
                }
                if i > k {
                    assert(!is_global(globals@, keys@[k as int]));
                }
            }
            return Some(ConfigError::ShadowsGlobal { name: name.clone(), key: keys[k] });
        }
        k += 1;
    }
    assert(!exists|i: int| first_global(globals@, keys@, i));
    None
}

/// Reads `[keys.browse]` out of a parsed document, checking every name
/// against the catalogue and every key against the globals, in the order of
/// the names. What comes back is sorted by name, one entry per action.
pub fn browse_bindings(document: &Vec<TomlEntry>, catalogue: &[Entry], globals: &[Binding<GlobalMsg>]) -> (r: Result<Vec<(String, Vec<KeyBinding>)>, ConfigError>)
    ensures
        match bound_spec(entries_view(document@)) {
            Err(e) => r matches Err(x) && x@ == e,
            Ok(m) => {
                &&& r is Ok <==> faultless(catalogue@, globals@, m)
                &&& r matches Ok(b) ==> sorted_names(b@) && bound_map(b@) == m
                &&& r matches Err(x) ==> first_fault(catalogue@, globals@, m, x@)
            },
        },
{
    let mut bound: Vec<(String, Vec<KeyBinding>)> = Vec::new();
    assert(bound_map(bound@) =~= Map::<Seq<char>, Seq<KeyBinding>>::empty());
    let ghost doc = entries_view(document@);
    let browse = match lookup_entry(document, "keys") {
        Some(TomlNode::Table(keys)) => {
            proof {
                let t = match lookup(doc, "keys"@).unwrap() {
                    NodeView::Table(t) => t,
                    _ => Seq::empty(),
                };
                assert(t =~= entries_view(keys@));
            }
            lookup_entry(keys, "browse")
        },
        _ => None,
    };
    match browse {
        None => {
            return Ok(bound);
        },
        Some(TomlNode::Table(table)) => {
            proof {
                let t = match browse_of(doc).unwrap() {
                    NodeView::Table(t) => t,
                    _ => Seq::empty(),
                };
                assert(t =~= entries_view(table@));
            }
            let top = String::new();
            assert(top@ =~= Seq::<char>::empty());
            if let Err(e) = collect(&top, table, &mut bound) {
                return Err(e);
            }
        },
        Some(_) => {
            return Err(ConfigError::NotATable);
        },
    }
    let ghost m = bound_map(bound@);
    proof {
        bound_map_of_sorted(bound@);
        assert(bound_spec(entries_view(document@)) == Ok::<Map<Seq<char>, Seq<KeyBinding>>, Refusal>(m));
    }
    let mut i: usize = 0;
    while i < bound.len()
        invariant
            i <= bound@.len(),
            sorted_names(bound@),
            m == bound_map(bound@),
            bound_spec(entries_view(document@)) == Ok::<Map<Seq<char>, Seq<KeyBinding>>, Refusal>(m),
            forall|j: int| 0 <= j < bound@.len() ==> #[trigger] m.contains_key(bound@[j].0@) && m[bound@[j].0@] == bound@[j].1@,
            forall|n: Seq<char>| #[trigger] m.contains_key(n) ==> exists|j: int| 0 <= j < bound@.len() && #[trigger] bound@[j].0@ == n,
            forall|j: int| 0 <= j < i ==> fault(catalogue@, globals@, #[trigger] bound@[j].0@, bound@[j].1@) is None,
        decreases bound.len() - i,
    {
        if let Some(e) = fault_of(catalogue, globals, &bound[i].0, &bound[i].1) {
            proof {
                let n = bound@[i as int].0@;
                assert(m.contains_key(n));
                assert(m[n] == bound@[i as int].1@);
                assert(fault(catalogue@, globals@, n, m[n]) == Some(e@));
                assert(!faultless(catalogue@, globals@, m));
                assert forall|o: Seq<char>|
                    #![trigger m.contains_key(o)]
                    m.contains_key(o) && fault(catalogue@, globals@, o, m[o]) is Some implies !text_less(o, n) by {
                    let j = choose|j: int| 0 <= j < bound@.len() && #[trigger] bound@[j].0@ == o;
                    if j < i {
                        assert(fault(catalogue@, globals@, bound@[j].0@, bound@[j].1@) is None);
                    } else if j == i {
                        text_less_irreflexive(n);
                    } else {
                        assert(text_less(bound@[i as int].0@, bound@[j].0@));
                        if text_less(o, n) {
                            text_less_transitive(n, o, n);
                            text_less_irreflexive(n);
                        }
                    }
                }
            }
            return Err(e);
        }
        i += 1;
    }
    proof {
        assert forall|n: Seq<char>| #[trigger] m.contains_key(n) implies fault(catalogue@, globals@, n, m[n]) is None by {
            let j = choose|j: int| 0 <= j < bound@.len() && #[trigger] bound@[j].0@ == n;
            assert(fault(catalogue@, globals@, bound@[j].0@, bound@[j].1@) is None);
        }
    }
    Ok(bound)
}


/// The keys an entry is reached by once the config has spoken: the ones it
/// gives the entry's name, else the entry's own.
pub open spec fn keys_under(e: Entry, m: Map<Seq<char>, Seq<KeyBinding>>) -> Seq<KeyBinding> {
    if m.contains_key(e.name@) {
        m[e.name@]
    } else {
        e.keys@
    }
}

/// The Browse table a catalogue builds under the keys `m` gives, entry after
/// entry, as `keys::table` builds it.
pub open spec fn table_by(catalogue: Seq<Entry>, m: Map<Seq<char>, Seq<KeyBinding>>) -> Seq<Binding<Action>>
    decreases catalogue.len(),
{
    if catalogue.len() == 0 {
        Seq::empty()
    } else {
        table_by(catalogue.drop_last(), m) + rows_of(catalogue.last(), keys_under(catalogue.last(), m))
    }
}

/// A table built from a bound is the one its map describes.
proof fn table_by_bound(catalogue: Seq<Entry>, b: Seq<(String, Vec<KeyBinding>)>)
    ensures
        table_spec(catalogue, b) == table_by(catalogue, bound_map(b)),
    decreases catalogue.len(),
{
    if catalogue.len() > 0 {
        table_by_bound(catalogue.drop_last(), b);
        assert(keys_for(catalogue.last(), b) == keys_under(catalogue.last(), bound_map(b)));
    }
}

/// What a config `text`, read from `path`, gives against `catalogue` and
/// `globals`: the error of a document that is no TOML, else the first that
/// `[keys.browse]` is refused with, else the first name at fault, else the
/// table the keys build, unless two actions end up on one key.
pub open spec fn table_outcome(
    text: Seq<char>,
    path: Seq<char>,
    catalogue: Seq<Entry>,
    globals: Seq<Binding<GlobalMsg>>,
    r: Result<Vec<Binding<Action>>, ConfigError>,
) -> bool {
    match toml_read(text) {
        Err(message) => r matches Err(x) && x@ == Refusal::Malformed(path, message),
        Ok(document) => match bound_spec(document) {
            Err(e) => r matches Err(x) && x@ == e,
            Ok(m) => if !faultless(catalogue, globals, m) {
                r matches Err(x) && first_fault(catalogue, globals, m, x@)
            } else if keys_distinct(table_by(catalogue, m)) {
                r matches Ok(t) && t@ == table_by(catalogue, m)
            } else {
                r matches Err(ConfigError::Clash { source: BindingError::Duplicate { key } })
                    && first_duplicate(table_by(catalogue, m), key)
            },
        },
    }
}

/// Builds the Browse table from `text`, which is the contents of `path`.
pub fn table_from(text: &str, path: &str, catalogue: &[Entry], globals: &[Binding<GlobalMsg>]) -> (r: Result<Vec<Binding<Action>>, ConfigError>)
    ensures
        table_outcome(text@, path@, catalogue@, globals@, r),
{
    let parsed = match parse_document(text) {
        Err(reason) => {
            return Err(ConfigError::Malformed { path: string_of(chars_of(path).as_slice()), reason });
        },
        Ok(t) => t,
    };
    let document = entries_of(&parsed);
    let bound = match browse_bindings(&document, catalogue, globals) {
        Err(e) => {
            return Err(e);
        },
        Ok(b) => b,
    };
    let built = table(catalogue, bound.as_slice());
    proof {
        table_by_bound(catalogue@, bound@);
    }
    match validate(built.as_slice()) {
        Ok(()) => Ok(built),
        Err(source) => Err(ConfigError::Clash { source }),
    }
}

/// The catalogue and globals this program is built with.
pub open spec fn built_in(catalogue: Seq<Entry>, globals: Seq<Binding<GlobalMsg>>) -> bool {
    &&& default_catalogue(catalogue)
    &&& globals == seq![
        Binding { key: key(KeyCode::F(1)), msg: GlobalMsg::ShowHelp, bar: None, help: "Lists every key available right now" },
    ]
}

/// The Browse key table the config asks for, or the error that stopped it.
/// `file` is where the config lives and what reading it gave, or `None` when
/// there is no home to look under.
///
/// A missing file and a missing home are not errors: they are the defaults,
/// which is what every caller falls back to anyway.
pub fn browse_table(file: Option<(&str, Result<String, ReadFailure>)>) -> (r: Result<Vec<Binding<Action>>, ConfigError>)
    ensures
        match file {
            Some((path, Err(ReadFailure::Other(reason)))) => r matches Err(x) && x@ == Refusal::Unreadable(path@, reason@),
            Some((path, Ok(text))) => exists|c: Seq<Entry>, g: Seq<Binding<GlobalMsg>>|
                built_in(c, g) && table_outcome(text@, path@, c, g, r),
            _ => r matches Ok(t) && exists|c: Seq<Entry>, g: Seq<Binding<GlobalMsg>>|
                built_in(c, g) && t@ == table_spec(c, Seq::empty()),
        },
{
    let catalogue = browse_actions();
    let globals = global_keys();
    match file {
        Some((path, Ok(text))) => {
            let r = table_from(text.as_str(), path, catalogue.as_slice(), globals.as_slice());
            assert(built_in(catalogue@, globals@));
            assert(table_outcome(text@, path@, catalogue@, globals@, r));
            r
        },
        Some((path, Err(ReadFailure::Other(reason)))) => {
            let e = ConfigError::Unreadable { path: string_of(chars_of(path).as_slice()), reason };
            assert(e@ == Refusal::Unreadable(path@, reason@));
            Err(e)
        },
        _ => {
            let none: Vec<(String, Vec<KeyBinding>)> = Vec::new();
            let t = table(catalogue.as_slice(), none.as_slice());
            assert(none@ =~= Seq::<(String, Vec<KeyBinding>)>::empty());
            assert(built_in(catalogue@, globals@));
            assert(t@ == table_spec(catalogue@, Seq::empty()));
            Ok(t)
        },
    }
}


/// A dotted key and a quoted one name the same action: a table `a` holding
/// `b` gives the keys under `b` to `a.b`, as a key written `"a.b"` does,
/// for any key `a` that is not empty.
pub proof fn dotted_and_quoted_are_one(
    prefix: Seq<char>,
    a: Seq<char>,
    b: Seq<char>,
    value: NodeView,
    bound: Map<Seq<char>, Seq<KeyBinding>>,
)
    requires
        a.len() > 0,
        !(value is Table),
    ensures
        collect_spec(prefix, seq![(a, NodeView::Table(seq![(b, value)]))], bound)
            == collect_spec(prefix, seq![(a + seq!['.'] + b, value)], bound),
{
    let nested = seq![(b, value)];
    let joined = dotted(dotted(prefix, a), b);
    assert(joined =~= dotted(prefix, a + seq!['.'] + b));
    assert(nested.drop_first() =~= Seq::<(Seq<char>, NodeView)>::empty());
    assert(seq![(a, NodeView::Table(nested))].drop_first() =~= Seq::<(Seq<char>, NodeView)>::empty());
    assert(seq![(a + seq!['.'] + b, value)].drop_first() =~= Seq::<(Seq<char>, NodeView)>::empty());
    reveal_with_fuel(collect_spec, 3);
}

} // verus!
