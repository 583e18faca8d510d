//! The dynamically typed value tree of a configuration document.

use linked_hash_map::LinkedHashMap;
use vstd::prelude::*;

verus! {

/// A node of a configuration document.
#[derive(Debug, PartialEq, Eq, Hash)]
pub enum Yaml {
    /// A floating-point number, kept as it was written.
    Real(String),
    Integer(i64),
    String(String),
    Boolean(bool),
    Array(Vec<Yaml>),
    /// A mapping; its entries keep the order in which they were inserted.
    Hash(Mapping),
    Alias(usize),
    Null,
    /// What stands for a node that is not there.
    BadValue,
}

/// What a [`Yaml`] holds, as a mathematical value.
pub enum YamlView {
    Real(Seq<char>),
    Integer(i64),
    String(Seq<char>),
    Boolean(bool),
    Array(Seq<YamlView>),
    Hash(Seq<(YamlView, YamlView)>),
    Alias(usize),
    Null,
    BadValue,
}

/// A mapping from values to values that keeps its entries in the order of
/// their insertion.
#[verifier::external_body]
#[derive(Debug, PartialEq, Eq, Hash)]
pub struct Mapping {
    map: LinkedHashMap<Yaml, Yaml>,
}

/// The entries of a mapping, each a key and its value, in the order in which
/// the mapping hands them out.
pub uninterp spec fn hash_entries(hash: Mapping) -> Seq<(YamlView, YamlView)>;

impl View for Mapping {
    type V = Seq<(YamlView, YamlView)>;

    open spec fn view(&self) -> Seq<(YamlView, YamlView)> {
        hash_entries(*self)
    }
}

/// What `value` holds, as a mathematical value.
pub open spec fn view_of(value: Yaml) -> YamlView
    decreases value,
{
    match value {
        Yaml::Real(text) => YamlView::Real(text@),
        Yaml::Integer(i) => YamlView::Integer(i),
        Yaml::String(text) => YamlView::String(text@),
        Yaml::Boolean(b) => YamlView::Boolean(b),
        Yaml::Array(items) => YamlView::Array(
            Seq::new(
                items.len() as nat,
                |i: int|
                    if 0 <= i < items.len() {
                        view_of(items[i])
                    } else {
                        YamlView::BadValue
                    },
            ),
        ),
        Yaml::Hash(hash) => YamlView::Hash(hash@),
        Yaml::Alias(n) => YamlView::Alias(n),
        Yaml::Null => YamlView::Null,
        Yaml::BadValue => YamlView::BadValue,
    }
}

impl View for Yaml {
    type V = YamlView;

    open spec fn view(&self) -> YamlView {
        view_of(*self)
    }
}

/// The views of a list of values, in order.
pub open spec fn yaml_views(items: Seq<Yaml>) -> Seq<YamlView> {
    items.map_values(|item: Yaml| item@)
}

/// The view of a sequence holds the views of its elements.
pub proof fn lemma_array_view(items: Vec<Yaml>)
    ensures
        Yaml::Array(items)@ == YamlView::Array(yaml_views(items@)),
{
    let whole = Yaml::Array(items)@;
    assert(whole->Array_0 =~= yaml_views(items@));
}

/// The view of a value that may be missing.
pub open spec fn optional_yaml(value: Option<&Yaml>) -> Option<YamlView> {
    match value {
        Some(value) => Some(value@),
        None => None,
    }
}

/// The views of a list of pairs of values, in order.
pub open spec fn pair_views(pairs: Seq<(&Yaml, &Yaml)>) -> Seq<(YamlView, YamlView)> {
    pairs.map_values(|pair: (&Yaml, &Yaml)| (pair.0@, pair.1@))
}

/// The value that `entries` hold under `key`: that of the first entry with
/// that key.
pub open spec fn lookup(entries: Seq<(YamlView, YamlView)>, key: YamlView) -> Option<YamlView>
    decreases entries.len(),
{
    if entries.len() == 0 {
        None
    } else if entries.first().0 == key {
        Some(entries.first().1)
    } else {
        lookup(entries.drop_first(), key)
    }
}

/// The condition that an entry has another key than `key`.
pub open spec fn has_other_key(key: YamlView) -> spec_fn((YamlView, YamlView)) -> bool {
    |entry: (YamlView, YamlView)| entry.0 != key
}

/// `entries` after `value` was put under `key`: an entry that held the key
/// leaves its place, and the new entry stands last.
pub open spec fn inserted(
    entries: Seq<(YamlView, YamlView)>,
    key: YamlView,
    value: YamlView,
) -> Seq<(YamlView, YamlView)> {
    entries.filter(has_other_key(key)).push((key, value))
}

impl Mapping {
    /// `LinkedHashMap::new`: a mapping without entries.
    #[verifier::external_body]
    fn map_new() -> (hash: Mapping)
        ensures
            hash_entries(hash) == Seq::<(YamlView, YamlView)>::empty(),
    {
        Mapping { map: LinkedHashMap::new() }
    }

    /// `LinkedHashMap::insert`. Where the mapping holds the key, it keeps the
    /// key it has, takes the new value, moves the entry to the end and hands
    /// back the old value. Where it does not, it appends the entry and hands
    /// back nothing. Keys are the same where the `==` that `derive` wrote for
    /// [`Yaml`] says so, which is where their views are equal.
    #[verifier::external_body]
    fn map_insert(&mut self, key: Yaml, value: Yaml) -> (displaced: Option<Yaml>)
        ensures
            hash_entries(*final(self)) == inserted(hash_entries(*old(self)), key@, value@),
            match displaced {
                Some(before) => lookup(hash_entries(*old(self)), key@) == Some(before@),
                None => lookup(hash_entries(*old(self)), key@) is None,
            },
    {
        self.map.insert(key, value)
    }

    /// `LinkedHashMap::get`: the value of the entry whose key is the same as
    /// `key`, or nothing where no entry has that key. No two entries of a
    /// mapping have the same key.
    #[verifier::external_body]
    fn map_get(&self, key: &Yaml) -> (value: Option<&Yaml>)
        ensures
            optional_yaml(value) == lookup(hash_entries(*self), key@),
    {
        self.map.get(key)
    }

    /// `LinkedHashMap::iter`, walked to its end: every entry, in the order of
    /// insertion.
    #[verifier::external_body]
    fn map_iter(&self) -> (pairs: Vec<(&Yaml, &Yaml)>)
        ensures
            pair_views(pairs@) == hash_entries(*self),
    {
        self.map.iter().collect()
    }

    /// A mapping without entries.
    pub fn new() -> (hash: Mapping)
        ensures
            hash@ == Seq::<(YamlView, YamlView)>::empty(),
    {
        Mapping::map_new()
    }

    /// Puts `value` under `key` and hands back the value that the key had.
    /// The entry then stands last.
    pub fn insert(&mut self, key: Yaml, value: Yaml) -> (displaced: Option<Yaml>)
        ensures
            final(self)@ == inserted(old(self)@, key@, value@),
            match displaced {
                Some(before) => lookup(old(self)@, key@) == Some(before@),
                None => lookup(old(self)@, key@) is None,
            },
    {
        self.map_insert(key, value)
    }

    /// The value under `key`.
    pub fn get(&self, key: &Yaml) -> (value: Option<&Yaml>)
        ensures
            optional_yaml(value) == lookup(self@, key@),
    {
        self.map_get(key)
    }

    /// The entries, in the order of their insertion.
    pub fn entries(&self) -> (pairs: Vec<(&Yaml, &Yaml)>)
        ensures
            pair_views(pairs@) == self@,
    {
        self.map_iter()
    }
}

/// Looking up a key that no entry has gives nothing.
pub proof fn lookup_of_missing_key(entries: Seq<(YamlView, YamlView)>, key: YamlView)
    requires
        forall|i: int| 0 <= i < entries.len() ==> (#[trigger] entries[i]).0 != key,
    ensures
        lookup(entries, key) is None,
    decreases entries.len(),
{
    if entries.len() > 0 {
        let rest = entries.drop_first();
        assert forall|i: int| 0 <= i < rest.len() implies (#[trigger] rest[i]).0 != key by {
            assert(rest[i] == entries[i + 1]);
        }
        lookup_of_missing_key(rest, key);
    }
}

/// What a lookup finds is the value of an entry with that key.
pub proof fn lookup_finds_an_entry(entries: Seq<(YamlView, YamlView)>, key: YamlView)
    requires
        lookup(entries, key) is Some,
    ensures
        entries.contains((key, lookup(entries, key)->0)),
    decreases entries.len(),
{
    if entries.first().0 == key {
        assert(entries[0] == (key, lookup(entries, key)->0));
    } else {
        let rest = entries.drop_first();
        lookup_finds_an_entry(rest, key);
        let i = choose|i: int| 0 <= i < rest.len() && rest[i] == (key, lookup(rest, key)->0);
        assert(entries[i + 1] == rest[i]);
    }
}

/// A lookup in entries with one more at the end: what the entries before
/// hold under the key, or else what the last entry holds.
proof fn lemma_lookup_push(
    entries: Seq<(YamlView, YamlView)>,
    last: (YamlView, YamlView),
    key: YamlView,
)
    ensures
        lookup(entries.push(last), key) == match lookup(entries, key) {
            Some(value) => Some(value),
            None => if last.0 == key {
                Some(last.1)
            } else {
                None
            },
        },
    decreases entries.len(),
{
    let longer = entries.push(last);
    if entries.len() == 0 {
        lookup_of_missing_key(longer.drop_first(), key);
    } else {
        assert(longer.drop_first() =~= entries.drop_first().push(last));
        lemma_lookup_push(entries.drop_first(), last, key);
    }
}

/// Taking out the entries of one key changes no lookup of another key.
proof fn lemma_lookup_filter(
    entries: Seq<(YamlView, YamlView)>,
    removed: YamlView,
    key: YamlView,
)
    ensures
        lookup(entries.filter(has_other_key(removed)), key) == if key == removed {
            None
        } else {
            lookup(entries, key)
        },
    decreases entries.len(),
{
    let others = has_other_key(removed);
    if entries.len() == 0 {
        entries.lemma_filter_len(others);
    } else {
        let rest = entries.drop_first();
        assert(seq![entries.first()] + rest =~= entries);
        rest.lemma_filter_prepend(entries.first(), others);
        lemma_lookup_filter(rest, removed, key);
        if others(entries.first()) {
            let kept = seq![entries.first()] + rest.filter(others);
            assert(kept.drop_first() =~= rest.filter(others));
        }
    }
}

/// After a value was put under a key, a lookup of that key finds it.
pub proof fn lookup_after_insert(
    entries: Seq<(YamlView, YamlView)>,
    key: YamlView,
    value: YamlView,
)
    ensures
        lookup(inserted(entries, key, value), key) == Some(value),
{
    lemma_lookup_filter(entries, key, key);
    lemma_lookup_push(entries.filter(has_other_key(key)), (key, value), key);
}

/// Putting a value under one key changes no lookup of another key.
pub proof fn lookup_after_insert_elsewhere(
    entries: Seq<(YamlView, YamlView)>,
    key: YamlView,
    value: YamlView,
    other: YamlView,
)
    requires
        other != key,
    ensures
        lookup(inserted(entries, key, value), other) == lookup(entries, other),
{
    lemma_lookup_filter(entries, key, other);
    lemma_lookup_push(entries.filter(has_other_key(key)), (key, value), other);
}

} // verus!
