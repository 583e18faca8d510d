//! Typed access to the values of a configuration document.
//!
//! A value can be asked for its shape, which fails where the shape is
//! another. A mapping can be asked for the value under a key as a given type,
//! which gives nothing both where the key is missing and where its value is
//! of another type.

use crate::patch::literal::int_literal;
use crate::patch::literal::parse_int_literal;
use crate::patch::text::same_text;
use crate::patch::yaml::lemma_array_view;
use crate::patch::yaml::lookup;
use crate::patch::yaml::pair_views;
use crate::patch::yaml::yaml_views;
use crate::patch::yaml::Mapping;
use crate::patch::yaml::Yaml;
use crate::patch::yaml::YamlView;
use vstd::prelude::*;

verus! {

/// A value is not of the shape that was asked for.
#[derive(Clone, Copy, Debug, PartialEq, Eq, Structural)]
pub enum YamlError {
    /// The value is not a mapping.
    NotHash,
    /// The value is not a sequence.
    NotVec,
    /// The value is not a string.
    NotStr,
    /// The value is not an integer.
    NotInt,
}

/// The integer that `value` stands for: an integer itself, or a string that
/// spells an integer literal.
pub open spec fn int_of(value: YamlView) -> Option<i64> {
    match value {
        YamlView::Integer(i) => Some(i),
        YamlView::String(text) => int_literal(text),
        _ => None,
    }
}

/// The truth value that the string `text` spells.
pub open spec fn bool_literal(text: Seq<char>) -> Option<bool> {
    if text == "true"@ || text == "True"@ {
        Some(true)
    } else if text == "false"@ || text == "False"@ {
        Some(false)
    } else {
        None
    }
}

/// The truth value that `value` stands for: a truth value itself, the
/// integers `0` and `1`, or one of the strings `true`, `True`, `false` and
/// `False`.
pub open spec fn bool_of(value: YamlView) -> Option<bool> {
    match value {
        YamlView::Boolean(b) => Some(b),
        YamlView::Integer(i) => if i == 0 {
            Some(false)
        } else if i == 1 {
            Some(true)
        } else {
            None
        },
        YamlView::String(text) => bool_literal(text),
        _ => None,
    }
}

/// Reads `val` as an integer.
pub fn parse_i64(val: &Yaml) -> (number: Option<i64>)
    ensures
        number == int_of(val@),
{
    match val {
        Yaml::Integer(i) => Some(*i),
        Yaml::String(text) => parse_int_literal(text.as_str()),
        _ => None,
    }
}

/// Reads `val` as a truth value.
pub fn parse_bool(val: &Yaml) -> (truth: Option<bool>)
    ensures
        truth == bool_of(val@),
{
    match val {
        Yaml::Boolean(b) => Some(*b),
        Yaml::Integer(i) => {
            if *i == 0 {
                Some(false)
            } else if *i == 1 {
                Some(true)
            } else {
                None
            }
        },
        Yaml::String(text) => {
            let text = text.as_str();
            if same_text(text, "true") || same_text(text, "True") {
                Some(true)
            } else if same_text(text, "false") || same_text(text, "False") {
                Some(false)
            } else {
                None
            }
        },
        _ => None,
    }
}

/// A value seen as one shape.
pub trait AsType {
    fn hash_mut(&mut self) -> Result<&mut Mapping, YamlError>;

    fn hash(&self) -> Result<&Mapping, YamlError>;

    fn vec(&self) -> Result<&Vec<Yaml>, YamlError>;

    fn str(&self) -> Result<&str, YamlError>;

    fn i64(&self) -> Result<i64, YamlError>;
}

impl AsType for Yaml {
    /// The mapping that the value is, to change it in place.
    fn hash_mut(&mut self) -> (r: Result<&mut Mapping, YamlError>)
        ensures
            match *old(self) {
                Yaml::Hash(hash) => r is Ok && *r->Ok_0 == hash && *final(self) == Yaml::Hash(
                    *final(r->Ok_0),
                ),
                _ => r is Err && r->Err_0 == YamlError::NotHash && *final(self) == *old(self),
            },
    {
        match self {
            Yaml::Hash(h) => Ok(h),
            _ => Err(YamlError::NotHash),
        }
    }

    /// The mapping that the value is.
    fn hash(&self) -> (r: Result<&Mapping, YamlError>)
        ensures
            match *self {
                Yaml::Hash(hash) => r == Ok::<&Mapping, YamlError>(&hash),
                _ => r == Err::<&Mapping, YamlError>(YamlError::NotHash),
            },
    {
        match self {
            Yaml::Hash(h) => Ok(h),
            _ => Err(YamlError::NotHash),
        }
    }

    /// The sequence that the value is.
    fn vec(&self) -> (r: Result<&Vec<Yaml>, YamlError>)
        ensures
            match *self {
                Yaml::Array(items) => r == Ok::<&Vec<Yaml>, YamlError>(&items),
                _ => r == Err::<&Vec<Yaml>, YamlError>(YamlError::NotVec),
            },
    {
        match self {
            Yaml::Array(items) => Ok(items),
            _ => Err(YamlError::NotVec),
        }
    }

    /// The string that the value is.
    fn str(&self) -> (r: Result<&str, YamlError>)
        ensures
            match *self {
                Yaml::String(text) => r is Ok && r->Ok_0@ == text@,
                _ => r == Err::<&str, YamlError>(YamlError::NotStr),
            },
    {
        match self {
            Yaml::String(text) => Ok(text.as_str()),
            _ => Err(YamlError::NotStr),
        }
    }

    /// The integer that the value stands for.
    fn i64(&self) -> (r: Result<i64, YamlError>)
        ensures
            match int_of(self@) {
                Some(number) => r == Ok::<i64, YamlError>(number),
                None => r == Err::<i64, YamlError>(YamlError::NotInt),
            },
    {
        match parse_i64(self) {
            Some(number) => Ok(number),
            None => Err(YamlError::NotInt),
        }
    }
}

/// What can stand as a key of a mapping.
pub trait ToYaml {
    /// The view of the value that [`ToYaml::to_yaml`] gives.
    spec fn yaml(self) -> YamlView;

    fn to_yaml(self) -> (value: Yaml)
        ensures
            value@ == self.yaml(),
    ;
}

impl ToYaml for &str {
    open spec fn yaml(self) -> YamlView {
        YamlView::String(self@)
    }

    fn to_yaml(self) -> (value: Yaml) {
        Yaml::String(self.to_owned())
    }
}

impl ToYaml for Yaml {
    open spec fn yaml(self) -> YamlView {
        self@
    }

    fn to_yaml(self) -> (value: Yaml) {
        self
    }
}

/// The strings among `items`, in order.
pub open spec fn string_items(items: Seq<YamlView>) -> Seq<Seq<char>>
    decreases items.len(),
{
    if items.len() == 0 {
        Seq::empty()
    } else {
        let rest = string_items(items.drop_first());
        match items.first() {
            YamlView::String(text) => seq![text] + rest,
            _ => rest,
        }
    }
}

/// The strings that a field holds which may be written as one string or as a
/// sequence of strings: the one string, or the strings of the sequence, whose
/// other elements are passed over. A value of another shape holds none.
pub open spec fn strings_of(value: YamlView) -> Seq<Seq<char>> {
    match value {
        YamlView::String(text) => seq![text],
        YamlView::Array(items) => string_items(items),
        _ => Seq::empty(),
    }
}

/// Walks over the strings of a field that is one string or a sequence of
/// strings.
pub struct OverStringIter<'a> {
    value: Option<&'a Yaml>,
    position: Option<usize>,
}

impl<'a> OverStringIter<'a> {
    /// The strings that are still to come, in order.
    pub closed spec fn remaining(&self) -> Seq<Seq<char>> {
        match self.value {
            None => Seq::empty(),
            Some(value) => match self.position {
                None => strings_of(value@),
                Some(n) => match value@ {
                    YamlView::Array(items) => if n <= items.len() {
                        string_items(items.skip(n as int))
                    } else {
                        Seq::empty()
                    },
                    _ => Seq::empty(),
                },
            },
        }
    }

    /// The next string, or nothing once all were handed out.
    pub fn next(&mut self) -> (item: Option<&'a str>)
        ensures
            match item {
                Some(text) => old(self).remaining().len() > 0 && text@ == old(
                    self,
                ).remaining().first() && final(self).remaining() == old(
                    self,
                ).remaining().drop_first(),
                None => old(self).remaining().len() == 0 && final(self).remaining().len() == 0,
            },
    {
        let value = match self.value {
            Some(value) => value,
            None => {
                return None;
            },
        };
        if self.position.is_none() {
            self.position = Some(0);
            match value {
                Yaml::String(text) => {
                    return Some(text.as_str());
                },
                Yaml::Array(items) => {
                    assert(value@->Array_0.skip(0) =~= value@->Array_0);
                },
                _ => {},
            }
        }
        let items = match value {
            Yaml::Array(items) => items,
            _ => {
                return None;
            },
        };
        let ghost views = value@->Array_0;
        let mut n = match self.position {
            Some(n) => n,
            None => 0,
        };
        while n < items.len()
            invariant
                self.value == Some(value),
                *value == Yaml::Array(*items),
                views == value@->Array_0,
                self.position == Some(n),
                self.remaining() == old(self).remaining(),
            decreases items.len() - n,
        {
            proof {
                lemma_array_view(*items);
                assert(views.skip(n as int).drop_first() =~= views.skip(n + 1));
            }
            self.position = Some(n + 1);
            if let Yaml::String(text) = &items[n] {
                return Some(text.as_str());
            }
            n += 1;
        }
        proof {
            lemma_array_view(*items);
        }
        None
    }

    /// The strings that are still to come, in order.
    pub fn collect(self) -> (all: Vec<&'a str>)
        ensures
            all@.map_values(|text: &str| text@) == self.remaining(),
    {
        let mut rest = self;
        let mut all: Vec<&'a str> = Vec::new();
        loop
            invariant
                all@.map_values(|text: &str| text@) + rest.remaining() == self.remaining(),
            decreases rest.remaining().len(),
        {
            match rest.next() {
                Some(text) => {
                    all.push(text);
                },
                None => {
                    return all;
                },
            }
        }
    }
}

/// The integer under `key`.
pub open spec fn int_under(entries: Seq<(YamlView, YamlView)>, key: YamlView) -> Option<i64> {
    match lookup(entries, key) {
        Some(value) => int_of(value),
        None => None,
    }
}

/// The truth value under `key`.
pub open spec fn bool_under(entries: Seq<(YamlView, YamlView)>, key: YamlView) -> Option<bool> {
    match lookup(entries, key) {
        Some(value) => bool_of(value),
        None => None,
    }
}

/// The string under `key`.
pub open spec fn str_under(entries: Seq<(YamlView, YamlView)>, key: YamlView) -> Option<
    Seq<char>,
> {
    match lookup(entries, key) {
        Some(YamlView::String(text)) => Some(text),
        _ => None,
    }
}

/// The entries of the mapping under `key`.
pub open spec fn hash_under(entries: Seq<(YamlView, YamlView)>, key: YamlView) -> Option<
    Seq<(YamlView, YamlView)>,
> {
    match lookup(entries, key) {
        Some(YamlView::Hash(inner)) => Some(inner),
        _ => None,
    }
}

/// The elements of the sequence under `key`.
pub open spec fn vec_under(entries: Seq<(YamlView, YamlView)>, key: YamlView) -> Option<
    Seq<YamlView>,
> {
    match lookup(entries, key) {
        Some(YamlView::Array(items)) => Some(items),
        _ => None,
    }
}

/// The strings of the field under `key`; none where the key is missing.
pub open spec fn strings_under(entries: Seq<(YamlView, YamlView)>, key: YamlView) -> Seq<
    Seq<char>,
> {
    match lookup(entries, key) {
        Some(value) => strings_of(value),
        None => Seq::empty(),
    }
}

/// The entries of a mapping, handed out in the order of their insertion.
pub type HashIter<'a> = Vec<(&'a Yaml, &'a Yaml)>;

/// Lookups by key that give the value as one type, or nothing where the key
/// is missing or its value is not of that type.
pub trait GetVal {
    /// The entries that the lookups read.
    spec fn entries_of(&self) -> Seq<(YamlView, YamlView)>;

    fn get_bool<K: ToYaml>(&self, k: K) -> (r: Option<bool>)
        ensures
            r == bool_under(self.entries_of(), k.yaml()),
    ;

    fn get_i64<K: ToYaml>(&self, k: K) -> (r: Option<i64>)
        ensures
            r == int_under(self.entries_of(), k.yaml()),
    ;

    /// The integer under `k`, its bits read as an unsigned number.
    fn get_u64<K: ToYaml>(&self, k: K) -> (r: Option<u64>)
        ensures
            r == match int_under(self.entries_of(), k.yaml()) {
                Some(v) => Some(v as u64),
                None => None,
            },
    {
        match self.get_i64(k) {
            Some(v) => Some(#[verifier::truncate] (v as u64)),
            None => None,
        }
    }

    /// The integer under `k`, its low 32 bits read as an unsigned number.
    fn get_u32<K: ToYaml>(&self, k: K) -> (r: Option<u32>)
        ensures
            r == match int_under(self.entries_of(), k.yaml()) {
                Some(v) => Some(v as u32),
                None => None,
            },
    {
        match self.get_i64(k) {
            Some(v) => Some(#[verifier::truncate] (v as u32)),
            None => None,
        }
    }

    fn get_str<K: ToYaml>(&self, k: K) -> (r: Option<&str>)
        ensures
            match r {
                Some(text) => str_under(self.entries_of(), k.yaml()) == Some(text@),
                None => str_under(self.entries_of(), k.yaml()) is None,
            },
    ;

    fn get_string<K: ToYaml>(&self, k: K) -> (r: Option<String>)
        ensures
            match r {
                Some(text) => str_under(self.entries_of(), k.yaml()) == Some(text@),
                None => str_under(self.entries_of(), k.yaml()) is None,
            },
    {
        match self.get_str(k) {
            Some(text) => Some(text.to_owned()),
            None => None,
        }
    }

    fn get_hash<K: ToYaml>(&self, k: K) -> (r: Option<&Mapping>)
        ensures
            match r {
                Some(inner) => hash_under(self.entries_of(), k.yaml()) == Some(inner@),
                None => hash_under(self.entries_of(), k.yaml()) is None,
            },
    ;

    /// The entries of the mapping under `k`, in the order of their insertion;
    /// none where the key is missing or its value is no mapping.
    fn hash_iter<'a, K: ToYaml>(&'a self, k: K) -> (r: HashIter<'a>)
        ensures
            pair_views(r@) == match hash_under(self.entries_of(), k.yaml()) {
                Some(inner) => inner,
                None => Seq::empty(),
            },
    ;

    fn get_vec<K: ToYaml>(&self, k: K) -> (r: Option<&Vec<Yaml>>)
        ensures
            match r {
                Some(items) => vec_under(self.entries_of(), k.yaml()) == Some(yaml_views(items@)),
                None => vec_under(self.entries_of(), k.yaml()) is None,
            },
    ;

    /// A walk over the strings of the field under `k`, which may be written
    /// as one string or as a sequence of strings.
    fn str_vec_iter<'a, K: ToYaml>(&'a self, k: K) -> (r: OverStringIter<'a>)
        ensures
            r.remaining() == strings_under(self.entries_of(), k.yaml()),
    ;
}

impl GetVal for Mapping {
    open spec fn entries_of(&self) -> Seq<(YamlView, YamlView)> {
        self@
    }

    fn get_bool<K: ToYaml>(&self, k: K) -> (r: Option<bool>) {
        match self.get(&k.to_yaml()) {
            Some(value) => parse_bool(value),
            None => None,
        }
    }

    fn get_i64<K: ToYaml>(&self, k: K) -> (r: Option<i64>) {
        match self.get(&k.to_yaml()) {
            Some(value) => parse_i64(value),
            None => None,
        }
    }

    fn get_str<K: ToYaml>(&self, k: K) -> (r: Option<&str>) {
        match self.get(&k.to_yaml()) {
            Some(Yaml::String(text)) => Some(text.as_str()),
            _ => None,
        }
    }

    fn get_hash<K: ToYaml>(&self, k: K) -> (r: Option<&Mapping>) {
        match self.get(&k.to_yaml()) {
            Some(Yaml::Hash(inner)) => Some(inner),
            _ => None,
        }
    }

    fn hash_iter<'a, K: ToYaml>(&'a self, k: K) -> (r: HashIter<'a>) {
        match self.get_hash(k) {
            Some(inner) => inner.entries(),
            None => {
                let none: HashIter<'a> = Vec::new();
                none
            },
        }
    }

    fn get_vec<K: ToYaml>(&self, k: K) -> (r: Option<&Vec<Yaml>>) {
        match self.get(&k.to_yaml()) {
            Some(Yaml::Array(items)) => {
                proof {
                    lemma_array_view(*items);
                }
                Some(items)
            },
            _ => None,
        }
    }

    fn str_vec_iter<'a, K: ToYaml>(&'a self, k: K) -> (r: OverStringIter<'a>) {
        OverStringIter { value: self.get(&k.to_yaml()), position: None }
    }
}

/// A key whose value cannot be read as the type that is asked for gives what
/// a missing key gives: nothing.
pub proof fn unreadable_value_is_missing_key(entries: Seq<(YamlView, YamlView)>, key: YamlView)
    ensures
        lookup(entries, key) is None ==> {
            &&& int_under(entries, key) is None
            &&& bool_under(entries, key) is None
            &&& str_under(entries, key) is None
            &&& hash_under(entries, key) is None
            &&& vec_under(entries, key) is None
            &&& strings_under(entries, key).len() == 0
        },
        lookup(entries, key) matches Some(value) ==> {
            &&& int_of(value) is None ==> int_under(entries, key) is None
            &&& bool_of(value) is None ==> bool_under(entries, key) is None
            &&& !(value is String) ==> str_under(entries, key) is None
            &&& !(value is Hash) ==> hash_under(entries, key) is None
            &&& !(value is Array) ==> vec_under(entries, key) is None
            &&& !(value is String) && !(value is Array) ==> strings_under(entries, key).len() == 0
        },
{
}

/// A sequence that holds strings only hands out every one of them, in order.
pub proof fn strings_of_string_sequence(texts: Seq<Seq<char>>)
    ensures
        strings_of(YamlView::Array(texts.map_values(|text: Seq<char>| YamlView::String(text))))
            == texts,
    decreases texts.len(),
{
    let items = texts.map_values(|text: Seq<char>| YamlView::String(text));
    if texts.len() > 0 {
        strings_of_string_sequence(texts.drop_first());
        assert(items.drop_first() =~= texts.drop_first().map_values(
            |text: Seq<char>| YamlView::String(text),
        ));
    }
}

/// A field written as one string holds that string and no other, and a field
/// that is neither a string nor a sequence holds none.
pub proof fn strings_of_other_shapes(value: YamlView)
    ensures
        value matches YamlView::String(text) ==> strings_of(value) == seq![text],
        !(value is String) && !(value is Array) ==> strings_of(value) == Seq::<Seq<char>>::empty(),
{
}

} // verus!
