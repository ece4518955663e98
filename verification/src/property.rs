//! Property values and the insertion-ordered map that carries them.

use crate::views::option_view;
use vstd::prelude::*;

verus! {

/// The kind of a property value, as the parsed document tags it.
#[derive(Clone, Copy, Debug, PartialEq, Eq, Structural)]
pub enum ValueKind {
    Number,
    Text,
    Array,
    Object,
    Boolean,
    Null,
}

/// A property value as the parsed document delivers it.
///
/// Only numbers and text carry a payload; the other kinds are kept as tags,
/// since nothing but their kind is ever read.
#[derive(Debug, PartialEq, Eq)]
pub enum PropertyValue {
    /// A number, as the bit pattern of its IEEE 754 binary64 value; `None`
    /// where the source number has no such value.
    Number(Option<u64>),
    /// A string.
    Text(String),
    Array,
    Object,
    Boolean,
    Null,
}

/// The mathematical content of a [`PropertyValue`].
pub enum ValueModel {
    Number(Option<u64>),
    Text(Seq<char>),
    Array,
    Object,
    Boolean,
    Null,
}

impl ValueModel {
    /// The kind that tags this value.
    pub open spec fn kind(self) -> ValueKind {
        match self {
            ValueModel::Number(_) => ValueKind::Number,
            ValueModel::Text(_) => ValueKind::Text,
            ValueModel::Array => ValueKind::Array,
            ValueModel::Object => ValueKind::Object,
            ValueModel::Boolean => ValueKind::Boolean,
            ValueModel::Null => ValueKind::Null,
        }
    }
}

impl View for PropertyValue {
    type V = ValueModel;

    open spec fn view(&self) -> ValueModel {
        match self {
            PropertyValue::Number(bits) => ValueModel::Number(*bits),
            PropertyValue::Text(text) => ValueModel::Text(text@),
            PropertyValue::Array => ValueModel::Array,
            PropertyValue::Object => ValueModel::Object,
            PropertyValue::Boolean => ValueModel::Boolean,
            PropertyValue::Null => ValueModel::Null,
        }
    }
}

impl PropertyValue {
    /// The kind that tags this value.
    pub fn kind(&self) -> (kind: ValueKind)
        ensures
            kind == self@.kind(),
    {
        match self {
            PropertyValue::Number(_) => ValueKind::Number,
            PropertyValue::Text(_) => ValueKind::Text,
            PropertyValue::Array => ValueKind::Array,
            PropertyValue::Object => ValueKind::Object,
            PropertyValue::Boolean => ValueKind::Boolean,
            PropertyValue::Null => ValueKind::Null,
        }
    }
}

impl Clone for PropertyValue {
    fn clone(&self) -> (copy: Self)
        ensures
            copy@ == self@,
    {
        match self {
            PropertyValue::Number(bits) => PropertyValue::Number(*bits),
            PropertyValue::Text(text) => PropertyValue::Text(text.clone()),
            PropertyValue::Array => PropertyValue::Array,
            PropertyValue::Object => PropertyValue::Object,
            PropertyValue::Boolean => PropertyValue::Boolean,
            PropertyValue::Null => PropertyValue::Null,
        }
    }
}

/// The mathematical content of a [`PropertyMap`]: its entries, first seen
/// first, each a name and a value.
pub type PropertiesModel = Seq<(Seq<char>, ValueModel)>;

/// The names of the entries, first seen first.
pub open spec fn property_names(entries: PropertiesModel) -> Seq<Seq<char>> {
    Seq::new(entries.len(), |i: int| entries[i].0)
}

/// No two entries bear the same name.
pub open spec fn distinct_names(entries: PropertiesModel) -> bool {
    forall|i: int, j: int|
        0 <= i < j < entries.len() ==> (#[trigger] entries[i]).0 != (#[trigger] entries[j]).0
}

/// Some entry bears the name.
pub open spec fn contains_name(entries: PropertiesModel, name: Seq<char>) -> bool {
    exists|i: int| 0 <= i < entries.len() && (#[trigger] entries[i]).0 == name
}

/// The place of an entry that bears the name, where there is one.
pub open spec fn index_of(entries: PropertiesModel, name: Seq<char>) -> int {
    choose|i: int| 0 <= i < entries.len() && (#[trigger] entries[i]).0 == name
}

/// The value that the name is bound to.
pub open spec fn lookup(entries: PropertiesModel, name: Seq<char>) -> Option<ValueModel> {
    if contains_name(entries, name) {
        Some(entries[index_of(entries, name)].1)
    } else {
        None
    }
}

/// The entries after binding the name to the value: a name already present
/// keeps its place and takes the new value, a new one goes to the end.
pub open spec fn bind(entries: PropertiesModel, name: Seq<char>, value: ValueModel)
    -> PropertiesModel {
    if contains_name(entries, name) {
        entries.update(index_of(entries, name), (name, value))
    } else {
        entries.push((name, value))
    }
}

/// Among distinct names, the entry at `i` is the one that its name finds.
pub proof fn lemma_index_of_entry(entries: PropertiesModel, i: int)
    requires
        distinct_names(entries),
        0 <= i < entries.len(),
    ensures
        contains_name(entries, entries[i].0),
        index_of(entries, entries[i].0) == i,
        lookup(entries, entries[i].0) == Some(entries[i].1),
{
    let name = entries[i].0;
    let j = index_of(entries, name);
    assert(0 <= j < entries.len() && entries[j].0 == name);
    if j < i {
        assert(entries[j].0 != entries[i].0);
    } else if i < j {
        assert(entries[i].0 != entries[j].0);
    }
}

/// Binding keeps the names distinct, and the bound name then finds the value.
pub proof fn lemma_bind(entries: PropertiesModel, name: Seq<char>, value: ValueModel)
    requires
        distinct_names(entries),
    ensures
        distinct_names(bind(entries, name, value)),
        lookup(bind(entries, name, value), name) == Some(value),
        forall|other: Seq<char>|
            other != name ==> lookup(bind(entries, name, value), other) == lookup(entries, other),
{
    let bound = bind(entries, name, value);
    let at = if contains_name(entries, name) {
        index_of(entries, name)
    } else {
        entries.len() as int
    };
    assert(bound[at] == (name, value));
    assert forall|i: int, j: int| 0 <= i < j < bound.len() implies (#[trigger] bound[i]).0 != (
    #[trigger] bound[j]).0 by {
        if i != at && i < entries.len() {
            assert(bound[i] == entries[i]);
        }
        if j != at && j < entries.len() {
            assert(bound[j] == entries[j]);
        }
    }
    lemma_index_of_entry(bound, at);
    assert forall|other: Seq<char>| other != name implies lookup(bound, other) == lookup(
        entries,
        other,
    ) by {
        if contains_name(entries, other) {
            let k = index_of(entries, other);
            assert(bound[k] == entries[k]);
            lemma_index_of_entry(bound, k);
        } else if contains_name(bound, other) {
            let k = index_of(bound, other);
            assert(entries[k].0 == other);
        }
    }
}

/// The properties of one feature: values by name, kept in the order in which
/// the names were first bound. No name occurs twice.
#[derive(Debug, PartialEq, Eq)]
pub struct PropertyMap {
    entries: Vec<(String, PropertyValue)>,
}

impl View for PropertyMap {
    type V = PropertiesModel;

    closed spec fn view(&self) -> PropertiesModel {
        entries_model(self.entries@)
    }
}

/// The content of stored entries.
spec fn entries_model(entries: Seq<(String, PropertyValue)>) -> PropertiesModel {
    Seq::new(entries.len(), |i: int| (entries[i].0@, entries[i].1@))
}

impl PropertyMap {
    #[verifier::type_invariant]
    spec fn well_formed(&self) -> bool {
        distinct_names(self@)
    }

    /// A map without entries.
    pub fn new() -> (map: PropertyMap)
        ensures
            map@ == PropertiesModel::empty(),
    {
        let entries: Vec<(String, PropertyValue)> = Vec::new();
        assert(entries_model(entries@) =~= PropertiesModel::empty());
        PropertyMap { entries }
    }

    /// The number of entries. Their names are distinct.
    pub fn len(&self) -> (count: usize)
        ensures
            count == self@.len(),
            distinct_names(self@),
    {
        proof {
            use_type_invariant(self);
        }
        self.entries.len()
    }

    /// The name of the entry at `index`, counted in order of first binding.
    pub fn name_at(&self, index: usize) -> (name: &String)
        requires
            index < self@.len(),
        ensures
            name@ == self@[index as int].0,
    {
        &self.entries[index].0
    }

    /// The value of the entry at `index`, counted in order of first binding.
    pub fn value_at(&self, index: usize) -> (value: &PropertyValue)
        requires
            index < self@.len(),
        ensures
            value@ == self@[index as int].1,
    {
        &self.entries[index].1
    }

    /// The value that `name` is bound to, if any.
    pub fn get(&self, name: &String) -> (found: Option<&PropertyValue>)
        ensures
            option_view(found) == lookup(self@, name@),
    {
        proof {
            use_type_invariant(self);
        }
        let mut i: usize = 0;
        while i < self.entries.len()
            invariant
                i <= self.entries@.len(),
                distinct_names(self@),
                forall|j: int| 0 <= j < i ==> (#[trigger] self@[j]).0 != name@,
            decreases self.entries@.len() - i,
        {
            if self.entries[i].0 == *name {
                proof {
                    lemma_index_of_entry(self@, i as int);
                }
                return Some(&self.entries[i].1);
            }
            i += 1;
        }
        None
    }

    /// The map with `name` bound to `value`. A name already bound keeps its
    /// place among the entries and takes the new value; a new name goes to the
    /// end.
    pub fn insert(self, name: String, value: PropertyValue) -> (map: PropertyMap)
        ensures
            map@ == bind(self@, name@, value@),
    {
        proof {
            use_type_invariant(&self);
            lemma_bind(self@, name@, value@);
        }
        let ghost before = self@;
        let mut entries = self.entries;
        let mut i: usize = 0;
        while i < entries.len()
            invariant
                i <= entries@.len(),
                before == self@,
                before == entries_model(entries@),
                distinct_names(before),
                distinct_names(bind(before, name@, value@)),
                forall|j: int| 0 <= j < i ==> (#[trigger] before[j]).0 != name@,
            decreases entries@.len() - i,
        {
            if entries[i].0 == name {
                proof {
                    lemma_index_of_entry(before, i as int);
                }
                entries.set(i, (name, value));
                assert(entries_model(entries@) =~= before.update(i as int, (name@, value@)));
                return PropertyMap { entries };
            }
            i += 1;
        }
        entries.push((name, value));
        assert(entries_model(entries@) =~= before.push((name@, value@)));
        PropertyMap { entries }
    }
}

impl Clone for PropertyMap {
    fn clone(&self) -> (copy: Self)
        ensures
            copy@ == self@,
    {
        proof {
            use_type_invariant(self);
        }
        let mut entries: Vec<(String, PropertyValue)> = Vec::new();
        let mut i: usize = 0;
        while i < self.entries.len()
            invariant
                i <= self.entries@.len(),
                entries@.len() == i,
                distinct_names(self@),
                forall|j: int|
                    0 <= j < i ==> (#[trigger] entries@[j]).0@ == self@[j].0 && entries@[j].1@
                        == self@[j].1,
            decreases self.entries@.len() - i,
        {
            entries.push((self.entries[i].0.clone(), self.entries[i].1.clone()));
            i += 1;
        }
        assert(entries_model(entries@) =~= self@);
        PropertyMap { entries }
    }
}

} // verus!
