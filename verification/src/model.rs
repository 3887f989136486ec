//! The mathematical model of values: what a value is, apart from how it is
//! stored and shared.
use vstd::prelude::*;
use crate::kind::{ConfigEntryOperationKind, NO_INSERT_INDEX};

verus! {

/// One attribute of a table: its name, its value, the operation it was
/// declared with and its insert position.
pub struct EntryView {
    pub key: Seq<char>,
    pub value: ValueView,
    pub op: ConfigEntryOperationKind,
    pub insert_index: i32,
}

/// An attribute table: the attributes in insertion order, and the declared
/// type of each attribute that has one.
pub struct DictView {
    pub entries: Seq<EntryView>,
    pub attr_map: Seq<(Seq<char>, Seq<char>)>,
}

/// A schema instance: identity, declared attribute names, attribute table.
pub struct SchemaView {
    pub name: Seq<char>,
    pub pkgpath: Seq<char>,
    pub config: DictView,
    pub config_keys: Seq<Seq<char>>,
}

/// A value. A float is held by its bit pattern.
pub enum ValueView {
    Undefined,
    NoneValue,
    Bool(bool),
    Int(i64),
    Float(u64),
    Str(Seq<char>),
    List(Seq<ValueView>),
    Dict(DictView),
    Schema(SchemaView),
}

impl EntryView {
    /// An attribute with no recorded operation or position.
    pub open spec fn plain(key: Seq<char>, value: ValueView) -> EntryView {
        EntryView {
            key,
            value,
            op: ConfigEntryOperationKind::Union,
            insert_index: NO_INSERT_INDEX,
        }
    }
}

impl DictView {
    /// The table without attributes.
    pub open spec fn empty() -> DictView {
        DictView { entries: Seq::empty(), attr_map: Seq::empty() }
    }

    /// The attribute names, in insertion order.
    pub open spec fn keys(self) -> Seq<Seq<char>> {
        Seq::new(self.entries.len(), |i: int| self.entries[i].key)
    }

    /// The attribute values, in insertion order.
    pub open spec fn values(self) -> Seq<ValueView> {
        Seq::new(self.entries.len(), |i: int| self.entries[i].value)
    }

    /// No name occurs twice, among the attributes or among the declared types.
    pub open spec fn wf(self) -> bool {
        &&& forall|i: int, j: int|
            0 <= i < j < self.entries.len() ==> (#[trigger] self.entries[i]).key != (
            #[trigger] self.entries[j]).key
        &&& forall|i: int, j: int|
            0 <= i < j < self.attr_map.len() ==> (#[trigger] self.attr_map[i]).0 != (
            #[trigger] self.attr_map[j]).0
    }

    pub open spec fn contains_key(self, key: Seq<char>) -> bool {
        exists|i: int| 0 <= i < self.entries.len() && (#[trigger] self.entries[i]).key == key
    }

    /// The position of `key`, where the table holds it.
    pub open spec fn index_of(self, key: Seq<char>) -> int {
        choose|i: int| 0 <= i < self.entries.len() && (#[trigger] self.entries[i]).key == key
    }

    /// The attribute named `key`.
    pub open spec fn get(self, key: Seq<char>) -> Option<EntryView> {
        if self.contains_key(key) {
            Some(self.entries[self.index_of(key)])
        } else {
            None
        }
    }

    /// The value of the attribute named `key`.
    pub open spec fn value_of(self, key: Seq<char>) -> Option<ValueView> {
        match self.get(key) {
            Some(e) => Some(e.value),
            None => None,
        }
    }

    /// The `values` map: from each name to its value.
    pub open spec fn values_map(self) -> Map<Seq<char>, ValueView> {
        Map::new(|k: Seq<char>| self.contains_key(k), |k: Seq<char>| self.get(k).unwrap().value)
    }

    /// The `ops` map: from each name to its operation.
    pub open spec fn ops_map(self) -> Map<Seq<char>, ConfigEntryOperationKind> {
        Map::new(|k: Seq<char>| self.contains_key(k), |k: Seq<char>| self.get(k).unwrap().op)
    }

    /// The `insert_indexs` map: from each name to its insert position.
    pub open spec fn insert_indexs_map(self) -> Map<Seq<char>, i32> {
        Map::new(
            |k: Seq<char>| self.contains_key(k),
            |k: Seq<char>| self.get(k).unwrap().insert_index,
        )
    }

    /// The table with other attributes, and the same declared types.
    pub open spec fn with_entries(self, entries: Seq<EntryView>) -> DictView {
        DictView { entries, attr_map: self.attr_map }
    }

    /// Sets the value of `key` and leaves its operation and position alone;
    /// a new name is added at the end, with no operation or position.
    pub open spec fn set_value(self, key: Seq<char>, value: ValueView) -> DictView {
        if self.contains_key(key) {
            let i = self.index_of(key);
            self.with_entries(
                self.entries.update(i, EntryView { value, ..self.entries[i] }),
            )
        } else {
            self.with_entries(self.entries.push(EntryView::plain(key, value)))
        }
    }

    /// Sets value, operation and position of `e.key` at once; a new name is
    /// added at the end.
    pub open spec fn set_entry(self, e: EntryView) -> DictView {
        if self.contains_key(e.key) {
            self.with_entries(self.entries.update(self.index_of(e.key), e))
        } else {
            self.with_entries(self.entries.push(e))
        }
    }

    /// Removes the attribute named `key`, with its operation and position;
    /// the others keep their order.
    pub open spec fn remove(self, key: Seq<char>) -> DictView {
        if self.contains_key(key) {
            self.with_entries(self.entries.remove(self.index_of(key)))
        } else {
            self
        }
    }

    /// Removes every attribute; the declared types stay.
    pub open spec fn clear(self) -> DictView {
        self.with_entries(Seq::empty())
    }

    /// Sets the values of the first `n` attributes of `other`, in their order.
    pub open spec fn update_values_upto(self, other: Seq<EntryView>, n: nat) -> DictView
        decreases n,
    {
        if n == 0 {
            self
        } else {
            self.update_values_upto(other, (n - 1) as nat).set_value(
                other[n - 1].key,
                other[n - 1].value,
            )
        }
    }

    /// Sets the value of every attribute of `other`, in their order: the last
    /// writer wins, operations and positions are not touched.
    pub open spec fn update_values(self, other: DictView) -> DictView {
        self.update_values_upto(other.entries, other.entries.len())
    }

    /// Sets every attribute of `other` whole, the first `n` of them.
    pub open spec fn update_entries_upto(self, other: Seq<EntryView>, n: nat) -> DictView
        decreases n,
    {
        if n == 0 {
            self
        } else {
            self.update_entries_upto(other, (n - 1) as nat).set_entry(other[n - 1])
        }
    }

    /// Sets every attribute of `other` whole (value, operation, position), in
    /// their order.
    pub open spec fn update_entries(self, other: DictView) -> DictView {
        self.update_entries_upto(other.entries, other.entries.len())
    }

    /// The attributes of `self` named by the first `n` of `keys`, each with
    /// its operation and position, in a table of their own.
    pub open spec fn project_upto(self, keys: Seq<Seq<char>>, n: nat) -> DictView
        decreases n,
    {
        if n == 0 {
            DictView::empty()
        } else {
            let sofar = self.project_upto(keys, (n - 1) as nat);
            match self.get(keys[n - 1]) {
                Some(e) => sofar.set_entry(e),
                None => sofar,
            }
        }
    }

    /// The attributes of `self` that `keys` names; names that `self` lacks
    /// are passed over.
    pub open spec fn project(self, keys: Seq<Seq<char>>) -> DictView {
        self.project_upto(keys, keys.len())
    }

    /// The table that setting each pair in turn builds, from the first `n`.
    pub open spec fn from_pairs_upto(pairs: Seq<(Seq<char>, ValueView)>, n: nat) -> DictView
        decreases n,
    {
        if n == 0 {
            DictView::empty()
        } else {
            Self::from_pairs_upto(pairs, (n - 1) as nat).set_value(pairs[n - 1].0, pairs[n - 1].1)
        }
    }

    /// The table that setting each pair in turn builds: a name that occurs
    /// twice keeps its first place and its last value.
    pub open spec fn from_pairs(pairs: Seq<(Seq<char>, ValueView)>) -> DictView {
        Self::from_pairs_upto(pairs, pairs.len())
    }

    /// Where the declared types hold `name`.
    pub open spec fn attr_index(self, name: Seq<char>) -> Option<int> {
        if exists|i: int| 0 <= i < self.attr_map.len() && (#[trigger] self.attr_map[i]).0 == name {
            Some(
                choose|i: int|
                    0 <= i < self.attr_map.len() && (#[trigger] self.attr_map[i]).0 == name,
            )
        } else {
            None
        }
    }

    /// The declared type of the attribute `name`.
    pub open spec fn attr_type(self, name: Seq<char>) -> Option<Seq<char>> {
        match self.attr_index(name) {
            Some(i) => Some(self.attr_map[i].1),
            None => None,
        }
    }

    /// Declares the type of the attribute `name`.
    pub open spec fn set_attr_type(self, name: Seq<char>, type_str: Seq<char>) -> DictView {
        match self.attr_index(name) {
            Some(i) => DictView {
                entries: self.entries,
                attr_map: self.attr_map.update(i, (name, type_str)),
            },
            None => DictView {
                entries: self.entries,
                attr_map: self.attr_map.push((name, type_str)),
            },
        }
    }
}

impl ValueView {
    pub open spec fn is_none_or_undefined(self) -> bool {
        self is NoneValue || self is Undefined
    }

    /// A dictionary or a schema instance.
    pub open spec fn is_config(self) -> bool {
        self is Dict || self is Schema
    }

    /// The attribute table of a dictionary or schema instance.
    pub open spec fn config(self) -> DictView
        recommends
            self.is_config(),
    {
        match self {
            ValueView::Dict(d) => d,
            ValueView::Schema(s) => s.config,
            _ => DictView::empty(),
        }
    }

    /// The same dictionary or schema instance around another attribute table.
    pub open spec fn with_config(self, config: DictView) -> ValueView
        recommends
            self.is_config(),
    {
        match self {
            ValueView::Schema(s) => ValueView::Schema(SchemaView { config, ..s }),
            _ => ValueView::Dict(config),
        }
    }

    /// The truth value: a boolean is itself, a number is true unless it is
    /// zero, a string, list or table unless it is empty.
    pub open spec fn truth(self) -> bool {
        match self {
            ValueView::Undefined => false,
            ValueView::NoneValue => false,
            ValueView::Bool(b) => b,
            ValueView::Int(i) => i != 0,
            ValueView::Float(bits) => bits != 0 && bits != 0x8000_0000_0000_0000u64,
            ValueView::Str(s) => s.len() != 0,
            ValueView::List(items) => items.len() != 0,
            ValueView::Dict(d) => d.entries.len() != 0,
            ValueView::Schema(s) => s.config.entries.len() != 0,
        }
    }

    /// The name of the value's type, as failures report it.
    pub open spec fn type_str(self) -> Seq<char> {
        match self {
            ValueView::Undefined => "UndefinedType"@,
            ValueView::NoneValue => "NoneType"@,
            ValueView::Bool(_) => "bool"@,
            ValueView::Int(_) => "int"@,
            ValueView::Float(_) => "float"@,
            ValueView::Str(_) => "str"@,
            ValueView::List(_) => "list"@,
            ValueView::Dict(_) => "dict"@,
            ValueView::Schema(s) => s.name,
        }
    }
}

} // verus!
