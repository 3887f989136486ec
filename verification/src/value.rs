use std::rc::Rc;
use vstd::prelude::*;
use crate::kind::ConfigEntryOperationKind;
use crate::model::{DictView, EntryView, SchemaView, ValueView};

verus! {

/// A shared handle to a value: the unit of ownership. Several handles may
/// show one payload. A handle that is changed takes the payload for itself
/// first, moving it out where it is the only handle and copying it where it
/// is not, so that no other handle sees the change.
#[derive(Debug)]
pub struct ValueRef {
    pub rc: Rc<Value>,
}

/// The payload of a handle: a scalar, a list, a dictionary or a schema
/// instance. A float is held by its bit pattern.
#[allow(non_camel_case_types)]
#[derive(Debug)]
pub enum Value {
    undefined,
    none,
    bool_value(bool),
    int_value(i64),
    float_value(u64),
    str_value(String),
    list_value(Vec<ValueRef>),
    dict_value(Rc<DictValue>),
    schema_value(SchemaValue),
}

/// One attribute of a table: its name, its value, the operation it was
/// declared with and its insert position. An attribute that was set without
/// them is read with `Union` and -1, no explicit position.
#[derive(Debug)]
pub struct DictEntry {
    pub key: String,
    pub value: ValueRef,
    pub op: ConfigEntryOperationKind,
    pub insert_index: i32,
}

/// An ordered attribute table: the attributes in insertion order, found by
/// name, and the declared type of each attribute that has one. No name
/// occurs twice; an operation or position is held only for a name that has
/// a value.
#[derive(Debug)]
pub struct DictValue {
    pub(crate) entries: Vec<DictEntry>,
    pub(crate) attr_map: Vec<(String, String)>,
}

/// A schema instance: a name and package path, the attribute names that the
/// schema declares, and the table of the attributes that are set. The table
/// is shared with the dictionary views of the instance.
#[derive(Debug)]
pub struct SchemaValue {
    pub name: String,
    pub pkgpath: String,
    pub config: Rc<DictValue>,
    pub config_keys: Vec<String>,
}

impl ValueRef {
    /// The value that the handle shows.
    pub open spec fn view(&self) -> ValueView
        decreases self,
    {
        self.rc.view()
    }
}

impl Value {
    /// The value that the payload is.
    pub open spec fn view(&self) -> ValueView
        decreases self,
    {
        match *self {
            Value::undefined => ValueView::Undefined,
            Value::none => ValueView::NoneValue,
            Value::bool_value(b) => ValueView::Bool(b),
            Value::int_value(i) => ValueView::Int(i),
            Value::float_value(bits) => ValueView::Float(bits),
            Value::str_value(s) => ValueView::Str(s@),
            Value::list_value(items) => ValueView::List(
                Seq::new(
                    items@.len(),
                    |i: int|
                        if 0 <= i < items@.len() {
                            items@[i].view()
                        } else {
                            ValueView::Undefined
                        },
                ),
            ),
            Value::dict_value(d) => ValueView::Dict(d.view()),
            Value::schema_value(s) => ValueView::Schema(s.view()),
        }
    }
}

impl DictEntry {
    /// The attribute that the entry is.
    pub open spec fn view(&self) -> EntryView
        decreases self,
    {
        EntryView {
            key: self.key@,
            value: self.value.view(),
            op: self.op,
            insert_index: self.insert_index,
        }
    }
}

impl DictValue {
    /// The table: the attributes and the declared types, each in its order.
    pub closed spec fn view(&self) -> DictView
        decreases self,
    {
        DictView {
            entries: Seq::new(
                self.entries@.len(),
                |i: int|
                    if 0 <= i < self.entries@.len() {
                        self.entries@[i].view()
                    } else {
                        EntryView::plain(Seq::empty(), ValueView::Undefined)
                    },
            ),
            attr_map: Seq::new(
                self.attr_map@.len(),
                |i: int| (self.attr_map@[i].0@, self.attr_map@[i].1@),
            ),
        }
    }

    /// No name occurs twice.
    #[verifier::type_invariant]
    pub(crate) open spec fn inv(&self) -> bool {
        self.view().wf()
    }

    /// The view, attribute by attribute.
    pub(crate) proof fn lemma_view(&self)
        ensures
            self@.entries.len() == self.entries@.len(),
            forall|i: int|
                0 <= i < self.entries@.len() ==> #[trigger] self@.entries[i]
                    == self.entries@[i]@,
            self@.attr_map.len() == self.attr_map@.len(),
            forall|i: int|
                0 <= i < self.attr_map@.len() ==> #[trigger] self@.attr_map[i] == (
                    self.attr_map@[i].0@,
                    self.attr_map@[i].1@,
                ),
    {
    }

    /// No two of the attributes have the same name.
    pub(crate) open spec fn unique_keys(entries: Seq<DictEntry>) -> bool {
        forall|i: int, j: int|
            0 <= i < j < entries.len() ==> (#[trigger] entries[i]).key@ != (
            #[trigger] entries[j]).key@
    }

    /// No two of the declared types are for the same name.
    pub(crate) open spec fn unique_names(attr_map: Seq<(String, String)>) -> bool {
        forall|i: int, j: int|
            0 <= i < j < attr_map.len() ==> (#[trigger] attr_map[i]).0@ != (
            #[trigger] attr_map[j]).0@
    }

    /// What the type's invariant says of the parts.
    pub(crate) proof fn lemma_parts_unique(&self)
        requires
            self.inv(),
        ensures
            Self::unique_keys(self.entries@),
            Self::unique_names(self.attr_map@),
    {
        assert forall|i: int, j: int| 0 <= i < j < self.entries@.len() implies (
        #[trigger] self.entries@[i]).key@ != (#[trigger] self.entries@[j]).key@ by {
            assert(self@.entries[i].key == self.entries@[i].key@);
            assert(self@.entries[j].key == self.entries@[j].key@);
        }
        assert forall|i: int, j: int| 0 <= i < j < self.attr_map@.len() implies (
        #[trigger] self.attr_map@[i]).0@ != (#[trigger] self.attr_map@[j]).0@ by {
            assert(self@.attr_map[i].0 == self.attr_map@[i].0@);
            assert(self@.attr_map[j].0 == self.attr_map@[j].0@);
        }
    }

    /// A table from its parts, which hold no name twice.
    pub(crate) fn from_parts(entries: Vec<DictEntry>, attr_map: Vec<(String, String)>) -> (d:
        DictValue)
        requires
            Self::unique_keys(entries@),
            Self::unique_names(attr_map@),
        ensures
            d.entries == entries,
            d.attr_map == attr_map,
    {
        let ghost d = DictValue { entries, attr_map };
        proof {
            assert forall|i: int, j: int| 0 <= i < j < d@.entries.len() implies (
            #[trigger] d@.entries[i]).key != (#[trigger] d@.entries[j]).key by {
                assert(d@.entries[i].key == entries@[i].key@);
                assert(d@.entries[j].key == entries@[j].key@);
            }
            assert forall|i: int, j: int| 0 <= i < j < d@.attr_map.len() implies (
            #[trigger] d@.attr_map[i]).0 != (#[trigger] d@.attr_map[j]).0 by {
                assert(d@.attr_map[i].0 == attr_map@[i].0@);
                assert(d@.attr_map[j].0 == attr_map@[j].0@);
            }
        }
        DictValue { entries, attr_map }
    }
}

impl SchemaValue {
    /// The schema instance that this is.
    pub open spec fn view(&self) -> SchemaView
        decreases self,
    {
        SchemaView {
            name: self.name@,
            pkgpath: self.pkgpath@,
            config: self.config.view(),
            config_keys: Seq::new(self.config_keys@.len(), |i: int| self.config_keys@[i]@),
        }
    }
}

} // verus!
