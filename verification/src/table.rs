//! The attribute table and its primitives.
use vstd::prelude::*;
use crate::kind::{ConfigEntryOperationKind, NO_INSERT_INDEX};
use crate::model::{DictView, ValueView};
use crate::value::{DictEntry, DictValue, Value, ValueRef};

verus! {

impl DictValue {
    /// The table without attributes.
    pub fn empty() -> (d: DictValue)
        ensures
            d@ == DictView::empty(),
    {
        let d = DictValue::from_parts(Vec::new(), Vec::new());
        proof {
            d.lemma_view();
            assert(d@.entries =~= Seq::empty());
            assert(d@.attr_map =~= Seq::empty());
        }
        d
    }

    /// A table of the given attributes, later ones replacing earlier ones of
    /// the same name.
    pub fn new(values: &[(&str, &ValueRef)]) -> (d: DictValue)
        ensures
            d@ == DictView::from_pairs(Seq::new(values@.len(), |i: int| (values@[i].0@, values@[i].1@))),
    {
        let ghost pairs = Seq::new(values@.len(), |i: int| (values@[i].0@, values@[i].1@));
        let mut dict = DictValue::empty();
        let mut i: usize = 0;
        while i < values.len()
            invariant
                0 <= i <= values@.len(),
                pairs == Seq::new(values@.len(), |i: int| (values@[i].0@, values@[i].1@)),
                dict@ == DictView::from_pairs_upto(pairs, i as nat),
            decreases values@.len() - i,
        {
            dict.set_value(values[i].0, values[i].1.clone());
            i += 1;
        }
        dict
    }

    /// Sets the value of `key`, leaving its operation and position alone; a
    /// new name is added at the end.
    pub fn set_value(&mut self, key: &str, value: ValueRef)
        ensures
            final(self)@ == old(self)@.set_value(key@, value@),
    {
        let k = key.to_owned();
        let pos = self.position(&k);
        proof {
            self.lemma_view();
            use_type_invariant(&*self);
            self.lemma_parts_unique();
        }
        let (mut entries, attr_map) = self.take_parts();
        let ghost before = entries@;
        match pos {
            Some(i) => {
                let e = &entries[i];
                let entry = DictEntry { key: k, value, op: e.op, insert_index: e.insert_index };
                entries[i] = entry;
                proof {
                    assert(before[i as int].key@ == key@);
                    assert forall|a: int, b: int| 0 <= a < b < entries@.len() implies (
                    #[trigger] entries@[a]).key@ != (#[trigger] entries@[b]).key@ by {
                        assert(entries@[a].key@ == before[a].key@);
                        assert(entries@[b].key@ == before[b].key@);
                    }
                }
            },
            None => {
                entries.push(
                    DictEntry {
                        key: k,
                        value,
                        op: ConfigEntryOperationKind::Union,
                        insert_index: NO_INSERT_INDEX,
                    },
                );
                proof {
                    assert forall|a: int, b: int| 0 <= a < b < entries@.len() implies (
                    #[trigger] entries@[a]).key@ != (#[trigger] entries@[b]).key@ by {
                        assert(entries@[a] == before[a]);
                        assert(old(self)@.entries[a].key == before[a].key@);
                        if b < before.len() {
                            assert(entries@[b] == before[b]);
                        }
                    }
                }
            },
        }
        *self = DictValue::from_parts(entries, attr_map);
        proof {
            self.lemma_view();
            assert(self@.entries =~= old(self)@.set_value(key@, value@).entries);
            assert(self@.attr_map =~= old(self)@.set_value(key@, value@).attr_map);
        }
    }

    /// Sets value, operation and position of the attribute `entry.key` at
    /// once; a new name is added at the end.
    pub fn set_entry(&mut self, entry: DictEntry)
        ensures
            final(self)@ == old(self)@.set_entry(entry@),
    {
        let pos = self.position(&entry.key);
        proof {
            self.lemma_view();
            use_type_invariant(&*self);
            self.lemma_parts_unique();
        }
        let (mut entries, attr_map) = self.take_parts();
        let ghost before = entries@;
        match pos {
            Some(i) => {
                entries[i] = entry;
                proof {
                    assert(before[i as int].key@ == entry.key@);
                    assert forall|a: int, b: int| 0 <= a < b < entries@.len() implies (
                    #[trigger] entries@[a]).key@ != (#[trigger] entries@[b]).key@ by {
                        assert(entries@[a].key@ == before[a].key@);
                        assert(entries@[b].key@ == before[b].key@);
                    }
                }
            },
            None => {
                entries.push(entry);
                proof {
                    assert forall|a: int, b: int| 0 <= a < b < entries@.len() implies (
                    #[trigger] entries@[a]).key@ != (#[trigger] entries@[b]).key@ by {
                        assert(entries@[a] == before[a]);
                        assert(old(self)@.entries[a].key == before[a].key@);
                        if b < before.len() {
                            assert(entries@[b] == before[b]);
                        }
                    }
                }
            },
        }
        *self = DictValue::from_parts(entries, attr_map);
        proof {
            self.lemma_view();
            assert(self@.entries =~= old(self)@.set_entry(entry@).entries);
            assert(self@.attr_map =~= old(self)@.set_entry(entry@).attr_map);
        }
    }

    /// Removes the attribute `key` with its operation and position; the
    /// others keep their order.
    pub fn remove(&mut self, key: &str)
        ensures
            final(self)@ == old(self)@.remove(key@),
    {
        let k = key.to_owned();
        let pos = self.position(&k);
        proof {
            self.lemma_view();
            use_type_invariant(&*self);
            self.lemma_parts_unique();
        }
        if let Some(i) = pos {
            let (mut entries, attr_map) = self.take_parts();
            let ghost before = entries@;
            let _ = entries.remove(i);
            proof {
                assert forall|a: int, b: int| 0 <= a < b < entries@.len() implies (
                #[trigger] entries@[a]).key@ != (#[trigger] entries@[b]).key@ by {
                    let a0 = if a < i { a } else { a + 1 };
                    let b0 = if b < i { b } else { b + 1 };
                    assert(entries@[a] == before[a0]);
                    assert(entries@[b] == before[b0]);
                }
            }
            *self = DictValue::from_parts(entries, attr_map);
            proof {
                self.lemma_view();
                assert forall|a: int| 0 <= a < self@.entries.len() implies self@.entries[a]
                    == old(self)@.remove(key@).entries[a] by {
                    let a0 = if a < i { a } else { a + 1 };
                    assert(entries@[a] == before[a0]);
                }
                assert(self@.entries =~= old(self)@.remove(key@).entries);
                assert(self@.attr_map =~= old(self)@.remove(key@).attr_map);
            }
        }
    }

    /// Removes every attribute, with its operation and position.
    pub fn clear(&mut self)
        ensures
            final(self)@ == old(self)@.clear(),
    {
        proof {
            self.lemma_view();
            use_type_invariant(&*self);
            self.lemma_parts_unique();
        }
        let (_, attr_map) = self.take_parts();
        *self = DictValue::from_parts(Vec::new(), attr_map);
        proof {
            self.lemma_view();
            assert(self@.entries =~= old(self)@.clear().entries);
            assert(self@.attr_map =~= old(self)@.clear().attr_map);
        }
    }

    /// The attribute at position `i`.
    pub fn entry_at(&self, i: usize) -> (e: &DictEntry)
        requires
            i < self@.entries.len(),
        ensures
            e@ == self@.entries[i as int],
    {
        proof {
            self.lemma_view();
        }
        &self.entries[i]
    }

    /// Whether the table holds an attribute named `key`.
    pub fn contains_key(&self, key: &str) -> (b: bool)
        ensures
            b == self@.contains_key(key@),
    {
        let k = key.to_owned();
        self.position(&k).is_some()
    }

    /// The attribute named `key`.
    pub fn get_entry(&self, key: &str) -> (r: Option<&DictEntry>)
        ensures
            match r {
                Some(e) => self@.get(key@) == Some(e@),
                None => self@.get(key@) is None,
            },
    {
        let k = key.to_owned();
        proof {
            self.lemma_view();
        }
        match self.position(&k) {
            Some(i) => Some(&self.entries[i]),
            None => None,
        }
    }

    /// The value of the attribute named `key`.
    pub fn get_value(&self, key: &str) -> (r: Option<&ValueRef>)
        ensures
            match r {
                Some(v) => self@.value_of(key@) == Some(v@),
                None => self@.value_of(key@) is None,
            },
    {
        match self.get_entry(key) {
            Some(e) => Some(&e.value),
            None => None,
        }
    }

    /// The value of the attribute that the string `key` names; nothing where
    /// `key` is no string.
    pub fn get(&self, key: &ValueRef) -> (r: Option<&ValueRef>)
        ensures
            match r {
                Some(v) => key@ is Str && self@.value_of(key@->Str_0) == Some(v@),
                None => key@ is Str ==> self@.value_of(key@->Str_0) is None,
            },
    {
        match &*key.rc {
            Value::str_value(s) => self.get_value(s.as_str()),
            _ => None,
        }
    }

    /// Sets the value of the attribute that the string `key` names; does
    /// nothing where `key` is no string.
    pub fn insert(&mut self, key: &ValueRef, value: &ValueRef)
        ensures
            final(self)@ == (match key@ {
                ValueView::Str(s) => old(self)@.set_value(s, value@),
                _ => old(self)@,
            }),
    {
        if let Value::str_value(s) = &*key.rc {
            self.set_value(s.as_str(), value.clone());
        }
    }

    /// Sets the value of every attribute of `other`, in their order: the last
    /// writer wins, operations and positions are not touched.
    pub fn update_values(&mut self, other: &DictValue)
        ensures
            final(self)@ == old(self)@.update_values(other@),
    {
        proof {
            other.lemma_view();
        }
        let mut i: usize = 0;
        while i < other.entries.len()
            invariant
                0 <= i <= other.entries@.len(),
                other@.entries.len() == other.entries@.len(),
                forall|j: int|
                    0 <= j < other.entries@.len() ==> #[trigger] other@.entries[j]
                        == other.entries@[j]@,
                self@ == old(self)@.update_values_upto(other@.entries, i as nat),
            decreases other.entries@.len() - i,
        {
            let e = &other.entries[i];
            self.set_value(e.key.as_str(), e.value.clone());
            i += 1;
        }
    }

    /// Sets every attribute of `other` whole: value, operation and position.
    pub fn update_entries(&mut self, other: &DictValue)
        ensures
            final(self)@ == old(self)@.update_entries(other@),
    {
        proof {
            other.lemma_view();
        }
        let mut i: usize = 0;
        while i < other.entries.len()
            invariant
                0 <= i <= other.entries@.len(),
                other@.entries.len() == other.entries@.len(),
                forall|j: int|
                    0 <= j < other.entries@.len() ==> #[trigger] other@.entries[j]
                        == other.entries@[j]@,
                self@ == old(self)@.update_entries_upto(other@.entries, i as nat),
            decreases other.entries@.len() - i,
        {
            self.set_entry(other.entries[i].clone());
            i += 1;
        }
    }

    /// Unpacks the dictionary `v` into the table: every value of `v` is set,
    /// the last writer wins, operations and positions are not touched. Does
    /// nothing where `v` is no dictionary.
    pub fn insert_unpack(&mut self, v: &ValueRef)
        ensures
            final(self)@ == (match v@ {
                ValueView::Dict(d) => old(self)@.update_values(d),
                _ => old(self)@,
            }),
    {
        if let Value::dict_value(b) = &*v.rc {
            self.update_values(b);
        }
    }

    /// The attribute names, in insertion order.
    pub fn keys(&self) -> (r: Vec<String>)
        ensures
            r@.len() == self@.keys().len(),
            forall|i: int| 0 <= i < r@.len() ==> (#[trigger] r@[i])@ == self@.keys()[i],
    {
        proof {
            self.lemma_view();
        }
        let mut r: Vec<String> = Vec::new();
        let mut i: usize = 0;
        while i < self.entries.len()
            invariant
                0 <= i <= self.entries@.len(),
                r@.len() == i,
                self@.entries.len() == self.entries@.len(),
                forall|j: int|
                    0 <= j < self.entries@.len() ==> #[trigger] self@.entries[j]
                        == self.entries@[j]@,
                forall|j: int| 0 <= j < i ==> (#[trigger] r@[j])@ == self@.entries[j].key,
            decreases self.entries@.len() - i,
        {
            r.push(self.entries[i].key.clone());
            i += 1;
        }
        r
    }

    /// The attribute values, in insertion order.
    pub fn values(&self) -> (r: Vec<ValueRef>)
        ensures
            r@.len() == self@.values().len(),
            forall|i: int| 0 <= i < r@.len() ==> (#[trigger] r@[i])@ == self@.values()[i],
    {
        proof {
            self.lemma_view();
        }
        let mut r: Vec<ValueRef> = Vec::new();
        let mut i: usize = 0;
        while i < self.entries.len()
            invariant
                0 <= i <= self.entries@.len(),
                r@.len() == i,
                self@.entries.len() == self.entries@.len(),
                forall|j: int|
                    0 <= j < self.entries@.len() ==> #[trigger] self@.entries[j]
                        == self.entries@[j]@,
                forall|j: int| 0 <= j < i ==> (#[trigger] r@[j])@ == self@.entries[j].value,
            decreases self.entries@.len() - i,
        {
            r.push(self.entries[i].value.clone());
            i += 1;
        }
        r
    }

    /// Where the declared types hold `name`.
    fn attr_position(&self, name: &String) -> (r: Option<usize>)
        ensures
            match r {
                Some(i) => i < self@.attr_map.len() && self@.attr_map[i as int].0 == name@
                    && self@.attr_type(name@) == Some(self@.attr_map[i as int].1)
                    && self@.attr_index(name@) == Some(i as int),
                None => self@.attr_type(name@) is None && self@.attr_index(name@) is None,
            },
    {
        proof {
            self.lemma_view();
            use_type_invariant(self);
        }
        let mut i: usize = 0;
        while i < self.attr_map.len()
            invariant
                0 <= i <= self.attr_map@.len(),
                self@.wf(),
                self@.attr_map.len() == self.attr_map@.len(),
                forall|j: int|
                    0 <= j < self.attr_map@.len() ==> #[trigger] self@.attr_map[j] == (
                        self.attr_map@[j].0@,
                        self.attr_map@[j].1@,
                    ),
                forall|j: int| 0 <= j < i ==> (#[trigger] self@.attr_map[j]).0 != name@,
            decreases self.attr_map@.len() - i,
        {
            if self.attr_map[i].0 == *name {
                assert(self@.attr_map[i as int].0 == name@);
                return Some(i);
            }
            i += 1;
        }
        None
    }

    /// The declared type of the attribute `name`.
    pub fn attr_type(&self, name: &str) -> (r: Option<&String>)
        ensures
            match r {
                Some(t) => self@.attr_type(name@) == Some(t@),
                None => self@.attr_type(name@) is None,
            },
    {
        let n = name.to_owned();
        proof {
            self.lemma_view();
        }
        match self.attr_position(&n) {
            Some(i) => Some(&self.attr_map[i].1),
            None => None,
        }
    }

    /// Declares the type of the attribute `name`.
    pub fn set_attr_type(&mut self, name: &str, type_str: &str)
        ensures
            final(self)@ == old(self)@.set_attr_type(name@, type_str@),
    {
        let n = name.to_owned();
        let pos = self.attr_position(&n);
        proof {
            self.lemma_view();
            use_type_invariant(&*self);
            self.lemma_parts_unique();
        }
        let (entries, mut attr_map) = self.take_parts();
        let ghost before = attr_map@;
        match pos {
            Some(i) => {
                attr_map[i] = (n, type_str.to_owned());
                proof {
                    assert(before[i as int].0@ == name@);
                    assert forall|a: int, b: int| 0 <= a < b < attr_map@.len() implies (
                    #[trigger] attr_map@[a]).0@ != (#[trigger] attr_map@[b]).0@ by {
                        assert(attr_map@[a].0@ == before[a].0@);
                        assert(attr_map@[b].0@ == before[b].0@);
                    }
                }
            },
            None => {
                attr_map.push((n, type_str.to_owned()));
                proof {
                    assert forall|a: int, b: int| 0 <= a < b < attr_map@.len() implies (
                    #[trigger] attr_map@[a]).0@ != (#[trigger] attr_map@[b]).0@ by {
                        assert(attr_map@[a] == before[a]);
                        assert(old(self)@.attr_map[a].0 == before[a].0@);
                        if b < before.len() {
                            assert(attr_map@[b] == before[b]);
                        }
                    }
                }
            },
        }
        *self = DictValue::from_parts(entries, attr_map);
        proof {
            self.lemma_view();
            assert(self@.entries =~= old(self)@.set_attr_type(name@, type_str@).entries);
            assert(self@.attr_map =~= old(self)@.set_attr_type(name@, type_str@).attr_map);
        }
    }

    /// Takes the parts out and leaves the empty table behind.
    pub(crate) fn take_parts(&mut self) -> (parts: (Vec<DictEntry>, Vec<(String, String)>))
        ensures
            parts.0 == old(self).entries,
            parts.1 == old(self).attr_map,
    {
        let mut taken = DictValue::empty();
        std::mem::swap(self, &mut taken);
        let DictValue { entries, attr_map } = taken;
        (entries, attr_map)
    }

    /// The number of attributes.
    pub fn len(&self) -> (n: usize)
        ensures
            n == self@.entries.len(),
    {
        proof {
            self.lemma_view();
        }
        self.entries.len()
    }

    /// Where the table holds `key`.
    pub fn position(&self, key: &String) -> (r: Option<usize>)
        ensures
            match r {
                Some(i) => self@.contains_key(key@) && i == self@.index_of(key@) && i
                    < self@.entries.len(),
                None => !self@.contains_key(key@),
            },
    {
        proof {
            self.lemma_view();
            use_type_invariant(self);
        }
        let mut i: usize = 0;
        while i < self.entries.len()
            invariant
                0 <= i <= self.entries@.len(),
                self@.wf(),
                self@.entries.len() == self.entries@.len(),
                forall|j: int| 0 <= j < self.entries@.len() ==> #[trigger] self@.entries[j] == self.entries@[j]@,
                forall|j: int| 0 <= j < i ==> (#[trigger] self@.entries[j]).key != key@,
            decreases self.entries@.len() - i,
        {
            if self.entries[i].key == *key {
                assert(self@.entries[i as int].key == key@);
                return Some(i);
            }
            i += 1;
        }
        None
    }
}

} // verus!

verus! {

impl Clone for DictValue {
    /// A table of its own with the same attributes; the values are shared.
    fn clone(&self) -> (r: Self)
        ensures
            r@ == self@,
    {
        proof {
            self.lemma_view();
            use_type_invariant(self);
            self.lemma_parts_unique();
        }
        let mut entries: Vec<DictEntry> = Vec::new();
        let mut i: usize = 0;
        while i < self.entries.len()
            invariant
                0 <= i <= self.entries@.len(),
                entries@.len() == i,
                forall|j: int| 0 <= j < i ==> #[trigger] entries@[j] == self.entries@[j],
            decreases self.entries@.len() - i,
        {
            entries.push(self.entries[i].clone());
            i += 1;
        }
        let mut attr_map: Vec<(String, String)> = Vec::new();
        let mut k: usize = 0;
        while k < self.attr_map.len()
            invariant
                0 <= k <= self.attr_map@.len(),
                attr_map@.len() == k,
                forall|j: int| 0 <= j < k ==> #[trigger] attr_map@[j] == self.attr_map@[j],
            decreases self.attr_map@.len() - k,
        {
            attr_map.push((self.attr_map[k].0.clone(), self.attr_map[k].1.clone()));
            k += 1;
        }
        let r = DictValue::from_parts(entries, attr_map);
        proof {
            r.lemma_view();
            assert(r@.entries =~= self@.entries);
            assert(r@.attr_map =~= self@.attr_map);
        }
        r
    }
}

} // verus!
