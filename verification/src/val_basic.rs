//! Building values, telling their kinds apart, reading scalars, copying and
//! comparing.
use std::rc::Rc;
use vstd::prelude::*;
use vstd::std_specs::cmp::PartialEqSpecImpl;
use crate::error::{ErrorView, RuntimeError};
use crate::model::{DictView, ValueView};
use crate::value::{DictEntry, DictValue, SchemaValue, Value, ValueRef};

verus! {

/// `Rc::clone`: a second handle to the allocation that `rc` points to, so
/// both handles show the same payload.
#[verifier::external_body]
pub(crate) fn rc_clone<T>(rc: &Rc<T>) -> (r: Rc<T>)
    ensures
        r == *rc,
{
    Rc::clone(rc)
}

impl Clone for ValueRef {
    /// Another handle to the same value; nothing is copied.
    fn clone(&self) -> (r: Self)
        ensures
            r == *self,
    {
        ValueRef { rc: rc_clone(&self.rc) }
    }
}

impl Clone for DictEntry {
    fn clone(&self) -> (r: Self)
        ensures
            r == *self,
    {
        DictEntry {
            key: self.key.clone(),
            value: self.value.clone(),
            op: self.op,
            insert_index: self.insert_index,
        }
    }
}

impl Clone for SchemaValue {
    /// A schema instance of its own; the attribute table is shared.
    fn clone(&self) -> (r: Self)
        ensures
            r@ == self@,
    {
        let mut config_keys: Vec<String> = Vec::new();
        let mut i: usize = 0;
        while i < self.config_keys.len()
            invariant
                0 <= i <= self.config_keys@.len(),
                config_keys@.len() == i,
                forall|j: int| 0 <= j < i ==> #[trigger] config_keys@[j] == self.config_keys@[j],
            decreases self.config_keys@.len() - i,
        {
            config_keys.push(self.config_keys[i].clone());
            i += 1;
        }
        let r = SchemaValue {
            name: self.name.clone(),
            pkgpath: self.pkgpath.clone(),
            config: rc_clone(&self.config),
            config_keys,
        };
        proof {
            assert(r@.config_keys =~= self@.config_keys);
        }
        r
    }
}

impl Clone for Value {
    /// A payload of its own, one level deep: what it holds is shared.
    fn clone(&self) -> (r: Self)
        ensures
            r@ == self@,
    {
        match self {
            Value::undefined => Value::undefined,
            Value::none => Value::none,
            Value::bool_value(b) => Value::bool_value(*b),
            Value::int_value(i) => Value::int_value(*i),
            Value::float_value(bits) => Value::float_value(*bits),
            Value::str_value(s) => Value::str_value(s.clone()),
            Value::list_value(items) => {
                let mut copy: Vec<ValueRef> = Vec::new();
                let mut i: usize = 0;
                while i < items.len()
                    invariant
                        0 <= i <= items@.len(),
                        copy@.len() == i,
                        forall|j: int| 0 <= j < i ==> #[trigger] copy@[j] == items@[j],
                    decreases items@.len() - i,
                {
                    copy.push(items[i].clone());
                    i += 1;
                }
                let r = Value::list_value(copy);
                proof {
                    assert(r@->List_0 =~= self@->List_0);
                }
                r
            },
            Value::dict_value(d) => Value::dict_value(rc_clone(d)),
            Value::schema_value(s) => {
                let r = Value::schema_value(s.clone());
                assert(self@ == ValueView::Schema(s@));
                r
            },
        }
    }
}

/// A copy of the table that shares nothing with it.
pub fn dict_deep_copy(d: &DictValue) -> (r: DictValue)
    ensures
        r@ == d@,
    decreases d,
{
    proof {
        d.lemma_view();
        use_type_invariant(d);
        d.lemma_parts_unique();
    }
    let mut entries: Vec<DictEntry> = Vec::new();
    let mut i: usize = 0;
    while i < d.entries.len()
        invariant
            0 <= i <= d.entries@.len(),
            entries@.len() == i,
            forall|j: int| 0 <= j < i ==> (#[trigger] entries@[j])@ == d.entries@[j]@,
        decreases d.entries@.len() - i,
    {
        let e = &d.entries[i];
        entries.push(
            DictEntry {
                key: e.key.clone(),
                value: e.value.deep_copy(),
                op: e.op,
                insert_index: e.insert_index,
            },
        );
        i += 1;
    }
    let mut attr_map: Vec<(String, String)> = Vec::new();
    let mut k: usize = 0;
    while k < d.attr_map.len()
        invariant
            0 <= k <= d.attr_map@.len(),
            attr_map@.len() == k,
            forall|j: int| 0 <= j < k ==> #[trigger] attr_map@[j] == d.attr_map@[j],
        decreases d.attr_map@.len() - k,
    {
        attr_map.push((d.attr_map[k].0.clone(), d.attr_map[k].1.clone()));
        k += 1;
    }
    proof {
        assert forall|a: int, b: int| 0 <= a < b < entries@.len() implies (
        #[trigger] entries@[a]).key@ != (#[trigger] entries@[b]).key@ by {
            assert(entries@[a]@ == d.entries@[a]@);
            assert(entries@[b]@ == d.entries@[b]@);
        }
    }
    let r = DictValue::from_parts(entries, attr_map);
    proof {
        r.lemma_view();
        assert(r@.entries =~= d@.entries);
        assert(r@.attr_map =~= d@.attr_map);
    }
    r
}

/// The table behind a handle, as a table of one's own: moved out where the
/// handle is the only one, copied where the table is shared.
pub fn unique_dict(rc: Rc<DictValue>) -> (d: DictValue)
    ensures
        d@ == rc@,
{
    match Rc::try_unwrap(rc) {
        Ok(d) => d,
        Err(shared) => (*shared).clone(),
    }
}

impl ValueRef {
    /// The payload as a payload of one's own: moved out where this handle is
    /// the only one, copied where the payload is shared. No other handle
    /// sees what is then done to it.
    pub fn into_value(self) -> (v: Value)
        ensures
            v@ == self@,
    {
        match Rc::try_unwrap(self.rc) {
            Ok(v) => v,
            Err(shared) => (*shared).clone(),
        }
    }

    /// A copy that shares nothing with this value.
    pub fn deep_copy(&self) -> (r: ValueRef)
        ensures
            r@ == self@,
        decreases self,
    {
        match &*self.rc {
            Value::undefined => ValueRef::undefined(),
            Value::none => ValueRef::none(),
            Value::bool_value(b) => ValueRef::bool(*b),
            Value::int_value(i) => ValueRef::integer(*i),
            Value::float_value(bits) => ValueRef::float_bits(*bits),
            Value::str_value(s) => ValueRef::str(s.as_str()),
            Value::list_value(items) => {
                let mut copy: Vec<ValueRef> = Vec::new();
                let mut i: usize = 0;
                while i < items.len()
                    invariant
                        0 <= i <= items@.len(),
                        copy@.len() == i,
                        *self.rc == Value::list_value(*items),
                        forall|j: int| 0 <= j < i ==> (#[trigger] copy@[j])@ == items@[j]@,
                    decreases items@.len() - i,
                {
                    let item = &items[i];
                    assert(self.rc->list_value_0@[i as int] == *item);
                    copy.push(item.deep_copy());
                    i += 1;
                }
                let r = ValueRef::from_value(Value::list_value(copy));
                proof {
                    assert(r@->List_0 =~= self@->List_0);
                }
                r
            },
            Value::dict_value(d) => ValueRef::from_value(
                Value::dict_value(Rc::new(dict_deep_copy(d))),
            ),
            Value::schema_value(s) => {
                assert(self@ == ValueView::Schema(s@));
                let shell = s.clone();
                let schema = SchemaValue {
                    name: shell.name,
                    pkgpath: shell.pkgpath,
                    config: Rc::new(dict_deep_copy(&s.config)),
                    config_keys: shell.config_keys,
                };
                proof {
                    assert(schema@.name == shell@.name);
                    assert(schema@.pkgpath == shell@.pkgpath);
                    assert(schema@.config_keys =~= shell@.config_keys);
                }
                let r = ValueRef::from_value(Value::schema_value(schema));
                assert(r@ == ValueView::Schema(schema@));
                r
            },
        }
    }

    /// The same dictionary or schema instance around the table `config`.
    pub fn with_config(&self, config: DictValue) -> (r: ValueRef)
        requires
            self@.is_config(),
        ensures
            r@ == self@.with_config(config@),
    {
        match &*self.rc {
            Value::schema_value(s) => {
                assert(self@ == ValueView::Schema(s@));
                let shell = s.clone();
                let schema = SchemaValue {
                    name: shell.name,
                    pkgpath: shell.pkgpath,
                    config: Rc::new(config),
                    config_keys: shell.config_keys,
                };
                proof {
                    assert(schema@.name == shell@.name);
                    assert(schema@.pkgpath == shell@.pkgpath);
                    assert(schema@.config_keys =~= shell@.config_keys);
                }
                let r = ValueRef::from_value(Value::schema_value(schema));
                assert(r@ == ValueView::Schema(schema@));
                r
            },
            _ => ValueRef::from_value(Value::dict_value(Rc::new(config))),
        }
    }

    /// The failure that reports this value as of the wrong kind.
    pub fn invalid_value_type(&self) -> (e: RuntimeError)
        ensures
            e@ == (ErrorView::InvalidValueType { type_str: self@.type_str() }),
    {
        RuntimeError::InvalidValueType { type_str: self.type_str() }
    }

    /// The attribute table of a dictionary or schema instance; any other
    /// value fails with `InvalidValueType`.
    pub fn dict_config(&self) -> (r: Result<&DictValue, RuntimeError>)
        ensures
            match r {
                Ok(d) => self@.is_config() && d@ == self@.config(),
                Err(e) => !self@.is_config() && e@ == (ErrorView::InvalidValueType {
                    type_str: self@.type_str(),
                }),
            },
    {
        match &*self.rc {
            Value::dict_value(d) => Ok(d),
            Value::schema_value(s) => {
                assert(self@ == ValueView::Schema(s@));
                Ok(&s.config)
            },
            _ => Err(self.invalid_value_type()),
        }
    }

    pub fn from_value(value: Value) -> (r: ValueRef)
        ensures
            *r.rc == value,
    {
        ValueRef { rc: Rc::new(value) }
    }

    pub fn undefined() -> (r: ValueRef)
        ensures
            r@ == ValueView::Undefined,
    {
        ValueRef::from_value(Value::undefined)
    }

    pub fn none() -> (r: ValueRef)
        ensures
            r@ == ValueView::NoneValue,
    {
        ValueRef::from_value(Value::none)
    }

    pub fn bool(v: bool) -> (r: ValueRef)
        ensures
            r@ == ValueView::Bool(v),
    {
        ValueRef::from_value(Value::bool_value(v))
    }

    pub fn integer(v: i64) -> (r: ValueRef)
        ensures
            r@ == ValueView::Int(v),
    {
        ValueRef::from_value(Value::int_value(v))
    }

    /// A float, given by its bit pattern.
    pub fn float_bits(bits: u64) -> (r: ValueRef)
        ensures
            r@ == ValueView::Float(bits),
    {
        ValueRef::from_value(Value::float_value(bits))
    }

    pub fn str(v: &str) -> (r: ValueRef)
        ensures
            r@ == ValueView::Str(v@),
    {
        ValueRef::from_value(Value::str_value(v.to_owned()))
    }

    /// A list of the given values.
    pub fn list(values: Option<&[&ValueRef]>) -> (r: ValueRef)
        ensures
            r@ == ValueView::List(
                match values {
                    Some(vs) => Seq::new(vs@.len(), |i: int| vs@[i]@),
                    None => Seq::empty(),
                },
            ),
    {
        let mut items: Vec<ValueRef> = Vec::new();
        if let Some(vs) = values {
            let mut i: usize = 0;
            while i < vs.len()
                invariant
                    0 <= i <= vs@.len(),
                    items@.len() == i,
                    forall|j: int| 0 <= j < i ==> #[trigger] items@[j] == *vs@[j],
                decreases vs@.len() - i,
            {
                items.push(vs[i].clone());
                i += 1;
            }
        }
        let r = ValueRef::from_value(Value::list_value(items));
        proof {
            match values {
                Some(vs) => {
                    assert(r@->List_0 =~= Seq::new(vs@.len(), |i: int| vs@[i]@));
                },
                None => {
                    assert(r@->List_0 =~= Seq::empty());
                },
            }
        }
        r
    }

    /// A list of strings.
    pub fn list_str(values: &[String]) -> (r: ValueRef)
        ensures
            r@ == ValueView::List(Seq::new(values@.len(), |i: int| ValueView::Str(values@[i]@))),
    {
        let mut items: Vec<ValueRef> = Vec::new();
        let mut i: usize = 0;
        while i < values.len()
            invariant
                0 <= i <= values@.len(),
                items@.len() == i,
                forall|j: int| 0 <= j < i ==> (#[trigger] items@[j])@ == ValueView::Str(values@[j]@),
            decreases values@.len() - i,
        {
            items.push(ValueRef::str(values[i].as_str()));
            i += 1;
        }
        let r = ValueRef::from_value(Value::list_value(items));
        proof {
            assert(r@->List_0 =~= Seq::new(
                values@.len(),
                |i: int| ValueView::Str(values@[i]@),
            ));
        }
        r
    }

    /// A dictionary of the given attributes, later ones replacing earlier
    /// ones of the same name.
    pub fn dict(values: Option<&[(&str, &ValueRef)]>) -> (r: ValueRef)
        ensures
            r@ == ValueView::Dict(
                match values {
                    Some(vs) => DictView::from_pairs(
                        Seq::new(vs@.len(), |i: int| (vs@[i].0@, vs@[i].1@)),
                    ),
                    None => DictView::empty(),
                },
            ),
    {
        let d = match values {
            Some(vs) => DictValue::new(vs),
            None => DictValue::empty(),
        };
        ValueRef::from_value(Value::dict_value(Rc::new(d)))
    }

    pub fn is_bool(&self) -> (b: bool)
        ensures
            b == (self@ is Bool),
    {
        match &*self.rc {
            Value::bool_value(_) => true,
            _ => false,
        }
    }

    pub fn is_int(&self) -> (b: bool)
        ensures
            b == (self@ is Int),
    {
        match &*self.rc {
            Value::int_value(_) => true,
            _ => false,
        }
    }

    pub fn is_float(&self) -> (b: bool)
        ensures
            b == (self@ is Float),
    {
        match &*self.rc {
            Value::float_value(_) => true,
            _ => false,
        }
    }

    pub fn is_str(&self) -> (b: bool)
        ensures
            b == (self@ is Str),
    {
        match &*self.rc {
            Value::str_value(_) => true,
            _ => false,
        }
    }

    pub fn is_list(&self) -> (b: bool)
        ensures
            b == (self@ is List),
    {
        match &*self.rc {
            Value::list_value(_) => true,
            _ => false,
        }
    }

    pub fn is_dict(&self) -> (b: bool)
        ensures
            b == (self@ is Dict),
    {
        match &*self.rc {
            Value::dict_value(_) => true,
            _ => false,
        }
    }

    pub fn is_schema(&self) -> (b: bool)
        ensures
            b == (self@ is Schema),
    {
        match &*self.rc {
            Value::schema_value(_) => true,
            _ => false,
        }
    }

    /// A dictionary or a schema instance.
    pub fn is_config(&self) -> (b: bool)
        ensures
            b == self@.is_config(),
    {
        match &*self.rc {
            Value::dict_value(_) => true,
            Value::schema_value(_) => true,
            _ => false,
        }
    }

    /// The integer that the value holds; 0 for any other kind.
    pub fn as_int(&self) -> (v: i64)
        ensures
            v == (match self@ {
                ValueView::Int(i) => i,
                _ => 0,
            }),
    {
        match &*self.rc {
            Value::int_value(i) => *i,
            _ => 0,
        }
    }

    /// The truth value of the value: a boolean is itself, a number is true
    /// unless it is zero, a string, list or table unless it is empty;
    /// `None` and `Undefined` are false.
    pub fn as_bool(&self) -> (v: bool)
        ensures
            v == self@.truth(),
    {
        match &*self.rc {
            Value::undefined => false,
            Value::none => false,
            Value::bool_value(b) => *b,
            Value::int_value(i) => *i != 0,
            Value::float_value(bits) => *bits != 0 && *bits != 0x8000_0000_0000_0000,
            Value::str_value(s) => s.as_str().unicode_len() != 0,
            Value::list_value(items) => items.len() != 0,
            Value::dict_value(d) => d.len() != 0,
            Value::schema_value(s) => {
                assert(self@ == ValueView::Schema(s@));
                s.config.len() != 0
            },
        }
    }

    /// The string that the value holds; the empty string for any other kind.
    pub fn as_str(&self) -> (v: String)
        ensures
            v@ == (match self@ {
                ValueView::Str(s) => s,
                _ => Seq::<char>::empty(),
            }),
    {
        match &*self.rc {
            Value::str_value(s) => s.clone(),
            _ => String::new(),
        }
    }

    /// The name of the value's type.
    pub fn type_str(&self) -> (v: String)
        ensures
            v@ == self@.type_str(),
    {
        match &*self.rc {
            Value::undefined => "UndefinedType".to_owned(),
            Value::none => "NoneType".to_owned(),
            Value::bool_value(_) => "bool".to_owned(),
            Value::int_value(_) => "int".to_owned(),
            Value::float_value(_) => "float".to_owned(),
            Value::str_value(_) => "str".to_owned(),
            Value::list_value(_) => "list".to_owned(),
            Value::dict_value(_) => "dict".to_owned(),
            Value::schema_value(s) => {
                assert(self@ == ValueView::Schema(s@));
                s.name.clone()
            },
        }
    }

    pub fn is_undefined(&self) -> (b: bool)
        ensures
            b == (self@ is Undefined),
    {
        match &*self.rc {
            Value::undefined => true,
            _ => false,
        }
    }

    pub fn is_none(&self) -> (b: bool)
        ensures
            b == (self@ is NoneValue),
    {
        match &*self.rc {
            Value::none => true,
            _ => false,
        }
    }

    pub fn is_none_or_undefined(&self) -> (b: bool)
        ensures
            b == self@.is_none_or_undefined(),
    {
        match &*self.rc {
            Value::none => true,
            Value::undefined => true,
            _ => false,
        }
    }
}

impl PartialEq for ValueRef {
    fn eq(&self, other: &Self) -> (r: bool) {
        value_eq(self, other)
    }
}

impl PartialEqSpecImpl for ValueRef {
    open spec fn obeys_eq_spec() -> bool {
        true
    }

    open spec fn eq_spec(&self, other: &Self) -> bool {
        self@ == other@
    }
}

impl PartialEq for DictValue {
    fn eq(&self, other: &Self) -> (r: bool) {
        dict_eq(self, other)
    }
}

impl PartialEqSpecImpl for DictValue {
    open spec fn obeys_eq_spec() -> bool {
        true
    }

    open spec fn eq_spec(&self, other: &Self) -> bool {
        self@ == other@
    }
}

/// Whether two values are the same value: same kind, same content, the
/// attributes of a table in the same order.
pub fn value_eq(a: &ValueRef, b: &ValueRef) -> (r: bool)
    ensures
        r == (a@ == b@),
    decreases a,
{
    match (&*a.rc, &*b.rc) {
        (Value::undefined, Value::undefined) => true,
        (Value::none, Value::none) => true,
        (Value::bool_value(x), Value::bool_value(y)) => *x == *y,
        (Value::int_value(x), Value::int_value(y)) => *x == *y,
        (Value::float_value(x), Value::float_value(y)) => *x == *y,
        (Value::str_value(x), Value::str_value(y)) => *x == *y,
        (Value::list_value(xs), Value::list_value(ys)) => {
            if xs.len() != ys.len() {
                assert(a@->List_0.len() != b@->List_0.len());
                return false;
            }
            let mut i: usize = 0;
            while i < xs.len()
                invariant
                    0 <= i <= xs@.len(),
                    xs@.len() == ys@.len(),
                    *a.rc == Value::list_value(*xs),
                    *b.rc == Value::list_value(*ys),
                    forall|j: int| 0 <= j < i ==> (#[trigger] xs@[j])@ == ys@[j]@,
                decreases xs@.len() - i,
            {
                if !value_eq(&xs[i], &ys[i]) {
                    assert(a@->List_0[i as int] == xs@[i as int]@);
                    assert(b@->List_0[i as int] == ys@[i as int]@);
                    return false;
                }
                i += 1;
            }
            assert(a@->List_0 =~= b@->List_0);
            true
        },
        (Value::dict_value(x), Value::dict_value(y)) => dict_eq(x, y),
        (Value::schema_value(x), Value::schema_value(y)) => {
            assert(a@ == ValueView::Schema(x@));
            assert(b@ == ValueView::Schema(y@));
            if !(x.name == y.name && x.pkgpath == y.pkgpath) {
                assert(x@.name != y@.name || x@.pkgpath != y@.pkgpath);
                return false;
            }
            if !string_vec_eq(&x.config_keys, &y.config_keys) {
                assert(x@.config_keys != y@.config_keys);
                return false;
            }
            dict_eq(&x.config, &y.config)
        },
        _ => false,
    }
}

/// Whether two lists of names hold the same names in the same order.
pub fn string_vec_eq(a: &Vec<String>, b: &Vec<String>) -> (r: bool)
    ensures
        r == (Seq::new(a@.len(), |i: int| a@[i]@) == Seq::new(b@.len(), |i: int| b@[i]@)),
{
    let ghost av = Seq::new(a@.len(), |i: int| a@[i]@);
    let ghost bv = Seq::new(b@.len(), |i: int| b@[i]@);
    if a.len() != b.len() {
        assert(av.len() != bv.len());
        return false;
    }
    let mut i: usize = 0;
    while i < a.len()
        invariant
            0 <= i <= a@.len(),
            a@.len() == b@.len(),
            av == Seq::new(a@.len(), |i: int| a@[i]@),
            bv == Seq::new(b@.len(), |i: int| b@[i]@),
            forall|j: int| 0 <= j < i ==> (#[trigger] a@[j])@ == b@[j]@,
        decreases a@.len() - i,
    {
        if a[i] != b[i] {
            assert(av[i as int] != bv[i as int]);
            return false;
        }
        i += 1;
    }
    assert(av =~= bv);
    true
}

/// Whether two tables hold the same attributes in the same order, each with
/// the same value, operation and position, and the same declared types.
pub fn dict_eq(a: &DictValue, b: &DictValue) -> (r: bool)
    ensures
        r == (a@ == b@),
    decreases a,
{
    proof {
        a.lemma_view();
        b.lemma_view();
    }
    if a.entries.len() != b.entries.len() || a.attr_map.len() != b.attr_map.len() {
        return false;
    }
    let mut i: usize = 0;
    while i < a.entries.len()
        invariant
            0 <= i <= a.entries@.len(),
            a.entries@.len() == b.entries@.len(),
            a@.entries.len() == a.entries@.len(),
            b@.entries.len() == b.entries@.len(),
            forall|j: int|
                0 <= j < a.entries@.len() ==> #[trigger] a@.entries[j] == a.entries@[j]@,
            forall|j: int|
                0 <= j < b.entries@.len() ==> #[trigger] b@.entries[j] == b.entries@[j]@,
            forall|j: int| 0 <= j < i ==> #[trigger] a@.entries[j] == b@.entries[j],
        decreases a.entries@.len() - i,
    {
        let x = &a.entries[i];
        let y = &b.entries[i];
        if !(x.key == y.key && x.op == y.op && x.insert_index == y.insert_index && value_eq(
            &x.value,
            &y.value,
        )) {
            assert(a@.entries[i as int] != b@.entries[i as int]);
            return false;
        }
        i += 1;
    }
    let mut k: usize = 0;
    while k < a.attr_map.len()
        invariant
            0 <= k <= a.attr_map@.len(),
            a.attr_map@.len() == b.attr_map@.len(),
            a@.attr_map.len() == a.attr_map@.len(),
            b@.attr_map.len() == b.attr_map@.len(),
            forall|j: int|
                0 <= j < a.attr_map@.len() ==> #[trigger] a@.attr_map[j] == (
                    a.attr_map@[j].0@,
                    a.attr_map@[j].1@,
                ),
            forall|j: int|
                0 <= j < b.attr_map@.len() ==> #[trigger] b@.attr_map[j] == (
                    b.attr_map@[j].0@,
                    b.attr_map@[j].1@,
                ),
            forall|j: int| 0 <= j < k ==> #[trigger] a@.attr_map[j] == b@.attr_map[j],
        decreases a.attr_map@.len() - k,
    {
        if !(a.attr_map[k].0 == b.attr_map[k].0 && a.attr_map[k].1 == b.attr_map[k].1) {
            assert(a@.attr_map[k as int] != b@.attr_map[k as int]);
            return false;
        }
        k += 1;
    }
    assert(a@.entries =~= b@.entries);
    assert(a@.attr_map =~= b@.attr_map);
    true
}

} // verus!
