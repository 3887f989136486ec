//! Dictionary operations on a value handle. Each accepts a dictionary or a
//! schema instance and works on its attribute table; on any other value it
//! fails with `InvalidValueType`, unless it says otherwise.
use std::rc::Rc;
use vstd::prelude::*;
use crate::context::Context;
use crate::error::{ErrType, ErrorView, RuntimeError};
use crate::kind::ConfigEntryOperationKind;
use crate::merge_model::{merge_pair, range_fault, unpack_into};
use crate::model::{DictView, EntryView, SchemaView, ValueView};
use crate::val_basic::unique_dict;
use crate::val_union::{merge_entry_into, merge_into};
use crate::value::{DictEntry, DictValue, SchemaValue, Value, ValueRef};

verus! {

/// What is left of a dictionary or schema instance once its table is taken
/// out: for a schema instance its identity and declared attribute names.
pub(crate) struct ConfigShell {
    pub(crate) schema: Option<(String, String, Vec<String>)>,
}

impl ConfigShell {
    /// The value that putting the table `config` back gives.
    pub(crate) open spec fn around(&self, config: DictView) -> ValueView {
        match self.schema {
            Some((name, pkgpath, config_keys)) => ValueView::Schema(
                SchemaView {
                    name: name@,
                    pkgpath: pkgpath@,
                    config,
                    config_keys: Seq::new(config_keys@.len(), |i: int| config_keys@[i]@),
                },
            ),
            None => ValueView::Dict(config),
        }
    }
}

/// Whether the handle was changed as the model says, or failed as it says
/// and was left alone.
pub open spec fn change_is(
    before: ValueView,
    after: ValueView,
    r: Result<(), RuntimeError>,
    model: Result<ValueView, ErrorView>,
) -> bool {
    match r {
        Ok(()) => model == Ok::<ValueView, ErrorView>(after),
        Err(e) => model == Err::<ValueView, ErrorView>(e@) && after == before,
    }
}

/// A dictionary or schema instance around the table `config`; any other
/// value is reported as of the wrong kind.
pub open spec fn on_config(this: ValueView, config: DictView) -> Result<ValueView, ErrorView> {
    if this.is_config() {
        Ok(this.with_config(config))
    } else {
        Err(ErrorView::InvalidValueType { type_str: this.type_str() })
    }
}

impl ValueRef {
    /// Takes the payload out of the handle, as a payload of one's own, and
    /// leaves `Undefined` behind.
    pub fn take_value(&mut self) -> (v: Value)
        ensures
            v@ == old(self)@,
            final(self)@ == ValueView::Undefined,
    {
        let mut taken = ValueRef::undefined();
        std::mem::swap(self, &mut taken);
        taken.into_value()
    }

    /// Takes the attribute table out of a dictionary or schema instance for
    /// changing: in place where neither handle nor table is shared, as a copy
    /// where one of them is. The handle is `Undefined` until the table is put
    /// back around the shell.
    pub(crate) fn take_config(&mut self) -> (parts: (DictValue, ConfigShell))
        requires
            old(self)@.is_config(),
        ensures
            parts.0@ == old(self)@.config(),
            forall|c: DictView| #[trigger] parts.1.around(c) == old(self)@.with_config(c),
    {
        match self.take_value() {
            Value::dict_value(rc) => (unique_dict(rc), ConfigShell { schema: None }),
            Value::schema_value(s) => {
                let ghost sv = s@;
                let SchemaValue { name, pkgpath, config, config_keys } = s;
                assert(sv.name == name@ && sv.pkgpath == pkgpath@);
                assert(sv.config_keys =~= Seq::new(config_keys@.len(), |i: int| config_keys@[i]@));
                (unique_dict(config), ConfigShell { schema: Some((name, pkgpath, config_keys)) })
            },
            _ => (DictValue::empty(), ConfigShell { schema: None }),
        }
    }

    /// Puts a table back around the shell.
    pub(crate) fn put_config(&mut self, config: DictValue, shell: ConfigShell)
        ensures
            final(self)@ == shell.around(config@),
    {
        let value = match shell.schema {
            Some((name, pkgpath, config_keys)) => {
                let s = SchemaValue { name, pkgpath, config: Rc::new(config), config_keys };
                assert(s@.config_keys =~= Seq::new(
                    config_keys@.len(),
                    |i: int| config_keys@[i]@,
                ));
                assert(s@.name == name@ && s@.pkgpath == pkgpath@ && s@.config == config@);
                Value::schema_value(s)
            },
            None => Value::dict_value(Rc::new(config)),
        };
        *self = ValueRef::from_value(value);
    }

    /// Sets the value of `key` and leaves its operation and position alone.
    pub fn dict_update_key_value(&mut self, key: &str, val: ValueRef) -> (r: Result<
        (),
        RuntimeError,
    >)
        ensures
            change_is(
                old(self)@,
                final(self)@,
                r,
                on_config(old(self)@, old(self)@.config().set_value(key@, val@)),
            ),
    {
        if !self.is_config() {
            return Err(self.invalid_value_type());
        }
        let (mut config, shell) = self.take_config();
        config.set_value(key, val);
        self.put_config(config, shell);
        Ok(())
    }

    /// A dictionary of integers.
    pub fn dict_int(values: &[(&str, i64)]) -> (r: Self)
        ensures
            r@ == ValueView::Dict(
                DictView::from_pairs(
                    Seq::new(values@.len(), |i: int| (values@[i].0@, ValueView::Int(values@[i].1))),
                ),
            ),
    {
        let ghost pairs = Seq::new(
            values@.len(),
            |i: int| (values@[i].0@, ValueView::Int(values@[i].1)),
        );
        let mut dict = DictValue::empty();
        let mut i: usize = 0;
        while i < values.len()
            invariant
                0 <= i <= values@.len(),
                pairs == Seq::new(
                    values@.len(),
                    |i: int| (values@[i].0@, ValueView::Int(values@[i].1)),
                ),
                dict@ == DictView::from_pairs_upto(pairs, i as nat),
            decreases values@.len() - i,
        {
            dict.set_value(values[i].0, ValueRef::integer(values[i].1));
            i += 1;
        }
        ValueRef::from_value(Value::dict_value(Rc::new(dict)))
    }

    /// A dictionary of booleans.
    pub fn dict_bool(values: &[(&str, bool)]) -> (r: Self)
        ensures
            r@ == ValueView::Dict(
                DictView::from_pairs(
                    Seq::new(values@.len(), |i: int| (values@[i].0@, ValueView::Bool(values@[i].1))),
                ),
            ),
    {
        let ghost pairs = Seq::new(
            values@.len(),
            |i: int| (values@[i].0@, ValueView::Bool(values@[i].1)),
        );
        let mut dict = DictValue::empty();
        let mut i: usize = 0;
        while i < values.len()
            invariant
                0 <= i <= values@.len(),
                pairs == Seq::new(
                    values@.len(),
                    |i: int| (values@[i].0@, ValueView::Bool(values@[i].1)),
                ),
                dict@ == DictView::from_pairs_upto(pairs, i as nat),
            decreases values@.len() - i,
        {
            dict.set_value(values[i].0, ValueRef::bool(values[i].1));
            i += 1;
        }
        ValueRef::from_value(Value::dict_value(Rc::new(dict)))
    }

    /// A dictionary of strings.
    pub fn dict_str(values: &[(&str, &str)]) -> (r: Self)
        ensures
            r@ == ValueView::Dict(
                DictView::from_pairs(
                    Seq::new(values@.len(), |i: int| (values@[i].0@, ValueView::Str(values@[i].1@))),
                ),
            ),
    {
        let ghost pairs = Seq::new(
            values@.len(),
            |i: int| (values@[i].0@, ValueView::Str(values@[i].1@)),
        );
        let mut dict = DictValue::empty();
        let mut i: usize = 0;
        while i < values.len()
            invariant
                0 <= i <= values@.len(),
                pairs == Seq::new(
                    values@.len(),
                    |i: int| (values@[i].0@, ValueView::Str(values@[i].1@)),
                ),
                dict@ == DictView::from_pairs_upto(pairs, i as nat),
            decreases values@.len() - i,
        {
            dict.set_value(values[i].0, ValueRef::str(values[i].1));
            i += 1;
        }
        ValueRef::from_value(Value::dict_value(Rc::new(dict)))
    }

    /// Removes every attribute, with its operation and position.
    pub fn dict_clear(&mut self) -> (r: Result<(), RuntimeError>)
        ensures
            change_is(
                old(self)@,
                final(self)@,
                r,
                on_config(old(self)@, old(self)@.config().clear()),
            ),
    {
        if !self.is_config() {
            return Err(self.invalid_value_type());
        }
        let (mut config, shell) = self.take_config();
        config.clear();
        self.put_config(config, shell);
        Ok(())
    }

    /// The attribute names as a list of strings, in insertion order.
    pub fn dict_keys(&self) -> (r: Result<ValueRef, RuntimeError>)
        ensures
            match r {
                Ok(keys) => self@.is_config() && keys@ == ValueView::List(
                    Seq::new(
                        self@.config().keys().len(),
                        |i: int| ValueView::Str(self@.config().keys()[i]),
                    ),
                ),
                Err(e) => !self@.is_config() && e@ == (ErrorView::InvalidValueType {
                    type_str: self@.type_str(),
                }),
            },
    {
        match self.dict_config() {
            Ok(dict) => {
                let keys = dict.keys();
                let list = ValueRef::list_str(keys.as_slice());
                proof {
                    assert(list@->List_0 =~= Seq::new(
                        self@.config().keys().len(),
                        |i: int| ValueView::Str(self@.config().keys()[i]),
                    ));
                }
                Ok(list)
            },
            Err(e) => Err(e),
        }
    }

    /// The attribute values as a list, in insertion order.
    pub fn dict_values(&self) -> (r: Result<ValueRef, RuntimeError>)
        ensures
            match r {
                Ok(values) => self@.is_config() && values@ == ValueView::List(
                    self@.config().values(),
                ),
                Err(e) => !self@.is_config() && e@ == (ErrorView::InvalidValueType {
                    type_str: self@.type_str(),
                }),
            },
    {
        match self.dict_config() {
            Ok(dict) => {
                let list = ValueRef::from_value(Value::list_value(dict.values()));
                proof {
                    assert(list@->List_0 =~= self@.config().values());
                }
                Ok(list)
            },
            Err(e) => Err(e),
        }
    }

    /// The value of the attribute that the string `key` names; nothing where
    /// there is none, or where `key` is no string.
    pub fn dict_get(&self, key: &ValueRef) -> (r: Result<Option<&ValueRef>, RuntimeError>)
        ensures
            match r {
                Ok(Some(v)) => self@.is_config() && key@ is Str && self@.config().value_of(
                    key@->Str_0,
                ) == Some(v@),
                Ok(None) => self@.is_config() && (key@ is Str ==> self@.config().value_of(
                    key@->Str_0,
                ) is None),
                Err(e) => !self@.is_config() && e@ == (ErrorView::InvalidValueType {
                    type_str: self@.type_str(),
                }),
            },
    {
        match self.dict_config() {
            Ok(dict) => Ok(dict.get(key)),
            Err(e) => Err(e),
        }
    }

    /// The value of the attribute `key`; nothing where there is none, or
    /// where this value is no dictionary or schema instance.
    pub fn dict_get_value(&self, key: &str) -> (r: Option<&ValueRef>)
        ensures
            match r {
                Some(v) => self@.is_config() && self@.config().value_of(key@) == Some(v@),
                None => self@.is_config() ==> self@.config().value_of(key@) is None,
            },
    {
        match self.dict_config() {
            Ok(dict) => dict.get_value(key),
            Err(_) => None,
        }
    }

    /// The attribute `key` alone, in a new dictionary, with its operation and
    /// position; nothing where the table lacks `key`.
    pub fn dict_get_entry(&self, key: &str) -> (r: Result<Option<ValueRef>, RuntimeError>)
        ensures
            match r {
                Ok(Some(d)) => self@.is_config() && self@.config().get(key@) is Some && d@
                    == ValueView::Dict(
                    DictView::empty().set_entry(self@.config().get(key@).unwrap()),
                ),
                Ok(None) => self@.is_config() && self@.config().get(key@) is None,
                Err(e) => !self@.is_config() && e@ == (ErrorView::InvalidValueType {
                    type_str: self@.type_str(),
                }),
            },
    {
        match self.dict_config() {
            Ok(dict) => match dict.get_entry(key) {
                Some(entry) => {
                    let mut d = ValueRef::dict(None);
                    match d.dict_update_entry(key, &entry.value, &entry.op, &entry.insert_index) {
                        Ok(()) => Ok(Some(d)),
                        Err(e) => Err(e),
                    }
                },
                None => Ok(None),
            },
            Err(e) => Err(e),
        }
    }

    /// The attributes that `keys` names, in a new dictionary, each with its
    /// operation and position; names that the table lacks are passed over.
    pub fn dict_get_entries(&self, keys: Vec<&str>) -> (r: Result<ValueRef, RuntimeError>)
        ensures
            match r {
                Ok(d) => self@.is_config() && d@ == ValueView::Dict(
                    self@.config().project(Seq::new(keys@.len(), |i: int| keys@[i]@)),
                ),
                Err(e) => !self@.is_config() && e@ == (ErrorView::InvalidValueType {
                    type_str: self@.type_str(),
                }),
            },
    {
        let ghost names = Seq::new(keys@.len(), |i: int| keys@[i]@);
        match self.dict_config() {
            Ok(dict) => {
                let mut out = DictValue::empty();
                let mut i: usize = 0;
                while i < keys.len()
                    invariant
                        0 <= i <= keys@.len(),
                        names == Seq::new(keys@.len(), |i: int| keys@[i]@),
                        out@ == dict@.project_upto(names, i as nat),
                    decreases keys@.len() - i,
                {
                    if let Some(entry) = dict.get_entry(keys[i]) {
                        out.set_entry(entry.clone());
                    }
                    i += 1;
                }
                Ok(ValueRef::from_value(Value::dict_value(Rc::new(out))))
            },
            Err(e) => Err(e),
        }
    }

    /// Sets the value of every attribute of `v`, where `v` is a dictionary or
    /// schema instance: the last writer wins, and no operation or position is
    /// touched. Any other `v` changes nothing.
    pub fn dict_update(&mut self, v: &ValueRef) -> (r: Result<(), RuntimeError>)
        ensures
            change_is(
                old(self)@,
                final(self)@,
                r,
                on_config(
                    old(self)@,
                    if v@.is_config() {
                        old(self)@.config().update_values(v@.config())
                    } else {
                        old(self)@.config()
                    },
                ),
            ),
    {
        if !self.is_config() {
            return Err(self.invalid_value_type());
        }
        let (mut config, shell) = self.take_config();
        match v.dict_config() {
            Ok(other) => {
                config.update_values(other);
            },
            Err(_) => {},
        }
        self.put_config(config, shell);
        Ok(())
    }

    /// Sets value, operation and position of `key` at once.
    pub fn dict_update_entry(
        &mut self,
        key: &str,
        val: &ValueRef,
        op: &ConfigEntryOperationKind,
        index: &i32,
    ) -> (r: Result<(), RuntimeError>)
        ensures
            change_is(
                old(self)@,
                final(self)@,
                r,
                on_config(
                    old(self)@,
                    old(self)@.config().set_entry(
                        EntryView { key: key@, value: val@, op: *op, insert_index: *index },
                    ),
                ),
            ),
    {
        if !self.is_config() {
            return Err(self.invalid_value_type());
        }
        let (mut config, shell) = self.take_config();
        config.set_entry(
            DictEntry { key: key.to_owned(), value: val.clone(), op: *op, insert_index: *index },
        );
        self.put_config(config, shell);
        Ok(())
    }

    /// Declares `key` with the idempotent check: declaring it again with the
    /// same value is accepted, with another value it is a
    /// `RedeclarationConflict`.
    pub fn dict_insert(
        &mut self,
        ctx: &mut Context,
        key: &str,
        v: &ValueRef,
        op: ConfigEntryOperationKind,
        insert_index: i32,
    ) -> (r: Result<(), RuntimeError>)
        ensures
            change_is(
                old(self)@,
                final(self)@,
                r,
                merge_pair(
                    old(ctx)@.cfg,
                    old(self)@,
                    EntryView { key: key@, value: v@, op, insert_index },
                    true,
                ),
            ),
            final(ctx)@ == old(ctx)@.after(r),
    {
        self.dict_merge_key_value_pair(ctx, key, v, op, insert_index, true)
    }

    /// Merges a declaration of `key` without the idempotent check: the last
    /// application wins.
    pub fn dict_merge(
        &mut self,
        ctx: &mut Context,
        key: &str,
        v: &ValueRef,
        op: ConfigEntryOperationKind,
        insert_index: i32,
    ) -> (r: Result<(), RuntimeError>)
        ensures
            change_is(
                old(self)@,
                final(self)@,
                r,
                merge_pair(
                    old(ctx)@.cfg,
                    old(self)@,
                    EntryView { key: key@, value: v@, op, insert_index },
                    false,
                ),
            ),
            final(ctx)@ == old(ctx)@.after(r),
    {
        self.dict_merge_key_value_pair(ctx, key, v, op, insert_index, false)
    }

    /// Merges a declaration of `key` into the table. In debug mode an integer
    /// is range-checked first. A failure is recorded in the context by its
    /// kind and leaves the value as it was.
    pub fn dict_merge_key_value_pair(
        &mut self,
        ctx: &mut Context,
        key: &str,
        v: &ValueRef,
        op: ConfigEntryOperationKind,
        insert_index: i32,
        should_idempotent_check: bool,
    ) -> (r: Result<(), RuntimeError>)
        ensures
            change_is(
                old(self)@,
                final(self)@,
                r,
                merge_pair(
                    old(ctx)@.cfg,
                    old(self)@,
                    EntryView { key: key@, value: v@, op, insert_index },
                    should_idempotent_check,
                ),
            ),
            final(ctx)@ == old(ctx)@.after(r),
    {
        match check_int_range(ctx, v) {
            Ok(()) => {},
            Err(e) => {
                return Err(e);
            },
        }
        let entry = DictEntry { key: key.to_owned(), value: v.clone(), op, insert_index };
        let merged = match self.dict_config() {
            Ok(dict) => {
                let mut merged = dict.clone();
                match merge_entry_into(&mut merged, &entry, should_idempotent_check) {
                    Ok(()) => Ok(merged),
                    Err(e) => Err(e),
                }
            },
            Err(e) => Err(e),
        };
        match merged {
            Ok(merged) => {
                let (_, shell) = self.take_config();
                self.put_config(merged, shell);
                Ok(())
            },
            Err(e) => {
                ctx.set_err_type(e.err_type());
                Err(e)
            },
        }
    }

    /// Unpacks `v` into this dictionary or schema instance. A dictionary or
    /// schema instance is merged in attribute by attribute, unchecked, from a
    /// copy that shares nothing with `v`; `None` and `Undefined` unpack to
    /// nothing. A list fails with `InvalidValueType`, any other operand with
    /// `InvalidUnpackOperand`. A failure leaves the value as it was.
    pub fn dict_insert_unpack(&mut self, v: &ValueRef) -> (r: Result<(), RuntimeError>)
        ensures
            change_is(old(self)@, final(self)@, r, unpack_into(old(self)@, v@)),
    {
        let merged = match self.dict_config() {
            Ok(dict) => {
                if v.is_none_or_undefined() {
                    return Ok(());
                }
                let copy = v.deep_copy();
                match copy.dict_config() {
                    Ok(delta) => {
                        let mut merged = dict.clone();
                        match merge_into(&mut merged, delta, false) {
                            Ok(()) => merged,
                            Err(e) => {
                                return Err(e);
                            },
                        }
                    },
                    Err(e) => {
                        if v.is_list() {
                            return Err(e);
                        }
                        return Err(RuntimeError::InvalidUnpackOperand { type_str: v.type_str() });
                    },
                }
            },
            Err(e) => {
                return Err(e);
            },
        };
        let (_, shell) = self.take_config();
        self.put_config(merged, shell);
        Ok(())
    }

    /// Removes the attribute `key`, with its operation and position.
    pub fn dict_remove(&mut self, key: &str) -> (r: Result<(), RuntimeError>)
        ensures
            change_is(
                old(self)@,
                final(self)@,
                r,
                on_config(old(self)@, old(self)@.config().remove(key@)),
            ),
    {
        if !self.is_config() {
            return Err(self.invalid_value_type());
        }
        let (mut config, shell) = self.take_config();
        config.remove(key);
        self.put_config(config, shell);
        Ok(())
    }
}

/// The range check of debug mode on a value that is about to be merged: with
/// the strict check an integer must fit 32 bits, without it 64 bits. A
/// failure is recorded in the context before it is returned.
pub fn check_int_range(ctx: &mut Context, v: &ValueRef) -> (r: Result<(), RuntimeError>)
    ensures
        match r {
            Ok(()) => range_fault(old(ctx)@.cfg, v@) is None,
            Err(e) => range_fault(old(ctx)@.cfg, v@) == Some(e@),
        },
        final(ctx)@ == old(ctx)@.after(r),
{
    if ctx.cfg.debug_mode {
        if let Value::int_value(x) = &*v.rc {
            let x: i64 = *x;
            if ctx.cfg.strict_range_check && (x < -2147483648 || x > 2147483647) {
                ctx.set_err_type(ErrType::IntOverflowError);
                return Err(RuntimeError::IntOverflowError { value: x, bits: 32 });
            }
        }
    }
    Ok(())
}

} // verus!
