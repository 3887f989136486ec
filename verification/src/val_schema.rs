//! Schema instances: the typed view of an attribute table, its settings and
//! the check of required attributes.
use std::rc::Rc;
use vstd::prelude::*;
use vstd::string::StringExecFns;
use crate::context::Context;
use crate::error::{ErrType, ErrorView, RuntimeError};
use crate::model::{DictView, ValueView};
use crate::decimal::int_to_string;
use crate::schema_model::{
    context_after_check,
    first_missing_from,
    optional_check_fault,
    settled_config,
};
use crate::val_basic::rc_clone;
use crate::val_dict::{change_is, on_config};
use crate::value::{DictValue, SchemaValue, Value, ValueRef};

verus! {

pub const SETTINGS_OUTPUT_KEY: &'static str = "output_type";

pub const SETTINGS_SCHEMA_TYPE_KEY: &'static str = "__schema_type__";

pub const SETTINGS_OUTPUT_STANDALONE: &'static str = "STANDALONE";

pub const SETTINGS_OUTPUT_INLINE: &'static str = "INLINE";

pub const SETTINGS_OUTPUT_IGNORE: &'static str = "IGNORE";

pub const SCHEMA_SETTINGS_ATTR_NAME: &'static str = "__settings__";

pub const CONFIG_META_FILENAME: &'static str = "$filename";

pub const CONFIG_META_LINE: &'static str = "$lineno";

pub const CONFIG_META_COLUMN: &'static str = "$columnno";

pub const CONFIG_ITEM_META_FILENAME: &'static str = "filename";

pub const CONFIG_ITEM_META_LINE: &'static str = "lineno";

pub const CONFIG_ITEM_META_COLUMN: &'static str = "columnno";

pub const CONFIG_ITEM_META: &'static str = "$config_meta";

pub const MAIN_PKG_PATH: &'static str = "__main__";

pub const PKG_PATH_PREFIX: char = '@';

pub const CAL_MAP_RUNTIME_TYPE: &'static str = "cal_map_runtime_type";

pub const CAL_MAP_META_LINE: &'static str = "cal_map_meta_line";

/// The runtime type of a schema: package path, a dot, name.
pub fn schema_runtime_type(name: &str, pkgpath: &str) -> (r: String)
    ensures
        r@ == pkgpath@ + "."@ + name@,
{
    let mut r = pkgpath.to_owned();
    r.append(".");
    r.append(name);
    r
}

/// The position metadata of a configuration: file name, line and column
/// under their reserved names.
#[inline]
pub fn schema_config_meta(filename: &str, line: u64, column: u64) -> (r: ValueRef)
    ensures
        r@ == ValueView::Dict(
            DictView::empty().set_value(CONFIG_META_FILENAME@, ValueView::Str(filename@)).set_value(
                CONFIG_META_LINE@,
                ValueView::Int(line as i64),
            ).set_value(CONFIG_META_COLUMN@, ValueView::Int(column as i64)),
        ),
{
    let mut d = DictValue::empty();
    d.set_value(CONFIG_META_FILENAME, ValueRef::str(filename));
    d.set_value(CONFIG_META_LINE, ValueRef::integer(#[verifier::truncate] (line as i64)));
    d.set_value(CONFIG_META_COLUMN, ValueRef::integer(#[verifier::truncate] (column as i64)));
    ValueRef::from_value(Value::dict_value(Rc::new(d)))
}

impl ValueRef {
    /// The value under `key`, where this is a dictionary or schema instance
    /// that holds it.
    pub fn get_by_key(&self, key: &str) -> (r: Option<&ValueRef>)
        ensures
            match r {
                Some(v) => self@.by_key(key@) == Some(v@),
                None => self@.by_key(key@) is None,
            },
    {
        self.dict_get_value(key)
    }

    /// The schema instance that this dictionary is under the given name: the
    /// same table, shared. A schema instance is handed back as it is. The
    /// argument is not changed.
    pub fn dict_to_schema(&self, name: &str, pkgpath: &str, config_keys: &[String]) -> (r: Result<
        Self,
        RuntimeError,
    >)
        ensures
            match r {
                Ok(v) => self@.to_schema(
                    name@,
                    pkgpath@,
                    Seq::new(config_keys@.len(), |i: int| config_keys@[i]@),
                ) == Ok::<ValueView, ErrorView>(v@),
                Err(e) => self@.to_schema(
                    name@,
                    pkgpath@,
                    Seq::new(config_keys@.len(), |i: int| config_keys@[i]@),
                ) == Err::<ValueView, ErrorView>(e@),
            },
    {
        match &*self.rc {
            Value::dict_value(d) => {
                let mut keys: Vec<String> = Vec::new();
                let mut i: usize = 0;
                while i < config_keys.len()
                    invariant
                        0 <= i <= config_keys@.len(),
                        keys@.len() == i,
                        forall|j: int| 0 <= j < i ==> #[trigger] keys@[j] == config_keys@[j],
                    decreases config_keys@.len() - i,
                {
                    keys.push(config_keys[i].clone());
                    i += 1;
                }
                let schema = SchemaValue {
                    name: name.to_owned(),
                    pkgpath: pkgpath.to_owned(),
                    config: rc_clone(d),
                    config_keys: keys,
                };
                proof {
                    assert(schema@.config_keys =~= Seq::new(
                        config_keys@.len(),
                        |i: int| config_keys@[i]@,
                    ));
                    assert(schema@.name == name@ && schema@.pkgpath == pkgpath@);
                }
                let r = ValueRef::from_value(Value::schema_value(schema));
                assert(r@ == ValueView::Schema(schema@));
                Ok(r)
            },
            Value::schema_value(_) => Ok(self.clone()),
            _ => Err(self.invalid_value_type()),
        }
    }

    /// The dictionary that this schema instance is without its name: the
    /// same table, shared. A dictionary is handed back as it is. The
    /// argument is not changed.
    pub fn schema_to_dict(&self) -> (r: Result<Self, RuntimeError>)
        ensures
            match r {
                Ok(v) => self@.to_dict() == Ok::<ValueView, ErrorView>(v@),
                Err(e) => self@.to_dict() == Err::<ValueView, ErrorView>(e@),
            },
    {
        match &*self.rc {
            Value::schema_value(schema) => {
                assert(self@ == ValueView::Schema(schema@));
                Ok(ValueRef::from_value(Value::dict_value(rc_clone(&schema.config))))
            },
            Value::dict_value(_) => Ok(self.clone()),
            _ => Err(self.invalid_value_type()),
        }
    }

    /// Checks that every attribute that `optional_mapping` declares as
    /// required (optionality false) has a value other than `None` and
    /// `Undefined`. The first one that has not fails with
    /// `RequiredAttributeError`, and the context takes the file name and line
    /// that `config_meta` holds.
    pub fn schema_check_attr_optional(
        &self,
        ctx: &mut Context,
        optional_mapping: &ValueRef,
        schema_name: &str,
        config_meta: &ValueRef,
    ) -> (r: Result<(), RuntimeError>)
        ensures
            match r {
                Ok(()) => optional_check_fault(self@, optional_mapping@, schema_name@) is None,
                Err(e) => optional_check_fault(self@, optional_mapping@, schema_name@) == Some(
                    e@,
                ),
            },
            final(ctx)@ == context_after_check(
                old(ctx)@,
                optional_check_fault(self@, optional_mapping@, schema_name@),
                config_meta@,
            ),
    {
        let attrs = match self.dict_config() {
            Ok(d) => d,
            Err(e) => {
                ctx.set_err_type(ErrType::InvalidValueType);
                return Err(e);
            },
        };
        let mapping: &DictValue = match &*optional_mapping.rc {
            Value::dict_value(m) => m,
            _ => {
                ctx.set_err_type(ErrType::InvalidValueType);
                return Err(optional_mapping.invalid_value_type());
            },
        };
        let n = mapping.len();
        let mut i: usize = 0;
        while i < n
            invariant
                0 <= i <= n,
                n == mapping@.entries.len(),
                ctx@ == old(ctx)@,
                self@.is_config(),
                attrs@ == self@.config(),
                optional_mapping@ == ValueView::Dict(mapping@),
                first_missing_from(attrs@, mapping@.entries, 0) == first_missing_from(
                    attrs@,
                    mapping@.entries,
                    i as nat,
                ),
            decreases n - i,
        {
            let required = mapping.entry_at(i);
            let is_required = !required.value.as_bool();
            let lacking = match attrs.get_value(required.key.as_str()) {
                Some(v) => v.is_none_or_undefined(),
                None => true,
            };
            if is_required && lacking {
                match config_meta.get_by_key(CONFIG_META_FILENAME) {
                    Some(filename) => {
                        let name = filename.as_str();
                        ctx.set_kcl_filename(name.as_str());
                    },
                    None => {},
                }
                match config_meta.get_by_key(CONFIG_META_LINE) {
                    Some(line) => {
                        ctx.set_kcl_line(#[verifier::truncate] (line.as_int() as i32));
                    },
                    None => {},
                }
                ctx.set_err_type(ErrType::RequiredAttributeError);
                return Err(
                    RuntimeError::RequiredAttributeError {
                        attribute: required.key.clone(),
                        schema_name: schema_name.to_owned(),
                    },
                );
            }
            i += 1;
        }
        Ok(())
    }

    /// Puts the settings of a schema instance in order, under their reserved
    /// name: held settings get the runtime type written into them, missing
    /// ones are set to the defaults (rendered inline, of the runtime type);
    /// settings that `config` carries replace either.
    pub fn schema_default_settings(&mut self, config: &ValueRef, runtime_type: &str) -> (r: Result<
        (),
        RuntimeError,
    >)
        ensures
            change_is(
                old(self)@,
                final(self)@,
                r,
                on_config(
                    old(self)@,
                    settled_config(old(self)@.config(), config@, runtime_type@),
                ),
            ),
    {
        if !self.is_config() {
            return Err(self.invalid_value_type());
        }
        let held: Option<ValueRef> = match self.dict_get_value(SCHEMA_SETTINGS_ATTR_NAME) {
            Some(s) => if s.is_config() {
                Some(s.clone())
            } else {
                None
            },
            None => None,
        };
        let own = match held {
            Some(mut settings) => {
                let _ = settings.dict_update_key_value(
                    SETTINGS_SCHEMA_TYPE_KEY,
                    ValueRef::str(runtime_type),
                );
                settings
            },
            None => {
                let mut defaults = DictValue::empty();
                defaults.set_value(SETTINGS_OUTPUT_KEY, ValueRef::str(SETTINGS_OUTPUT_INLINE));
                defaults.set_value(SETTINGS_SCHEMA_TYPE_KEY, ValueRef::str(runtime_type));
                ValueRef::from_value(Value::dict_value(Rc::new(defaults)))
            },
        };
        let (mut table, shell) = self.take_config();
        table.set_value(SCHEMA_SETTINGS_ATTR_NAME, own);
        if let Some(given) = config.dict_get_value(SCHEMA_SETTINGS_ATTR_NAME) {
            table.set_value(SCHEMA_SETTINGS_ATTR_NAME, given.clone());
        }
        self.put_config(table, shell);
        Ok(())
    }

    /// The attribute name that the value gives: an integer in decimal, a
    /// string as it is. Any other value fails with `InvalidValueType`; a
    /// float among them, which the caller renders from its bit pattern.
    pub fn attr_str(&self) -> (r: Result<String, RuntimeError>)
        ensures
            match r {
                Ok(s) => self@.attr_str() == Ok::<Seq<char>, ErrorView>(s@),
                Err(e) => self@.attr_str() == Err::<Seq<char>, ErrorView>(e@),
            },
    {
        match &*self.rc {
            Value::int_value(v) => Ok(int_to_string(*v)),
            Value::str_value(v) => Ok(v.clone()),
            _ => Err(self.invalid_value_type()),
        }
    }

    /// Declares the type of the attribute `name`.
    pub fn update_attr_map(&mut self, name: &str, type_str: &str) -> (r: Result<(), RuntimeError>)
        ensures
            change_is(
                old(self)@,
                final(self)@,
                r,
                on_config(old(self)@, old(self)@.config().set_attr_type(name@, type_str@)),
            ),
    {
        if !self.is_config() {
            return Err(self.invalid_value_type());
        }
        let (mut table, shell) = self.take_config();
        table.set_attr_type(name, type_str);
        self.put_config(table, shell);
        Ok(())
    }

    /// The declared type of the attribute `name`.
    pub fn attr_map_get(&self, name: &str) -> (r: Result<Option<&String>, RuntimeError>)
        ensures
            match r {
                Ok(Some(t)) => self@.is_config() && self@.config().attr_type(name@) == Some(t@),
                Ok(None) => self@.is_config() && self@.config().attr_type(name@) is None,
                Err(e) => !self@.is_config() && e@ == (ErrorView::InvalidValueType {
                    type_str: self@.type_str(),
                }),
            },
    {
        match self.dict_config() {
            Ok(table) => Ok(table.attr_type(name)),
            Err(e) => Err(e),
        }
    }

    /// Where both values are schema instances, sets every attribute of
    /// `value` in this one, whole: value, operation and position; the last
    /// writer wins and nothing is merged. Otherwise nothing changes.
    pub fn schema_update_with_schema(&mut self, value: &ValueRef)
        ensures
            final(self)@ == (if old(self)@ is Schema && value@ is Schema {
                old(self)@.with_config(old(self)@.config().update_entries(value@.config()))
            } else {
                old(self)@
            }),
    {
        if self.is_schema() {
            if let Value::schema_value(source) = &*value.rc {
                assert(value@ == ValueView::Schema(source@));
                let (mut table, shell) = self.take_config();
                table.update_entries(&source.config);
                self.put_config(table, shell);
            }
        }
    }
}

} // verus!
