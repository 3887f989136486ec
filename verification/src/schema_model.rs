//! What the schema operations give, over the mathematical model.
use vstd::prelude::*;
use crate::context::ContextView;
use crate::decimal::decimal;
use crate::error::{ErrType, ErrorView};
use crate::model::{DictView, EntryView, SchemaView, ValueView};
use crate::val_schema::{
    CONFIG_META_FILENAME,
    CONFIG_META_LINE,
    SCHEMA_SETTINGS_ATTR_NAME,
    SETTINGS_OUTPUT_INLINE,
    SETTINGS_OUTPUT_KEY,
    SETTINGS_SCHEMA_TYPE_KEY,
};

verus! {

impl ValueView {
    /// The schema instance that a dictionary becomes: the same table under a
    /// name. A schema instance stays as it is; nothing else converts.
    pub open spec fn to_schema(
        self,
        name: Seq<char>,
        pkgpath: Seq<char>,
        config_keys: Seq<Seq<char>>,
    ) -> Result<ValueView, ErrorView> {
        match self {
            ValueView::Dict(d) => Ok(
                ValueView::Schema(SchemaView { name, pkgpath, config: d, config_keys }),
            ),
            ValueView::Schema(_) => Ok(self),
            _ => Err(ErrorView::InvalidValueType { type_str: self.type_str() }),
        }
    }

    /// The dictionary that a schema instance becomes: its table without the
    /// name. A dictionary stays as it is; nothing else converts.
    pub open spec fn to_dict(self) -> Result<ValueView, ErrorView> {
        match self {
            ValueView::Schema(s) => Ok(ValueView::Dict(s.config)),
            ValueView::Dict(_) => Ok(self),
            _ => Err(ErrorView::InvalidValueType { type_str: self.type_str() }),
        }
    }

    /// The value under `key`, where this is a dictionary or schema instance
    /// that holds it.
    pub open spec fn by_key(self, key: Seq<char>) -> Option<ValueView> {
        if self.is_config() {
            self.config().value_of(key)
        } else {
            None
        }
    }

    /// The string that the value holds; empty for any other kind.
    pub open spec fn str_or_empty(self) -> Seq<char> {
        match self {
            ValueView::Str(s) => s,
            _ => Seq::empty(),
        }
    }

    /// The integer that the value holds; 0 for any other kind.
    pub open spec fn int_or_zero(self) -> i64 {
        match self {
            ValueView::Int(i) => i,
            _ => 0,
        }
    }

    /// The attribute name that the value gives: an integer in decimal, a
    /// string as it is.
    pub open spec fn attr_str(self) -> Result<Seq<char>, ErrorView> {
        match self {
            ValueView::Int(i) => Ok(decimal(i as int)),
            ValueView::Str(s) => Ok(s),
            _ => Err(ErrorView::InvalidValueType { type_str: self.type_str() }),
        }
    }
}

/// Whether `required` names an attribute that is required and that the
/// table lacks: the declared optionality is false, and the table holds no
/// value under the name, or `None`, or `Undefined`.
pub open spec fn is_missing(attrs: DictView, required: EntryView) -> bool {
    !required.value.truth() && match attrs.value_of(required.key) {
        Some(v) => v.is_none_or_undefined(),
        None => true,
    }
}

/// The first attribute from position `i` on that the mapping requires and
/// the table lacks.
pub open spec fn first_missing_from(attrs: DictView, mapping: Seq<EntryView>, i: nat) -> Option<
    Seq<char>,
>
    decreases mapping.len() - i,
{
    if i >= mapping.len() {
        None
    } else if is_missing(attrs, mapping[i as int]) {
        Some(mapping[i as int].key)
    } else {
        first_missing_from(attrs, mapping, i + 1)
    }
}

/// What the check of required attributes finds wrong: a value that is no
/// dictionary or schema instance, a mapping that is no dictionary, or the
/// first required attribute that is missing.
pub open spec fn optional_check_fault(
    this: ValueView,
    optional_mapping: ValueView,
    schema_name: Seq<char>,
) -> Option<ErrorView> {
    if !this.is_config() {
        Some(ErrorView::InvalidValueType { type_str: this.type_str() })
    } else {
        match optional_mapping {
            ValueView::Dict(m) => match first_missing_from(this.config(), m.entries, 0) {
                Some(attribute) => Some(
                    ErrorView::RequiredAttributeError { attribute, schema_name },
                ),
                None => None,
            },
            _ => Some(ErrorView::InvalidValueType { type_str: optional_mapping.type_str() }),
        }
    }
}

/// The context once the check of required attributes has returned. Any
/// failure is recorded by its kind; a missing attribute is also located, by
/// the file name and the line that `config_meta` holds under their reserved
/// names, the line cut to 32 bits.
pub open spec fn context_after_check(
    ctx: ContextView,
    fault: Option<ErrorView>,
    config_meta: ValueView,
) -> ContextView {
    match fault {
        None => ctx,
        Some(e) => if e is RequiredAttributeError {
            ContextView {
                cfg: ctx.cfg,
                err_type: Some(ErrType::RequiredAttributeError),
                kcl_file: match config_meta.by_key(CONFIG_META_FILENAME@) {
                    Some(f) => f.str_or_empty(),
                    None => ctx.kcl_file,
                },
                kcl_line: match config_meta.by_key(CONFIG_META_LINE@) {
                    Some(l) => l.int_or_zero() as i32,
                    None => ctx.kcl_line,
                },
            }
        } else {
            ContextView { err_type: Some(e.err_type()), ..ctx }
        },
    }
}

/// The settings that a schema instance gets where it has none: rendered
/// inline, of the given runtime type.
pub open spec fn default_settings(runtime_type: Seq<char>) -> ValueView {
    ValueView::Dict(
        DictView::empty().set_value(
            SETTINGS_OUTPUT_KEY@,
            ValueView::Str(SETTINGS_OUTPUT_INLINE@),
        ).set_value(SETTINGS_SCHEMA_TYPE_KEY@, ValueView::Str(runtime_type)),
    )
}

/// The table of a schema instance once its settings are in order. Held
/// settings that are a dictionary or schema instance get the runtime type
/// written into them; anything else is replaced by the default settings.
/// Settings that `config` carries then replace either.
pub open spec fn settled_config(this: DictView, config: ValueView, runtime_type: Seq<char>) -> DictView {
    let own = match this.value_of(SCHEMA_SETTINGS_ATTR_NAME@) {
        Some(held) => if held.is_config() {
            held.with_config(
                held.config().set_value(SETTINGS_SCHEMA_TYPE_KEY@, ValueView::Str(runtime_type)),
            )
        } else {
            default_settings(runtime_type)
        },
        None => default_settings(runtime_type),
    };
    let first = this.set_value(SCHEMA_SETTINGS_ATTR_NAME@, own);
    match config.by_key(SCHEMA_SETTINGS_ATTR_NAME@) {
        Some(given) => first.set_value(SCHEMA_SETTINGS_ATTR_NAME@, given),
        None => first,
    }
}

} // verus!
