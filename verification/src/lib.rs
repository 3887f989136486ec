//! Value model and merge engine of a declarative configuration language.
//!
//! Configuration data is a tree of tagged values. Dictionaries and schema
//! instances carry, for every attribute, the value together with the
//! operation that declared it and an optional insert position. The merge
//! engine folds overlapping declarations of one attribute into a single
//! value; validation checks numeric ranges and required attributes.
//!
//! Every contract is stated over the mathematical views of `model`.
pub mod context;
pub mod decimal;
pub mod error;
pub mod kind;
pub mod laws;
pub mod merge_laws;
pub mod merge_model;
pub mod model;
pub mod schema_model;
pub mod table;
pub mod val_basic;
pub mod val_dict;
pub mod val_schema;
pub mod val_union;
pub mod value;

pub use context::{Context, ContextConfig, PanicInfo};
pub use error::{ErrType, RuntimeError};
pub use kind::{ConfigEntryOperationKind, NO_INSERT_INDEX};
pub use val_basic::{dict_deep_copy, dict_eq, string_vec_eq, unique_dict, value_eq};
pub use val_dict::check_int_range;
pub use decimal::int_to_string;
pub use val_schema::{
    schema_config_meta,
    schema_runtime_type,
    CAL_MAP_META_LINE,
    CAL_MAP_RUNTIME_TYPE,
    CONFIG_ITEM_META,
    CONFIG_ITEM_META_COLUMN,
    CONFIG_ITEM_META_FILENAME,
    CONFIG_ITEM_META_LINE,
    CONFIG_META_COLUMN,
    CONFIG_META_FILENAME,
    CONFIG_META_LINE,
    MAIN_PKG_PATH,
    PKG_PATH_PREFIX,
    SCHEMA_SETTINGS_ATTR_NAME,
    SETTINGS_OUTPUT_IGNORE,
    SETTINGS_OUTPUT_INLINE,
    SETTINGS_OUTPUT_KEY,
    SETTINGS_OUTPUT_STANDALONE,
    SETTINGS_SCHEMA_TYPE_KEY,
};
pub use val_union::{insert_items, merge_entry_into, merge_into, union_value};
pub use value::{DictEntry, DictValue, SchemaValue, Value, ValueRef};
