//! What merging a declaration into an attribute table gives.
//!
//! A declaration is an attribute with its operation. Where the table lacks
//! the name, the declaration is added at the end as it stands. Where the
//! table holds the name, the operation of the declaration decides, and the
//! attribute takes the operation and position of the declaration:
//!
//! - `Union` merges the new value into the held one (see `union_with`);
//! - `Override` replaces the held value;
//! - `Insert` puts the items of the new list into the held list.
use vstd::prelude::*;
use crate::context::ContextConfig;
use crate::error::ErrorView;
use crate::kind::ConfigEntryOperationKind;
use crate::model::{DictView, EntryView, ValueView};

verus! {

impl ValueView {
    /// The merge of the new value into the held value `self`, for the
    /// attribute `key`.
    ///
    /// `None` and `Undefined` yield to the other value. Two tables (each a
    /// dictionary or a schema instance) merge attribute by attribute, into
    /// the held one. Of any other two values the new one wins; with `check`
    /// they must be the same value, else the declarations conflict.
    pub open spec fn union_with(
        self,
        new: ValueView,
        key: Seq<char>,
        existing_op: ConfigEntryOperationKind,
        new_op: ConfigEntryOperationKind,
        check: bool,
    ) -> Result<ValueView, ErrorView>
        decreases new, 0nat,
    {
        if self.is_none_or_undefined() {
            Ok(new)
        } else if new.is_none_or_undefined() {
            Ok(self)
        } else if self.is_config() && new.is_config() {
            let delta = new.config().entries;
            match self.config().merge_upto(delta, delta.len(), check) {
                Ok(d) => Ok(self.with_config(d)),
                Err(e) => Err(e),
            }
        } else if check && self != new {
            Err(ErrorView::RedeclarationConflict { key, existing_op, new_op })
        } else {
            Ok(new)
        }
    }

    /// The held list `self` with the items of the list `items` put in at
    /// `index`; at the end where `index` is negative or beyond the end. A
    /// held `None` or `Undefined` counts as the empty list.
    pub open spec fn insert_items(self, items: ValueView, index: i32) -> Result<
        ValueView,
        ErrorView,
    > {
        if !(self.is_none_or_undefined() || self is List) {
            Err(ErrorView::InvalidValueType { type_str: self.type_str() })
        } else if !(items is List) {
            Err(ErrorView::InvalidValueType { type_str: items.type_str() })
        } else {
            let held = if self is List {
                self->List_0
            } else {
                Seq::empty()
            };
            let at = if 0 <= index <= held.len() {
                index as int
            } else {
                held.len() as int
            };
            Ok(
                ValueView::List(
                    held.subrange(0, at) + items->List_0 + held.subrange(at, held.len() as int),
                ),
            )
        }
    }
}

impl DictView {
    /// Merges one declaration into the table.
    pub open spec fn merge_entry(self, e: EntryView, check: bool) -> Result<DictView, ErrorView>
        decreases e, 0nat,
    {
        match self.get(e.key) {
            None => Ok(self.with_entries(self.entries.push(e))),
            Some(held) => match e.op {
                ConfigEntryOperationKind::Union => match held.value.union_with(
                    e.value,
                    e.key,
                    held.op,
                    e.op,
                    check,
                ) {
                    Ok(value) => Ok(self.set_entry(EntryView { value, ..e })),
                    Err(err) => Err(err),
                },
                ConfigEntryOperationKind::Override => Ok(self.set_entry(e)),
                ConfigEntryOperationKind::Insert => match held.value.insert_items(
                    e.value,
                    e.insert_index,
                ) {
                    Ok(value) => Ok(self.set_entry(EntryView { value, ..e })),
                    Err(err) => Err(err),
                },
            },
        }
    }

    /// Merges the first `n` declarations of `delta` into the table, in their
    /// order; the first failure ends it.
    pub open spec fn merge_upto(self, delta: Seq<EntryView>, n: nat, check: bool) -> Result<
        DictView,
        ErrorView,
    >
        decreases delta, n,
    {
        if n == 0 || n > delta.len() {
            Ok(self)
        } else {
            match self.merge_upto(delta, (n - 1) as nat, check) {
                Ok(d) => d.merge_entry(delta[n - 1], check),
                Err(e) => Err(e),
            }
        }
    }

    /// Merges every declaration of `delta` into the table.
    pub open spec fn merge(self, delta: DictView, check: bool) -> Result<DictView, ErrorView> {
        self.merge_upto(delta.entries, delta.entries.len(), check)
    }
}

/// What the debug-mode range check finds wrong with a value that is merged
/// into a table: in debug mode an integer must fit 32 bits where the strict
/// check is on, and 64 bits where it is off, which every integer does.
pub open spec fn range_fault(cfg: ContextConfig, v: ValueView) -> Option<ErrorView> {
    match v {
        ValueView::Int(x) => if cfg.debug_mode && cfg.strict_range_check && !(i32::MIN <= x
            <= i32::MAX) {
            Some(ErrorView::IntOverflowError { value: x, bits: 32 })
        } else {
            None
        },
        _ => None,
    }
}

/// What merging the declaration `e` into the value `this` gives: the range
/// check comes first, then `this` must be a dictionary or schema instance,
/// then the declaration is merged into its table.
pub open spec fn merge_pair(cfg: ContextConfig, this: ValueView, e: EntryView, check: bool) -> Result<
    ValueView,
    ErrorView,
> {
    match range_fault(cfg, e.value) {
        Some(fault) => Err(fault),
        None => if !this.is_config() {
            Err(ErrorView::InvalidValueType { type_str: this.type_str() })
        } else {
            match this.config().merge_entry(e, check) {
                Ok(d) => Ok(this.with_config(d)),
                Err(fault) => Err(fault),
            }
        },
    }
}

/// What unpacking `operand` into the value `this` gives: `this` must be a
/// dictionary or schema instance; `None` and `Undefined` unpack to nothing; a
/// dictionary or schema instance is merged in, attribute by attribute and
/// unchecked; a list is of the wrong kind, anything else cannot be unpacked.
pub open spec fn unpack_into(this: ValueView, operand: ValueView) -> Result<ValueView, ErrorView> {
    if !this.is_config() {
        Err(ErrorView::InvalidValueType { type_str: this.type_str() })
    } else if operand.is_none_or_undefined() {
        Ok(this)
    } else if operand.is_config() {
        match this.config().merge(operand.config(), false) {
            Ok(d) => Ok(this.with_config(d)),
            Err(fault) => Err(fault),
        }
    } else if operand is List {
        Err(ErrorView::InvalidValueType { type_str: operand.type_str() })
    } else {
        Err(ErrorView::InvalidUnpackOperand { type_str: operand.type_str() })
    }
}

} // verus!
