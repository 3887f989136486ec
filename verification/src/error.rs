use vstd::prelude::*;
use vstd::string::StringExecFns;
use crate::decimal::{decimal, int_to_string};
use crate::kind::ConfigEntryOperationKind;

verus! {

/// The kind of a failure, as the process context records it.
#[derive(Clone, Copy, PartialEq, Eq, Structural, Debug)]
pub enum ErrType {
    InvalidValueType,
    RedeclarationConflict,
    IntOverflowError,
    RequiredAttributeError,
    InvalidUnpackOperand,
}

/// A failure of one operation. Every failure is fatal to the evaluation step
/// that met it; the value it was applied to is left as it was.
#[derive(Debug)]
pub enum RuntimeError {
    /// An operation was applied to a value of the wrong kind; carries the
    /// type name of the value that was found.
    InvalidValueType { type_str: String },
    /// A checked insert met an earlier, different declaration of the key.
    RedeclarationConflict {
        key: String,
        existing_op: ConfigEntryOperationKind,
        new_op: ConfigEntryOperationKind,
    },
    /// An integer outside the range that the debug-mode check admits.
    IntOverflowError { value: i64, bits: u32 },
    /// A required attribute is missing, `None` or `Undefined`.
    RequiredAttributeError { attribute: String, schema_name: String },
    /// The unpack operator was applied to a value that cannot be unpacked.
    InvalidUnpackOperand { type_str: String },
}

/// The mathematical content of a [`RuntimeError`].
pub enum ErrorView {
    InvalidValueType { type_str: Seq<char> },
    RedeclarationConflict {
        key: Seq<char>,
        existing_op: ConfigEntryOperationKind,
        new_op: ConfigEntryOperationKind,
    },
    IntOverflowError { value: i64, bits: u32 },
    RequiredAttributeError { attribute: Seq<char>, schema_name: Seq<char> },
    InvalidUnpackOperand { type_str: Seq<char> },
}

impl ErrorView {
    pub open spec fn err_type(self) -> ErrType {
        match self {
            ErrorView::InvalidValueType { .. } => ErrType::InvalidValueType,
            ErrorView::RedeclarationConflict { .. } => ErrType::RedeclarationConflict,
            ErrorView::IntOverflowError { .. } => ErrType::IntOverflowError,
            ErrorView::RequiredAttributeError { .. } => ErrType::RequiredAttributeError,
            ErrorView::InvalidUnpackOperand { .. } => ErrType::InvalidUnpackOperand,
        }
    }
}

impl View for RuntimeError {
    type V = ErrorView;

    open spec fn view(&self) -> ErrorView {
        match self {
            RuntimeError::InvalidValueType { type_str } => ErrorView::InvalidValueType {
                type_str: type_str@,
            },
            RuntimeError::RedeclarationConflict { key, existing_op, new_op } => {
                ErrorView::RedeclarationConflict {
                    key: key@,
                    existing_op: *existing_op,
                    new_op: *new_op,
                }
            },
            RuntimeError::IntOverflowError { value, bits } => ErrorView::IntOverflowError {
                value: *value,
                bits: *bits,
            },
            RuntimeError::RequiredAttributeError { attribute, schema_name } => {
                ErrorView::RequiredAttributeError {
                    attribute: attribute@,
                    schema_name: schema_name@,
                }
            },
            RuntimeError::InvalidUnpackOperand { type_str } => ErrorView::InvalidUnpackOperand {
                type_str: type_str@,
            },
        }
    }
}

impl RuntimeError {
    /// The kind of this failure.
    pub fn err_type(&self) -> (kind: ErrType)
        ensures
            kind == self@.err_type(),
    {
        match self {
            RuntimeError::InvalidValueType { .. } => ErrType::InvalidValueType,
            RuntimeError::RedeclarationConflict { .. } => ErrType::RedeclarationConflict,
            RuntimeError::IntOverflowError { .. } => ErrType::IntOverflowError,
            RuntimeError::RequiredAttributeError { .. } => ErrType::RequiredAttributeError,
            RuntimeError::InvalidUnpackOperand { .. } => ErrType::InvalidUnpackOperand,
        }
    }
}

impl ErrorView {
    /// The text that reports the failure.
    pub open spec fn message(self) -> Seq<char> {
        match self {
            ErrorView::InvalidValueType { type_str } => "invalid value type "@ + type_str,
            ErrorView::RedeclarationConflict { key, existing_op, new_op } => {
                "conflicting values on the attribute '"@ + key + "' between "@
                    + existing_op.spec_name() + " and "@ + new_op.spec_name()
            },
            ErrorView::IntOverflowError { value, bits } => decimal(value as int) + ": A "@
                + decimal(bits as int) + " bit integer overflow"@,
            ErrorView::RequiredAttributeError { attribute, schema_name } => "attribute '"@
                + attribute + "' of "@ + schema_name
                + " is required and can't be None or Undefined"@,
            ErrorView::InvalidUnpackOperand { type_str } => {
                "only list, dict and schema object can be used with unpack operators * and **, got "@
                    + type_str
            },
        }
    }
}

impl RuntimeError {
    /// The text that reports the failure: it names the attribute, the schema
    /// and the operations that the failure holds.
    pub fn message(&self) -> (text: String)
        ensures
            text@ == self@.message(),
    {
        match self {
            RuntimeError::InvalidValueType { type_str } => {
                let mut text = "invalid value type ".to_owned();
                text.append(type_str.as_str());
                text
            },
            RuntimeError::RedeclarationConflict { key, existing_op, new_op } => {
                let mut text = "conflicting values on the attribute '".to_owned();
                text.append(key.as_str());
                text.append("' between ");
                text.append(existing_op.name());
                text.append(" and ");
                text.append(new_op.name());
                text
            },
            RuntimeError::IntOverflowError { value, bits } => {
                let mut text = int_to_string(*value);
                text.append(": A ");
                text.append(int_to_string(*bits as i64).as_str());
                text.append(" bit integer overflow");
                text
            },
            RuntimeError::RequiredAttributeError { attribute, schema_name } => {
                let mut text = "attribute '".to_owned();
                text.append(attribute.as_str());
                text.append("' of ");
                text.append(schema_name.as_str());
                text.append(" is required and can't be None or Undefined");
                text
            },
            RuntimeError::InvalidUnpackOperand { type_str } => {
                let mut text =
                    "only list, dict and schema object can be used with unpack operators * and **, got ".to_owned();
                text.append(type_str.as_str());
                text
            },
        }
    }
}

} // verus!
