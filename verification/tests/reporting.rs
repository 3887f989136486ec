use kclvm_runtime::{ConfigEntryOperationKind, Context, ErrType, RuntimeError, ValueRef};

#[test]
fn failures_name_what_they_are_about() {
    let missing = RuntimeError::RequiredAttributeError {
        attribute: "name".to_string(),
        schema_name: "Person".to_string(),
    };
    assert_eq!(
        missing.message(),
        "attribute 'name' of Person is required and can't be None or Undefined"
    );
    let overflow = RuntimeError::IntOverflowError {
        value: 2147483648,
        bits: 32,
    };
    assert_eq!(overflow.message(), "2147483648: A 32 bit integer overflow");
    let conflict = RuntimeError::RedeclarationConflict {
        key: "k".to_string(),
        existing_op: ConfigEntryOperationKind::Override,
        new_op: ConfigEntryOperationKind::Union,
    };
    assert_eq!(
        conflict.message(),
        "conflicting values on the attribute 'k' between Override and Union"
    );
    let kind = RuntimeError::InvalidValueType {
        type_str: "int".to_string(),
    };
    assert_eq!(kind.message(), "invalid value type int");
    let operand = RuntimeError::InvalidUnpackOperand {
        type_str: "str".to_string(),
    };
    assert_eq!(
        operand.message(),
        "only list, dict and schema object can be used with unpack operators * and **, got str"
    );
}

#[test]
fn failures_have_their_kinds() {
    assert_eq!(
        RuntimeError::InvalidValueType {
            type_str: String::new()
        }
        .err_type(),
        ErrType::InvalidValueType
    );
    assert_eq!(
        RuntimeError::InvalidUnpackOperand {
            type_str: String::new()
        }
        .err_type(),
        ErrType::InvalidUnpackOperand
    );
    assert_eq!(
        RuntimeError::IntOverflowError { value: 0, bits: 64 }.err_type(),
        ErrType::IntOverflowError
    );
    assert_eq!(ConfigEntryOperationKind::Insert.name(), "Insert");
}

#[test]
fn a_failure_is_recorded_for_the_caller() {
    let mut ctx = Context::new();
    let mut scalar = ValueRef::integer(1);
    let r = ctx.recorded(scalar.dict_remove("k"));
    assert!(r.is_err());
    assert_eq!(ctx.panic_info.err_type, Some(ErrType::InvalidValueType));
    ctx.reset();
    let mut dict = ValueRef::dict_int(&[("k", 1)]);
    let r = ctx.recorded(dict.dict_remove("k"));
    assert!(r.is_ok());
    assert_eq!(ctx.panic_info.err_type, None);
    let r = ctx.recorded(dict.dict_insert_unpack(&ValueRef::bool(true)));
    assert!(r.is_err());
    assert_eq!(ctx.panic_info.err_type, Some(ErrType::InvalidUnpackOperand));
}
