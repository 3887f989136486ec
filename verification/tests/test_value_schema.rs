use kclvm_runtime::{
    schema_runtime_type, ConfigEntryOperationKind, Context, ValueRef, MAIN_PKG_PATH,
    SCHEMA_SETTINGS_ATTR_NAME, SETTINGS_OUTPUT_INLINE, SETTINGS_OUTPUT_KEY,
};

const TEST_SCHEMA_NAME: &str = "Data";

fn get_test_schema_value() -> ValueRef {
    let config = ValueRef::dict(None);
    let mut schema = ValueRef::dict(None)
        .dict_to_schema(TEST_SCHEMA_NAME, MAIN_PKG_PATH, &[])
        .unwrap();
    schema
        .schema_default_settings(
            &config,
            &schema_runtime_type(TEST_SCHEMA_NAME, MAIN_PKG_PATH),
        )
        .unwrap();
    schema
}

#[test]
fn test_dict_schema_convention() {
    let dict = ValueRef::dict(None);
    let dict = dict.schema_to_dict().unwrap();
    assert!(dict.is_dict());
    let schema = dict
        .dict_to_schema(TEST_SCHEMA_NAME, MAIN_PKG_PATH, &[])
        .unwrap();
    assert!(schema.is_schema());
    let schema = schema
        .dict_to_schema(TEST_SCHEMA_NAME, MAIN_PKG_PATH, &[])
        .unwrap();
    assert!(schema.is_schema());
    let dict = schema.schema_to_dict().unwrap();
    assert!(dict.is_dict());
}

#[test]
fn test_schema_check_attr_optional() {
    let mut ctx = Context::new();
    let dict = ValueRef::dict_str(&[("key", "value")]);
    let schema = dict
        .dict_to_schema(TEST_SCHEMA_NAME, MAIN_PKG_PATH, &[])
        .unwrap();
    let config_meta = ValueRef::dict(None);
    let optional_mapping = ValueRef::dict_bool(&[("key", true)]);
    schema
        .schema_check_attr_optional(&mut ctx, &optional_mapping, TEST_SCHEMA_NAME, &config_meta)
        .unwrap();
    let optional_mapping = ValueRef::dict_bool(&[("key", false)]);
    schema
        .schema_check_attr_optional(&mut ctx, &optional_mapping, TEST_SCHEMA_NAME, &config_meta)
        .unwrap();
    let optional_mapping = ValueRef::dict_bool(&[("another_key", true)]);
    schema
        .schema_check_attr_optional(&mut ctx, &optional_mapping, TEST_SCHEMA_NAME, &config_meta)
        .unwrap();
}

#[test]
fn test_schema_check_attr_optional_invalid() {
    let mut ctx = Context::new();
    let dict = ValueRef::dict_str(&[("key", "value")]);
    let schema = dict
        .dict_to_schema(TEST_SCHEMA_NAME, MAIN_PKG_PATH, &[])
        .unwrap();
    let config_meta = ValueRef::dict(None);
    let optional_mapping = ValueRef::dict_bool(&[("another_key", false)]);
    let err = schema.schema_check_attr_optional(
        &mut ctx,
        &optional_mapping,
        TEST_SCHEMA_NAME,
        &config_meta,
    );
    assert!(err.is_err())
}

#[test]
fn test_schema_default_settings() {
    let schema = get_test_schema_value();
    let schema_settings = schema.get_by_key(SCHEMA_SETTINGS_ATTR_NAME).unwrap();
    let output_type = schema_settings
        .get_by_key(SETTINGS_OUTPUT_KEY)
        .unwrap()
        .as_str();
    assert_eq!(output_type, SETTINGS_OUTPUT_INLINE);
}

#[test]
fn test_schema_attr_map() {
    let mut schema = get_test_schema_value();
    let entries = [("key1", "str"), ("key2", "int"), ("key3", "str|int")];
    for (attr, type_str) in entries {
        schema.update_attr_map(attr, type_str).unwrap();
    }
    for (attr, type_str) in entries {
        let result = schema.attr_map_get(attr).unwrap().unwrap().clone();
        assert_eq!(result, type_str);
    }
}

#[test]
fn test_schema_update_with_schema() {
    let mut schema1 = get_test_schema_value();
    let mut schema2 = get_test_schema_value();
    let entries = [("key1", "value1"), ("key2", "value2")];
    for (key, val) in entries {
        schema2
            .dict_update_entry(
                key,
                &ValueRef::str(val),
                &ConfigEntryOperationKind::Union,
                &-1,
            )
            .unwrap();
    }
    assert_ne!(schema1, schema2);
    schema1.schema_update_with_schema(&schema2);
    assert_eq!(schema1, schema2);
}
