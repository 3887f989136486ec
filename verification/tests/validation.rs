use kclvm_runtime::{
    schema_config_meta, ConfigEntryOperationKind, Context, ErrType, RuntimeError, ValueRef,
    SCHEMA_SETTINGS_ATTR_NAME, SETTINGS_OUTPUT_KEY, SETTINGS_SCHEMA_TYPE_KEY,
};

#[test]
fn required_attribute_that_is_missing_fails() {
    let mut ctx = Context::new();
    let schema = ValueRef::dict_int(&[("b", 1)])
        .dict_to_schema("Data", "__main__", &[])
        .unwrap();
    let mapping = ValueRef::dict_bool(&[("a", false)]);
    let meta = schema_config_meta("main.k", 3, 1);
    let err = schema
        .schema_check_attr_optional(&mut ctx, &mapping, "Data", &meta)
        .unwrap_err();
    match err {
        RuntimeError::RequiredAttributeError {
            attribute,
            schema_name,
        } => {
            assert_eq!(attribute, "a");
            assert_eq!(schema_name, "Data");
        }
        other => panic!("unexpected failure {:?}", other),
    }
    assert_eq!(ctx.panic_info.kcl_file, "main.k");
    assert_eq!(ctx.panic_info.kcl_line, 3);
    assert_eq!(ctx.panic_info.err_type, Some(ErrType::RequiredAttributeError));
}

#[test]
fn required_attribute_that_is_undefined_or_none_fails() {
    for hole in [ValueRef::undefined(), ValueRef::none()] {
        let mut ctx = Context::new();
        let mut dict = ValueRef::dict(None);
        dict.dict_update_key_value("a", hole).unwrap();
        let mapping = ValueRef::dict_bool(&[("a", false)]);
        let err = dict
            .schema_check_attr_optional(&mut ctx, &mapping, "Data", &ValueRef::dict(None))
            .unwrap_err();
        assert!(matches!(err, RuntimeError::RequiredAttributeError { .. }));
        assert_eq!(ctx.panic_info.kcl_file, "");
        assert_eq!(ctx.panic_info.kcl_line, 0);
    }
}

#[test]
fn optional_attribute_may_be_missing_or_undefined() {
    let mut ctx = Context::new();
    let mapping = ValueRef::dict_bool(&[("a", true)]);
    let meta = ValueRef::dict(None);
    let missing = ValueRef::dict(None).dict_to_schema("Data", "p", &[]).unwrap();
    missing
        .schema_check_attr_optional(&mut ctx, &mapping, "Data", &meta)
        .unwrap();
    let mut undefined = ValueRef::dict(None);
    undefined
        .dict_update_key_value("a", ValueRef::undefined())
        .unwrap();
    undefined
        .schema_check_attr_optional(&mut ctx, &mapping, "Data", &meta)
        .unwrap();
    let present = ValueRef::dict_int(&[("a", 1)]);
    present
        .schema_check_attr_optional(&mut ctx, &mapping, "Data", &meta)
        .unwrap();
    assert_eq!(ctx.panic_info.err_type, None);
}

#[test]
fn the_first_missing_attribute_is_reported() {
    let mut ctx = Context::new();
    let dict = ValueRef::dict_int(&[("b", 1)]);
    let mapping = ValueRef::dict_bool(&[("b", false), ("x", true), ("c", false), ("a", false)]);
    let err = dict
        .schema_check_attr_optional(&mut ctx, &mapping, "S", &ValueRef::none())
        .unwrap_err();
    match err {
        RuntimeError::RequiredAttributeError { attribute, .. } => assert_eq!(attribute, "c"),
        other => panic!("unexpected failure {:?}", other),
    }
}

#[test]
fn the_line_is_cut_to_32_bits() {
    let mut ctx = Context::new();
    let mut meta = ValueRef::dict(None);
    meta.dict_update_key_value("$lineno", ValueRef::integer((1 << 32) + 5))
        .unwrap();
    meta.dict_update_key_value("$filename", ValueRef::integer(1))
        .unwrap();
    ctx.set_kcl_filename("before.k");
    let err = ValueRef::dict(None).schema_check_attr_optional(
        &mut ctx,
        &ValueRef::dict_bool(&[("a", false)]),
        "S",
        &meta,
    );
    assert!(err.is_err());
    assert_eq!(ctx.panic_info.kcl_line, 5);
    assert_eq!(ctx.panic_info.kcl_file, "");
}

#[test]
fn check_of_values_of_the_wrong_kind() {
    let mut ctx = Context::new();
    let meta = ValueRef::dict(None);
    let err = ValueRef::integer(1)
        .schema_check_attr_optional(&mut ctx, &ValueRef::dict(None), "S", &meta)
        .unwrap_err();
    match err {
        RuntimeError::InvalidValueType { type_str } => assert_eq!(type_str, "int"),
        other => panic!("unexpected failure {:?}", other),
    }
    assert_eq!(ctx.panic_info.err_type, Some(ErrType::InvalidValueType));
    let err = ValueRef::dict(None)
        .schema_check_attr_optional(&mut ctx, &ValueRef::list(None), "S", &meta)
        .unwrap_err();
    match err {
        RuntimeError::InvalidValueType { type_str } => assert_eq!(type_str, "list"),
        other => panic!("unexpected failure {:?}", other),
    }
    let mapping_schema = ValueRef::dict_bool(&[("a", false)])
        .dict_to_schema("M", "p", &[])
        .unwrap();
    let err = ValueRef::dict(None)
        .schema_check_attr_optional(&mut ctx, &mapping_schema, "S", &meta)
        .unwrap_err();
    match err {
        RuntimeError::InvalidValueType { type_str } => assert_eq!(type_str, "M"),
        other => panic!("unexpected failure {:?}", other),
    }
}

#[test]
fn default_settings_are_inline_and_typed() {
    let mut schema = ValueRef::dict(None).dict_to_schema("Data", "__main__", &[]).unwrap();
    schema
        .schema_default_settings(&ValueRef::dict(None), "__main__.Data")
        .unwrap();
    let settings = schema.get_by_key(SCHEMA_SETTINGS_ATTR_NAME).unwrap();
    assert_eq!(
        settings.clone(),
        ValueRef::dict_str(&[("output_type", "INLINE"), ("__schema_type__", "__main__.Data")])
    );
}

#[test]
fn held_settings_get_the_runtime_type() {
    let mut schema = ValueRef::dict(None).dict_to_schema("Data", "__main__", &[]).unwrap();
    schema
        .dict_update_key_value(
            SCHEMA_SETTINGS_ATTR_NAME,
            ValueRef::dict_str(&[("output_type", "STANDALONE")]),
        )
        .unwrap();
    schema
        .schema_default_settings(&ValueRef::none(), "pkg.Data")
        .unwrap();
    let settings = schema.get_by_key(SCHEMA_SETTINGS_ATTR_NAME).unwrap();
    assert_eq!(settings.get_by_key(SETTINGS_OUTPUT_KEY).unwrap().as_str(), "STANDALONE");
    assert_eq!(
        settings.get_by_key(SETTINGS_SCHEMA_TYPE_KEY).unwrap().as_str(),
        "pkg.Data"
    );
}

#[test]
fn settings_of_the_config_replace_the_others() {
    let mut schema = ValueRef::dict(None).dict_to_schema("Data", "__main__", &[]).unwrap();
    let mut config = ValueRef::dict(None);
    config
        .dict_update_key_value(
            SCHEMA_SETTINGS_ATTR_NAME,
            ValueRef::dict_str(&[("output_type", "IGNORE")]),
        )
        .unwrap();
    schema.schema_default_settings(&config, "pkg.Data").unwrap();
    assert_eq!(
        schema.get_by_key(SCHEMA_SETTINGS_ATTR_NAME).unwrap().clone(),
        ValueRef::dict_str(&[("output_type", "IGNORE")])
    );
    let mut scalar = ValueRef::integer(1);
    assert!(scalar.schema_default_settings(&config, "pkg.Data").is_err());
}

#[test]
fn settings_that_are_no_table_are_replaced_by_the_defaults() {
    let mut dict = ValueRef::dict(None);
    dict.dict_update_key_value(SCHEMA_SETTINGS_ATTR_NAME, ValueRef::integer(1))
        .unwrap();
    dict.schema_default_settings(&ValueRef::dict(None), "T").unwrap();
    assert_eq!(
        dict.get_by_key(SCHEMA_SETTINGS_ATTR_NAME).unwrap().clone(),
        ValueRef::dict_str(&[("output_type", "INLINE"), ("__schema_type__", "T")])
    );
}

#[test]
fn schema_and_dictionary_views_round_trip() {
    let mut dict = ValueRef::dict_int(&[("a", 1), ("b", 2)]);
    dict.dict_update_entry(
        "b",
        &ValueRef::integer(2),
        &ConfigEntryOperationKind::Override,
        &1,
    )
    .unwrap();
    let keys = vec!["a".to_string()];
    let schema = dict.dict_to_schema("Data", "pkg", &keys).unwrap();
    assert!(schema.is_schema());
    assert_eq!(schema.schema_to_dict().unwrap(), dict);
    assert_eq!(dict.schema_to_dict().unwrap(), dict);
    assert_eq!(schema.dict_to_schema("Other", "x", &[]).unwrap(), schema);
}

#[test]
fn update_with_schema_of_other_names_keeps_both() {
    let mut dst = ValueRef::dict_int(&[("a", 1)])
        .dict_to_schema("Data", "pkg", &[])
        .unwrap();
    let mut src = ValueRef::dict(None).dict_to_schema("Mixin", "pkg", &[]).unwrap();
    src.dict_update_entry(
        "b",
        &ValueRef::integer(2),
        &ConfigEntryOperationKind::Override,
        &3,
    )
    .unwrap();
    src.dict_update_entry(
        "c",
        &ValueRef::integer(3),
        &ConfigEntryOperationKind::Insert,
        &0,
    )
    .unwrap();
    dst.schema_update_with_schema(&src);
    assert_eq!(dst.type_str(), "Data");
    let table = dst.dict_config().unwrap();
    assert_eq!(table.keys(), vec!["a", "b", "c"]);
    let b = table.get_entry("b").unwrap();
    assert_eq!(b.op, ConfigEntryOperationKind::Override);
    assert_eq!(b.insert_index, 3);
    let c = table.get_entry("c").unwrap();
    assert_eq!(c.op, ConfigEntryOperationKind::Insert);
    assert_eq!(c.insert_index, 0);
    assert_eq!(table.get_entry("a").unwrap().op, ConfigEntryOperationKind::Union);
}

#[test]
fn update_with_schema_overwrites_and_does_not_merge() {
    let mut dst = ValueRef::dict(None).dict_to_schema("Data", "pkg", &[]).unwrap();
    dst.dict_update_key_value("a", ValueRef::dict_int(&[("x", 1)]))
        .unwrap();
    let mut src = ValueRef::dict(None).dict_to_schema("Data", "pkg", &[]).unwrap();
    src.dict_update_key_value("a", ValueRef::dict_int(&[("y", 2)]))
        .unwrap();
    dst.schema_update_with_schema(&src);
    assert_eq!(
        dst.dict_get_value("a").unwrap().clone(),
        ValueRef::dict_int(&[("y", 2)])
    );
    let mut dict = ValueRef::dict_int(&[("k", 1)]);
    dict.schema_update_with_schema(&src);
    assert_eq!(dict, ValueRef::dict_int(&[("k", 1)]));
    dst.schema_update_with_schema(&ValueRef::dict_int(&[("z", 1)]));
    assert!(dst.dict_get_value("z").is_none());
}

#[test]
fn context_is_reset_between_runs() {
    let mut ctx = Context::with_config(true, true);
    ctx.set_err_type(ErrType::IntOverflowError);
    ctx.set_kcl_filename("a.k");
    ctx.set_kcl_line(9);
    ctx.reset();
    assert_eq!(ctx.panic_info.err_type, None);
    assert_eq!(ctx.panic_info.kcl_file, "");
    assert_eq!(ctx.panic_info.kcl_line, 0);
    assert!(ctx.cfg.debug_mode && ctx.cfg.strict_range_check);
}

#[test]
fn declared_types_are_kept_by_name() {
    let mut dict = ValueRef::dict(None);
    dict.update_attr_map("a", "int").unwrap();
    dict.update_attr_map("b", "str").unwrap();
    dict.update_attr_map("a", "float").unwrap();
    assert_eq!(dict.attr_map_get("a").unwrap().unwrap(), "float");
    assert_eq!(dict.attr_map_get("b").unwrap().unwrap(), "str");
    assert!(dict.attr_map_get("c").unwrap().is_none());
    dict.dict_clear().unwrap();
    assert_eq!(dict.attr_map_get("b").unwrap().unwrap(), "str");
}
