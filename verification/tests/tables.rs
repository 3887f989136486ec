use kclvm_runtime::{
    int_to_string, schema_config_meta, schema_runtime_type, ConfigEntryOperationKind, DictValue,
    RuntimeError, ValueRef,
};

#[test]
fn last_unpack_wins() {
    let mut d = DictValue::new(&[("a", &ValueRef::integer(1)), ("b", &ValueRef::integer(2))]);
    let other = ValueRef::dict_int(&[("b", 20), ("c", 30)]);
    d.insert_unpack(&other);
    assert_eq!(d.get(&ValueRef::str("b")).unwrap().as_int(), 20);
    assert_eq!(d.get(&ValueRef::str("c")).unwrap().as_int(), 30);
    assert_eq!(d.get(&ValueRef::str("a")).unwrap().as_int(), 1);
    assert_eq!(d.keys(), vec!["a", "b", "c"]);
}

#[test]
fn unpack_leaves_operations_alone() {
    let mut d = DictValue::empty();
    d.set_entry(kclvm_runtime::DictEntry {
        key: "b".to_string(),
        value: ValueRef::integer(2),
        op: ConfigEntryOperationKind::Override,
        insert_index: 3,
    });
    let mut other = ValueRef::dict(None);
    other
        .dict_update_entry(
            "b",
            &ValueRef::integer(20),
            &ConfigEntryOperationKind::Insert,
            &7,
        )
        .unwrap();
    d.insert_unpack(&other);
    let entry = d.get_entry("b").unwrap();
    assert_eq!(entry.value.as_int(), 20);
    assert_eq!(entry.op, ConfigEntryOperationKind::Override);
    assert_eq!(entry.insert_index, 3);
}

#[test]
fn unpack_of_what_is_no_dictionary_changes_nothing() {
    let mut d = DictValue::new(&[("a", &ValueRef::integer(1))]);
    d.insert_unpack(&ValueRef::integer(3));
    let schema = ValueRef::dict_int(&[("z", 1)])
        .dict_to_schema("S", "p", &[])
        .unwrap();
    d.insert_unpack(&schema);
    assert_eq!(d.keys(), vec!["a"]);
}

#[test]
fn get_and_insert_take_string_keys_only() {
    let mut d = DictValue::empty();
    d.insert(&ValueRef::str("k"), &ValueRef::integer(1));
    d.insert(&ValueRef::integer(5), &ValueRef::integer(2));
    assert_eq!(d.len(), 1);
    assert_eq!(d.get(&ValueRef::str("k")).unwrap().as_int(), 1);
    assert!(d.get(&ValueRef::integer(5)).is_none());
    assert!(d.get(&ValueRef::str("missing")).is_none());
}

#[test]
fn a_name_given_twice_keeps_its_place_and_its_last_value() {
    let d = ValueRef::dict_int(&[("a", 1), ("b", 2), ("a", 3)]);
    let keys = d.dict_keys().unwrap();
    assert_eq!(
        keys,
        ValueRef::list_str(&["a".to_string(), "b".to_string()])
    );
    let values = d.dict_values().unwrap();
    assert_eq!(
        values,
        ValueRef::list(Some(&[&ValueRef::integer(3), &ValueRef::integer(2)]))
    );
}

#[test]
fn update_entry_then_get_entry_matches_what_was_set() {
    let mut d = ValueRef::dict_int(&[("a", 1)]);
    d.dict_update_entry(
        "k",
        &ValueRef::str("v"),
        &ConfigEntryOperationKind::Insert,
        &4,
    )
    .unwrap();
    let one = d.dict_get_entry("k").unwrap().unwrap();
    let table = one.dict_config().unwrap();
    assert_eq!(table.len(), 1);
    let entry = table.get_entry("k").unwrap();
    assert_eq!(entry.key, "k");
    assert_eq!(entry.value, ValueRef::str("v"));
    assert_eq!(entry.op, ConfigEntryOperationKind::Insert);
    assert_eq!(entry.insert_index, 4);
    assert!(d.dict_get_entry("missing").unwrap().is_none());
}

#[test]
fn get_entries_passes_over_missing_names() {
    let mut d = ValueRef::dict_int(&[("a", 1), ("b", 2), ("c", 3)]);
    d.dict_update_entry(
        "b",
        &ValueRef::integer(2),
        &ConfigEntryOperationKind::Override,
        &0,
    )
    .unwrap();
    let some = d.dict_get_entries(vec!["c", "x", "b"]).unwrap();
    let table = some.dict_config().unwrap();
    assert_eq!(table.keys(), vec!["c", "b"]);
    assert_eq!(
        table.get_entry("b").unwrap().op,
        ConfigEntryOperationKind::Override
    );
    assert_eq!(table.get_entry("b").unwrap().insert_index, 0);
    assert_eq!(
        table.get_entry("c").unwrap().op,
        ConfigEntryOperationKind::Union
    );
    assert_eq!(table.get_entry("c").unwrap().insert_index, -1);
}

#[test]
fn update_key_value_leaves_operation_and_position() {
    let mut d = ValueRef::dict(None);
    d.dict_update_entry(
        "k",
        &ValueRef::integer(1),
        &ConfigEntryOperationKind::Override,
        &2,
    )
    .unwrap();
    d.dict_update_key_value("k", ValueRef::integer(9)).unwrap();
    let table = d.dict_config().unwrap();
    let entry = table.get_entry("k").unwrap();
    assert_eq!(entry.value.as_int(), 9);
    assert_eq!(entry.op, ConfigEntryOperationKind::Override);
    assert_eq!(entry.insert_index, 2);
}

#[test]
fn update_takes_the_table_of_a_schema_and_passes_over_scalars() {
    let mut d = ValueRef::dict_int(&[("a", 1)]);
    let schema = ValueRef::dict_int(&[("a", 5), ("b", 6)])
        .dict_to_schema("S", "p", &[])
        .unwrap();
    d.dict_update(&schema).unwrap();
    assert_eq!(d, ValueRef::dict_int(&[("a", 5), ("b", 6)]));
    d.dict_update(&ValueRef::integer(3)).unwrap();
    assert_eq!(d, ValueRef::dict_int(&[("a", 5), ("b", 6)]));
}

#[test]
fn remove_and_clear() {
    let mut d = ValueRef::dict_int(&[("a", 1), ("b", 2), ("c", 3)]);
    d.dict_update_entry(
        "b",
        &ValueRef::integer(2),
        &ConfigEntryOperationKind::Override,
        &5,
    )
    .unwrap();
    d.dict_remove("b").unwrap();
    assert_eq!(d, ValueRef::dict_int(&[("a", 1), ("c", 3)]));
    d.dict_remove("missing").unwrap();
    assert_eq!(d, ValueRef::dict_int(&[("a", 1), ("c", 3)]));
    d.dict_update_key_value("b", ValueRef::integer(2)).unwrap();
    let table = d.dict_config().unwrap();
    assert_eq!(table.keys(), vec!["a", "c", "b"]);
    assert_eq!(
        table.get_entry("b").unwrap().op,
        ConfigEntryOperationKind::Union
    );
    assert_eq!(table.get_entry("b").unwrap().insert_index, -1);
    d.dict_clear().unwrap();
    assert_eq!(d, ValueRef::dict(None));
}

#[test]
fn operations_on_a_value_of_the_wrong_kind_name_its_type() {
    let mut v = ValueRef::str("text");
    let checks: Vec<RuntimeError> = vec![
        v.dict_clear().unwrap_err(),
        v.dict_keys().unwrap_err(),
        v.dict_values().unwrap_err(),
        v.dict_get(&ValueRef::str("k")).unwrap_err(),
        v.dict_get_entry("k").unwrap_err(),
        v.dict_get_entries(vec!["k"]).unwrap_err(),
        v.dict_update(&ValueRef::dict(None)).unwrap_err(),
        v.dict_update_key_value("k", ValueRef::none()).unwrap_err(),
        v.dict_remove("k").unwrap_err(),
        v.dict_to_schema("S", "p", &[]).unwrap_err(),
        v.schema_to_dict().unwrap_err(),
        v.update_attr_map("k", "int").unwrap_err(),
        v.attr_map_get("k").unwrap_err(),
        v.dict_config().unwrap_err(),
    ];
    for e in checks {
        match e {
            RuntimeError::InvalidValueType { type_str } => assert_eq!(type_str, "str"),
            other => panic!("unexpected failure {:?}", other),
        }
    }
    assert!(v.dict_get_value("k").is_none());
    assert_eq!(v, ValueRef::str("text"));
}

#[test]
fn type_names() {
    assert_eq!(ValueRef::undefined().type_str(), "UndefinedType");
    assert_eq!(ValueRef::none().type_str(), "NoneType");
    assert_eq!(ValueRef::bool(true).type_str(), "bool");
    assert_eq!(ValueRef::integer(1).type_str(), "int");
    assert_eq!(ValueRef::float_bits(0).type_str(), "float");
    assert_eq!(ValueRef::str("").type_str(), "str");
    assert_eq!(ValueRef::list(None).type_str(), "list");
    assert_eq!(ValueRef::dict(None).type_str(), "dict");
    let schema = ValueRef::dict(None)
        .dict_to_schema("Person", "pkg", &[])
        .unwrap();
    assert_eq!(schema.type_str(), "Person");
}

#[test]
fn a_shared_value_is_copied_before_it_is_changed() {
    let mut a = ValueRef::dict_int(&[("k", 1)]);
    let b = a.clone();
    a.dict_update_key_value("k", ValueRef::integer(2)).unwrap();
    assert_eq!(a.dict_get_value("k").unwrap().as_int(), 2);
    assert_eq!(b.dict_get_value("k").unwrap().as_int(), 1);
    let schema = b.dict_to_schema("S", "p", &[]).unwrap();
    let mut view = schema.schema_to_dict().unwrap();
    view.dict_update_key_value("k", ValueRef::integer(3)).unwrap();
    assert_eq!(schema.dict_get_value("k").unwrap().as_int(), 1);
    assert_eq!(b.dict_get_value("k").unwrap().as_int(), 1);
    assert_eq!(view.dict_get_value("k").unwrap().as_int(), 3);
}

#[test]
fn a_deep_copy_is_the_same_value() {
    let mut d = ValueRef::dict(None);
    d.dict_update_key_value("a", ValueRef::dict_int(&[("x", 1)]))
        .unwrap();
    d.dict_update_key_value(
        "l",
        ValueRef::list(Some(&[&ValueRef::str("s"), &ValueRef::none()])),
    )
    .unwrap();
    d.update_attr_map("a", "{str:int}").unwrap();
    let schema = d.dict_to_schema("S", "p", &["a".to_string()]).unwrap();
    let copy = schema.deep_copy();
    assert_eq!(copy, schema);
    copy.prove_valid();
}

#[test]
fn equality_tells_kinds_order_and_metadata_apart() {
    assert_ne!(ValueRef::none(), ValueRef::undefined());
    assert_ne!(ValueRef::integer(0), ValueRef::bool(false));
    assert_ne!(
        ValueRef::dict_int(&[("a", 1), ("b", 2)]),
        ValueRef::dict_int(&[("b", 2), ("a", 1)])
    );
    let mut tagged = ValueRef::dict_int(&[("a", 1)]);
    tagged
        .dict_update_entry(
            "a",
            &ValueRef::integer(1),
            &ConfigEntryOperationKind::Override,
            &-1,
        )
        .unwrap();
    assert_ne!(tagged, ValueRef::dict_int(&[("a", 1)]));
    let dict = ValueRef::dict_int(&[("a", 1)]);
    let schema = dict.dict_to_schema("S", "p", &[]).unwrap();
    assert_ne!(dict, schema);
    assert_ne!(schema, dict.dict_to_schema("T", "p", &[]).unwrap());
    assert_ne!(
        schema,
        dict.dict_to_schema("S", "p", &["a".to_string()]).unwrap()
    );
    assert_eq!(schema, dict.dict_to_schema("S", "p", &[]).unwrap());
}

#[test]
fn runtime_type_is_package_dot_name() {
    assert_eq!(schema_runtime_type("Data", "__main__"), "__main__.Data");
    assert_eq!(schema_runtime_type("", ""), ".");
}

#[test]
fn config_meta_holds_the_position_under_reserved_names() {
    let meta = schema_config_meta("main.k", 12, 7);
    assert_eq!(
        meta.dict_keys().unwrap(),
        ValueRef::list_str(&[
            "$filename".to_string(),
            "$lineno".to_string(),
            "$columnno".to_string()
        ])
    );
    assert_eq!(meta.get_by_key("$filename").unwrap().as_str(), "main.k");
    assert_eq!(meta.get_by_key("$lineno").unwrap().as_int(), 12);
    assert_eq!(meta.get_by_key("$columnno").unwrap().as_int(), 7);
    let wrapped = schema_config_meta("f", u64::MAX, 1 << 63);
    assert_eq!(wrapped.get_by_key("$lineno").unwrap().as_int(), -1);
    assert_eq!(wrapped.get_by_key("$columnno").unwrap().as_int(), i64::MIN);
}

#[test]
fn integers_in_decimal() {
    assert_eq!(int_to_string(0), "0");
    assert_eq!(int_to_string(7), "7");
    assert_eq!(int_to_string(10), "10");
    assert_eq!(int_to_string(-1), "-1");
    assert_eq!(int_to_string(1234567890), "1234567890");
    assert_eq!(int_to_string(i64::MAX), "9223372036854775807");
    assert_eq!(int_to_string(i64::MIN), "-9223372036854775808");
}

#[test]
fn attribute_names_from_values() {
    assert_eq!(ValueRef::integer(-42).attr_str().unwrap(), "-42");
    assert_eq!(ValueRef::str("name").attr_str().unwrap(), "name");
    match ValueRef::bool(true).attr_str().unwrap_err() {
        RuntimeError::InvalidValueType { type_str } => assert_eq!(type_str, "bool"),
        other => panic!("unexpected failure {:?}", other),
    }
    match ValueRef::float_bits(1.5f64.to_bits()).attr_str().unwrap_err() {
        RuntimeError::InvalidValueType { type_str } => assert_eq!(type_str, "float"),
        other => panic!("unexpected failure {:?}", other),
    }
}

#[test]
fn truth_values() {
    assert!(!ValueRef::none().as_bool());
    assert!(!ValueRef::undefined().as_bool());
    assert!(!ValueRef::integer(0).as_bool());
    assert!(ValueRef::integer(-3).as_bool());
    assert!(!ValueRef::str("").as_bool());
    assert!(ValueRef::str("a").as_bool());
    assert!(!ValueRef::list(None).as_bool());
    assert!(!ValueRef::dict(None).as_bool());
    assert!(ValueRef::dict_int(&[("a", 0)]).as_bool());
}
