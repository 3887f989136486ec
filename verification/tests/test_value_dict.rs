use kclvm_runtime::{ConfigEntryOperationKind, ValueRef};

#[test]
fn test_dict_get() {
    let entries = [("key1", 1), ("key2", 2)];
    let test_dict = ValueRef::dict_int(&entries);
    for (key, val) in entries {
        assert_eq!(
            test_dict
                .dict_get(&ValueRef::str(key))
                .unwrap()
                .unwrap()
                .clone(),
            ValueRef::integer(val)
        );
        assert_eq!(test_dict.dict_get_value(key).unwrap().clone().as_int(), val);
        assert_eq!(
            test_dict.dict_get_entry(key).unwrap().unwrap().clone(),
            ValueRef::dict_int(&[(key, val)])
        );
        assert_eq!(
            test_dict.dict_get_entries(vec![key]).unwrap(),
            ValueRef::dict_int(&[(key, val)])
        );
    }
}

#[test]
fn test_dict_update() {
    let entries = [("key1", "value1"), ("key2", "value2")];
    let mut test_dict = ValueRef::dict_str(&entries);
    let update_entries = [("key1", "override_value1"), ("key2", "override_value2")];
    let update_dict = ValueRef::dict_str(&update_entries);
    test_dict.dict_update(&update_dict).unwrap();
    for (key, val) in update_entries {
        assert_eq!(
            test_dict
                .dict_get(&ValueRef::str(key))
                .unwrap()
                .unwrap()
                .clone(),
            ValueRef::str(val)
        );
    }
    let mut test_dict = ValueRef::dict_str(&entries);
    for (key, val) in update_entries {
        test_dict
            .dict_update_key_value(key, ValueRef::str(val))
            .unwrap();
    }
    for (key, val) in update_entries {
        assert_eq!(
            test_dict
                .dict_get(&ValueRef::str(key))
                .unwrap()
                .unwrap()
                .clone(),
            ValueRef::str(val)
        );
    }
    let mut test_dict = ValueRef::dict_str(&entries);
    for (key, val) in update_entries {
        test_dict
            .dict_update_entry(
                key,
                &ValueRef::str(val),
                &ConfigEntryOperationKind::Union,
                &-1,
            )
            .unwrap();
    }
    for (key, val) in update_entries {
        assert_eq!(
            test_dict
                .dict_get(&ValueRef::str(key))
                .unwrap()
                .unwrap()
                .clone(),
            ValueRef::str(val)
        );
    }
}
