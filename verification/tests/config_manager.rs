use lumina_core::contracts::config_manager::{ConfigManager, Error};

fn s(v: &str) -> String {
    v.to_string()
}

fn setup_test() -> (ConfigManager, String) {
    let mut manager = ConfigManager::new();
    let admin = s("GADMIN");
    manager.initialize(admin.clone()).unwrap();
    (manager, admin)
}

#[test]
fn test_initialize() {
    let mut manager = ConfigManager::new();
    manager.initialize(s("GADMIN")).unwrap();
    assert_eq!(manager.get_version_number(), 1);
}

#[test]
fn test_initialize_rejects_double_init() {
    let mut manager = ConfigManager::new();
    manager.initialize(s("GADMIN")).unwrap();
    assert_eq!(manager.initialize(s("GADMIN")), Err(Error::AlreadyInitialized));
}

#[test]
fn test_set_and_get_config() {
    let (mut manager, admin) = setup_test();
    let version = manager
        .set_config(admin, s("max_retries"), s("5"), s("u64"), s("Maximum retry attempts"), 0)
        .unwrap();
    assert!(version > 0);

    let result = manager.get_config(s("max_retries"));
    assert!(result.is_some());
    let cv = result.unwrap();
    assert_eq!(cv.value, s("5"));
    assert_eq!(cv.schema_type, s("u64"));
}

#[test]
fn test_get_config_string() {
    let (mut manager, admin) = setup_test();
    manager
        .set_config(admin, s("api_endpoint"), s("https://api.example.com"), s("string"), s("API endpoint URL"), 0)
        .unwrap();
    let val = manager.get_config_string(s("api_endpoint"));
    assert_eq!(val, Some(s("https://api.example.com")));
}

#[test]
fn test_has_config() {
    let (mut manager, admin) = setup_test();
    assert!(!manager.has_config(s("nonexistent")));
    manager.set_config(admin, s("exists"), s("yes"), s("string"), s(""), 0).unwrap();
    assert!(manager.has_config(s("exists")));
}

#[test]
fn test_remove_config() {
    let (mut manager, admin) = setup_test();
    manager.set_config(admin.clone(), s("temp"), s("value"), s("string"), s(""), 0).unwrap();
    assert!(manager.has_config(s("temp")));
    manager.remove_config(admin, s("temp")).unwrap();
    assert!(!manager.has_config(s("temp")));
}

#[test]
fn test_get_all_configs() {
    let (mut manager, admin) = setup_test();
    let entries = manager.get_all_configs();
    assert_eq!(entries.len(), 0);

    manager.set_config(admin.clone(), s("a"), s("1"), s("u64"), s("first"), 0).unwrap();
    manager.set_config(admin, s("b"), s("2"), s("u64"), s("second"), 0).unwrap();

    let entries = manager.get_all_configs();
    assert_eq!(entries.len(), 2);
}

#[test]
fn test_get_config_count() {
    let (mut manager, admin) = setup_test();
    assert_eq!(manager.get_config_count(), 0);
    manager.set_config(admin, s("x"), s("10"), s("u64"), s(""), 0).unwrap();
    assert_eq!(manager.get_config_count(), 1);
}

#[test]
fn test_version_increments() {
    let (mut manager, admin) = setup_test();
    let v1 = manager.get_version_number();
    manager.set_config(admin.clone(), s("k"), s("v"), s("string"), s(""), 0).unwrap();
    let v2 = manager.get_version_number();
    assert_eq!(v2, v1 + 1);

    manager.set_config(admin, s("k2"), s("v2"), s("string"), s(""), 0).unwrap();
    let v3 = manager.get_version_number();
    assert_eq!(v3, v2 + 1);
}

#[test]
fn test_validate_config_value() {
    let (mut manager, admin) = setup_test();
    manager.set_config(admin, s("retries"), s("3"), s("u64"), s(""), 0).unwrap();
    assert!(manager.validate_config_value(s("retries"), s("5")));
    assert!(!manager.validate_config_value(s("retries"), s("not_a_number")));
}

#[test]
fn test_batch_import() {
    let (mut manager, admin) = setup_test();
    let keys = vec![s("k1"), s("k2"), s("k3")];
    let values = vec![s("v1"), s("v2"), s("v3")];
    let schema_types = vec![s("string"), s("string"), s("string")];
    let descriptions = vec![s("desc1"), s("desc2"), s("desc3")];

    let version = manager.batch_import_configs(admin, keys, values, schema_types, descriptions, 0).unwrap();
    assert_eq!(manager.get_config_count(), 3);
    assert!(version > 0);
}

#[test]
fn test_get_snapshot() {
    let (mut manager, admin) = setup_test();
    manager.set_config(admin, s("alpha"), s("first"), s("string"), s(""), 0).unwrap();

    let snapshot = manager.get_snapshot(0);
    assert_eq!(snapshot.total_entries, 1);
    assert_eq!(snapshot.keys.len(), 1);
    assert_eq!(snapshot.values.len(), 1);
}

#[test]
fn config_error_codes() {
    assert_eq!(Error::Unauthorized.code(), 1);
    assert_eq!(Error::ConfigNotFound.code(), 2);
    assert_eq!(Error::NotInitialized.code(), 6);
    assert_eq!(Error::AlreadyInitialized.code(), 7);
}

#[test]
fn config_changes_need_the_admin() {
    let mut fresh = ConfigManager::new();
    assert_eq!(fresh.set_config(s("GADMIN"), s("k"), s("v"), s("string"), s(""), 0), Err(Error::NotInitialized));
    let (mut manager, _admin) = setup_test();
    assert_eq!(manager.set_config(s("GOTHER"), s("k"), s("v"), s("string"), s(""), 0), Err(Error::Unauthorized));
    assert_eq!(manager.remove_config(s("GOTHER"), s("k")), Err(Error::Unauthorized));
    assert_eq!(manager.get_version_number(), 1);
}

#[test]
fn removing_an_unknown_key_is_refused() {
    let (mut manager, admin) = setup_test();
    assert_eq!(manager.remove_config(admin, s("missing")), Err(Error::ConfigNotFound));
    assert_eq!(manager.get_version_number(), 1);
}

#[test]
fn overwriting_keeps_index_order_and_bumps_version() {
    let (mut manager, admin) = setup_test();
    manager.set_config(admin.clone(), s("a"), s("1"), s("u64"), s(""), 10).unwrap();
    manager.set_config(admin.clone(), s("b"), s("2"), s("u64"), s(""), 11).unwrap();
    let v = manager.set_config(admin.clone(), s("a"), s("9"), s("i128"), s(""), 12).unwrap();
    assert_eq!(v, 4);
    assert_eq!(manager.get_all_config_keys(), vec![s("a"), s("b")]);
    let cv = manager.get_config(s("a")).unwrap();
    assert_eq!(cv.value, s("9"));
    assert_eq!(cv.updated_at, 12);
    assert_eq!(cv.version, 4);
    manager.remove_config(admin.clone(), s("a")).unwrap();
    assert_eq!(manager.get_all_config_keys(), vec![s("b")]);
    manager.set_config(admin, s("a"), s("3"), s("u64"), s(""), 13).unwrap();
    assert_eq!(manager.get_all_config_keys(), vec![s("b"), s("a")]);
    assert_eq!(manager.get_version_number(), 6);
}

#[test]
fn all_configs_describe_each_key_by_its_schema() {
    let (mut manager, admin) = setup_test();
    manager.set_config(admin, s("limit"), s("7"), s("u64"), s("ignored"), 5).unwrap();
    let entries = manager.get_all_configs();
    assert_eq!(entries[0].key, s("limit"));
    assert_eq!(entries[0].description, s("u64"));
    assert_eq!(entries[0].value.version, 2);
}

#[test]
fn validation_by_schema() {
    let (mut manager, admin) = setup_test();
    manager.set_config(admin.clone(), s("n"), s("1"), s("u64"), s(""), 0).unwrap();
    manager.set_config(admin.clone(), s("i"), s("1"), s("i128"), s(""), 0).unwrap();
    manager.set_config(admin.clone(), s("b"), s("1"), s("bool"), s(""), 0).unwrap();
    manager.set_config(admin, s("t"), s("x"), s("string"), s(""), 0).unwrap();
    assert!(!manager.validate_config_value(s("n"), s("")));
    assert!(!manager.validate_config_value(s("n"), s("-5")));
    assert!(manager.validate_config_value(s("n"), s("0042")));
    assert!(manager.validate_config_value(s("i"), s("-5")));
    assert!(manager.validate_config_value(s("i"), s("-")));
    assert!(!manager.validate_config_value(s("i"), s("5-")));
    assert!(!manager.validate_config_value(s("i"), s("")));
    assert!(manager.validate_config_value(s("b"), s("true")));
    assert!(manager.validate_config_value(s("b"), s("0")));
    assert!(!manager.validate_config_value(s("b"), s("yes")));
    assert!(manager.validate_config_value(s("t"), s("anything")));
    assert!(manager.validate_config_value(s("unknown"), s("anything")));
}

#[test]
fn batch_import_fills_missing_columns() {
    let (mut manager, admin) = setup_test();
    let keys = vec![s("k1"), s("k2"), s("k1")];
    let values = vec![s("v1")];
    let version = manager.batch_import_configs(admin, keys, values, vec![s("u64")], vec![], 77).unwrap();
    assert_eq!(version, 4);
    assert_eq!(manager.get_config_count(), 2);
    let k1 = manager.get_config(s("k1")).unwrap();
    assert_eq!(k1.value, s(""));
    assert_eq!(k1.schema_type, s("string"));
    assert_eq!(k1.version, 4);
    assert_eq!(k1.updated_at, 77);
    let k2 = manager.get_config(s("k2")).unwrap();
    assert_eq!(k2.value, s(""));
    assert_eq!(k2.version, 3);
    assert_eq!(manager.get_all_config_keys(), vec![s("k1"), s("k2")]);
}
