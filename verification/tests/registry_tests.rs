use extension_update::error::LoadError;
use extension_update::update2::loader::{
    extract_data_from_get_item, extract_data_from_have_map, AttributeValue, Item, ScanState,
    ScanStep,
};
use extension_update::update2::model::{Extension, Timestamp};
use extension_update::update2::registry::{
    init_from_dynamodb, ExtensionRegistry, RefreshReport, DEFAULT_REFRESH_SECONDS,
};

fn record(id: &str, version: &str) -> Extension {
    Extension {
        id: id.to_string(),
        cohort: String::new(),
        cohortname: String::new(),
        package_name: String::new(),
        version: version.to_string(),
        hash_sha256: "H".to_string(),
        status: String::new(),
        fp: String::new(),
        blacklisted: false,
        required: false,
        hash: String::new(),
        size: 0,
        created_at: Timestamp { seconds: 0, nanos: 0 },
        update_at: Timestamp { seconds: 0, nanos: 0 },
        patch_list: Vec::new(),
    }
}

fn s(key: &str, value: &str) -> (String, AttributeValue) {
    (key.to_string(), AttributeValue::S(value.to_string()))
}

#[test]
fn lookup_finds_a_record_by_its_id() {
    let registry = init_from_dynamodb(vec![record("a", "1.0"), record("b", "2.0")]);
    assert_eq!(registry.lookup("a").map(|e| e.version.clone()), Some("1.0".to_string()));
    assert_eq!(registry.lookup("b").map(|e| e.version.clone()), Some("2.0".to_string()));
    assert!(registry.lookup("c").is_none());
    assert!(registry.lookup("").is_none());
}

#[test]
fn last_record_of_an_id_counts() {
    let registry = init_from_dynamodb(vec![record("a", "1.0"), record("b", "2.0"), record("a", "3.0")]);
    assert_eq!(registry.lookup("a").map(|e| e.version.clone()), Some("3.0".to_string()));
}

#[test]
fn replace_all_leaves_nothing_of_the_old_snapshot() {
    let mut registry = init_from_dynamodb(vec![record("a", "1.0"), record("b", "2.0")]);
    registry.replace_all(init_from_dynamodb(vec![record("b", "2.1"), record("c", "3.0")]));
    assert!(registry.lookup("a").is_none());
    assert_eq!(registry.lookup("b").map(|e| e.version.clone()), Some("2.1".to_string()));
    assert_eq!(registry.lookup("c").map(|e| e.version.clone()), Some("3.0".to_string()));
    registry.replace_all(init_from_dynamodb(Vec::new()));
    assert!(registry.lookup("b").is_none());
}

#[test]
fn failed_refresh_keeps_the_old_snapshot() {
    let mut registry = init_from_dynamodb(vec![record("a", "1.0")]);
    let report = registry.apply_refresh(Err(LoadError { reason: "store down".to_string() }));
    assert!(matches!(report, RefreshReport::Failed(ref reason) if reason == "store down"));
    assert_eq!(registry.lookup("a").map(|e| e.version.clone()), Some("1.0".to_string()));
}

#[test]
fn successful_refresh_swaps_the_snapshot() {
    let mut registry = init_from_dynamodb(vec![record("a", "1.0")]);
    let report = registry.apply_refresh(Ok(init_from_dynamodb(vec![
        record("b", "2.0"),
        record("c", "1.0"),
        record("b", "2.1"),
    ])));
    assert!(matches!(report, RefreshReport::Refreshed(2)));
    assert!(registry.lookup("a").is_none());
    assert_eq!(registry.lookup("b").map(|e| e.version.clone()), Some("2.1".to_string()));
    assert_eq!(registry.len(), 2);
}

#[test]
fn registry_counts_its_ids() {
    assert_eq!(ExtensionRegistry::new().len(), 0);
    let registry = ExtensionRegistry::from_records(vec![
        record("a", "1.0"),
        record("b", "2.0"),
        record("a", "3.0"),
        record("", "4.0"),
    ]);
    assert_eq!(registry.len(), 3);
    assert_eq!(registry.lookup("a").map(|e| e.version.clone()), Some("3.0".to_string()));
    assert_eq!(registry.lookup("").map(|e| e.version.clone()), Some("4.0".to_string()));
}

#[test]
fn default_refresh_period_is_twenty_minutes() {
    assert_eq!(DEFAULT_REFRESH_SECONDS, 20 * 60);
}

#[test]
fn store_record_maps_field_by_field() {
    let item = Item {
        fields: vec![
            s("ID", "abc"),
            s("COHORT", "c1"),
            s("COHORTNAME", "stable"),
            s("NAME", "pkg.crx"),
            s("VERSION", "1.2.0"),
            s("HASH_SHA256", "H1"),
            s("STATUS", "ok"),
            s("FP", "fp1"),
            ("BLACKLISTED".to_string(), AttributeValue::Bool(true)),
            ("REQUIRED".to_string(), AttributeValue::S("true".to_string())),
            s("HASH", "base64hash"),
            ("SIZE".to_string(), AttributeValue::N("1000".to_string())),
            s("CREATED_AT", "2024-01-02T03:04:05Z"),
            s("UPDATE_AT", "2024-01-02T03:04:05.5+01:00"),
        ],
    };
    let e = Extension::from_item(&item);
    assert_eq!(e.id, "abc");
    assert_eq!(e.cohort, "c1");
    assert_eq!(e.cohortname, "stable");
    assert_eq!(e.package_name, "pkg.crx");
    assert_eq!(e.version, "1.2.0");
    assert_eq!(e.hash_sha256, "H1");
    assert_eq!(e.status, "ok");
    assert_eq!(e.fp, "fp1");
    assert!(e.blacklisted);
    assert!(e.required);
    assert_eq!(e.hash, "base64hash");
    assert_eq!(e.size, 1000);
    assert_eq!(e.created_at, Timestamp { seconds: 1704164645, nanos: 0 });
    assert_eq!(e.update_at, Timestamp { seconds: 1704164645 - 3600, nanos: 500_000_000 });
    assert!(e.patch_list.is_empty());
}

#[test]
fn missing_and_unreadable_fields_take_their_defaults() {
    let item = Item {
        fields: vec![
            s("ID", "abc"),
            ("VERSION".to_string(), AttributeValue::N("3".to_string())),
            ("BLACKLISTED".to_string(), AttributeValue::S("yes".to_string())),
            ("SIZE".to_string(), AttributeValue::N("12.5".to_string())),
            s("CREATED_AT", "yesterday"),
            ("UPDATE_AT".to_string(), AttributeValue::Other),
        ],
    };
    let e = Extension::from_item(&item);
    assert_eq!(e.id, "abc");
    assert_eq!(e.version, "");
    assert_eq!(e.hash_sha256, "");
    assert!(!e.blacklisted);
    assert!(!e.required);
    assert_eq!(e.size, 0);
    assert_eq!(e.created_at, Timestamp { seconds: 0, nanos: 0 });
    assert_eq!(e.update_at, Timestamp { seconds: 0, nanos: 0 });
}

#[test]
fn size_is_read_from_a_number_or_a_string() {
    let as_string = Item { fields: vec![s("SIZE", "42")] };
    assert_eq!(Extension::from_item(&as_string).size, 42);
    let too_large = Item {
        fields: vec![("SIZE".to_string(), AttributeValue::N("18446744073709551616".to_string()))],
    };
    assert_eq!(Extension::from_item(&too_large).size, 0);
    let largest = Item {
        fields: vec![("SIZE".to_string(), AttributeValue::N("18446744073709551615".to_string()))],
    };
    assert_eq!(Extension::from_item(&largest).size, u64::MAX);
    let negative = Item { fields: vec![("SIZE".to_string(), AttributeValue::N("-1".to_string()))] };
    assert_eq!(Extension::from_item(&negative).size, 0);
}

#[test]
fn extract_data_reads_strings_only() {
    let item = Item {
        fields: vec![s("A", "x"), ("B".to_string(), AttributeValue::Bool(true)), s("A", "y")],
    };
    assert_eq!(extract_data_from_have_map("A", &item), "x");
    assert_eq!(extract_data_from_have_map("B", &item), "");
    assert_eq!(extract_data_from_have_map("C", &item), "");
    assert_eq!(extract_data_from_get_item("A", &Some(item)), "x");
    assert_eq!(extract_data_from_get_item("A", &None), "");
}

#[test]
fn scan_collects_pages_until_the_store_is_exhausted() {
    let page1 = vec![Item { fields: vec![s("ID", "a")] }, Item { fields: vec![s("ID", "b")] }];
    let page2 = vec![Item { fields: vec![s("ID", "c")] }];
    let state = match ScanState::new().on_page(&page1, true) {
        ScanStep::More(state) => state,
        ScanStep::Done(_) => panic!("the store has more"),
    };
    let records = match state.on_page(&page2, false) {
        ScanStep::Done(records) => records,
        ScanStep::More(_) => panic!("the store is exhausted"),
    };
    let ids: Vec<&str> = records.iter().map(|r| r.id.as_str()).collect();
    assert_eq!(ids, vec!["a", "b", "c"]);
}

#[test]
fn scan_of_an_empty_store_is_done_at_once() {
    match ScanState::new().on_page(&Vec::new(), false) {
        ScanStep::Done(records) => assert!(records.is_empty()),
        ScanStep::More(_) => panic!("the store is exhausted"),
    }
}

#[test]
fn a_reader_sees_one_snapshot_for_its_whole_pass() {
    let shared = std::sync::Arc::new(std::sync::RwLock::new(ExtensionRegistry::new()));
    shared.write().unwrap().replace_all(init_from_dynamodb(vec![record("a", "1.0"), record("b", "1.0")]));
    let reader = shared.clone();
    let handle = {
        let guard = reader.read().unwrap();
        let a = guard.lookup("a").map(|e| e.version.clone());
        let b = guard.lookup("b").map(|e| e.version.clone());
        (a, b)
    };
    shared.write().unwrap().replace_all(init_from_dynamodb(vec![record("a", "2.0"), record("b", "2.0")]));
    assert_eq!(handle, (Some("1.0".to_string()), Some("1.0".to_string())));
    let guard = shared.read().unwrap();
    assert_eq!(guard.lookup("a").map(|e| e.version.clone()), Some("2.0".to_string()));
    assert_eq!(guard.lookup("b").map(|e| e.version.clone()), Some("2.0".to_string()));
}
