use extension_update::update2::extension::{decide_one, find_patch_for};
use extension_update::update2::model::{
    Extension, Outcome, Patch, PatchInfo, RequestedComponent, Timestamp,
};
use extension_update::update2::registry::{init_from_dynamodb, ExtensionRegistry};

fn record(id: &str, version: &str, hash: &str, size: u64, blacklisted: bool) -> Extension {
    Extension {
        id: id.to_string(),
        cohort: String::new(),
        cohortname: String::new(),
        package_name: String::new(),
        version: version.to_string(),
        hash_sha256: hash.to_string(),
        status: String::new(),
        fp: String::new(),
        blacklisted,
        required: false,
        hash: String::new(),
        size,
        created_at: Timestamp { seconds: 0, nanos: 0 },
        update_at: Timestamp { seconds: 0, nanos: 0 },
        patch_list: Vec::new(),
    }
}

fn item(id: &str, version: &str, fp: &str) -> RequestedComponent {
    RequestedComponent {
        id: id.to_string(),
        client_version: version.to_string(),
        client_fingerprint: fp.to_string(),
    }
}

fn patch(fp: &str, hash: &str, size: u64) -> Patch {
    Patch {
        fingerprint: fp.to_string(),
        info: PatchInfo { namediff: format!("{}.puff", fp), hashdiff: hash.to_string(), sizediff: size },
    }
}

#[test]
fn blacklisted_entry_resolves_to_no_update() {
    let registry = init_from_dynamodb(vec![record("abc", "5.0", "H1", 10, true)]);
    let decisions = Extension::filter_for_updates(&vec![item("abc", "1.0", "")], &registry);
    assert_eq!(decisions.len(), 1);
    assert_eq!(decisions[0].outcome, Outcome::NoUpdate);
    assert!(decisions[0].diff.is_none());
}

#[test]
fn blacklisted_entry_offers_no_diff_even_with_a_patch() {
    let mut entry = record("abc", "5.0", "H1", 10, true);
    entry.patch_list.push(patch("fpOld", "D1", 5));
    let registry = init_from_dynamodb(vec![entry]);
    let decisions = Extension::filter_for_updates(&vec![item("abc", "1.0", "fpOld")], &registry);
    assert_eq!(decisions[0].outcome, Outcome::NoUpdate);
    assert!(decisions[0].diff.is_none());
}

#[test]
fn unknown_id_is_excluded() {
    let registry = init_from_dynamodb(vec![record("abc", "5.0", "H1", 10, false)]);
    let decisions = Extension::filter_for_updates(&vec![item("ghost", "1.0", "")], &registry);
    assert!(decisions.is_empty());
}

#[test]
fn unknown_id_among_known_ones_is_dropped_in_place() {
    let registry = init_from_dynamodb(vec![
        record("a", "2.0", "HA", 1, false),
        record("b", "2.0", "HB", 2, false),
    ]);
    let items = vec![item("b", "1.0", ""), item("ghost", "1.0", ""), item("a", "3.0", "")];
    let decisions = Extension::filter_for_updates(&items, &registry);
    assert_eq!(decisions.len(), 2);
    assert_eq!(decisions[0].id, "b");
    assert_eq!(decisions[0].outcome, Outcome::Update);
    assert_eq!(decisions[1].id, "a");
    assert_eq!(decisions[1].outcome, Outcome::NoUpdate);
}

#[test]
fn older_client_gets_update_with_registry_target() {
    let registry = init_from_dynamodb(vec![record("abc", "1.2.0", "H1", 1000, false)]);
    let decisions = Extension::filter_for_updates(&vec![item("abc", "1.0.0", "")], &registry);
    assert_eq!(decisions.len(), 1);
    let d = &decisions[0];
    assert_eq!(d.id, "abc");
    assert_eq!(d.outcome, Outcome::Update);
    assert_eq!(d.target_version, "1.2.0");
    assert_eq!(d.target_hash, "H1");
    assert_eq!(d.target_size, 1000);
    assert_eq!(d.client_fingerprint, "");
    assert!(d.diff.is_none());
}

#[test]
fn same_version_gets_no_update() {
    let registry = init_from_dynamodb(vec![record("abc", "1.2.0", "H1", 1000, false)]);
    let decisions = Extension::filter_for_updates(&vec![item("abc", "1.2.0", "")], &registry);
    assert_eq!(decisions.len(), 1);
    assert_eq!(decisions[0].outcome, Outcome::NoUpdate);
    assert_eq!(decisions[0].target_hash, "H1");
}

#[test]
fn client_ahead_gets_no_update() {
    let registry = init_from_dynamodb(vec![record("abc", "1.2.0", "H1", 1000, false)]);
    let decisions = Extension::filter_for_updates(&vec![item("abc", "1.3.0", "")], &registry);
    assert_eq!(decisions[0].outcome, Outcome::NoUpdate);
}

#[test]
fn matching_fingerprint_attaches_the_patch() {
    let mut entry = record("abc", "1.2.0", "H1", 1000, false);
    entry.patch_list.push(patch("other", "D0", 7));
    entry.patch_list.push(patch("fpOld", "D1", 0));
    let decision = decide_one(&item("abc", "1.0.0", "fpOld"), &entry);
    assert_eq!(decision.outcome, Outcome::Update);
    let diff = decision.diff.expect("a diff");
    assert_eq!(diff.hashdiff, "D1");
    assert_eq!(diff.sizediff, 0);
    assert_eq!(diff.namediff, "fpOld.puff");
    assert_eq!(decision.client_fingerprint, "fpOld");
}

#[test]
fn patch_without_hash_is_not_attached() {
    let mut entry = record("abc", "1.2.0", "H1", 1000, false);
    entry.patch_list.push(patch("fpOld", "", 12));
    let decision = decide_one(&item("abc", "1.0.0", "fpOld"), &entry);
    assert_eq!(decision.outcome, Outcome::Update);
    assert!(decision.diff.is_none());
}

#[test]
fn unknown_fingerprint_attaches_nothing() {
    let mut entry = record("abc", "1.2.0", "H1", 1000, false);
    entry.patch_list.push(patch("fpOld", "D1", 12));
    let decision = decide_one(&item("abc", "1.0.0", "fpNew"), &entry);
    assert!(decision.diff.is_none());
}

#[test]
fn no_update_carries_no_diff() {
    let mut entry = record("abc", "1.2.0", "H1", 1000, false);
    entry.patch_list.push(patch("fpOld", "D1", 12));
    let decision = decide_one(&item("abc", "1.2.0", "fpOld"), &entry);
    assert_eq!(decision.outcome, Outcome::NoUpdate);
    assert!(decision.diff.is_none());
}

#[test]
fn find_patch_takes_the_first_under_a_fingerprint() {
    let patches = vec![patch("a", "D1", 1), patch("b", "D2", 2), patch("a", "D3", 3)];
    assert_eq!(find_patch_for(&patches, "a").map(|p| p.hashdiff.clone()), Some("D1".to_string()));
    assert_eq!(find_patch_for(&patches, "b").map(|p| p.sizediff), Some(2));
    assert!(find_patch_for(&patches, "c").is_none());
}

#[test]
fn set_patch_keeps_one_patch_for_each_fingerprint() {
    let mut entry = record("abc", "1.2.0", "H1", 1000, false);
    entry.set_patch("a", PatchInfo { namediff: "n1".into(), hashdiff: "D1".into(), sizediff: 1 });
    entry.set_patch("b", PatchInfo { namediff: "n2".into(), hashdiff: "D2".into(), sizediff: 2 });
    entry.set_patch("a", PatchInfo { namediff: "n3".into(), hashdiff: "D3".into(), sizediff: 3 });
    assert_eq!(entry.patch_list.len(), 2);
    assert_eq!(find_patch_for(&entry.patch_list, "a").map(|p| p.hashdiff.clone()), Some("D3".to_string()));
    assert_eq!(find_patch_for(&entry.patch_list, "b").map(|p| p.hashdiff.clone()), Some("D2".to_string()));
    assert_eq!(entry.id, "abc");
    assert_eq!(entry.version, "1.2.0");
}

#[test]
fn empty_registry_answers_nothing() {
    let registry = ExtensionRegistry::new();
    let decisions = Extension::filter_for_updates(&vec![item("abc", "1.0", "")], &registry);
    assert!(decisions.is_empty());
    assert!(Extension::filter_for_updates(&Vec::new(), &registry).is_empty());
}
