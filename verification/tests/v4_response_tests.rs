use extension_update::error::BuildError;
use extension_update::omaha::v4::response::{
    get_s3_extension_bucket_host, get_update_status, normalize_size, plan_pipelines,
    UpdateResponse,
};
use extension_update::omaha::v4::protocol::VersionedHandler;
use extension_update::update2::model::{Outcome, PatchInfo, UpdateDecision};

fn decision(outcome: Outcome, hash: &str, size: u64, fp: &str, diff: Option<PatchInfo>) -> UpdateDecision {
    UpdateDecision {
        id: "abc".to_string(),
        outcome,
        target_version: "1.2.0".to_string(),
        target_hash: hash.to_string(),
        target_size: size,
        client_fingerprint: fp.to_string(),
        diff,
    }
}

fn patch(hash: &str, size: u64) -> PatchInfo {
    PatchInfo { namediff: "d.puff".to_string(), hashdiff: hash.to_string(), sizediff: size }
}

fn parsed(bytes: &[u8]) -> serde_json::Value {
    serde_json::from_slice(bytes).expect("the response is JSON")
}

#[test]
fn size_zero_is_coerced_to_one() {
    assert_eq!(normalize_size(0), 1);
    assert_eq!(normalize_size(1), 1);
    assert_eq!(normalize_size(1000), 1000);
    assert_eq!(normalize_size(u64::MAX), u64::MAX);
}

#[test]
fn v4_bucket_host_names_the_app() {
    assert_eq!(get_s3_extension_bucket_host("abc"), "s3.example.com/abc");
}

#[test]
fn v4_status_word_follows_the_outcome() {
    assert_eq!(get_update_status(&decision(Outcome::Update, "H1", 1, "", None)), "ok");
    assert_eq!(get_update_status(&decision(Outcome::NoUpdate, "H1", 1, "", None)), "noupdate");
}

#[test]
fn full_update_has_the_direct_pipeline_alone() {
    let response = UpdateResponse(vec![decision(Outcome::Update, "H1", 1000, "", None)]);
    let bytes = response.to_json_at(7000, 5).expect("the response builds");
    let expected = [
        r#"{"response":{"protocol":"4.0","daystart":{"elapsed_seconds":5,"elapsed_days":7000},"#,
        r#""apps":[{"appid":"abc","status":"ok","updatecheck":{"status":"ok","nextversion":"1.2.0","#,
        r#""pipelines":[{"pipeline_id":"direct_full","operations":["#,
        r#"{"type":"download","out":{"sha256":"H1"},"#,
        r#""urls":[{"url":"https://s3.example.com/abc/release/abc/extension_1_2_0.crx"}],"size":1000},"#,
        r#"{"type":"crx3","in":{"sha256":"H1"}}]}]}}]}}"#
    ]
    .concat();
    assert_eq!(String::from_utf8(bytes).unwrap(), expected);
}

#[test]
fn no_update_has_no_pipelines() {
    let response = UpdateResponse(vec![decision(Outcome::NoUpdate, "H1", 1000, "", None)]);
    let bytes = response.to_json_at(1, 2).expect("the response builds");
    let expected = [
        r#"{"response":{"protocol":"4.0","daystart":{"elapsed_seconds":2,"elapsed_days":1},"#,
        r#""apps":[{"appid":"abc","status":"ok","updatecheck":{"status":"noupdate"}}]}}"#
    ]
    .concat();
    assert_eq!(String::from_utf8(bytes).unwrap(), expected);
}

#[test]
fn diff_update_has_the_puff_pipeline_before_the_direct_one() {
    let response =
        UpdateResponse(vec![decision(Outcome::Update, "H1", 1000, "fpOld", Some(patch("D1", 0)))]);
    let doc = parsed(&response.to_json_at(0, 0).expect("the response builds"));
    let pipelines = doc["response"]["apps"][0]["updatecheck"]["pipelines"].as_array().unwrap();
    assert_eq!(pipelines.len(), 2);
    assert_eq!(pipelines[0]["pipeline_id"], "puff_diff_fpOld");
    let ops = pipelines[0]["operations"].as_array().unwrap();
    assert_eq!(ops.len(), 3);
    assert_eq!(ops[0]["type"], "download");
    assert_eq!(ops[0]["out"]["sha256"], "D1");
    assert_eq!(ops[0]["size"], 1);
    assert_eq!(
        ops[0]["urls"][0]["url"],
        "https://s3.example.com/abc/release/abc/patches/H1/fpOld.puff"
    );
    assert_eq!(ops[0]["urls"].as_array().unwrap().len(), 1);
    assert_eq!(ops[1]["type"], "puff");
    assert_eq!(ops[1]["previous"]["sha256"], "fpOld");
    assert!(ops[1].get("out").is_none());
    assert!(ops[1].get("urls").is_none());
    assert_eq!(ops[2]["type"], "crx3");
    assert_eq!(ops[2]["in"]["sha256"], "H1");
    assert_eq!(pipelines[1]["pipeline_id"], "direct_full");
    let full = pipelines[1]["operations"].as_array().unwrap();
    assert_eq!(full.len(), 2);
    assert_eq!(full[0]["out"]["sha256"], "H1");
    assert_eq!(full[0]["size"], 1000);
    assert_eq!(full[1]["in"]["sha256"], "H1");
}

#[test]
fn pipeline_id_takes_eight_characters_of_the_fingerprint() {
    let d = decision(Outcome::Update, "H1", 10, "0123456789abcdef", Some(patch("D1", 3)));
    let pipelines = plan_pipelines(&d);
    assert_eq!(pipelines.len(), 2);
    assert_eq!(pipelines[0].pipeline_id, "puff_diff_01234567");
    assert_eq!(pipelines[0].operations[1].previous.as_deref(), Some("0123456789abcdef"));
    assert_eq!(pipelines[0].operations[0].size, Some(3));
    let short = decision(Outcome::Update, "H1", 10, "01234567", Some(patch("D1", 3)));
    assert_eq!(plan_pipelines(&short)[0].pipeline_id, "puff_diff_01234567");
}

#[test]
fn patch_with_empty_hash_is_silently_left_out() {
    let d = decision(Outcome::Update, "H1", 1000, "fpOld", Some(patch("", 9)));
    let pipelines = plan_pipelines(&d);
    assert_eq!(pipelines.len(), 1);
    assert_eq!(pipelines[0].pipeline_id, "direct_full");
    let doc = parsed(&UpdateResponse(vec![d]).to_json_at(0, 0).expect("the response builds"));
    let listed = doc["response"]["apps"][0]["updatecheck"]["pipelines"].as_array().unwrap();
    assert_eq!(listed.len(), 1);
    assert_eq!(listed[0]["pipeline_id"], "direct_full");
}

#[test]
fn empty_target_hash_fails_the_whole_build() {
    let good = decision(Outcome::Update, "H1", 1000, "", None);
    let mut bad = decision(Outcome::NoUpdate, "", 1000, "", None);
    bad.id = "broken".to_string();
    let response = UpdateResponse(vec![good, bad]);
    match response.to_json_at(0, 0) {
        Err(BuildError::EmptyHash(id)) => assert_eq!(id, "broken"),
        other => panic!("expected an empty hash, got {:?}", other),
    }
}

#[test]
fn first_unbuildable_decision_is_reported() {
    let mut first = decision(Outcome::Update, "", 1, "", None);
    first.id = "first".to_string();
    let mut second = decision(Outcome::Update, "", 1, "", None);
    second.id = "second".to_string();
    match UpdateResponse(vec![first, second]).to_json_at(0, 0) {
        Err(BuildError::EmptyHash(id)) => assert_eq!(id, "first"),
        other => panic!("expected an empty hash, got {:?}", other),
    }
}

#[test]
fn diff_from_an_empty_fingerprint_fails_the_build() {
    let d = decision(Outcome::Update, "H1", 1000, "", Some(patch("D1", 9)));
    assert!(matches!(UpdateResponse(vec![d]).to_json_at(0, 0), Err(BuildError::EmptyHash(_))));
}

#[test]
fn empty_next_version_is_left_out() {
    let mut d = decision(Outcome::Update, "H1", 1000, "", None);
    d.target_version = String::new();
    let doc = parsed(&UpdateResponse(vec![d]).to_json_at(0, 0).expect("the response builds"));
    let check = &doc["response"]["apps"][0]["updatecheck"];
    assert!(check.get("nextversion").is_none());
    assert_eq!(check["pipelines"][0]["operations"][0]["urls"][0]["url"],
        "https://s3.example.com/abc/release/abc/extension_.crx");
}

#[test]
fn strings_are_escaped_in_the_response() {
    let mut d = decision(Outcome::NoUpdate, "H1", 1000, "", None);
    d.id = "a\"b\\c\n".to_string();
    let bytes = UpdateResponse(vec![d]).to_json_at(0, 0).expect("the response builds");
    let text = String::from_utf8(bytes.clone()).unwrap();
    assert!(text.contains(r#""appid":"a\"b\\c\n""#));
    assert_eq!(parsed(&bytes)["response"]["apps"][0]["appid"], "a\"b\\c\n");
}

#[test]
fn day_start_stands_once_in_the_response() {
    let response = UpdateResponse(vec![
        decision(Outcome::NoUpdate, "H1", 1, "", None),
        decision(Outcome::NoUpdate, "H2", 1, "", None),
    ]);
    let doc = parsed(&response.to_json_at(6999, 86399).expect("the response builds"));
    assert_eq!(doc["response"]["daystart"]["elapsed_days"], 6999);
    assert_eq!(doc["response"]["daystart"]["elapsed_seconds"], 86399);
    assert_eq!(doc["response"]["apps"].as_array().unwrap().len(), 2);
    assert!(doc["response"]["apps"][0].get("daystart").is_none());
}

#[test]
fn response_with_the_clock_builds() {
    let response = UpdateResponse(vec![decision(Outcome::Update, "H1", 1000, "", None)]);
    let doc = parsed(&response.to_json().expect("the response builds"));
    assert_eq!(doc["response"]["protocol"], "4.0");
    assert!(doc["response"]["daystart"]["elapsed_days"].as_u64().unwrap() > 6000);
    assert!(doc["response"]["daystart"]["elapsed_seconds"].as_u64().unwrap() < 86400);
}

#[test]
fn empty_response_has_no_apps() {
    let bytes = UpdateResponse(Vec::new()).to_json_at(3, 4).expect("the response builds");
    assert_eq!(
        String::from_utf8(bytes).unwrap(),
        r#"{"response":{"protocol":"4.0","daystart":{"elapsed_seconds":4,"elapsed_days":3},"apps":[]}}"#
    );
}

#[test]
fn v4_handler_writes_json_and_has_no_web_store_form() {
    let handler = VersionedHandler::new("4.0").expect("4.0 is supported");
    let bytes = handler
        .format_update_response(vec![decision(Outcome::Update, "H1", 1000, "", None)])
        .expect("the response builds");
    let doc = parsed(&bytes);
    assert_eq!(doc["response"]["protocol"], "4.0");
    assert_eq!(doc["response"]["apps"][0]["updatecheck"]["pipelines"][0]["pipeline_id"], "direct_full");
    assert!(matches!(
        handler.format_update_response(vec![decision(Outcome::Update, "", 1000, "", None)]),
        Err(BuildError::EmptyHash(ref id)) if id == "abc"
    ));
    assert!(matches!(
        handler.format_web_store_response(vec![decision(Outcome::Update, "H1", 1000, "", None)]),
        Err(BuildError::WebStoreUnavailable)
    ));
    assert!(matches!(
        handler.format_web_store_response(Vec::new()),
        Err(BuildError::WebStoreUnavailable)
    ));
}
