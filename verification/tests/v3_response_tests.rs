use extension_update::error::BuildError;
use extension_update::omaha::v3::protocol::VersionedHandler;
use extension_update::omaha::v3::response::{
    check_hashes, get_s3_extension_bucket_host, get_update_status, marshal_update_response_json,
    marshal_update_response_xml, marshal_webstore_response_json, marshal_webstore_response_xml,
};
use extension_update::update2::model::{Outcome, PatchInfo, UpdateDecision};

fn decision(id: &str, outcome: Outcome, hash: &str, fp: &str, diff: Option<PatchInfo>) -> UpdateDecision {
    UpdateDecision {
        id: id.to_string(),
        outcome,
        target_version: "1.2.0".to_string(),
        target_hash: hash.to_string(),
        target_size: 1000,
        client_fingerprint: fp.to_string(),
        diff,
    }
}

fn patch(hash: &str, size: u64) -> PatchInfo {
    PatchInfo { namediff: "d.puff".to_string(), hashdiff: hash.to_string(), sizediff: size }
}

#[test]
fn v3_bucket_host_is_fixed() {
    assert_eq!(get_s3_extension_bucket_host("abc"), "your-bucket.amazonaws.com");
    assert_eq!(get_s3_extension_bucket_host(""), "your-bucket.amazonaws.com");
}

#[test]
fn v3_status_word_follows_the_outcome() {
    assert_eq!(get_update_status(&decision("a", Outcome::Update, "H", "", None)), "ok");
    assert_eq!(get_update_status(&decision("a", Outcome::NoUpdate, "H", "", None)), "noupdate");
}

#[test]
fn v3_json_update_has_one_package_and_one_url() {
    let bytes = marshal_update_response_json(&[decision("abc", Outcome::Update, "H1", "", None)])
        .expect("the response builds");
    let expected = [
        r#"{"response":{"protocol":"3.1","server":"prod","app":[{"appid":"abc","status":"ok","#,
        r#""updatecheck":{"status":"ok","urls":{"url":[{"codebase":"#,
        r#""https://your-bucket.amazonaws.com/release/abc/extension_1_2_0.crx"}]},"#,
        r#""manifest":{"version":"1.2.0","packages":{"package":[{"name":"extension_1_2_0.crx","#,
        r#""fp":"H1","hash_sha256":"H1","required":true}]}}}}]}}"#
    ]
    .concat();
    assert_eq!(String::from_utf8(bytes).unwrap(), expected);
}

#[test]
fn v3_json_no_update_is_minimal() {
    let bytes = marshal_update_response_json(&[decision("abc", Outcome::NoUpdate, "H1", "", None)])
        .expect("the response builds");
    assert_eq!(
        String::from_utf8(bytes).unwrap(),
        r#"{"response":{"protocol":"3.1","server":"prod","app":[{"appid":"abc","status":"ok","updatecheck":{"status":"noupdate"}}]}}"#
    );
}

#[test]
fn v3_json_diff_adds_a_second_url_and_the_diff_fields() {
    let d = decision("abc", Outcome::Update, "H1", "fpOld", Some(patch("D1", 77)));
    let bytes = marshal_update_response_json(&[d]).expect("the response builds");
    let doc: serde_json::Value = serde_json::from_slice(&bytes).unwrap();
    let check = &doc["response"]["app"][0]["updatecheck"];
    let urls = check["urls"]["url"].as_array().unwrap();
    assert_eq!(urls.len(), 2);
    assert_eq!(urls[1]["codebasediff"], "https://your-bucket.amazonaws.com/release/abc/patches/H1/");
    let package = &check["manifest"]["packages"]["package"][0];
    assert_eq!(package["namediff"], "d.puff");
    assert_eq!(package["sizediff"], 77);
    assert_eq!(package["hashdiff_sha256"], "D1");
    assert_eq!(package["hash_sha256"], "H1");
    assert_eq!(check["manifest"]["packages"]["package"].as_array().unwrap().len(), 1);
}

#[test]
fn v3_json_diff_without_hash_is_left_out() {
    let d = decision("abc", Outcome::Update, "H1", "fpOld", Some(patch("", 77)));
    let bytes = marshal_update_response_json(&[d]).expect("the response builds");
    let doc: serde_json::Value = serde_json::from_slice(&bytes).unwrap();
    let check = &doc["response"]["app"][0]["updatecheck"];
    assert_eq!(check["urls"]["url"].as_array().unwrap().len(), 1);
    assert!(check["manifest"]["packages"]["package"][0].get("hashdiff_sha256").is_none());
}

#[test]
fn v3_xml_update_response_is_exact() {
    let text = marshal_update_response_xml(&[
        decision("abc", Outcome::Update, "H1", "", None),
        decision("def", Outcome::NoUpdate, "H2", "", None),
    ])
    .expect("the response builds");
    let expected = [
        r#"<response protocol="3.1" server="prod">"#,
        r#"<app appid="abc"><updatecheck status="ok">"#,
        r#"<urls><url codebase="https://your-bucket.amazonaws.com/release/abc/extension_1_2_0.crx"/></urls>"#,
        r#"<manifest version="1.2.0"><packages>"#,
        r#"<package name="extension_1_2_0.crx" hash_sha256="H1" required="true"/>"#,
        r#"</packages></manifest></updatecheck></app>"#,
        r#"<app appid="def"><updatecheck status="noupdate"/></app>"#,
        r#"</response>"#
    ]
    .concat();
    assert_eq!(text, expected);
}

#[test]
fn v3_xml_diff_stands_beside_the_package() {
    let d = decision("abc", Outcome::Update, "H1", "fpOld", Some(patch("D1", 0)));
    let text = marshal_update_response_xml(&[d]).expect("the response builds");
    assert!(text.contains(
        r#"<url codebasediff="https://your-bucket.amazonaws.com/release/abc/patches/H1/"/></urls>"#
    ));
    assert!(text.contains(
        r#"<package name="extension_1_2_0.crx" hash_sha256="H1" required="true" namediff="d.puff" hashdiff_sha256="D1" sizediff="0"/>"#
    ));
}

#[test]
fn v3_xml_escapes_attribute_values() {
    let d = decision("a<b>&\"c'", Outcome::NoUpdate, "H1", "", None);
    let text = marshal_update_response_xml(&[d]).expect("the response builds");
    assert_eq!(
        text,
        r#"<response protocol="3.1" server="prod"><app appid="a&lt;b&gt;&amp;&quot;c&apos;"><updatecheck status="noupdate"/></app></response>"#
    );
}

#[test]
fn v3_responses_fail_on_an_empty_hash() {
    let decisions = [
        decision("good", Outcome::Update, "H1", "", None),
        decision("bad", Outcome::NoUpdate, "", "", None),
        decision("worse", Outcome::Update, "", "", None),
    ];
    assert!(matches!(check_hashes(&decisions), Err(BuildError::EmptyHash(ref id)) if id == "bad"));
    assert!(matches!(marshal_update_response_json(&decisions), Err(BuildError::EmptyHash(ref id)) if id == "bad"));
    assert!(matches!(marshal_update_response_xml(&decisions), Err(BuildError::EmptyHash(ref id)) if id == "bad"));
    assert!(matches!(marshal_webstore_response_json(&decisions), Err(BuildError::EmptyHash(ref id)) if id == "bad"));
    assert!(matches!(marshal_webstore_response_xml(&decisions), Err(BuildError::EmptyHash(ref id)) if id == "bad"));
    assert!(check_hashes(&decisions[..1]).is_ok());
}

#[test]
fn webstore_json_is_exact() {
    let bytes = marshal_webstore_response_json(&[decision("abc", Outcome::NoUpdate, "H1", "", None)])
        .expect("the response builds");
    let expected = [
        r#"{"gupdate":{"protocol":"3.1","server":"prod","app":[{"appid":"abc","status":"ok","#,
        r#""updatecheck":{"status":"ok","#,
        r#""codebase":"https://your-bucket.amazonaws.com/release/abc/extension_1_2_0.crx","#,
        r#""version":"1.2.0","hash_sha256":"H1"}}]}}"#
    ]
    .concat();
    assert_eq!(String::from_utf8(bytes).unwrap(), expected);
}

#[test]
fn webstore_xml_is_exact() {
    let text = marshal_webstore_response_xml(&[decision("abc", Outcome::Update, "H1", "", None)])
        .expect("the response builds");
    let expected = [
        r#"<gupdate protocol="3.1" server="prod">"#,
        r#"<app appid="abc" status="ok"><updatecheck status="ok" "#,
        r#"codebase="https://your-bucket.amazonaws.com/release/abc/extension_1_2_0.crx" "#,
        r#"version="1.2.0" hash_sha256="H1"/></app></gupdate>"#
    ]
    .concat();
    assert_eq!(text, expected);
}

#[test]
fn empty_v3_responses_have_no_apps() {
    assert_eq!(
        String::from_utf8(marshal_update_response_json(&[]).unwrap()).unwrap(),
        r#"{"response":{"protocol":"3.1","server":"prod","app":[]}}"#
    );
    assert_eq!(
        marshal_update_response_xml(&[]).unwrap(),
        r#"<response protocol="3.1" server="prod"></response>"#
    );
    assert_eq!(
        marshal_webstore_response_xml(&[]).unwrap(),
        r#"<gupdate protocol="3.1" server="prod"></gupdate>"#
    );
}

#[test]
fn v3_handler_writes_by_content_type() {
    let handler = VersionedHandler::new("3.1").expect("3.1 is supported");
    let decisions = [decision("abc", Outcome::NoUpdate, "H1", "", None)];
    let json = handler.format_update_response(&decisions, "application/json").unwrap();
    assert_eq!(json, marshal_update_response_json(&decisions).unwrap());
    let xml = handler.format_update_response(&decisions, "application/xml").unwrap();
    assert_eq!(xml, marshal_update_response_xml(&decisions).unwrap().into_bytes());
    assert!(matches!(
        handler.format_update_response(&decisions, "text/plain"),
        Err(BuildError::UnsupportedContentType)
    ));
    let store = handler.format_webstore_response(&decisions, "application/xml").unwrap();
    assert_eq!(store, marshal_webstore_response_xml(&decisions).unwrap().into_bytes());
    let store_json = handler.format_webstore_response(&decisions, "application/json").unwrap();
    assert_eq!(store_json, marshal_webstore_response_json(&decisions).unwrap());
    assert!(matches!(
        handler.format_webstore_response(&decisions, ""),
        Err(BuildError::UnsupportedContentType)
    ));
}

#[test]
fn v3_xml_of_non_ascii_text_is_utf8() {
    let handler = VersionedHandler::new("3.0").expect("3.0 is supported");
    let decisions = [decision("ünï", Outcome::NoUpdate, "H1", "", None)];
    let xml = handler.format_update_response(&decisions, "application/xml").unwrap();
    assert_eq!(
        String::from_utf8(xml).unwrap(),
        r#"<response protocol="3.1" server="prod"><app appid="ünï"><updatecheck status="noupdate"/></app></response>"#
    );
}
