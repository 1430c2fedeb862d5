use extension_update::error::ParseError;
use extension_update::omaha::factory::{detect, DefaultFactory, ProtocolHandler};
use extension_update::omaha::protocol::{
    detect_protocol_version, is_json_request, is_xml_request, DialectTag,
};
use extension_update::omaha::v3;
use extension_update::omaha::v3::request::{
    components_from_tokens, parse_update_request_json, parse_update_request_xml,
};
use extension_update::omaha::v4;
use extension_update::omaha::v4::request::parse_update_request;
use extension_update::update2::model::RequestedComponent;
use extension_update::xml::read_tokens;

fn triple(c: &RequestedComponent) -> (&str, &str, &str) {
    (c.id.as_str(), c.client_version.as_str(), c.client_fingerprint.as_str())
}

#[test]
fn json_content_type_is_recognised_exactly() {
    assert!(is_json_request("application/json"));
    assert!(!is_json_request("application/json; charset=utf-8"));
    assert!(!is_json_request("application/xml"));
    assert!(!is_json_request(""));
    assert!(is_xml_request("application/xml"));
    assert!(!is_xml_request("text/xml"));
}

#[test]
fn empty_body_defaults_to_3_1() {
    assert_eq!(detect_protocol_version(b"", "application/json").unwrap(), "3.1");
    assert_eq!(detect_protocol_version(b"", "application/xml").unwrap(), "3.1");
    let (tag, items) = detect(b"", "whatever").unwrap();
    assert_eq!(tag, DialectTag::V31);
    assert!(items.is_empty());
}

#[test]
fn json_protocol_is_read_from_the_request() {
    let body = br#"{"request":{"protocol":"3.0","app":[]}}"#;
    assert_eq!(detect_protocol_version(body, "application/json").unwrap(), "3.0");
    let newest = br#"{"request":{"protocol":"4.0"}}"#;
    assert_eq!(detect_protocol_version(newest, "application/json").unwrap(), "4.0");
}

#[test]
fn detected_version_is_a_supported_one() {
    for body in [
        &br#"{"request":{"protocol":"5.0"}}"#[..],
        &br#"{"request":{"protocol":"9.9"}}"#[..],
        &br#"{"request":{"protocol":"3"}}"#[..],
        &br#"{"request":{"protocol":"3.10"}}"#[..],
    ] {
        assert!(matches!(
            detect_protocol_version(body, "application/json"),
            Err(ParseError::UnsupportedVersion(_))
        ));
    }
    assert!(matches!(
        detect_protocol_version(br#"{"request":{"protocol":"5.0"}}"#, "application/json"),
        Err(ParseError::UnsupportedVersion(ref v)) if v == "5.0"
    ));
    assert!(matches!(
        detect_protocol_version(br#"<request protocol="2.0"/>"#, "application/xml"),
        Err(ParseError::UnsupportedVersion(ref v)) if v == "2.0"
    ));
    for version in ["3.0", "3.1", "4.0"] {
        let json = format!(r#"{{"request":{{"protocol":"{}"}}}}"#, version);
        assert_eq!(detect_protocol_version(json.as_bytes(), "application/json").unwrap(), version);
        let xml = format!(r#"<request protocol="{}"/>"#, version);
        assert_eq!(detect_protocol_version(xml.as_bytes(), "application/xml").unwrap(), version);
    }
}

#[test]
fn json_without_protocol_is_refused() {
    for body in [
        &br#"{"request":{"app":[]}}"#[..],
        &br#"{"request":{"protocol":""}}"#[..],
        &br#"{"request":{"protocol":3}}"#[..],
        &br#"{"other":{}}"#[..],
        &br#"[]"#[..],
    ] {
        assert!(matches!(
            detect_protocol_version(body, "application/json"),
            Err(ParseError::MissingProtocol)
        ));
    }
}

#[test]
fn malformed_json_is_refused_with_the_decoder_reason() {
    match detect_protocol_version(b"{\"request\":", "application/json") {
        Err(ParseError::Malformed(reason)) => assert!(reason.contains("EOF"), "{}", reason),
        other => panic!("expected a malformed request, got {:?}", other),
    }
    assert!(matches!(parse_update_request_json(b"nonsense"), Err(ParseError::Malformed(_))));
    assert!(matches!(parse_update_request(b"{"), Err(ParseError::Malformed(_))));
}

#[test]
fn xml_protocol_is_read_from_the_root_element() {
    let body = br#"<?xml version="1.0" encoding="UTF-8"?><!-- c --><request protocol="3.1" os="x"><app appid="a"/></request>"#;
    assert_eq!(detect_protocol_version(body, "application/xml").unwrap(), "3.1");
    assert_eq!(detect_protocol_version(body, "text/plain").unwrap(), "3.1");
    let leaf = br#"<request protocol='3.0'/>"#;
    assert_eq!(detect_protocol_version(leaf, "application/xml").unwrap(), "3.0");
}

#[test]
fn xml_without_protocol_is_refused() {
    assert!(matches!(
        detect_protocol_version(b"<request><app protocol=\"3.1\"/></request>", "application/xml"),
        Err(ParseError::MissingProtocol)
    ));
    assert!(matches!(
        detect_protocol_version(b"<request protocol=\"\"/>", "application/xml"),
        Err(ParseError::MissingProtocol)
    ));
    assert!(matches!(
        detect_protocol_version(b"just text", "application/xml"),
        Err(ParseError::MissingProtocol)
    ));
}

#[test]
fn broken_xml_is_malformed() {
    assert!(matches!(
        detect_protocol_version(b"<request protocol=\"3.1\" broken></request>", "application/xml"),
        Err(ParseError::Malformed(_))
    ));
    assert!(matches!(
        detect_protocol_version(&[0xff, 0xfe, 0x3c], "application/xml"),
        Err(ParseError::Malformed(ref reason)) if reason == "invalid UTF-8"
    ));
    assert!(matches!(
        parse_update_request_xml(&[0x3c, 0xc3, 0x28]),
        Err(ParseError::Malformed(ref reason)) if reason == "invalid UTF-8"
    ));
    assert!(matches!(
        parse_update_request_xml(b"<request protocol=\"3.1\"><app appid=\"a\" version=\"1\"></wrong></request>"),
        Err(ParseError::Malformed(_))
    ));
}

#[test]
fn v3_json_takes_the_app_fingerprint_first() {
    let body = br#"{"request":{"protocol":"3.1","app":[
        {"appid":"a","version":"1.0","fp":"own","packages":{"package":[{"fp":"pkg"}]}},
        {"appid":"b","version":"2.0","packages":{"package":[{"fp":"pkg"},{"fp":"second"}]}},
        {"appid":"c","version":"3.0","packages":{"package":[]}},
        {"appid":"d","version":"4.0","ignored":true},
        {"appid":"e","version":"5.0","fp":null,"packages":{"package":[{"name":"x"}]}}
    ]}}"#;
    let items = parse_update_request_json(body).unwrap();
    let got: Vec<_> = items.iter().map(triple).collect();
    assert_eq!(
        got,
        vec![
            ("a", "1.0", "own"),
            ("b", "2.0", "pkg"),
            ("c", "3.0", ""),
            ("d", "4.0", ""),
            ("e", "5.0", ""),
        ]
    );
}

#[test]
fn v3_json_without_apps_asks_for_nothing() {
    assert!(parse_update_request_json(br#"{"request":{"protocol":"3.1"}}"#).unwrap().is_empty());
    assert!(parse_update_request_json(br#"{"request":{"app":[]}}"#).unwrap().is_empty());
}

#[test]
fn v3_json_missing_fields_are_named() {
    assert!(matches!(
        parse_update_request_json(br#"{"app":[]}"#),
        Err(ParseError::MissingField(ref f)) if f == "request"
    ));
    assert!(matches!(
        parse_update_request_json(br#"{"request":{"app":{"appid":"a"}}}"#),
        Err(ParseError::MissingField(ref f)) if f == "app"
    ));
    assert!(matches!(
        parse_update_request_json(br#"{"request":{"app":[{"version":"1"}]}}"#),
        Err(ParseError::MissingField(ref f)) if f == "appid"
    ));
    assert!(matches!(
        parse_update_request_json(br#"{"request":{"app":[{"appid":"a","version":"1"},{"appid":"b"}]}}"#),
        Err(ParseError::MissingField(ref f)) if f == "version"
    ));
    assert!(matches!(
        parse_update_request_json(br#"{"request":{"app":[{"appid":7,"version":"1"}]}}"#),
        Err(ParseError::MissingField(ref f)) if f == "appid"
    ));
}

#[test]
fn v4_json_takes_the_first_cached_item() {
    let body = br#"{"request":{"protocol":"4.0","@os":"linux","apps":[
        {"appid":"a","version":"1.0","cached_items":[{"sha256":"first"},{"sha256":"second"}]},
        {"appid":"b","version":"2.0","cached_items":[]},
        {"appid":"c","version":"3.0"},
        {"appid":"d","version":"4.0","cached_items":[{"other":"x"}]}
    ]}}"#;
    let items = parse_update_request(body).unwrap();
    let got: Vec<_> = items.iter().map(triple).collect();
    assert_eq!(
        got,
        vec![("a", "1.0", "first"), ("b", "2.0", ""), ("c", "3.0", ""), ("d", "4.0", "")]
    );
}

#[test]
fn v4_json_requires_request_and_protocol() {
    assert!(matches!(
        parse_update_request(br#"{"apps":[]}"#),
        Err(ParseError::MissingField(ref f)) if f == "request"
    ));
    assert!(matches!(
        parse_update_request(br#"{"request":{"apps":[]}}"#),
        Err(ParseError::MissingField(ref f)) if f == "protocol"
    ));
    assert!(matches!(
        parse_update_request(br#"{"request":{"protocol":"4.0","apps":7}}"#),
        Err(ParseError::MissingField(ref f)) if f == "apps"
    ));
    assert!(matches!(
        parse_update_request(br#"{"request":{"protocol":"4.0","apps":[{"appid":"a"}]}}"#),
        Err(ParseError::MissingField(ref f)) if f == "version"
    ));
    assert!(parse_update_request(br#"{"request":{"protocol":"4.0"}}"#).unwrap().is_empty());
}

#[test]
fn v3_xml_reads_one_component_for_each_app() {
    let body = br#"<?xml version="1.0" encoding="UTF-8"?>
<request protocol="3.1" version="chrome-1">
  <os platform="linux"/>
  <app appid="a" version="1.0" fp="own"><updatecheck/><packages><package fp="pkg"/></packages></app>
  <app appid="b" version="2.0">
    <packages><package fp="pkg"/><package fp="second"/></packages>
  </app>
  <app appid="c" version="3.0"/>
  <app appid="d" version="4.0"><packages><package name="x"/><package fp="late"/></packages></app>
  <app appid="e&amp;f" version="5.0" fp="1&lt;2"></app>
</request>"#;
    let items = parse_update_request_xml(body).unwrap();
    let got: Vec<_> = items.iter().map(triple).collect();
    assert_eq!(
        got,
        vec![
            ("a", "1.0", "own"),
            ("b", "2.0", "pkg"),
            ("c", "3.0", ""),
            ("d", "4.0", ""),
            ("e&f", "5.0", "1<2"),
        ]
    );
}

#[test]
fn v3_xml_counts_only_apps_under_the_root() {
    let body = br#"<request protocol="3.0"><wrapper><app appid="deep" version="1"/></wrapper><app appid="top" version="2"><app appid="inner" version="3"/></app></request>"#;
    let items = parse_update_request_xml(body).unwrap();
    let got: Vec<_> = items.iter().map(triple).collect();
    assert_eq!(got, vec![("top", "2", "")]);
    let root_only = parse_update_request_xml(br#"<app appid="root" version="1"/>"#).unwrap();
    assert!(root_only.is_empty());
}

#[test]
fn v3_xml_missing_attributes_are_named() {
    assert!(matches!(
        parse_update_request_xml(br#"<request protocol="3.1"><app version="1"/></request>"#),
        Err(ParseError::MissingField(ref f)) if f == "appid"
    ));
    assert!(matches!(
        parse_update_request_xml(br#"<request protocol="3.1"><app appid="a"/></request>"#),
        Err(ParseError::MissingField(ref f)) if f == "version"
    ));
    assert!(matches!(
        parse_update_request_xml(br#"<request protocol="3.1"><app appid="a" version="&bogus;"/></request>"#),
        Err(ParseError::Malformed(_))
    ));
}

#[test]
fn v3_xml_unclosed_app_is_malformed() {
    assert!(matches!(
        parse_update_request_xml(br#"<request protocol="3.1"><app appid="a" version="1">"#),
        Err(ParseError::Malformed(_))
    ));
}

#[test]
fn tokens_can_be_scanned_on_their_own() {
    let tokens = read_tokens(r#"<r><app appid="a" version="1"/></r>"#);
    let items = components_from_tokens(&tokens).unwrap();
    assert_eq!(items.len(), 1);
    assert_eq!(triple(&items[0]), ("a", "1", ""));
}

#[test]
fn detect_routes_by_dialect_and_content_type() {
    let v3_json = br#"{"request":{"protocol":"3.1","app":[{"appid":"a","version":"1.0","fp":"f"}]}}"#;
    let (tag, items) = detect(v3_json, "application/json").unwrap();
    assert_eq!(tag, DialectTag::V31);
    assert_eq!(triple(&items[0]), ("a", "1.0", "f"));

    let v4_json = br#"{"request":{"protocol":"4.0","apps":[{"appid":"a","version":"1.0","cached_items":[{"sha256":"f4"}]}]}}"#;
    let (tag, items) = detect(v4_json, "application/json").unwrap();
    assert_eq!(tag, DialectTag::V40);
    assert_eq!(triple(&items[0]), ("a", "1.0", "f4"));

    let v3_xml = br#"<request protocol="3.0"><app appid="a" version="1.0" fp="fx"/></request>"#;
    let (tag, items) = detect(v3_xml, "application/xml").unwrap();
    assert_eq!(tag, DialectTag::V30);
    assert_eq!(triple(&items[0]), ("a", "1.0", "fx"));
}

#[test]
fn v4_in_xml_is_a_hard_error() {
    let body = br#"<request protocol="4.0"><app appid="a" version="1.0"/></request>"#;
    assert!(matches!(detect(body, "application/xml"), Err(ParseError::UnsupportedContentType)));
}

#[test]
fn unsupported_versions_are_refused() {
    assert!(matches!(
        detect(br#"{"request":{"protocol":"2.0"}}"#, "application/json"),
        Err(ParseError::UnsupportedVersion(ref v)) if v == "2.0"
    ));
    assert!(matches!(
        detect(br#"<request protocol="3.2"/>"#, "application/xml"),
        Err(ParseError::UnsupportedVersion(ref v)) if v == "3.2"
    ));
    assert!(matches!(
        detect(br#"{"request":{"protocol":"4.00"}}"#, "application/json"),
        Err(ParseError::UnsupportedVersion(ref v)) if v == "4.00"
    ));
}

#[test]
fn dialect_names_its_version() {
    assert_eq!(DialectTag::from_version("3.0"), Some(DialectTag::V30));
    assert_eq!(DialectTag::from_version("3.1"), Some(DialectTag::V31));
    assert_eq!(DialectTag::from_version("4.0"), Some(DialectTag::V40));
    assert_eq!(DialectTag::from_version("4"), None);
    assert_eq!(DialectTag::from_version(""), None);
    assert_eq!(DialectTag::V30.version(), "3.0");
    assert_eq!(DialectTag::V31.version(), "3.1");
    assert_eq!(DialectTag::V40.version(), "4.0");
}

#[test]
fn handlers_accept_their_versions_only() {
    assert_eq!(v3::protocol::VersionedHandler::new("3.0").unwrap().get_version(), "3.0");
    assert_eq!(v3::protocol::VersionedHandler::new("3.1").unwrap().get_version(), "3.1");
    assert!(matches!(
        v3::protocol::VersionedHandler::new("4.0"),
        Err(ParseError::UnsupportedVersion(ref v)) if v == "4.0"
    ));
    assert_eq!(v4::protocol::VersionedHandler::new("4.0").unwrap().get_version(), "4.0");
    assert!(matches!(
        v4::protocol::VersionedHandler::new("3.1"),
        Err(ParseError::UnsupportedVersion(ref v)) if v == "3.1"
    ));
}

#[test]
fn factory_dispatches_on_the_version() {
    let factory = DefaultFactory;
    assert!(matches!(factory.create_protocol("3.0"), Ok(ProtocolHandler::V3(_))));
    assert!(matches!(factory.create_protocol("3.1"), Ok(ProtocolHandler::V3(_))));
    assert!(matches!(factory.create_protocol("4.0"), Ok(ProtocolHandler::V4(_))));
    assert!(matches!(
        factory.create_protocol("4.1"),
        Err(ParseError::UnsupportedVersion(ref v)) if v == "4.1"
    ));
    assert_eq!(factory.create_protocol("4.0").unwrap().get_version(), "4.0");
}

#[test]
fn handlers_parse_by_content_type() {
    let h3 = v3::protocol::VersionedHandler::new("3.1").unwrap();
    let json = br#"{"request":{"protocol":"3.1","app":[{"appid":"a","version":"1"}]}}"#;
    assert_eq!(h3.parse_request(json, "application/json").unwrap().len(), 1);
    let xml = br#"<request protocol="3.1"><app appid="a" version="1"/></request>"#;
    assert_eq!(h3.parse_request(xml, "application/xml").unwrap().len(), 1);
    assert!(matches!(h3.parse_request(xml, "text/xml"), Err(ParseError::UnsupportedContentType)));
    let h4 = v4::protocol::VersionedHandler::new("4.0").unwrap();
    let v4_json = br#"{"request":{"protocol":"4.0","apps":[{"appid":"a","version":"1"}]}}"#;
    assert_eq!(h4.parse_request(v4_json, "application/json").unwrap().len(), 1);
    assert!(matches!(
        h4.parse_request(v4_json, "application/xml"),
        Err(ParseError::UnsupportedContentType)
    ));
    let handler = DefaultFactory.create_protocol("4.0").unwrap();
    assert_eq!(handler.parse_request(v4_json, "application/json").unwrap().len(), 1);
}

#[test]
fn parse_errors_have_messages() {
    assert_eq!(ParseError::MissingProtocol.message(), "missing 'protocol' in request");
    assert_eq!(ParseError::MissingField("appid".into()).message(), "missing required field: appid");
    assert_eq!(
        ParseError::UnsupportedVersion("2.0".into()).message(),
        "unsupported protocol version: 2.0"
    );
    assert_eq!(ParseError::Malformed("bad".into()).message(), "malformed request: bad");
    assert_eq!(ParseError::UnsupportedContentType.message(), "unsupported content type");
}
