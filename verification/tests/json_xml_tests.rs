use extension_update::json::{parse_json, push_item, push_member, render, Json};
use extension_update::text::{
    chars_of, decode_text, parse_u64, replace_char, str_eq, take_chars,
};
use extension_update::xml::{push_attribute, read_tokens, XmlToken};

#[test]
fn json_is_decoded_into_a_tree() {
    let tree = parse_json(br#"{"b":[1,-2,2.5,"x",null,true],"a":{"k":"v"}}"#).unwrap();
    let b = tree.get("b").and_then(|v| v.as_array()).expect("an array");
    assert!(matches!(b[0], Json::Unsigned(1)));
    assert!(matches!(b[1], Json::Signed(-2)));
    assert!(matches!(b[2], Json::Fraction(ref t) if t == "2.5"));
    assert_eq!(b[3].as_str(), Some("x"));
    assert!(matches!(b[4], Json::Null));
    assert_eq!(b[5].as_bool(), Some(true));
    assert_eq!(b[0].as_u64(), Some(1));
    assert_eq!(b[1].as_u64(), None);
    assert_eq!(tree.get("a").and_then(|a| a.get("k")).and_then(|k| k.as_str()), Some("v"));
    assert!(tree.get("c").is_none());
    assert!(b[0].get("a").is_none());
    assert!(tree.as_array().is_none());
    assert!(tree.as_str().is_none());
}

#[test]
fn json_numbers_keep_their_range() {
    let tree = parse_json(b"[18446744073709551615, -9223372036854775808, 0]").unwrap();
    let items = tree.as_array().unwrap();
    assert!(matches!(items[0], Json::Unsigned(u64::MAX)));
    assert!(matches!(items[1], Json::Signed(i64::MIN)));
    assert!(matches!(items[2], Json::Unsigned(0)));
}

#[test]
fn json_decode_errors_carry_the_reason() {
    let err = parse_json(b"[1,").unwrap_err();
    assert!(err.contains("line 1"), "{}", err);
    assert!(parse_json(b"").is_err());
    assert!(parse_json(&[0xff]).is_err());
}

#[test]
fn json_is_rendered_compactly_in_member_order() {
    let mut inner: Vec<Json> = Vec::new();
    push_item(&mut inner, Json::Unsigned(0));
    push_item(&mut inner, Json::Unsigned(1234567890));
    push_item(&mut inner, Json::Signed(-15));
    push_item(&mut inner, Json::Signed(i64::MIN));
    push_item(&mut inner, Json::Signed(7));
    push_item(&mut inner, Json::Unsigned(u64::MAX));
    push_item(&mut inner, Json::Null);
    push_item(&mut inner, Json::Bool(true));
    push_item(&mut inner, Json::Bool(false));
    push_item(&mut inner, Json::Fraction("2.5e3".to_string()));
    push_item(&mut inner, Json::array(Vec::new()));
    push_item(&mut inner, Json::object(Vec::new()));
    let mut fields: Vec<(String, Json)> = Vec::new();
    push_member(&mut fields, "z", Json::text("last\"first"));
    push_member(&mut fields, "a", Json::array(inner));
    let text = String::from_utf8(render(&Json::object(fields))).unwrap();
    assert_eq!(
        text,
        r#"{"z":"last\"first","a":[0,1234567890,-15,-9223372036854775808,7,18446744073709551615,null,true,false,2.5e3,[],{}]}"#
    );
}

#[test]
fn rendered_json_reads_back_the_same() {
    let source = r#"{"a":[1,{"b":"line\nbreak é 😀"},[]],"c":"\t"}"#;
    let tree = parse_json(source.as_bytes()).unwrap();
    let again = parse_json(&render(&tree)).unwrap();
    assert_eq!(render(&again), render(&tree));
    let value: serde_json::Value = serde_json::from_slice(&render(&tree)).unwrap();
    assert_eq!(value["a"][1]["b"], "line\nbreak é 😀");
    assert_eq!(value["c"], "\t");
}

#[test]
fn first_member_of_a_name_is_found() {
    let mut fields: Vec<(String, Json)> = Vec::new();
    push_member(&mut fields, "k", Json::Unsigned(1));
    push_member(&mut fields, "k", Json::Unsigned(2));
    let object = Json::object(fields);
    assert_eq!(object.get("k").and_then(|v| v.as_u64()), Some(1));
}

#[test]
fn xml_is_read_as_tokens() {
    let tokens = read_tokens(r#"<?xml version="1.0"?><a x="1" y='two'>text<b/><!-- c --></a>"#);
    let shape: Vec<String> = tokens
        .iter()
        .map(|t| match t {
            XmlToken::Open(tag) => format!("open {}", tag.name),
            XmlToken::Close => "close".to_string(),
            XmlToken::Other => "other".to_string(),
            XmlToken::Finish => "finish".to_string(),
            XmlToken::Broken(_) => "broken".to_string(),
        })
        .collect();
    assert_eq!(
        shape,
        vec!["other", "open a", "other", "open b", "close", "other", "close", "finish"]
    );
    match &tokens[1] {
        XmlToken::Open(tag) => {
            assert_eq!(
                tag.attributes,
                vec![("x".to_string(), "1".to_string()), ("y".to_string(), "two".to_string())]
            );
            assert_eq!(tag.attribute("y"), Some(Ok("two".to_string())));
            assert_eq!(tag.attribute("z"), None);
        }
        other => panic!("expected a start tag, got {:?}", other),
    }
}

#[test]
fn xml_attribute_values_are_unescaped_on_reading() {
    let tokens = read_tokens(r#"<a v="1 &lt; 2 &amp;&#65;" w="&nope;"/>"#);
    match &tokens[0] {
        XmlToken::Open(tag) => {
            assert_eq!(tag.attributes[0].1, "1 &lt; 2 &amp;&#65;");
            assert_eq!(tag.attribute("v"), Some(Ok("1 < 2 &A".to_string())));
            assert!(matches!(tag.attribute("w"), Some(Err(_))));
        }
        other => panic!("expected a start tag, got {:?}", other),
    }
}

#[test]
fn xml_stream_ends_at_the_first_error() {
    let tokens = read_tokens("<a></b><c/>");
    assert!(matches!(tokens.last(), Some(XmlToken::Broken(_))));
    assert_eq!(tokens.iter().filter(|t| t.is_last()).count(), 1);
    let empty = read_tokens("");
    assert_eq!(empty.len(), 1);
    assert!(matches!(empty[0], XmlToken::Finish));
    let doubled = read_tokens(r#"<a x="1" x="2"/>"#);
    assert!(matches!(doubled.last(), Some(XmlToken::Broken(_))));
}

#[test]
fn xml_attributes_are_written_escaped() {
    let mut out = String::from("<t");
    push_attribute(&mut out, "k", "a<b>&'\"\r\n");
    out.push_str("/>");
    assert_eq!(out, "<t k=\"a&lt;b&gt;&amp;&apos;&quot;&#13;\n\"/>");
}

#[test]
fn text_helpers_work_on_characters() {
    assert_eq!(chars_of("aé😀"), vec!['a', 'é', '😀']);
    assert!(str_eq("abc", "abc"));
    assert!(!str_eq("abc", "abd"));
    assert!(!str_eq("abc", "ab"));
    assert!(str_eq("", ""));
    assert_eq!(take_chars("héllo wörld", 4), "héll");
    assert_eq!(take_chars("hi", 8), "hi");
    assert_eq!(take_chars("hi", 0), "");
    assert_eq!(replace_char("1.2.3", '.', '_'), "1_2_3");
    assert_eq!(replace_char("", '.', '_'), "");
    assert_eq!(decode_text(b"abc"), Some("abc"));
    assert_eq!(decode_text(&[0xc3, 0xa9]), Some("é"));
    assert_eq!(decode_text(&[0xc3]), None);
}

#[test]
fn decimal_numbers_are_parsed_strictly() {
    assert_eq!(parse_u64("0"), Some(0));
    assert_eq!(parse_u64("0012"), Some(12));
    assert_eq!(parse_u64("18446744073709551615"), Some(u64::MAX));
    assert_eq!(parse_u64("18446744073709551616"), None);
    assert_eq!(parse_u64(""), None);
    assert_eq!(parse_u64("+1"), None);
    assert_eq!(parse_u64("1 "), None);
    assert_eq!(parse_u64("١"), None);
}
