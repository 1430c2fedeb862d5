//! Which dialect a request speaks.

use crate::error::{ParseError, ParseErrorView};
use crate::json::{json_decoded, parse_json, Json, JsonView};
use crate::text::{decode_text, is_blank, str_eq};
use crate::xml::{
    attribute_value, read_tokens, tokens_view, xml_tokens, XmlTag, XmlTagView, XmlToken,
    XmlTokenView,
};
use vstd::prelude::*;

verus! {

/// A dialect of the protocol.
#[derive(Clone, Copy, Debug, PartialEq, Eq, Structural)]
pub enum DialectTag {
    V30,
    V31,
    V40,
}

/// The dialect that a version string names.
pub open spec fn dialect_named(version: Seq<char>) -> Option<DialectTag> {
    if version == "3.0"@ {
        Some(DialectTag::V30)
    } else if version == "3.1"@ {
        Some(DialectTag::V31)
    } else if version == "4.0"@ {
        Some(DialectTag::V40)
    } else {
        None
    }
}

impl DialectTag {
    /// The dialect that a version string names, if it is a supported one.
    pub fn from_version(version: &str) -> (tag: Option<DialectTag>)
        ensures
            tag == dialect_named(version@),
    {
        if str_eq(version, "3.0") {
            Some(DialectTag::V30)
        } else if str_eq(version, "3.1") {
            Some(DialectTag::V31)
        } else if str_eq(version, "4.0") {
            Some(DialectTag::V40)
        } else {
            None
        }
    }

    /// The version string of the dialect.
    pub fn version(&self) -> (version: &'static str)
        ensures
            dialect_named(version@) == Some(*self),
    {
        proof {
            reveal_strlit("3.0");
            reveal_strlit("3.1");
            reveal_strlit("4.0");
            assert("3.0"@[2] != "3.1"@[2]);
            assert("3.0"@[0] != "4.0"@[0]);
            assert("3.1"@[0] != "4.0"@[0]);
        }
        match self {
            DialectTag::V30 => "3.0",
            DialectTag::V31 => "3.1",
            DialectTag::V40 => "4.0",
        }
    }
}

pub open spec fn is_json(content_type: Seq<char>) -> bool {
    content_type == "application/json"@
}

pub open spec fn is_xml(content_type: Seq<char>) -> bool {
    content_type == "application/xml"@
}

/// Whether a content type declares a JSON body.
pub fn is_json_request(content_type: &str) -> (json: bool)
    ensures
        json == is_json(content_type@),
{
    str_eq(content_type, "application/json")
}

/// Whether a content type declares an XML body.
pub fn is_xml_request(content_type: &str) -> (xml: bool)
    ensures
        xml == is_xml(content_type@),
{
    str_eq(content_type, "application/xml")
}

pub open spec fn text_result(r: Result<String, ParseError>) -> Result<Seq<char>, ParseErrorView> {
    match r {
        Ok(text) => Ok(text@),
        Err(e) => Err(e@),
    }
}

/// The protocol that a JSON request names in `request.protocol`; it is
/// missing where that is no string or an empty one.
pub open spec fn json_protocol(root: JsonView) -> Result<Seq<char>, ParseErrorView> {
    match root.member("request"@) {
        Some(request) => match request.member("protocol"@) {
            Some(protocol) => match protocol.text() {
                Some(version) => if version.len() > 0 {
                    Ok(version)
                } else {
                    Err(ParseErrorView::MissingProtocol)
                },
                None => Err(ParseErrorView::MissingProtocol),
            },
            None => Err(ParseErrorView::MissingProtocol),
        },
        None => Err(ParseErrorView::MissingProtocol),
    }
}

/// The protocol that a JSON request names.
pub fn protocol_from_json(root: &Json) -> (r: Result<String, ParseError>)
    ensures
        text_result(r) == json_protocol(root@),
{
    match root.get("request") {
        Some(request) => match request.get("protocol") {
            Some(protocol) => match protocol.as_str() {
                Some(version) => if !is_blank(version) {
                    Ok(version.to_owned())
                } else {
                    Err(ParseError::MissingProtocol)
                },
                None => Err(ParseError::MissingProtocol),
            },
            None => Err(ParseError::MissingProtocol),
        },
        None => Err(ParseError::MissingProtocol),
    }
}

/// The protocol that a root tag names in its attribute `protocol`.
pub open spec fn tag_protocol(tag: XmlTagView) -> Result<Seq<char>, ParseErrorView> {
    match attribute_value(tag, "protocol"@) {
        Some(Ok(version)) => if version.len() > 0 {
            Ok(version)
        } else {
            Err(ParseErrorView::MissingProtocol)
        },
        Some(Err(reason)) => Err(ParseErrorView::Malformed(reason)),
        None => Err(ParseErrorView::MissingProtocol),
    }
}

/// The protocol that an XML request names: that of its root element, the
/// first tag of the document. A document that breaks before its root is
/// malformed; one without a root names no protocol.
pub open spec fn xml_protocol(tokens: Seq<XmlTokenView>) -> Result<Seq<char>, ParseErrorView>
    decreases tokens.len(),
{
    if tokens.len() == 0 {
        Err(ParseErrorView::MissingProtocol)
    } else {
        match tokens[0] {
            XmlTokenView::Open(tag) => tag_protocol(tag),
            XmlTokenView::Broken(reason) => Err(ParseErrorView::Malformed(reason)),
            XmlTokenView::Finish => Err(ParseErrorView::MissingProtocol),
            _ => xml_protocol(tokens.drop_first()),
        }
    }
}

fn protocol_of_tag(tag: &XmlTag) -> (r: Result<String, ParseError>)
    ensures
        text_result(r) == tag_protocol(tag@),
{
    match tag.attribute("protocol") {
        Some(Ok(version)) => if !is_blank(version.as_str()) {
            Ok(version)
        } else {
            Err(ParseError::MissingProtocol)
        },
        Some(Err(reason)) => Err(ParseError::Malformed(reason)),
        None => Err(ParseError::MissingProtocol),
    }
}

/// The protocol that an XML request names.
pub fn protocol_from_tokens(tokens: &Vec<XmlToken>) -> (r: Result<String, ParseError>)
    ensures
        text_result(r) == xml_protocol(tokens_view(tokens@)),
{
    let ghost views = tokens_view(tokens@);
    let mut i: usize = 0;
    assert(views.skip(0) =~= views);
    while i < tokens.len()
        invariant
            i <= tokens@.len(),
            views == tokens_view(tokens@),
            xml_protocol(views) == xml_protocol(views.skip(i as int)),
        decreases tokens@.len() - i,
    {
        assert(views.skip(i as int)[0] == tokens@[i as int]@);
        assert(views.skip(i as int).drop_first() =~= views.skip(i + 1));
        match &tokens[i] {
            XmlToken::Open(tag) => {
                return protocol_of_tag(tag);
            },
            XmlToken::Broken(reason) => {
                return Err(ParseError::Malformed(reason.clone()));
            },
            XmlToken::Finish => {
                return Err(ParseError::MissingProtocol);
            },
            _ => {},
        }
        i += 1;
    }
    Err(ParseError::MissingProtocol)
}

/// A version that a request names, where it is one of 3.0, 3.1 and 4.0; any
/// other version is refused.
pub open spec fn supported_version(named: Result<Seq<char>, ParseErrorView>) -> Result<
    Seq<char>,
    ParseErrorView,
> {
    match named {
        Ok(version) => match dialect_named(version) {
            Some(_) => Ok(version),
            None => Err(ParseErrorView::UnsupportedVersion(version)),
        },
        Err(e) => Err(e),
    }
}

/// Lets a version pass where it is a supported one.
pub fn require_supported(named: Result<String, ParseError>) -> (r: Result<String, ParseError>)
    ensures
        text_result(r) == supported_version(text_result(named)),
{
    match named {
        Ok(version) => match DialectTag::from_version(version.as_str()) {
            Some(_) => Ok(version),
            None => Err(ParseError::UnsupportedVersion(version)),
        },
        Err(e) => Err(e),
    }
}

/// The protocol version of a request: 3.1 for an empty body; else what a
/// JSON body names in `request.protocol`, or, for any other content type,
/// what the root element of an XML body names in its attribute `protocol`.
/// The version must be one of 3.0, 3.1 and 4.0.
pub open spec fn detected_version(data: Seq<u8>, content_type: Seq<char>) -> Result<
    Seq<char>,
    ParseErrorView,
> {
    if data.len() == 0 {
        Ok("3.1"@)
    } else if is_json(content_type) {
        match json_decoded(data) {
            Ok(root) => supported_version(json_protocol(root)),
            Err(reason) => Err(ParseErrorView::Malformed(reason)),
        }
    } else if !vstd::utf8::valid_utf8(data) {
        Err(ParseErrorView::Malformed("invalid UTF-8"@))
    } else {
        supported_version(xml_protocol(xml_tokens(vstd::utf8::decode_utf8(data))))
    }
}

/// A version that has been detected is a supported one.
pub proof fn lemma_detected_version_supported(data: Seq<u8>, content_type: Seq<char>)
    ensures
        detected_version(data, content_type) matches Ok(version) ==> dialect_named(version)
            is Some,
{
    reveal_strlit("3.0");
    reveal_strlit("3.1");
    reveal_strlit("4.0");
    assert("3.0"@[2] != "3.1"@[2]);
}

/// Finds out which protocol version a request speaks, and refuses a version
/// that is not supported.
pub fn detect_protocol_version(data: &[u8], content_type: &str) -> (r: Result<String, ParseError>)
    ensures
        text_result(r) == detected_version(data@, content_type@),
{
    if data.len() == 0 {
        return Ok("3.1".to_owned());
    }
    if is_json_request(content_type) {
        return match parse_json(data) {
            Ok(root) => require_supported(protocol_from_json(&root)),
            Err(reason) => Err(ParseError::Malformed(reason)),
        };
    }
    match decode_text(data) {
        Some(text) => {
            let tokens = read_tokens(text);
            require_supported(protocol_from_tokens(&tokens))
        },
        None => Err(ParseError::Malformed("invalid UTF-8".to_owned())),
    }
}

} // verus!
