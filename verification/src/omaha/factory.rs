//! Dispatch over the dialects: one handler for each supported version.

use crate::error::{ParseError, ParseErrorView};
use crate::json::parse_json;
use crate::omaha::protocol::{
    detected_version,
    dialect_named,
    is_json,
    is_json_request,
    protocol_from_json,
    protocol_from_tokens,
    DialectTag,
};
use crate::omaha::v3;
use crate::omaha::v3::request::{components_from_json, components_from_tokens};
use crate::omaha::v4;
use crate::omaha::v4::request::UpdateRequest;
use crate::text::decode_text;
use crate::update2::model::{components_view, RequestedComponent, RequestedComponentView};
use crate::xml::read_tokens;
use vstd::prelude::*;

verus! {

/// A handler for one version of the protocol.
#[derive(Debug)]
pub enum ProtocolHandler {
    V3(v3::protocol::VersionedHandler),
    V4(v4::protocol::VersionedHandler),
}

impl ProtocolHandler {
    /// The version that the handler speaks.
    pub open spec fn version(&self) -> Seq<char> {
        match self {
            ProtocolHandler::V3(handler) => handler@,
            ProtocolHandler::V4(handler) => handler@,
        }
    }

    /// The version that the handler speaks.
    pub fn get_version(&self) -> (version: &str)
        ensures
            version@ == self.version(),
    {
        match self {
            ProtocolHandler::V3(handler) => handler.get_version(),
            ProtocolHandler::V4(handler) => handler.get_version(),
        }
    }

    /// Reads a request in the handler's dialect.
    pub fn parse_request(&self, data: &[u8], content_type: &str) -> (r: Result<
        Vec<RequestedComponent>,
        ParseError,
    >)
        ensures
            v3::request::components_result(r) == match self {
                ProtocolHandler::V3(_) => v3::protocol::request(data@, content_type@),
                ProtocolHandler::V4(_) => v4::protocol::request(data@, content_type@),
            },
    {
        match self {
            ProtocolHandler::V3(handler) => handler.parse_request(data, content_type),
            ProtocolHandler::V4(handler) => handler.parse_request(data, content_type),
        }
    }
}

/// Makes the handler for a version string.
pub struct DefaultFactory;

impl DefaultFactory {
    /// The handler for `version`: one of protocol 4.0 for "4.0", one of 3.x
    /// for "3.0" and "3.1", and none for any other version.
    pub fn create_protocol(&self, version: &str) -> (r: Result<ProtocolHandler, ParseError>)
        ensures
            match r {
                Ok(handler) => handler.version() == version@ && match dialect_named(version@) {
                    Some(DialectTag::V40) => handler is V4,
                    Some(_) => handler is V3,
                    None => false,
                },
                Err(e) => dialect_named(version@) is None && e@
                    == ParseErrorView::UnsupportedVersion(version@),
            },
    {
        proof {
            reveal_strlit("3.0");
            reveal_strlit("3.1");
            reveal_strlit("4.0");
            assert("3.0"@[0] != "4.0"@[0]);
            assert("3.1"@[0] != "4.0"@[0]);
        }
        match DialectTag::from_version(version) {
            Some(DialectTag::V40) => match v4::protocol::VersionedHandler::new(version) {
                Ok(handler) => Ok(ProtocolHandler::V4(handler)),
                Err(e) => Err(e),
            },
            _ => match v3::protocol::VersionedHandler::new(version) {
                Ok(handler) => Ok(ProtocolHandler::V3(handler)),
                Err(e) => Err(e),
            },
        }
    }
}

/// What a request body asks for in the dialect `tag`: 4.0 takes JSON only;
/// 3.x takes JSON and reads any other content type as XML.
pub open spec fn parsed(tag: DialectTag, data: Seq<u8>, json: bool) -> Result<
    Seq<RequestedComponentView>,
    ParseErrorView,
> {
    match tag {
        DialectTag::V40 => if json {
            v4::request::json_request(data)
        } else {
            Err(ParseErrorView::UnsupportedContentType)
        },
        _ => if json {
            v3::request::json_request(data)
        } else {
            v3::request::xml_request(data)
        },
    }
}

/// The dialect of a request and the components that it asks about. An
/// empty body is a 3.1 request for nothing; a version outside 3.0, 3.1 and
/// 4.0 is refused.
pub open spec fn detected(data: Seq<u8>, content_type: Seq<char>) -> Result<
    (DialectTag, Seq<RequestedComponentView>),
    ParseErrorView,
> {
    if data.len() == 0 {
        Ok((DialectTag::V31, Seq::empty()))
    } else {
        match detected_version(data, content_type) {
            Err(e) => Err(e),
            Ok(version) => match dialect_named(version) {
                None => Err(ParseErrorView::UnsupportedVersion(version)),
                Some(tag) => match parsed(tag, data, is_json(content_type)) {
                    Err(e) => Err(e),
                    Ok(items) => Ok((tag, items)),
                },
            },
        }
    }
}

pub open spec fn detect_result(r: Result<(DialectTag, Vec<RequestedComponent>), ParseError>) -> Result<
    (DialectTag, Seq<RequestedComponentView>),
    ParseErrorView,
> {
    match r {
        Ok((tag, items)) => Ok((tag, components_view(items@))),
        Err(e) => Err(e@),
    }
}

/// Finds the dialect of a request and reads the components that it asks
/// about.
pub fn detect(data: &[u8], content_type: &str) -> (r: Result<
    (DialectTag, Vec<RequestedComponent>),
    ParseError,
>)
    ensures
        detect_result(r) == detected(data@, content_type@),
{
    if data.len() == 0 {
        let none: Vec<RequestedComponent> = Vec::new();
        assert(components_view(none@) =~= Seq::empty());
        return Ok((DialectTag::V31, none));
    }
    if is_json_request(content_type) {
        let root = match parse_json(data) {
            Ok(root) => root,
            Err(reason) => {
                return Err(ParseError::Malformed(reason));
            },
        };
        let version = match protocol_from_json(&root) {
            Ok(version) => version,
            Err(e) => {
                return Err(e);
            },
        };
        let tag = match DialectTag::from_version(version.as_str()) {
            Some(tag) => tag,
            None => {
                return Err(ParseError::UnsupportedVersion(version));
            },
        };
        let items = match tag {
            DialectTag::V40 => match UpdateRequest::from_json(&root) {
                Ok(request) => request.0,
                Err(e) => {
                    return Err(e);
                },
            },
            _ => match components_from_json(&root) {
                Ok(items) => items,
                Err(e) => {
                    return Err(e);
                },
            },
        };
        return Ok((tag, items));
    }
    let text = match decode_text(data) {
        Some(text) => text,
        None => {
            return Err(ParseError::Malformed("invalid UTF-8".to_owned()));
        },
    };
    let tokens = read_tokens(text);
    let version = match protocol_from_tokens(&tokens) {
        Ok(version) => version,
        Err(e) => {
            return Err(e);
        },
    };
    let tag = match DialectTag::from_version(version.as_str()) {
        Some(tag) => tag,
        None => {
            return Err(ParseError::UnsupportedVersion(version));
        },
    };
    match tag {
        DialectTag::V40 => Err(ParseError::UnsupportedContentType),
        _ => match components_from_tokens(&tokens) {
            Ok(items) => Ok((tag, items)),
            Err(e) => Err(e),
        },
    }
}

} // verus!
