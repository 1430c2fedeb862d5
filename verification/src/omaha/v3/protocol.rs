//! The handler of protocols 3.0 and 3.1.

use crate::error::{BuildError, BuildErrorView, ParseError, ParseErrorView};
use crate::json::rendered;
use crate::omaha::protocol::{is_json, is_json_request, is_xml, is_xml_request};
use crate::omaha::v3::request::{
    components_result, json_request, parse_update_request_json, parse_update_request_xml,
    xml_request,
};
use crate::omaha::v3::response::{
    all_hashed, marshal_update_response_json, marshal_update_response_xml,
    marshal_webstore_response_json, marshal_webstore_response_xml, reports_first_without_hash,
    response_json, response_xml, store_response_json, store_response_xml,
};
use crate::text::str_eq;
use crate::update2::model::{
    decisions_view, RequestedComponent, RequestedComponentView, UpdateDecision, UpdateDecisionView,
};
use vstd::prelude::*;

verus! {

/// Whether a version is one that this handler speaks.
pub open spec fn supported(version: Seq<char>) -> bool {
    version == "3.0"@ || version == "3.1"@
}

/// What a 3.x request asks for, by its content type.
pub open spec fn request(data: Seq<u8>, content_type: Seq<char>) -> Result<
    Seq<RequestedComponentView>,
    ParseErrorView,
> {
    if is_json(content_type) {
        json_request(data)
    } else if is_xml(content_type) {
        xml_request(data)
    } else {
        Err(ParseErrorView::UnsupportedContentType)
    }
}

/// The bytes of a 3.x update response, by its content type.
pub open spec fn update_response(decisions: Seq<UpdateDecisionView>, content_type: Seq<char>) -> Seq<
    u8,
> {
    if is_json(content_type) {
        rendered(response_json(decisions))
    } else {
        vstd::utf8::encode_utf8(response_xml(decisions))
    }
}

/// The bytes of a web store response, by its content type.
pub open spec fn webstore_response(
    decisions: Seq<UpdateDecisionView>,
    content_type: Seq<char>,
) -> Seq<u8> {
    if is_json(content_type) {
        rendered(store_response_json(decisions))
    } else {
        vstd::utf8::encode_utf8(store_response_xml(decisions))
    }
}

/// Whether a response is the outcome of writing `decisions` in a content
/// type: an unknown content type is refused, then a decision without a hash;
/// else the response is written.
pub open spec fn written(
    r: Result<Vec<u8>, BuildError>,
    decisions: Seq<UpdateDecisionView>,
    content_type: Seq<char>,
    bytes: Seq<u8>,
) -> bool {
    match r {
        Ok(out) => (is_json(content_type) || is_xml(content_type)) && all_hashed(decisions)
            && out@ == bytes,
        Err(e) => if is_json(content_type) || is_xml(content_type) {
            reports_first_without_hash(decisions, e@)
        } else {
            e@ == BuildErrorView::UnsupportedContentType
        },
    }
}

/// A handler for one of the 3.x versions.
#[derive(Debug)]
pub struct VersionedHandler {
    version: String,
}

impl View for VersionedHandler {
    type V = Seq<char>;

    closed spec fn view(&self) -> Seq<char> {
        self.version@
    }
}

impl VersionedHandler {
    /// The handler for `version`, which must be 3.0 or 3.1.
    pub fn new(version: &str) -> (r: Result<VersionedHandler, ParseError>)
        ensures
            match r {
                Ok(handler) => supported(version@) && handler@ == version@,
                Err(e) => !supported(version@) && e@ == ParseErrorView::UnsupportedVersion(
                    version@,
                ),
            },
    {
        if str_eq(version, "3.0") || str_eq(version, "3.1") {
            Ok(VersionedHandler { version: version.to_owned() })
        } else {
            Err(ParseError::UnsupportedVersion(version.to_owned()))
        }
    }

    /// The version that the handler speaks.
    pub fn get_version(&self) -> (version: &str)
        ensures
            version@ == self@,
    {
        self.version.as_str()
    }

    /// Reads a request in JSON or XML.
    pub fn parse_request(&self, data: &[u8], content_type: &str) -> (r: Result<
        Vec<RequestedComponent>,
        ParseError,
    >)
        ensures
            components_result(r) == request(data@, content_type@),
    {
        if is_json_request(content_type) {
            parse_update_request_json(data)
        } else if is_xml_request(content_type) {
            parse_update_request_xml(data)
        } else {
            Err(ParseError::UnsupportedContentType)
        }
    }

    /// Writes the update response in JSON or XML.
    pub fn format_update_response(&self, extensions: &[UpdateDecision], content_type: &str) -> (r:
        Result<Vec<u8>, BuildError>)
        ensures
            written(
                r,
                decisions_view(extensions@),
                content_type@,
                update_response(decisions_view(extensions@), content_type@),
            ),
    {
        if is_json_request(content_type) {
            marshal_update_response_json(extensions)
        } else if is_xml_request(content_type) {
            match marshal_update_response_xml(extensions) {
                Ok(text) => Ok(text.as_str().as_bytes_vec()),
                Err(e) => Err(e),
            }
        } else {
            Err(BuildError::UnsupportedContentType)
        }
    }

    /// Writes the web store response in JSON or XML.
    pub fn format_webstore_response(&self, extensions: &[UpdateDecision], content_type: &str) -> (r:
        Result<Vec<u8>, BuildError>)
        ensures
            written(
                r,
                decisions_view(extensions@),
                content_type@,
                webstore_response(decisions_view(extensions@), content_type@),
            ),
    {
        if is_json_request(content_type) {
            marshal_webstore_response_json(extensions)
        } else if is_xml_request(content_type) {
            match marshal_webstore_response_xml(extensions) {
                Ok(text) => Ok(text.as_str().as_bytes_vec()),
                Err(e) => Err(e),
            }
        } else {
            Err(BuildError::UnsupportedContentType)
        }
    }
}

} // verus!
