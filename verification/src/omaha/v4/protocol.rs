//! The handler of protocol 4.0.

use crate::error::{BuildError, BuildErrorView, ParseError, ParseErrorView};
use crate::json::rendered;
use crate::omaha::protocol::{is_json, is_json_request};
use crate::omaha::v3::request::components_result;
use crate::omaha::v4::request::{json_request, parse_update_request};
use crate::omaha::v4::response::{all_buildable, first_unbuildable, response_json, UpdateResponse};
use crate::text::str_eq;
use crate::update2::model::{
    decisions_view, RequestedComponent, RequestedComponentView, UpdateDecision,
};
use crate::update2::utils::{elapsed_days, elapsed_seconds};
use vstd::prelude::*;

verus! {

/// Whether a version is one that this handler speaks.
pub open spec fn supported(version: Seq<char>) -> bool {
    version == "4.0"@
}

/// What a 4.0 request asks for: the protocol takes JSON only.
pub open spec fn request(data: Seq<u8>, content_type: Seq<char>) -> Result<
    Seq<RequestedComponentView>,
    ParseErrorView,
> {
    if is_json(content_type) {
        json_request(data)
    } else {
        Err(ParseErrorView::UnsupportedContentType)
    }
}

/// A handler for protocol 4.0.
#[derive(Debug)]
pub struct VersionedHandler {
    version: String,
}

impl View for VersionedHandler {
    type V = Seq<char>;

    closed spec fn view(&self) -> Seq<char> {
        self.version@
    }
}

impl VersionedHandler {
    /// The handler for `version`, which must be 4.0.
    pub fn new(version: &str) -> (r: Result<VersionedHandler, ParseError>)
        ensures
            match r {
                Ok(handler) => supported(version@) && handler@ == version@,
                Err(e) => !supported(version@) && e@ == ParseErrorView::UnsupportedVersion(
                    version@,
                ),
            },
    {
        if str_eq(version, "4.0") {
            Ok(VersionedHandler { version: version.to_owned() })
        } else {
            Err(ParseError::UnsupportedVersion(version.to_owned()))
        }
    }

    /// The version that the handler speaks.
    pub fn get_version(&self) -> (version: &str)
        ensures
            version@ == self@,
    {
        self.version.as_str()
    }

    /// Reads a request, which must be JSON.
    pub fn parse_request(&self, data: &[u8], content_type: &str) -> (r: Result<
        Vec<RequestedComponent>,
        ParseError,
    >)
        ensures
            components_result(r) == request(data@, content_type@),
    {
        if !is_json_request(content_type) {
            return Err(ParseError::UnsupportedContentType);
        }
        parse_update_request(data)
    }

    /// Writes the update response as JSON, with the day start of the present.
    pub fn format_update_response(&self, extensions: Vec<UpdateDecision>) -> (r: Result<
        Vec<u8>,
        BuildError,
    >)
        ensures
            match r {
                Ok(bytes) => all_buildable(decisions_view(extensions@)) && exists|now: i64|
                    bytes@ == rendered(
                        response_json(
                            decisions_view(extensions@),
                            elapsed_days(now),
                            elapsed_seconds(now),
                        ),
                    ),
                Err(e) => exists|k: int|
                    first_unbuildable(decisions_view(extensions@), k) && e@
                        == BuildErrorView::EmptyHash(
                        (#[trigger] decisions_view(extensions@)[k]).id,
                    ),
            },
    {
        let response = UpdateResponse(extensions);
        response.to_json()
    }

    /// Web store responses do not exist in protocol 4.0.
    pub fn format_web_store_response(&self, _extensions: Vec<UpdateDecision>) -> (r: Result<
        Vec<u8>,
        BuildError,
    >)
        ensures
            r is Err,
            r->Err_0@ == BuildErrorView::WebStoreUnavailable,
    {
        Err(BuildError::WebStoreUnavailable)
    }
}

} // verus!
