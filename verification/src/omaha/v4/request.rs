//! The 4.0 request: one requested component for each entry of `apps`.

use crate::error::{ParseError, ParseErrorView};
use crate::json::{json_decoded, parse_json, Json, JsonView};
use crate::omaha::request::{components, read_components, RequestForm};
use crate::omaha::v3::request::{components_result, first_item, first_of, text_member, text_of};

use crate::update2::model::{components_view, RequestedComponent, RequestedComponentView};
use vstd::prelude::*;

verus! {

/// The fingerprint of an app: the `sha256` of the first of its cached
/// items, or the empty string.
pub open spec fn cached_fingerprint(app: JsonView) -> Seq<char> {
    match app.member("cached_items"@) {
        Some(list) => match first_item(list) {
            Some(item) => match text_member(item, "sha256"@) {
                Some(fp) => fp,
                None => Seq::empty(),
            },
            None => Seq::empty(),
        },
        None => Seq::empty(),
    }
}

/// The component that one app asks about; `appid` and `version` must be
/// there as strings.
pub open spec fn component(app: JsonView) -> Result<RequestedComponentView, ParseErrorView> {
    match text_member(app, "appid"@) {
        None => Err(ParseErrorView::MissingField("appid"@)),
        Some(id) => match text_member(app, "version"@) {
            None => Err(ParseErrorView::MissingField("version"@)),
            Some(version) => Ok(
                RequestedComponentView {
                    id,
                    client_version: version,
                    client_fingerprint: cached_fingerprint(app),
                },
            ),
        },
    }
}

/// The components of a 4.0 request: `request` and its `protocol` must be
/// there; `apps` may be absent.
pub open spec fn request_components(root: JsonView) -> Result<
    Seq<RequestedComponentView>,
    ParseErrorView,
> {
    match root.member("request"@) {
        None => Err(ParseErrorView::MissingField("request"@)),
        Some(request) => match request.member("protocol"@) {
            None => Err(ParseErrorView::MissingField("protocol"@)),
            Some(_) => match request.member("apps"@) {
                None => Ok(Seq::empty()),
                Some(list) => match list.items() {
                    None => Err(ParseErrorView::MissingField("apps"@)),
                    Some(apps) => components(RequestForm::V4, apps),
                },
            },
        },
    }
}

fn fingerprint_of(app: &Json) -> (fp: String)
    ensures
        fp@ == cached_fingerprint(app@),
{
    match app.get("cached_items") {
        Some(list) => match first_of(list) {
            Some(item) => match text_of(item, "sha256") {
                Some(fp) => fp,
                None => String::new(),
            },
            None => String::new(),
        },
        None => String::new(),
    }
}

pub fn component_of(app: &Json) -> (r: Result<RequestedComponent, ParseError>)
    ensures
        match r {
            Ok(c) => component(app@) == Ok::<RequestedComponentView, ParseErrorView>(c@),
            Err(e) => component(app@) == Err::<RequestedComponentView, ParseErrorView>(e@),
        },
{
    let id = match text_of(app, "appid") {
        Some(id) => id,
        None => {
            return Err(ParseError::MissingField("appid".to_owned()));
        },
    };
    let version = match text_of(app, "version") {
        Some(version) => version,
        None => {
            return Err(ParseError::MissingField("version".to_owned()));
        },
    };
    let fp = fingerprint_of(app);
    Ok(RequestedComponent { id, client_version: version, client_fingerprint: fp })
}

/// The components that a 4.0 request asks about.
pub struct UpdateRequest(pub Vec<RequestedComponent>);

impl UpdateRequest {
    /// Reads a 4.0 request that has been decoded.
    pub fn from_json(root: &Json) -> (r: Result<UpdateRequest, ParseError>)
        ensures
            match r {
                Ok(request) => request_components(root@) == Ok::<
                    Seq<RequestedComponentView>,
                    ParseErrorView,
                >(components_view(request.0@)),
                Err(e) => request_components(root@) == Err::<
                    Seq<RequestedComponentView>,
                    ParseErrorView,
                >(e@),
            },
    {
        let request = match root.get("request") {
            Some(request) => request,
            None => {
                return Err(ParseError::MissingField("request".to_owned()));
            },
        };
        if request.get("protocol").is_none() {
            return Err(ParseError::MissingField("protocol".to_owned()));
        }
        let list = match request.get("apps") {
            Some(list) => list,
            None => {
                let none: Vec<RequestedComponent> = Vec::new();
                assert(components_view(none@) =~= Seq::empty());
                return Ok(UpdateRequest(none));
            },
        };
        let apps = match list.as_array() {
            Some(apps) => apps,
            None => {
                return Err(ParseError::MissingField("apps".to_owned()));
            },
        };
        match read_components(RequestForm::V4, apps) {
            Ok(items) => Ok(UpdateRequest(items)),
            Err(e) => Err(e),
        }
    }
}

/// What a 4.0 body asks for: a body that does not decode is malformed.
pub open spec fn json_request(data: Seq<u8>) -> Result<Seq<RequestedComponentView>, ParseErrorView> {
    match json_decoded(data) {
        Ok(root) => request_components(root),
        Err(reason) => Err(ParseErrorView::Malformed(reason)),
    }
}

/// Reads a 4.0 request.
pub fn parse_update_request(data: &[u8]) -> (r: Result<Vec<RequestedComponent>, ParseError>)
    ensures
        components_result(r) == json_request(data@),
{
    match parse_json(data) {
        Ok(root) => match UpdateRequest::from_json(&root) {
            Ok(request) => Ok(request.0),
            Err(e) => Err(e),
        },
        Err(reason) => Err(ParseError::Malformed(reason)),
    }
}

} // verus!
