//! The update check as one operation: from the body of a request to the
//! body of its response.

use crate::error::{
    parse_error_text, AppError, AppErrorView, BuildError, BuildErrorView, ParseError,
};
use crate::json::rendered;
use crate::omaha::factory::{detect, detected};
use crate::omaha::protocol::{is_json, is_json_request, DialectTag};
use crate::omaha::v3;
use crate::omaha::v4;
use crate::omaha::v4::response::UpdateResponse;
use crate::update2::extension::resolve_spec;
use crate::update2::model::{
    decisions_view,
    Extension,
    ExtensionView,
    UpdateDecision,
    UpdateDecisionView,
};
use crate::update2::registry::ExtensionRegistry;
use crate::update2::utils::{elapsed_days, elapsed_seconds, get_daystart};
use vstd::prelude::*;

verus! {

/// How a body is written.
#[derive(Clone, Copy, Debug, PartialEq, Eq, Structural)]
pub enum WireFormat {
    Json,
    Xml,
}

impl WireFormat {
    /// The format that a content type declares: JSON, or else XML.
    pub fn of(content_type: &str) -> (format: WireFormat)
        ensures
            format == if is_json(content_type@) {
                WireFormat::Json
            } else {
                WireFormat::Xml
            },
    {
        if is_json_request(content_type) {
            WireFormat::Json
        } else {
            WireFormat::Xml
        }
    }

    /// The content type of a body in this format.
    pub fn content_type(&self) -> (name: &'static str)
        ensures
            name@ == match self {
                WireFormat::Json => "application/json"@,
                WireFormat::Xml => "application/xml"@,
            },
    {
        match self {
            WireFormat::Json => "application/json",
            WireFormat::Xml => "application/xml",
        }
    }
}

/// Whether `r` is what building a response gives: protocol 4.0 writes JSON
/// only; it fails on the first decision that cannot be built, and 3.x on the
/// first decision without a hash; else the response of the dialect is
/// written in the format.
pub open spec fn build_outcome(
    r: Result<Vec<u8>, BuildError>,
    decisions: Seq<UpdateDecisionView>,
    dialect: DialectTag,
    format: WireFormat,
    days: u64,
    seconds: u32,
) -> bool {
    match (dialect, format) {
        (DialectTag::V40, WireFormat::Xml) => r is Err && r->Err_0@
            == BuildErrorView::UnsupportedContentType,
        (DialectTag::V40, WireFormat::Json) => match r {
            Ok(bytes) => v4::response::all_buildable(decisions) && bytes@ == rendered(
                v4::response::response_json(decisions, days, seconds),
            ),
            Err(e) => exists|k: int|
                v4::response::first_unbuildable(decisions, k) && e@ == BuildErrorView::EmptyHash(
                    (#[trigger] decisions[k]).id,
                ),
        },
        (_, WireFormat::Json) => match r {
            Ok(bytes) => v3::response::all_hashed(decisions) && bytes@ == rendered(
                v3::response::response_json(decisions),
            ),
            Err(e) => v3::response::reports_first_without_hash(decisions, e@),
        },
        (_, WireFormat::Xml) => match r {
            Ok(bytes) => v3::response::all_hashed(decisions) && bytes@ == vstd::utf8::encode_utf8(
                v3::response::response_xml(decisions),
            ),
            Err(e) => v3::response::reports_first_without_hash(decisions, e@),
        },
    }
}

/// Writes the response to a list of decisions in a dialect and a format,
/// with the given day start.
pub fn build_at(
    decisions: Vec<UpdateDecision>,
    dialect: DialectTag,
    format: WireFormat,
    days: u64,
    seconds: u32,
) -> (r: Result<Vec<u8>, BuildError>)
    ensures
        build_outcome(r, decisions_view(decisions@), dialect, format, days, seconds),
{
    match dialect {
        DialectTag::V40 => match format {
            WireFormat::Json => {
                let response = UpdateResponse(decisions);
                response.to_json_at(days, seconds)
            },
            WireFormat::Xml => Err(BuildError::UnsupportedContentType),
        },
        _ => match format {
            WireFormat::Json => v3::response::marshal_update_response_json(decisions.as_slice()),
            WireFormat::Xml => match v3::response::marshal_update_response_xml(
                decisions.as_slice(),
            ) {
                Ok(text) => Ok(text.as_str().as_bytes_vec()),
                Err(e) => Err(e),
            },
        },
    }
}

/// Writes the response to a list of decisions in a dialect and a format,
/// with the day start of the present.
pub fn build(decisions: Vec<UpdateDecision>, dialect: DialectTag, format: WireFormat) -> (r: Result<
    Vec<u8>,
    BuildError,
>)
    ensures
        exists|now: i64|
            build_outcome(
                r,
                decisions_view(decisions@),
                dialect,
                format,
                elapsed_days(now),
                elapsed_seconds(now),
            ),
{
    let (days, seconds) = get_daystart();
    build_at(decisions, dialect, format, days, seconds)
}

/// Why an update check was not answered.
#[derive(Debug)]
pub enum ServiceError {
    /// The request cannot be read: the client is told why.
    Parse(ParseError),
    /// The response cannot be built: the registry's data is at fault.
    Build(BuildError),
}

impl ServiceError {
    /// The error as the transport reports it: a parse error in the 400
    /// class with its reason, a build error in the 500 class without one.
    pub fn to_app_error(&self) -> (error: AppError)
        ensures
            error@ == match self {
                ServiceError::Parse(e) => AppErrorView::BadRequest(parse_error_text(e@)),
                ServiceError::Build(_) => AppErrorView::Other,
            },
    {
        match self {
            ServiceError::Parse(e) => AppError::from_parse(e),
            ServiceError::Build(e) => AppError::from_build(e),
        }
    }
}

/// Whether `r` answers the update check with the body `body` against the
/// registry: a request that cannot be read fails with its parse error; else
/// its items are resolved against the registry and the response is built
/// in the dialect and the format of the request.
pub open spec fn answers(
    r: Result<Vec<u8>, ServiceError>,
    body: Seq<u8>,
    content_type: Seq<char>,
    registry: Map<Seq<char>, ExtensionView>,
    days: u64,
    seconds: u32,
) -> bool {
    match detected(body, content_type) {
        Err(e) => r matches Err(ServiceError::Parse(p)) && p@ == e,
        Ok((dialect, items)) => {
            let format = if is_json(content_type) {
                WireFormat::Json
            } else {
                WireFormat::Xml
            };
            let decisions = resolve_spec(items, registry);
            match r {
                Ok(bytes) => build_outcome(
                    Ok::<Vec<u8>, BuildError>(bytes),
                    decisions,
                    dialect,
                    format,
                    days,
                    seconds,
                ),
                Err(ServiceError::Build(e)) => build_outcome(
                    Err::<Vec<u8>, BuildError>(e),
                    decisions,
                    dialect,
                    format,
                    days,
                    seconds,
                ),
                Err(ServiceError::Parse(_)) => false,
            }
        },
    }
}

/// Answers an update check with the given day start. The registry is read
/// as one snapshot for the whole check.
pub fn resolve_update_check_at(
    body: &[u8],
    content_type: &str,
    registry: &ExtensionRegistry,
    days: u64,
    seconds: u32,
) -> (r: Result<Vec<u8>, ServiceError>)
    ensures
        answers(r, body@, content_type@, registry@, days, seconds),
{
    let (dialect, items) = match detect(body, content_type) {
        Ok(found) => found,
        Err(e) => {
            return Err(ServiceError::Parse(e));
        },
    };
    let decisions = Extension::filter_for_updates(&items, registry);
    match build_at(decisions, dialect, WireFormat::of(content_type), days, seconds) {
        Ok(bytes) => Ok(bytes),
        Err(e) => Err(ServiceError::Build(e)),
    }
}

/// Answers an update check with the day start of the present.
pub fn resolve_update_check(body: &[u8], content_type: &str, registry: &ExtensionRegistry) -> (r:
    Result<Vec<u8>, ServiceError>)
    ensures
        exists|now: i64|
            answers(r, body@, content_type@, registry@, elapsed_days(now), elapsed_seconds(now)),
{
    let (days, seconds) = get_daystart();
    resolve_update_check_at(body, content_type, registry, days, seconds)
}

/// The guard that may stand before a JSON body, so that the body alone is
/// no script.
pub open spec fn json_guard() -> Seq<u8> {
    seq![41u8, 93u8, 125u8, 39u8, 10u8]
}

/// A JSON body with the guard before it.
pub fn with_json_guard(body: &[u8]) -> (guarded: Vec<u8>)
    ensures
        guarded@ == json_guard() + body@,
{
    let mut guarded: Vec<u8> = Vec::new();
    guarded.push(41);
    guarded.push(93);
    guarded.push(125);
    guarded.push(39);
    guarded.push(10);
    let mut i: usize = 0;
    assert(guarded@ =~= json_guard() + body@.take(0));
    while i < body.len()
        invariant
            i <= body@.len(),
            guarded@ == json_guard() + body@.take(i as int),
        decreases body@.len() - i,
    {
        guarded.push(body[i]);
        assert(body@.take(i + 1) =~= body@.take(i as int).push(body@[i as int]));
        i += 1;
    }
    assert(body@.take(i as int) =~= body@);
    guarded
}

} // verus!
