//! The failures of the update service.

use vstd::prelude::*;

verus! {

/// A request that cannot be read. The client is at fault.
#[derive(Debug)]
pub enum ParseError {
    /// The body is not well-formed JSON, XML or UTF-8; the reason is the
    /// decoder's.
    Malformed(String),
    /// The request does not say which protocol it speaks.
    MissingProtocol,
    /// A mandatory field is absent or has the wrong type; the field is named.
    MissingField(String),
    /// The protocol version is none of 3.0, 3.1 and 4.0.
    UnsupportedVersion(String),
    /// The protocol does not take this content type.
    UnsupportedContentType,
}

pub enum ParseErrorView {
    Malformed(Seq<char>),
    MissingProtocol,
    MissingField(Seq<char>),
    UnsupportedVersion(Seq<char>),
    UnsupportedContentType,
}

impl View for ParseError {
    type V = ParseErrorView;

    open spec fn view(&self) -> ParseErrorView {
        match self {
            ParseError::Malformed(reason) => ParseErrorView::Malformed(reason@),
            ParseError::MissingProtocol => ParseErrorView::MissingProtocol,
            ParseError::MissingField(name) => ParseErrorView::MissingField(name@),
            ParseError::UnsupportedVersion(version) => ParseErrorView::UnsupportedVersion(version@),
            ParseError::UnsupportedContentType => ParseErrorView::UnsupportedContentType,
        }
    }
}

/// The text that goes with each parse error.
pub open spec fn parse_error_text(e: ParseErrorView) -> Seq<char> {
    match e {
        ParseErrorView::Malformed(reason) => "malformed request: "@ + reason,
        ParseErrorView::MissingProtocol => "missing 'protocol' in request"@,
        ParseErrorView::MissingField(name) => "missing required field: "@ + name,
        ParseErrorView::UnsupportedVersion(version) => "unsupported protocol version: "@ + version,
        ParseErrorView::UnsupportedContentType => "unsupported content type"@,
    }
}

impl ParseError {
    /// The reason in words, for the client.
    pub fn message(&self) -> (text: String)
        ensures
            text@ == parse_error_text(self@),
    {
        match self {
            ParseError::Malformed(reason) => "malformed request: ".to_owned().concat(
                reason.as_str(),
            ),
            ParseError::MissingProtocol => "missing 'protocol' in request".to_owned(),
            ParseError::MissingField(name) => "missing required field: ".to_owned().concat(
                name.as_str(),
            ),
            ParseError::UnsupportedVersion(version) => "unsupported protocol version: ".to_owned().concat(
            version.as_str()),
            ParseError::UnsupportedContentType => "unsupported content type".to_owned(),
        }
    }
}

/// A response that cannot be built. The registry's data is at fault.
#[derive(Debug)]
pub enum BuildError {
    /// A hash that the response must carry is empty; the extension is named.
    EmptyHash(String),
    /// The protocol does not write this content type.
    UnsupportedContentType,
    /// Web store responses exist in protocol 3.1 only.
    WebStoreUnavailable,
}

pub enum BuildErrorView {
    EmptyHash(Seq<char>),
    UnsupportedContentType,
    WebStoreUnavailable,
}

impl View for BuildError {
    type V = BuildErrorView;

    open spec fn view(&self) -> BuildErrorView {
        match self {
            BuildError::EmptyHash(id) => BuildErrorView::EmptyHash(id@),
            BuildError::UnsupportedContentType => BuildErrorView::UnsupportedContentType,
            BuildError::WebStoreUnavailable => BuildErrorView::WebStoreUnavailable,
        }
    }
}

/// The text that goes with each build error.
pub open spec fn build_error_text(e: BuildErrorView) -> Seq<char> {
    match e {
        BuildErrorView::EmptyHash(id) => "empty hash for extension "@ + id,
        BuildErrorView::UnsupportedContentType => "unsupported content type"@,
        BuildErrorView::WebStoreUnavailable => "web store responses always use protocol 3.1"@,
    }
}

impl BuildError {
    /// The reason in words, for the operator.
    pub fn message(&self) -> (text: String)
        ensures
            text@ == build_error_text(self@),
    {
        match self {
            BuildError::EmptyHash(id) => "empty hash for extension ".to_owned().concat(id.as_str()),
            BuildError::UnsupportedContentType => "unsupported content type".to_owned(),
            BuildError::WebStoreUnavailable => "web store responses always use protocol 3.1".to_owned(),
        }
    }
}

/// A refresh of the registry that failed: the store's reason.
#[derive(Debug)]
pub struct LoadError {
    pub reason: String,
}


/// A failure as the transport reports it.
#[derive(Debug)]
pub enum AppError {
    BadRequest(String),
    InvalidId,
    DatabaseError(String),
    InternalError(String),
    Other,
}

pub enum AppErrorView {
    BadRequest(Seq<char>),
    InvalidId,
    DatabaseError(Seq<char>),
    InternalError(Seq<char>),
    Other,
}

impl View for AppError {
    type V = AppErrorView;

    open spec fn view(&self) -> AppErrorView {
        match self {
            AppError::BadRequest(reason) => AppErrorView::BadRequest(reason@),
            AppError::InvalidId => AppErrorView::InvalidId,
            AppError::DatabaseError(reason) => AppErrorView::DatabaseError(reason@),
            AppError::InternalError(reason) => AppErrorView::InternalError(reason@),
            AppError::Other => AppErrorView::Other,
        }
    }
}

/// The text that goes with each transport error.
pub open spec fn app_error_text(e: AppErrorView) -> Seq<char> {
    match e {
        AppErrorView::BadRequest(reason) => "BadRequest error: "@ + reason,
        AppErrorView::InvalidId => "Invalid ID provided"@,
        AppErrorView::DatabaseError(reason) => "Database error: "@ + reason,
        AppErrorView::InternalError(reason) => "InternalError error: "@ + reason,
        AppErrorView::Other => "Other error"@,
    }
}

/// The status that answers each transport error: the client's mistakes are
/// answered in the 400 class, everything else in the 500 class.
pub open spec fn app_error_status(e: AppErrorView) -> u16 {
    match e {
        AppErrorView::BadRequest(_) => 400,
        AppErrorView::InvalidId => 400,
        _ => 500,
    }
}

impl AppError {
    /// The error in words.
    pub fn message(&self) -> (text: String)
        ensures
            text@ == app_error_text(self@),
    {
        match self {
            AppError::BadRequest(reason) => "BadRequest error: ".to_owned().concat(reason.as_str()),
            AppError::InvalidId => "Invalid ID provided".to_owned(),
            AppError::DatabaseError(reason) => "Database error: ".to_owned().concat(
                reason.as_str(),
            ),
            AppError::InternalError(reason) => "InternalError error: ".to_owned().concat(
                reason.as_str(),
            ),
            AppError::Other => "Other error".to_owned(),
        }
    }

    /// The HTTP status that answers the error.
    pub fn status_code(&self) -> (status: u16)
        ensures
            status == app_error_status(self@),
    {
        match self {
            AppError::BadRequest(_) => 400,
            AppError::InvalidId => 400,
            _ => 500,
        }
    }

    /// The transport error for a request that cannot be read: the client
    /// is told the reason.
    pub fn from_parse(e: &ParseError) -> (error: AppError)
        ensures
            error@ == AppErrorView::BadRequest(parse_error_text(e@)),
    {
        AppError::BadRequest(e.message())
    }

    /// The transport error for a response that cannot be built: the client
    /// is told nothing of the reason.
    pub fn from_build(e: &BuildError) -> (error: AppError)
        ensures
            error@ == AppErrorView::Other,
    {
        AppError::Other
    }
}

} // verus!
