//! The 3.x request: one requested component for each `app`.

use crate::error::{ParseError, ParseErrorView};
use crate::json::{json_decoded, parse_json, Json, JsonView};
use crate::omaha::request::{components, read_components, RequestForm};
use crate::text::{decode_text, optional_text, str_eq};
use crate::update2::model::{components_view, RequestedComponent, RequestedComponentView};
use crate::xml::{
    attribute_value, read_tokens, tokens_view, xml_tokens, XmlTag, XmlTagView, XmlToken,
    XmlTokenView,
};
use vstd::prelude::*;

verus! {

pub open spec fn components_result(r: Result<Vec<RequestedComponent>, ParseError>) -> Result<
    Seq<RequestedComponentView>,
    ParseErrorView,
> {
    match r {
        Ok(items) => Ok(components_view(items@)),
        Err(e) => Err(e@),
    }
}

/// The member `key`, where it is a string.
pub open spec fn text_member(j: JsonView, key: Seq<char>) -> Option<Seq<char>> {
    match j.member(key) {
        Some(value) => value.text(),
        None => None,
    }
}

/// The first item of an array.
pub open spec fn first_item(j: JsonView) -> Option<JsonView> {
    match j.items() {
        Some(items) => if items.len() > 0 {
            Some(items[0])
        } else {
            None
        },
        None => None,
    }
}

/// The fingerprint of the first package of an app.
pub open spec fn package_fingerprint(app: JsonView) -> Option<Seq<char>> {
    match app.member("packages"@) {
        Some(packages) => match packages.member("package"@) {
            Some(list) => match first_item(list) {
                Some(package) => text_member(package, "fp"@),
                None => None,
            },
            None => None,
        },
        None => None,
    }
}

/// The fingerprint of an app: its own `fp`; without one that of its first
/// package; without that the empty string.
pub open spec fn fingerprint(app: JsonView) -> Seq<char> {
    match text_member(app, "fp"@) {
        Some(fp) => fp,
        None => match package_fingerprint(app) {
            Some(fp) => fp,
            None => Seq::empty(),
        },
    }
}

/// The component that one `app` asks about; `appid` and `version` must be
/// there as strings.
pub open spec fn component(app: JsonView) -> Result<RequestedComponentView, ParseErrorView> {
    match text_member(app, "appid"@) {
        None => Err(ParseErrorView::MissingField("appid"@)),
        Some(id) => match text_member(app, "version"@) {
            None => Err(ParseErrorView::MissingField("version"@)),
            Some(version) => Ok(
                RequestedComponentView {
                    id,
                    client_version: version,
                    client_fingerprint: fingerprint(app),
                },
            ),
        },
    }
}

/// The components of a 3.x JSON request: those of `request.app`, which may
/// be absent.
pub open spec fn request_components(root: JsonView) -> Result<
    Seq<RequestedComponentView>,
    ParseErrorView,
> {
    match root.member("request"@) {
        None => Err(ParseErrorView::MissingField("request"@)),
        Some(request) => match request.member("app"@) {
            None => Ok(Seq::empty()),
            Some(list) => match list.items() {
                None => Err(ParseErrorView::MissingField("app"@)),
                Some(apps) => components(RequestForm::V3, apps),
            },
        },
    }
}

/// The member `key` of `j`, where it is a string.
pub fn text_of(j: &Json, key: &str) -> (text: Option<String>)
    ensures
        optional_text(text) == text_member(j@, key@),
{
    match j.get(key) {
        Some(value) => match value.as_str() {
            Some(t) => Some(t.to_owned()),
            None => None,
        },
        None => None,
    }
}

/// The first item of `j`, where it is an array with items.
pub fn first_of(j: &Json) -> (item: Option<&Json>)
    ensures
        match item {
            Some(first) => first_item(j@) == Some(first@),
            None => first_item(j@) is None,
        },
{
    match j.as_array() {
        Some(items) => if items.len() > 0 {
            Some(&items[0])
        } else {
            None
        },
        None => None,
    }
}

fn fingerprint_of_package(app: &Json) -> (fp: Option<String>)
    ensures
        optional_text(fp) == package_fingerprint(app@),
{
    match app.get("packages") {
        Some(packages) => match packages.get("package") {
            Some(list) => match first_of(list) {
                Some(package) => text_of(package, "fp"),
                None => None,
            },
            None => None,
        },
        None => None,
    }
}

pub fn component_of(app: &Json) -> (r: Result<RequestedComponent, ParseError>)
    ensures
        match r {
            Ok(c) => component(app@) == Ok::<RequestedComponentView, ParseErrorView>(c@),
            Err(e) => component(app@) == Err::<RequestedComponentView, ParseErrorView>(e@),
        },
{
    let id = match text_of(app, "appid") {
        Some(id) => id,
        None => {
            return Err(ParseError::MissingField("appid".to_owned()));
        },
    };
    let version = match text_of(app, "version") {
        Some(version) => version,
        None => {
            return Err(ParseError::MissingField("version".to_owned()));
        },
    };
    let fp = match text_of(app, "fp") {
        Some(fp) => fp,
        None => match fingerprint_of_package(app) {
            Some(fp) => fp,
            None => String::new(),
        },
    };
    Ok(RequestedComponent { id, client_version: version, client_fingerprint: fp })
}

/// The components of a 3.x JSON request that has been decoded.
pub fn components_from_json(root: &Json) -> (r: Result<Vec<RequestedComponent>, ParseError>)
    ensures
        components_result(r) == request_components(root@),
{
    let request = match root.get("request") {
        Some(request) => request,
        None => {
            return Err(ParseError::MissingField("request".to_owned()));
        },
    };
    let list = match request.get("app") {
        Some(list) => list,
        None => {
            let none: Vec<RequestedComponent> = Vec::new();
            assert(components_view(none@) =~= Seq::empty());
            return Ok(none);
        },
    };
    let apps = match list.as_array() {
        Some(apps) => apps,
        None => {
            return Err(ParseError::MissingField("app".to_owned()));
        },
    };
    read_components(RequestForm::V3, apps)
}

/// What a 3.x JSON body asks for: a body that does not decode is malformed.
pub open spec fn json_request(data: Seq<u8>) -> Result<Seq<RequestedComponentView>, ParseErrorView> {
    match json_decoded(data) {
        Ok(root) => request_components(root),
        Err(reason) => Err(ParseErrorView::Malformed(reason)),
    }
}

/// Reads a 3.x request in JSON.
pub fn parse_update_request_json(data: &[u8]) -> (r: Result<Vec<RequestedComponent>, ParseError>)
    ensures
        components_result(r) == json_request(data@),
{
    match parse_json(data) {
        Ok(root) => components_from_json(&root),
        Err(reason) => Err(ParseError::Malformed(reason)),
    }
}

/// An `app` element that is being read.
pub struct AppDraft {
    pub id: String,
    pub version: String,
    pub fp: Option<String>,
    /// Whether a `package` element has been seen inside the app.
    pub package_seen: bool,
}

pub struct AppDraftView {
    pub id: Seq<char>,
    pub version: Seq<char>,
    pub fp: Option<Seq<char>>,
    pub package_seen: bool,
}

impl View for AppDraft {
    type V = AppDraftView;

    open spec fn view(&self) -> AppDraftView {
        AppDraftView {
            id: self.id@,
            version: self.version@,
            fp: optional_text(self.fp),
            package_seen: self.package_seen,
        }
    }
}

/// How far the reading of an XML request has come.
pub struct Scan {
    /// How many elements are open.
    pub depth: usize,
    /// The `app` element that is open, if one is.
    pub draft: Option<AppDraft>,
    /// The components of the apps that have been closed.
    pub done: Vec<RequestedComponent>,
    /// Why the request cannot be read, once that is so.
    pub failure: Option<ParseError>,
}

pub struct ScanView {
    pub depth: nat,
    pub draft: Option<AppDraftView>,
    pub done: Seq<RequestedComponentView>,
    pub failure: Option<ParseErrorView>,
}

impl View for Scan {
    type V = ScanView;

    open spec fn view(&self) -> ScanView {
        ScanView {
            depth: self.depth as nat,
            draft: match self.draft {
                Some(d) => Some(d@),
                None => None,
            },
            done: components_view(self.done@),
            failure: match self.failure {
                Some(e) => Some(e@),
                None => None,
            },
        }
    }
}

pub open spec fn scan_start() -> ScanView {
    ScanView { depth: 0, draft: None, done: Seq::empty(), failure: None }
}

pub open spec fn failed(s: ScanView, e: ParseErrorView) -> ScanView {
    ScanView { failure: Some(e), ..s }
}

/// An attribute that must be there.
pub open spec fn required_attribute(tag: XmlTagView, key: Seq<char>) -> Result<
    Seq<char>,
    ParseErrorView,
> {
    match attribute_value(tag, key) {
        Some(Ok(value)) => Ok(value),
        Some(Err(reason)) => Err(ParseErrorView::Malformed(reason)),
        None => Err(ParseErrorView::MissingField(key)),
    }
}

/// An attribute that may be there.
pub open spec fn optional_attribute(tag: XmlTagView, key: Seq<char>) -> Result<
    Option<Seq<char>>,
    ParseErrorView,
> {
    match attribute_value(tag, key) {
        Some(Ok(value)) => Ok(Some(value)),
        Some(Err(reason)) => Err(ParseErrorView::Malformed(reason)),
        None => Ok(None),
    }
}

/// The draft that the start tag of an `app` opens; `appid` and `version`
/// must be there.
pub open spec fn draft_of(tag: XmlTagView) -> Result<AppDraftView, ParseErrorView> {
    match required_attribute(tag, "appid"@) {
        Err(e) => Err(e),
        Ok(id) => match required_attribute(tag, "version"@) {
            Err(e) => Err(e),
            Ok(version) => match optional_attribute(tag, "fp"@) {
                Err(e) => Err(e),
                Ok(fp) => Ok(AppDraftView { id, version, fp, package_seen: false }),
            },
        },
    }
}

/// A draft after a `package` element inside it: the first package gives
/// the fingerprint where the app has none of its own.
pub open spec fn with_package(draft: AppDraftView, tag: XmlTagView) -> Result<
    AppDraftView,
    ParseErrorView,
> {
    if draft.package_seen {
        Ok(draft)
    } else if draft.fp is Some {
        Ok(AppDraftView { package_seen: true, ..draft })
    } else {
        match optional_attribute(tag, "fp"@) {
            Err(e) => Err(e),
            Ok(fp) => Ok(AppDraftView { fp, package_seen: true, ..draft }),
        }
    }
}

/// The state after a start tag. An `app` directly under the root opens a
/// draft; a `package` inside an app may give the draft its fingerprint.
pub open spec fn entered(s: ScanView, tag: XmlTagView) -> ScanView {
    if s.depth == 1 && tag.name == "app"@ {
        match draft_of(tag) {
            Ok(draft) => ScanView { depth: s.depth + 1, draft: Some(draft), ..s },
            Err(e) => failed(s, e),
        }
    } else if s.draft is Some && tag.name == "package"@ {
        match with_package(s.draft->0, tag) {
            Ok(draft) => ScanView { depth: s.depth + 1, draft: Some(draft), ..s },
            Err(e) => failed(s, e),
        }
    } else {
        ScanView { depth: s.depth + 1, ..s }
    }
}

pub open spec fn drafted_component(draft: AppDraftView) -> RequestedComponentView {
    RequestedComponentView {
        id: draft.id,
        client_version: draft.version,
        client_fingerprint: match draft.fp {
            Some(fp) => fp,
            None => Seq::empty(),
        },
    }
}

/// The state after an end tag. The end of an app adds its component.
pub open spec fn left(s: ScanView) -> ScanView {
    if s.depth == 0 {
        failed(s, ParseErrorView::Malformed("unmatched end tag"@))
    } else if s.depth == 2 && s.draft is Some {
        ScanView {
            depth: 1,
            draft: None,
            done: s.done.push(drafted_component(s.draft->0)),
            ..s
        }
    } else {
        ScanView { depth: (s.depth - 1) as nat, ..s }
    }
}

/// The state after one more token. Once the request has failed, nothing
/// changes any more.
pub open spec fn scan_step(s: ScanView, token: XmlTokenView) -> ScanView {
    if s.failure is Some {
        s
    } else {
        match token {
            XmlTokenView::Open(tag) => entered(s, tag),
            XmlTokenView::Close => left(s),
            XmlTokenView::Other => s,
            XmlTokenView::Finish => if s.draft is Some {
                failed(s, ParseErrorView::Malformed("unexpected end of document"@))
            } else {
                s
            },
            XmlTokenView::Broken(reason) => failed(s, ParseErrorView::Malformed(reason)),
        }
    }
}

/// The state after a list of tokens.
pub open spec fn scanned(tokens: Seq<XmlTokenView>) -> ScanView
    decreases tokens.len(),
{
    if tokens.len() == 0 {
        scan_start()
    } else {
        scan_step(scanned(tokens.drop_last()), tokens.last())
    }
}

/// The components of a 3.x XML request, given as its tokens: one for each
/// `app` element directly under the root, in their order.
pub open spec fn token_components(tokens: Seq<XmlTokenView>) -> Result<
    Seq<RequestedComponentView>,
    ParseErrorView,
> {
    match scanned(tokens).failure {
        Some(e) => Err(e),
        None => Ok(scanned(tokens).done),
    }
}

fn read_required(tag: &XmlTag, key: &str) -> (r: Result<String, ParseError>)
    ensures
        match r {
            Ok(v) => required_attribute(tag@, key@) == Ok::<Seq<char>, ParseErrorView>(v@),
            Err(e) => required_attribute(tag@, key@) == Err::<Seq<char>, ParseErrorView>(e@),
        },
{
    match tag.attribute(key) {
        Some(Ok(value)) => Ok(value),
        Some(Err(reason)) => Err(ParseError::Malformed(reason)),
        None => Err(ParseError::MissingField(key.to_owned())),
    }
}

fn read_optional(tag: &XmlTag, key: &str) -> (r: Result<Option<String>, ParseError>)
    ensures
        match r {
            Ok(v) => optional_attribute(tag@, key@) == Ok::<Option<Seq<char>>, ParseErrorView>(
                optional_text(v),
            ),
            Err(e) => optional_attribute(tag@, key@) == Err::<Option<Seq<char>>, ParseErrorView>(
                e@,
            ),
        },
{
    match tag.attribute(key) {
        Some(Ok(value)) => Ok(Some(value)),
        Some(Err(reason)) => Err(ParseError::Malformed(reason)),
        None => Ok(None),
    }
}

fn open_draft(tag: &XmlTag) -> (r: Result<AppDraft, ParseError>)
    ensures
        match r {
            Ok(d) => draft_of(tag@) == Ok::<AppDraftView, ParseErrorView>(d@),
            Err(e) => draft_of(tag@) == Err::<AppDraftView, ParseErrorView>(e@),
        },
{
    let id = match read_required(tag, "appid") {
        Ok(id) => id,
        Err(e) => {
            return Err(e);
        },
    };
    let version = match read_required(tag, "version") {
        Ok(version) => version,
        Err(e) => {
            return Err(e);
        },
    };
    let fp = match read_optional(tag, "fp") {
        Ok(fp) => fp,
        Err(e) => {
            return Err(e);
        },
    };
    Ok(AppDraft { id, version, fp, package_seen: false })
}

impl Scan {
    /// The state before the first token.
    pub fn start() -> (s: Scan)
        ensures
            s@ == scan_start(),
    {
        let s = Scan { depth: 0, draft: None, done: Vec::new(), failure: None };
        assert(s@.done =~= Seq::empty());
        s
    }

    fn fail(self, e: ParseError) -> (s: Scan)
        ensures
            s@ == failed(self@, e@),
            s.depth == self.depth,
    {
        Scan { depth: self.depth, draft: self.draft, done: self.done, failure: Some(e) }
    }

    fn enter(self, tag: &XmlTag) -> (s: Scan)
        requires
            self.depth < usize::MAX,
        ensures
            s@ == entered(self@, tag@),
            s.depth <= self.depth + 1,
    {
        if self.depth == 1 && str_eq(tag.name.as_str(), "app") {
            match open_draft(tag) {
                Ok(draft) => Scan {
                    depth: self.depth + 1,
                    draft: Some(draft),
                    done: self.done,
                    failure: self.failure,
                },
                Err(e) => self.fail(e),
            }
        } else if self.draft.is_some() && str_eq(tag.name.as_str(), "package") {
            let Scan { depth, draft, done, failure } = self;
            let d = draft.unwrap();
            if d.package_seen {
                Scan { depth: depth + 1, draft: Some(d), done, failure }
            } else if d.fp.is_some() {
                let next = AppDraft { id: d.id, version: d.version, fp: d.fp, package_seen: true };
                Scan { depth: depth + 1, draft: Some(next), done, failure }
            } else {
                match read_optional(tag, "fp") {
                    Ok(fp) => {
                        let next = AppDraft { id: d.id, version: d.version, fp, package_seen: true };
                        Scan { depth: depth + 1, draft: Some(next), done, failure }
                    },
                    Err(e) => Scan { depth, draft: Some(d), done, failure: Some(e) },
                }
            }
        } else {
            Scan {
                depth: self.depth + 1,
                draft: self.draft,
                done: self.done,
                failure: self.failure,
            }
        }
    }

    fn leave(self) -> (s: Scan)
        ensures
            s@ == left(self@),
            s.depth <= self.depth,
    {
        if self.depth == 0 {
            return self.fail(ParseError::Malformed("unmatched end tag".to_owned()));
        }
        let Scan { depth, draft, done, failure } = self;
        match draft {
            Some(d) => {
                if depth == 2 {
                    let mut done = done;
                    let ghost before = components_view(done@);
                    let fp = match d.fp {
                        Some(fp) => fp,
                        None => String::new(),
                    };
                    let c = RequestedComponent {
                        id: d.id,
                        client_version: d.version,
                        client_fingerprint: fp,
                    };
                    done.push(c);
                    assert(components_view(done@) =~= before.push(c@));
                    Scan { depth: 1, draft: None, done, failure }
                } else {
                    Scan { depth: depth - 1, draft: Some(d), done, failure }
                }
            },
            None => Scan { depth: depth - 1, draft: None, done, failure },
        }
    }

    /// The state after one more token.
    pub fn step(self, token: &XmlToken) -> (s: Scan)
        requires
            self.depth < usize::MAX,
        ensures
            s@ == scan_step(self@, token@),
            s.depth <= self.depth + 1,
    {
        if self.failure.is_some() {
            return self;
        }
        match token {
            XmlToken::Open(tag) => self.enter(tag),
            XmlToken::Close => self.leave(),
            XmlToken::Other => self,
            XmlToken::Finish => if self.draft.is_some() {
                self.fail(ParseError::Malformed("unexpected end of document".to_owned()))
            } else {
                self
            },
            XmlToken::Broken(reason) => self.fail(ParseError::Malformed(reason.clone())),
        }
    }
}

/// The components of a 3.x XML request whose tokens have been read.
pub fn components_from_tokens(tokens: &Vec<XmlToken>) -> (r: Result<
    Vec<RequestedComponent>,
    ParseError,
>)
    ensures
        components_result(r) == token_components(tokens_view(tokens@)),
{
    let ghost views = tokens_view(tokens@);
    let mut state = Scan::start();
    let mut i: usize = 0;
    assert(views.take(0) =~= Seq::empty());
    while i < tokens.len()
        invariant
            i <= tokens@.len(),
            views == tokens_view(tokens@),
            state.depth <= i,
            state@ == scanned(views.take(i as int)),
        decreases tokens@.len() - i,
    {
        proof {
            assert(views.take(i + 1).drop_last() =~= views.take(i as int));
            assert(views.take(i + 1).last() == tokens@[i as int]@);
        }
        state = state.step(&tokens[i]);
        i += 1;
    }
    assert(views.take(i as int) =~= views);
    match state.failure {
        Some(e) => Err(e),
        None => Ok(state.done),
    }
}

/// What a 3.x XML body asks for: a body that is not UTF-8 is malformed.
pub open spec fn xml_request(data: Seq<u8>) -> Result<Seq<RequestedComponentView>, ParseErrorView> {
    if !vstd::utf8::valid_utf8(data) {
        Err(ParseErrorView::Malformed("invalid UTF-8"@))
    } else {
        token_components(xml_tokens(vstd::utf8::decode_utf8(data)))
    }
}

/// Reads a 3.x request in XML.
pub fn parse_update_request_xml(data: &[u8]) -> (r: Result<Vec<RequestedComponent>, ParseError>)
    ensures
        components_result(r) == xml_request(data@),
{
    match decode_text(data) {
        Some(text) => {
            let tokens = read_tokens(text);
            components_from_tokens(&tokens)
        },
        None => Err(ParseError::Malformed("invalid UTF-8".to_owned())),
    }
}

} // verus!
