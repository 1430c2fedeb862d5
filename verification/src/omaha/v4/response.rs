//! The 4.0 response: for each update an ordered list of pipelines, each a
//! list of operations that leads the client to the new package.

use crate::error::{BuildError, BuildErrorView};
use crate::json::{
    fields_view, items_view, push_item, push_member, render, rendered, Json, JsonView,
};
use crate::text::{is_blank, optional_text, replace_char, replaced, take_chars};
use crate::update2::model::{
    decisions_view, Outcome, PatchInfo, PatchInfoView, UpdateDecision, UpdateDecisionView,
};
use crate::update2::utils::{elapsed_days, elapsed_seconds, get_daystart};
use vstd::prelude::*;

verus! {

/// A declared size of zero counts as one.
pub open spec fn normalized_size(size: u64) -> u64 {
    if size == 0 {
        1
    } else {
        size
    }
}

/// The size to declare for an artifact of `size` bytes: never zero.
pub fn normalize_size(size: u64) -> (r: u64)
    ensures
        r == normalized_size(size),
{
    if size == 0 {
        1
    } else {
        size
    }
}

pub open spec fn bucket_host(app_id: Seq<char>) -> Seq<char> {
    "s3.example.com/"@ + app_id
}

/// The host that serves the packages of an extension.
pub fn get_s3_extension_bucket_host(app_id: &str) -> (host: String)
    ensures
        host@ == bucket_host(app_id@),
{
    "s3.example.com/".to_owned().concat(app_id)
}

/// The file name of the package of a version: the version with its dots
/// turned into underscores, between a fixed prefix and suffix.
pub open spec fn package_file(version: Seq<char>) -> Seq<char> {
    "extension_"@ + replaced(version, '.', '_') + ".crx"@
}

/// Where the full package of a version is served.
pub open spec fn full_url(id: Seq<char>, version: Seq<char>) -> Seq<char> {
    "https://"@ + bucket_host(id) + "/release/"@ + id + "/"@ + package_file(version)
}

/// Where the delta from the content `fp` to the package `hash` is served.
pub open spec fn patch_url(id: Seq<char>, hash: Seq<char>, fp: Seq<char>) -> Seq<char> {
    "https://"@ + bucket_host(id) + "/release/"@ + id + "/patches/"@ + hash + "/"@ + fp
        + ".puff"@
}

/// The id of the pipeline that applies a delta to the content `fp`: named
/// after the first eight characters of the fingerprint.
pub open spec fn diff_pipeline_id(fp: Seq<char>) -> Seq<char> {
    "puff_diff_"@ + (if fp.len() <= 8 {
        fp
    } else {
        fp.take(8)
    })
}

/// One step of a pipeline.
#[derive(Debug)]
pub struct Operation {
    pub typ: String,
    /// The hash of what the operation produces.
    pub out: Option<String>,
    /// The hash of what the operation consumes.
    pub input: Option<String>,
    pub urls: Vec<String>,
    /// The hash of the content that the client already holds.
    pub previous: Option<String>,
    pub size: Option<u64>,
}

pub struct OperationView {
    pub typ: Seq<char>,
    pub out: Option<Seq<char>>,
    pub input: Option<Seq<char>>,
    pub urls: Seq<Seq<char>>,
    pub previous: Option<Seq<char>>,
    pub size: Option<u64>,
}

impl View for Operation {
    type V = OperationView;

    open spec fn view(&self) -> OperationView {
        OperationView {
            typ: self.typ@,
            out: optional_text(self.out),
            input: optional_text(self.input),
            urls: self.urls@.map_values(|u: String| u@),
            previous: optional_text(self.previous),
            size: self.size,
        }
    }
}

/// One way to arrive at the new package.
#[derive(Debug)]
pub struct Pipeline {
    pub pipeline_id: String,
    pub operations: Vec<Operation>,
}

pub struct PipelineView {
    pub pipeline_id: Seq<char>,
    pub operations: Seq<OperationView>,
}

impl View for Pipeline {
    type V = PipelineView;

    open spec fn view(&self) -> PipelineView {
        PipelineView {
            pipeline_id: self.pipeline_id@,
            operations: self.operations@.map_values(|op: Operation| op@),
        }
    }
}

pub open spec fn pipelines_view(pipelines: Seq<Pipeline>) -> Seq<PipelineView> {
    pipelines.map_values(|p: Pipeline| p@)
}

pub open spec fn download_operation(hash: Seq<char>, url: Seq<char>, size: u64) -> OperationView {
    OperationView {
        typ: "download"@,
        out: Some(hash),
        input: None,
        urls: seq![url],
        previous: None,
        size: Some(normalized_size(size)),
    }
}

pub open spec fn puff_operation(previous: Seq<char>) -> OperationView {
    OperationView {
        typ: "puff"@,
        out: None,
        input: None,
        urls: Seq::empty(),
        previous: Some(previous),
        size: None,
    }
}

pub open spec fn crx3_operation(hash: Seq<char>) -> OperationView {
    OperationView {
        typ: "crx3"@,
        out: None,
        input: Some(hash),
        urls: Seq::empty(),
        previous: None,
        size: None,
    }
}

/// The pipeline that downloads a delta, applies it to the client's content
/// and verifies the package that results.
pub open spec fn diff_pipeline(d: UpdateDecisionView, patch: PatchInfoView) -> PipelineView {
    PipelineView {
        pipeline_id: diff_pipeline_id(d.client_fingerprint),
        operations: seq![
            download_operation(
                patch.hashdiff,
                patch_url(d.id, d.target_hash, d.client_fingerprint),
                patch.sizediff,
            ),
            puff_operation(d.client_fingerprint),
            crx3_operation(d.target_hash),
        ],
    }
}

/// The pipeline that downloads the full package and verifies it.
pub open spec fn full_pipeline(d: UpdateDecisionView) -> PipelineView {
    PipelineView {
        pipeline_id: "direct_full"@,
        operations: seq![
            download_operation(d.target_hash, full_url(d.id, d.target_version), d.target_size),
            crx3_operation(d.target_hash),
        ],
    }
}

/// Whether a decision leads to a delta pipeline: it is an update with a
/// delta whose hash is not empty.
pub open spec fn offers_diff(d: UpdateDecisionView) -> bool {
    d.outcome == Outcome::Update && d.diff is Some && d.diff->0.hashdiff.len() > 0
}

/// The pipelines of a decision: none without an update; else the delta
/// pipeline, where one is offered, and always last the full download.
pub open spec fn pipelines_for(d: UpdateDecisionView) -> Seq<PipelineView> {
    if d.outcome != Outcome::Update {
        Seq::empty()
    } else if offers_diff(d) {
        seq![diff_pipeline(d, d.diff->0), full_pipeline(d)]
    } else {
        seq![full_pipeline(d)]
    }
}

/// Whether a response can be built for a decision: its target hash is not
/// empty, nor is the fingerprint that a delta pipeline would start from.
pub open spec fn buildable(d: UpdateDecisionView) -> bool {
    d.target_hash.len() > 0 && (offers_diff(d) ==> d.client_fingerprint.len() > 0)
}

/// Whether every hash that an operation declares is not empty.
pub open spec fn hashes_present(op: OperationView) -> bool {
    &&& op.typ.len() > 0
    &&& op.out is Some ==> op.out->0.len() > 0
    &&& op.input is Some ==> op.input->0.len() > 0
    &&& op.previous is Some ==> op.previous->0.len() > 0
}

/// In the pipelines of a decision that can be built, no operation declares
/// an empty hash, and the full download comes last.
pub proof fn lemma_pipelines_carry_hashes(d: UpdateDecisionView)
    requires
        buildable(d),
    ensures
        forall|p: int, o: int|
            0 <= p < pipelines_for(d).len() && 0 <= o < pipelines_for(d)[p].operations.len()
                ==> hashes_present(#[trigger] pipelines_for(d)[p].operations[o]),
        d.outcome == Outcome::Update ==> pipelines_for(d).last() == full_pipeline(d),
{
    reveal_strlit("download");
    reveal_strlit("puff");
    reveal_strlit("crx3");
}

/// A delta without a hash leads to no pipeline: an update that carries one
/// has the full download alone, as an update without any delta has.
pub proof fn lemma_diff_without_hash_omitted(d: UpdateDecisionView)
    requires
        d.outcome == Outcome::Update,
        d.diff is None || d.diff->0.hashdiff.len() == 0,
    ensures
        pipelines_for(d) == seq![full_pipeline(d)],
        buildable(d) <==> d.target_hash.len() > 0,
{
}

fn download(hash: &str, url: String, size: u64) -> (op: Operation)
    ensures
        op@ == download_operation(hash@, url@, size),
{
    let op = Operation {
        typ: "download".to_owned(),
        out: Some(hash.to_owned()),
        input: None,
        urls: vec![url],
        previous: None,
        size: Some(normalize_size(size)),
    };
    assert(op@.urls =~= seq![url@]);
    op
}

fn puff(previous: &str) -> (op: Operation)
    ensures
        op@ == puff_operation(previous@),
{
    let op = Operation {
        typ: "puff".to_owned(),
        out: None,
        input: None,
        urls: Vec::new(),
        previous: Some(previous.to_owned()),
        size: None,
    };
    assert(op@.urls =~= Seq::empty());
    op
}

fn crx3(hash: &str) -> (op: Operation)
    ensures
        op@ == crx3_operation(hash@),
{
    let op = Operation {
        typ: "crx3".to_owned(),
        out: None,
        input: Some(hash.to_owned()),
        urls: Vec::new(),
        previous: None,
        size: None,
    };
    assert(op@.urls =~= Seq::empty());
    op
}

fn release_prefix(id: &str) -> (url: String)
    ensures
        url@ == "https://"@ + bucket_host(id@) + "/release/"@ + id@,
{
    let host = get_s3_extension_bucket_host(id);
    let mut url = "https://".to_owned();
    url.append(host.as_str());
    url.append("/release/");
    url.append(id);
    url
}

fn build_full_pipeline(d: &UpdateDecision) -> (p: Pipeline)
    ensures
        p@ == full_pipeline(d@),
{
    let mut url = release_prefix(d.id.as_str());
    url.append("/");
    url.append("extension_");
    let flat = replace_char(d.target_version.as_str(), '.', '_');
    url.append(flat.as_str());
    url.append(".crx");
    assert(url@ =~= full_url(d@.id, d@.target_version));
    let p = Pipeline {
        pipeline_id: "direct_full".to_owned(),
        operations: vec![
            download(d.target_hash.as_str(), url, d.target_size),
            crx3(d.target_hash.as_str()),
        ],
    };
    assert(p@.operations =~= full_pipeline(d@).operations);
    p
}

fn build_diff_pipeline(d: &UpdateDecision, patch: &PatchInfo) -> (p: Pipeline)
    ensures
        p@ == diff_pipeline(d@, patch@),
{
    let fp = d.client_fingerprint.as_str();
    let mut url = release_prefix(d.id.as_str());
    url.append("/patches/");
    url.append(d.target_hash.as_str());
    url.append("/");
    url.append(fp);
    url.append(".puff");
    assert(url@ =~= patch_url(d@.id, d@.target_hash, d@.client_fingerprint));
    let head = take_chars(fp, 8);
    let id = "puff_diff_".to_owned().concat(head.as_str());
    let p = Pipeline {
        pipeline_id: id,
        operations: vec![
            download(patch.hashdiff.as_str(), url, patch.sizediff),
            puff(fp),
            crx3(d.target_hash.as_str()),
        ],
    };
    assert(p@.operations =~= diff_pipeline(d@, patch@).operations);
    p
}

/// The pipelines that lead a client to the target of a decision.
pub fn plan_pipelines(d: &UpdateDecision) -> (pipelines: Vec<Pipeline>)
    ensures
        pipelines_view(pipelines@) == pipelines_for(d@),
{
    let mut pipelines: Vec<Pipeline> = Vec::new();
    match d.outcome {
        Outcome::NoUpdate => {
            assert(pipelines_view(pipelines@) =~= pipelines_for(d@));
        },
        Outcome::Update => {
            match &d.diff {
                Some(patch) => {
                    if !is_blank(patch.hashdiff.as_str()) {
                        pipelines.push(build_diff_pipeline(d, patch));
                    }
                },
                None => {},
            }
            pipelines.push(build_full_pipeline(d));
            assert(pipelines_view(pipelines@) =~= pipelines_for(d@));
        },
    }
    pipelines
}

pub open spec fn update_status(d: UpdateDecisionView) -> Seq<char> {
    match d.outcome {
        Outcome::NoUpdate => "noupdate"@,
        Outcome::Update => "ok"@,
    }
}

/// The status word of a decision.
pub fn get_update_status(extension: &UpdateDecision) -> (status: &'static str)
    ensures
        status@ == update_status(extension@),
{
    match extension.outcome {
        Outcome::NoUpdate => "noupdate",
        Outcome::Update => "ok",
    }
}

pub open spec fn hash_json(hash: Seq<char>) -> JsonView {
    JsonView::Object(seq![("sha256"@, JsonView::Text(hash))])
}

pub open spec fn url_json(url: Seq<char>) -> JsonView {
    JsonView::Object(seq![("url"@, JsonView::Text(url))])
}

/// `fields` with one member more where `value` is there.
pub open spec fn with_optional(
    fields: Seq<(Seq<char>, JsonView)>,
    key: Seq<char>,
    value: Option<JsonView>,
) -> Seq<(Seq<char>, JsonView)> {
    match value {
        Some(v) => fields.push((key, v)),
        None => fields,
    }
}

pub open spec fn optional_hash_json(hash: Option<Seq<char>>) -> Option<JsonView> {
    match hash {
        Some(h) => Some(hash_json(h)),
        None => None,
    }
}

/// An operation as JSON: its type, then only what it declares, in the order
/// out, in, urls, previous, size.
pub open spec fn operation_json(op: OperationView) -> JsonView {
    let f0 = seq![("type"@, JsonView::Text(op.typ))];
    let f1 = with_optional(f0, "out"@, optional_hash_json(op.out));
    let f2 = with_optional(f1, "in"@, optional_hash_json(op.input));
    let f3 = with_optional(
        f2,
        "urls"@,
        if op.urls.len() > 0 {
            Some(JsonView::Array(op.urls.map_values(|u: Seq<char>| url_json(u))))
        } else {
            None
        },
    );
    let f4 = with_optional(f3, "previous"@, optional_hash_json(op.previous));
    let f5 = with_optional(
        f4,
        "size"@,
        match op.size {
            Some(n) => Some(JsonView::Unsigned(n)),
            None => None,
        },
    );
    JsonView::Object(f5)
}

pub open spec fn pipeline_json(p: PipelineView) -> JsonView {
    JsonView::Object(
        seq![
            ("pipeline_id"@, JsonView::Text(p.pipeline_id)),
            (
                "operations"@,
                JsonView::Array(p.operations.map_values(|op: OperationView| operation_json(op))),
            ),
        ],
    )
}

/// The update check of one app: its status; with an update also the next
/// version, unless that is empty, and the pipelines.
pub open spec fn update_check_json(d: UpdateDecisionView) -> JsonView {
    let f0 = seq![("status"@, JsonView::Text(update_status(d)))];
    let f1 = with_optional(
        f0,
        "nextversion"@,
        if d.outcome == Outcome::Update && d.target_version.len() > 0 {
            Some(JsonView::Text(d.target_version))
        } else {
            None
        },
    );
    let f2 = with_optional(
        f1,
        "pipelines"@,
        if pipelines_for(d).len() > 0 {
            Some(
                JsonView::Array(
                    pipelines_for(d).map_values(|p: PipelineView| pipeline_json(p)),
                ),
            )
        } else {
            None
        },
    );
    JsonView::Object(f2)
}

pub open spec fn app_json(d: UpdateDecisionView) -> JsonView {
    JsonView::Object(
        seq![
            ("appid"@, JsonView::Text(d.id)),
            ("status"@, JsonView::Text("ok"@)),
            ("updatecheck"@, update_check_json(d)),
        ],
    )
}

pub open spec fn daystart_json(days: u64, seconds: u32) -> JsonView {
    JsonView::Object(
        seq![
            ("elapsed_seconds"@, JsonView::Unsigned(seconds as u64)),
            ("elapsed_days"@, JsonView::Unsigned(days)),
        ],
    )
}

/// The whole response: the protocol, the day start, once, and one app for
/// each decision, in their order.
pub open spec fn response_json(decisions: Seq<UpdateDecisionView>, days: u64, seconds: u32) -> JsonView {
    JsonView::Object(
        seq![
            (
                "response"@,
                JsonView::Object(
                    seq![
                        ("protocol"@, JsonView::Text("4.0"@)),
                        ("daystart"@, daystart_json(days, seconds)),
                        ("apps"@, JsonView::Array(decisions.map_values(|d: UpdateDecisionView| app_json(d)))),
                    ],
                ),
            ),
        ],
    )
}

fn hash_to_json(hash: &str) -> (j: Json)
    ensures
        j@ == hash_json(hash@),
{
    let mut fields: Vec<(String, Json)> = Vec::new();
    push_member(&mut fields, "sha256", Json::text(hash));
    let j = Json::object(fields);
    assert(j@->Object_0 =~= hash_json(hash@)->Object_0);
    j
}

fn push_optional_hash(fields: &mut Vec<(String, Json)>, key: &str, hash: &Option<String>)
    ensures
        fields_view(final(fields)@) == with_optional(
            fields_view(old(fields)@),
            key@,
            optional_hash_json(optional_text(*hash)),
        ),
{
    match hash {
        Some(h) => {
            push_member(fields, key, hash_to_json(h.as_str()));
        },
        None => {},
    }
}

fn urls_to_json(urls: &Vec<String>) -> (j: Json)
    ensures
        j@ == JsonView::Array(
            urls@.map_values(|u: String| u@).map_values(|u: Seq<char>| url_json(u)),
        ),
{
    let ghost target = urls@.map_values(|u: String| u@).map_values(|u: Seq<char>| url_json(u));
    let mut items: Vec<Json> = Vec::new();
    let mut i: usize = 0;
    assert(items_view(items@) =~= target.take(0));
    while i < urls.len()
        invariant
            i <= urls@.len(),
            target == urls@.map_values(|u: String| u@).map_values(|u: Seq<char>| url_json(u)),
            items_view(items@) == target.take(i as int),
        decreases urls@.len() - i,
    {
        let mut fields: Vec<(String, Json)> = Vec::new();
        push_member(&mut fields, "url", Json::text(urls[i].as_str()));
        let item = Json::object(fields);
        assert(item@->Object_0 =~= url_json(urls@[i as int]@)->Object_0);
        push_item(&mut items, item);
        assert(target.take(i + 1) =~= target.take(i as int).push(target[i as int]));
        i += 1;
    }
    assert(target.take(i as int) =~= target);
    Json::array(items)
}

fn operation_to_json(op: &Operation) -> (j: Json)
    ensures
        j@ == operation_json(op@),
{
    let mut fields: Vec<(String, Json)> = Vec::new();
    push_member(&mut fields, "type", Json::text(op.typ.as_str()));
    assert(fields_view(fields@) =~= seq![("type"@, JsonView::Text(op@.typ))]);
    push_optional_hash(&mut fields, "out", &op.out);
    push_optional_hash(&mut fields, "in", &op.input);
    if op.urls.len() > 0 {
        push_member(&mut fields, "urls", urls_to_json(&op.urls));
    }
    push_optional_hash(&mut fields, "previous", &op.previous);
    match op.size {
        Some(n) => {
            push_member(&mut fields, "size", Json::Unsigned(n));
        },
        None => {},
    }
    Json::object(fields)
}

fn pipeline_to_json(p: &Pipeline) -> (j: Json)
    ensures
        j@ == pipeline_json(p@),
{
    let ghost target = p@.operations.map_values(|op: OperationView| operation_json(op));
    let mut items: Vec<Json> = Vec::new();
    let mut i: usize = 0;
    assert(items_view(items@) =~= target.take(0));
    while i < p.operations.len()
        invariant
            i <= p.operations@.len(),
            target == p@.operations.map_values(|op: OperationView| operation_json(op)),
            items_view(items@) == target.take(i as int),
        decreases p.operations@.len() - i,
    {
        push_item(&mut items, operation_to_json(&p.operations[i]));
        assert(target.take(i + 1) =~= target.take(i as int).push(target[i as int]));
        i += 1;
    }
    assert(target.take(i as int) =~= target);
    let mut fields: Vec<(String, Json)> = Vec::new();
    push_member(&mut fields, "pipeline_id", Json::text(p.pipeline_id.as_str()));
    push_member(&mut fields, "operations", Json::array(items));
    let j = Json::object(fields);
    assert(j@->Object_0 =~= pipeline_json(p@)->Object_0);
    j
}

fn update_check_to_json(d: &UpdateDecision) -> (j: Json)
    ensures
        j@ == update_check_json(d@),
{
    let mut fields: Vec<(String, Json)> = Vec::new();
    push_member(&mut fields, "status", Json::text(get_update_status(d)));
    assert(fields_view(fields@) =~= seq![("status"@, JsonView::Text(update_status(d@)))]);
    match d.outcome {
        Outcome::Update => {
            if !is_blank(d.target_version.as_str()) {
                push_member(&mut fields, "nextversion", Json::text(d.target_version.as_str()));
            }
        },
        Outcome::NoUpdate => {},
    }
    let pipelines = plan_pipelines(d);
    if pipelines.len() > 0 {
        let ghost target = pipelines_for(d@).map_values(|p: PipelineView| pipeline_json(p));
        let mut items: Vec<Json> = Vec::new();
        let mut i: usize = 0;
        assert(items_view(items@) =~= target.take(0));
        while i < pipelines.len()
            invariant
                i <= pipelines@.len(),
                pipelines_view(pipelines@) == pipelines_for(d@),
                target == pipelines_for(d@).map_values(|p: PipelineView| pipeline_json(p)),
                items_view(items@) == target.take(i as int),
            decreases pipelines@.len() - i,
        {
            assert(pipelines_view(pipelines@)[i as int] == pipelines@[i as int]@);
            push_item(&mut items, pipeline_to_json(&pipelines[i]));
            assert(target.take(i + 1) =~= target.take(i as int).push(target[i as int]));
            i += 1;
        }
        assert(target.take(i as int) =~= target);
        push_member(&mut fields, "pipelines", Json::array(items));
    }
    Json::object(fields)
}

fn app_to_json(d: &UpdateDecision) -> (j: Json)
    ensures
        j@ == app_json(d@),
{
    let mut fields: Vec<(String, Json)> = Vec::new();
    push_member(&mut fields, "appid", Json::text(d.id.as_str()));
    push_member(&mut fields, "status", Json::text("ok"));
    push_member(&mut fields, "updatecheck", update_check_to_json(d));
    let j = Json::object(fields);
    assert(j@->Object_0 =~= app_json(d@)->Object_0);
    j
}

/// The day-start object of a response.
pub fn daystart_to_json(days: u64, seconds: u32) -> (j: Json)
    ensures
        j@ == daystart_json(days, seconds),
{
    let mut fields: Vec<(String, Json)> = Vec::new();
    push_member(&mut fields, "elapsed_seconds", Json::Unsigned(seconds as u64));
    push_member(&mut fields, "elapsed_days", Json::Unsigned(days));
    let j = Json::object(fields);
    assert(j@->Object_0 =~= daystart_json(days, seconds)->Object_0);
    j
}

/// Whether `k` is the first decision that no response can be built for.
pub open spec fn first_unbuildable(decisions: Seq<UpdateDecisionView>, k: int) -> bool {
    &&& 0 <= k < decisions.len()
    &&& !buildable(decisions[k])
    &&& forall|j: int| 0 <= j < k ==> buildable(#[trigger] decisions[j])
}

pub open spec fn all_buildable(decisions: Seq<UpdateDecisionView>) -> bool {
    forall|j: int| 0 <= j < decisions.len() ==> buildable(#[trigger] decisions[j])
}

/// The decisions of one update check, to be written as a 4.0 response.
pub struct UpdateResponse(pub Vec<UpdateDecision>);

impl UpdateResponse {
    /// The response as a JSON document, with the given day start. It fails
    /// as a whole on the first decision that cannot be built.
    pub fn to_document(&self, days: u64, seconds: u32) -> (r: Result<Json, BuildError>)
        ensures
            match r {
                Ok(document) => all_buildable(decisions_view(self.0@)) && document@
                    == response_json(decisions_view(self.0@), days, seconds),
                Err(e) => exists|k: int|
                    first_unbuildable(decisions_view(self.0@), k) && e@ == BuildErrorView::EmptyHash(
                        (#[trigger] decisions_view(self.0@)[k]).id,
                    ),
            },
    {
        let ghost views = decisions_view(self.0@);
        let ghost target = views.map_values(|d: UpdateDecisionView| app_json(d));
        let mut apps: Vec<Json> = Vec::new();
        let mut i: usize = 0;
        assert(items_view(apps@) =~= target.take(0));
        while i < self.0.len()
            invariant
                i <= self.0@.len(),
                views == decisions_view(self.0@),
                target == views.map_values(|d: UpdateDecisionView| app_json(d)),
                items_view(apps@) == target.take(i as int),
                forall|j: int| 0 <= j < i ==> buildable(#[trigger] views[j]),
            decreases self.0@.len() - i,
        {
            let d = &self.0[i];
            assert(views[i as int] == d@);
            let with_diff = match d.outcome {
                Outcome::Update => match &d.diff {
                    Some(patch) => !is_blank(patch.hashdiff.as_str()),
                    None => false,
                },
                Outcome::NoUpdate => false,
            };
            if is_blank(d.target_hash.as_str()) || (with_diff && is_blank(
                d.client_fingerprint.as_str(),
            )) {
                assert(first_unbuildable(views, i as int));
                return Err(BuildError::EmptyHash(d.id.clone()));
            }
            push_item(&mut apps, app_to_json(d));
            assert(target.take(i + 1) =~= target.take(i as int).push(target[i as int]));
            i += 1;
        }
        assert(target.take(i as int) =~= target);
        let mut inner: Vec<(String, Json)> = Vec::new();
        push_member(&mut inner, "protocol", Json::text("4.0"));
        push_member(&mut inner, "daystart", daystart_to_json(days, seconds));
        push_member(&mut inner, "apps", Json::array(apps));
        let mut outer: Vec<(String, Json)> = Vec::new();
        let response = Json::object(inner);
        assert(response@->Object_0 =~= response_json(views, days, seconds)->Object_0[0].1->Object_0);
        push_member(&mut outer, "response", response);
        let document = Json::object(outer);
        assert(document@->Object_0 =~= response_json(views, days, seconds)->Object_0);
        Ok(document)
    }

    /// The response as JSON text, with the given day start.
    pub fn to_json_at(&self, days: u64, seconds: u32) -> (r: Result<Vec<u8>, BuildError>)
        ensures
            match r {
                Ok(bytes) => all_buildable(decisions_view(self.0@)) && bytes@ == rendered(
                    response_json(decisions_view(self.0@), days, seconds),
                ),
                Err(e) => exists|k: int|
                    first_unbuildable(decisions_view(self.0@), k) && e@ == BuildErrorView::EmptyHash(
                        (#[trigger] decisions_view(self.0@)[k]).id,
                    ),
            },
    {
        match self.to_document(days, seconds) {
            Ok(document) => Ok(render(&document)),
            Err(e) => Err(e),
        }
    }

    /// The response as JSON text, with the day start of the present.
    pub fn to_json(&self) -> (r: Result<Vec<u8>, BuildError>)
        ensures
            match r {
                Ok(bytes) => all_buildable(decisions_view(self.0@)) && exists|now: i64|
                    bytes@ == rendered(
                        response_json(
                            decisions_view(self.0@),
                            elapsed_days(now),
                            elapsed_seconds(now),
                        ),
                    ),
                Err(e) => exists|k: int|
                    first_unbuildable(decisions_view(self.0@), k) && e@ == BuildErrorView::EmptyHash(
                        (#[trigger] decisions_view(self.0@)[k]).id,
                    ),
            },
    {
        let (days, seconds) = get_daystart();
        self.to_json_at(days, seconds)
    }
}

} // verus!
