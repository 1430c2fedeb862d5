//! The 3.x responses: one manifest with one package for each update, in
//! JSON or XML, and the shorter web store form.

use crate::error::{BuildError, BuildErrorView};
use crate::json::{
    fields_view, items_view, push_item, push_member, render, rendered, Json, JsonView,
};
use crate::omaha::v4::response::{offers_diff, package_file, update_status, with_optional};
use crate::text::{decimal_text, is_blank, push_decimal_text, replace_char};
use crate::update2::model::{decisions_view, Outcome, UpdateDecision, UpdateDecisionView};
use crate::xml::{attribute_text, push_attribute};
use vstd::prelude::*;

verus! {

pub open spec fn bucket_host(id: Seq<char>) -> Seq<char> {
    "your-bucket.amazonaws.com"@
}

/// The host that serves the packages of an extension.
pub fn get_s3_extension_bucket_host(id: &str) -> (host: &'static str)
    ensures
        host@ == bucket_host(id@),
{
    "your-bucket.amazonaws.com"
}

/// The status word of a decision.
pub fn get_update_status(ext: &UpdateDecision) -> (status: &'static str)
    ensures
        status@ == update_status(ext@),
{
    match ext.outcome {
        Outcome::NoUpdate => "noupdate",
        Outcome::Update => "ok",
    }
}

/// Where the full package of a decision's target is served.
pub open spec fn package_url(d: UpdateDecisionView) -> Seq<char> {
    "https://"@ + bucket_host(d.id) + "/release/"@ + d.id + "/"@ + package_file(d.target_version)
}

/// Where the deltas that lead to a decision's target are served.
pub open spec fn diff_url(d: UpdateDecisionView) -> Seq<char> {
    "https://"@ + bucket_host(d.id) + "/release/"@ + d.id + "/patches/"@ + d.target_hash + "/"@
}

/// Whether `k` is the first decision whose target has no hash.
pub open spec fn first_without_hash(decisions: Seq<UpdateDecisionView>, k: int) -> bool {
    &&& 0 <= k < decisions.len()
    &&& decisions[k].target_hash.len() == 0
    &&& forall|j: int| 0 <= j < k ==> (#[trigger] decisions[j]).target_hash.len() > 0
}

pub open spec fn all_hashed(decisions: Seq<UpdateDecisionView>) -> bool {
    forall|j: int| 0 <= j < decisions.len() ==> (#[trigger] decisions[j]).target_hash.len() > 0
}

/// What a failed build reports: the id of the first decision without a hash.
pub open spec fn reports_first_without_hash(
    decisions: Seq<UpdateDecisionView>,
    e: BuildErrorView,
) -> bool {
    exists|k: int|
        first_without_hash(decisions, k) && e == BuildErrorView::EmptyHash(
            (#[trigger] decisions[k]).id,
        )
}

/// Checks that every decision names the hash of its target.
pub fn check_hashes(exts: &[UpdateDecision]) -> (r: Result<(), BuildError>)
    ensures
        match r {
            Ok(_) => all_hashed(decisions_view(exts@)),
            Err(e) => reports_first_without_hash(decisions_view(exts@), e@),
        },
{
    let ghost views = decisions_view(exts@);
    let mut i: usize = 0;
    while i < exts.len()
        invariant
            i <= exts@.len(),
            views == decisions_view(exts@),
            forall|j: int| 0 <= j < i ==> (#[trigger] views[j]).target_hash.len() > 0,
        decreases exts@.len() - i,
    {
        assert(views[i as int] == exts@[i as int]@);
        if is_blank(exts[i].target_hash.as_str()) {
            assert(first_without_hash(views, i as int));
            return Err(BuildError::EmptyHash(exts[i].id.clone()));
        }
        i += 1;
    }
    Ok(())
}

fn package_name(version: &str) -> (name: String)
    ensures
        name@ == package_file(version@),
{
    let flat = replace_char(version, '.', '_');
    let mut name = "extension_".to_owned();
    name.append(flat.as_str());
    name.append(".crx");
    name
}

fn release_prefix(d: &UpdateDecision) -> (url: String)
    ensures
        url@ == "https://"@ + bucket_host(d@.id) + "/release/"@ + d@.id,
{
    let mut url = "https://".to_owned();
    url.append(get_s3_extension_bucket_host(d.id.as_str()));
    url.append("/release/");
    url.append(d.id.as_str());
    url
}

fn url_of_package(d: &UpdateDecision) -> (url: String)
    ensures
        url@ == package_url(d@),
{
    let mut url = release_prefix(d);
    url.append("/");
    let name = package_name(d.target_version.as_str());
    url.append(name.as_str());
    assert(url@ =~= package_url(d@));
    url
}

fn url_of_diff(d: &UpdateDecision) -> (url: String)
    ensures
        url@ == diff_url(d@),
{
    let mut url = release_prefix(d);
    url.append("/patches/");
    url.append(d.target_hash.as_str());
    url.append("/");
    assert(url@ =~= diff_url(d@));
    url
}

fn has_diff(d: &UpdateDecision) -> (yes: bool)
    ensures
        yes == offers_diff(d@),
{
    match d.outcome {
        Outcome::Update => match &d.diff {
            Some(patch) => !is_blank(patch.hashdiff.as_str()),
            None => false,
        },
        Outcome::NoUpdate => false,
    }
}

pub open spec fn single(key: Seq<char>, value: JsonView) -> JsonView {
    JsonView::Object(seq![(key, value)])
}

fn single_member(key: &str, value: Json) -> (j: Json)
    ensures
        j@ == single(key@, value@),
{
    let mut fields: Vec<(String, Json)> = Vec::new();
    push_member(&mut fields, key, value);
    let j = Json::object(fields);
    assert(j@->Object_0 =~= single(key@, value@)->Object_0);
    j
}

/// The download locations of an update: the full package, and after it the
/// place of the delta where one is offered.
pub open spec fn urls_json(d: UpdateDecisionView) -> JsonView {
    let full = seq![single("codebase"@, JsonView::Text(package_url(d)))];
    single(
        "url"@,
        JsonView::Array(
            if offers_diff(d) {
                full.push(single("codebasediff"@, JsonView::Text(diff_url(d))))
            } else {
                full
            },
        ),
    )
}

/// The one package of an update; the name, hash and size of the delta stand
/// beside it where a delta is offered.
pub open spec fn package_json(d: UpdateDecisionView) -> JsonView {
    let f0 = seq![("name"@, JsonView::Text(package_file(d.target_version)))];
    let f1 = with_optional(
        f0,
        "namediff"@,
        if offers_diff(d) {
            Some(JsonView::Text(d.diff->0.namediff))
        } else {
            None
        },
    );
    let f2 = with_optional(
        f1,
        "sizediff"@,
        if offers_diff(d) {
            Some(JsonView::Unsigned(d.diff->0.sizediff))
        } else {
            None
        },
    );
    let f3 = f2.push(("fp"@, JsonView::Text(d.target_hash))).push(
        ("hash_sha256"@, JsonView::Text(d.target_hash)),
    );
    let f4 = with_optional(
        f3,
        "hashdiff_sha256"@,
        if offers_diff(d) {
            Some(JsonView::Text(d.diff->0.hashdiff))
        } else {
            None
        },
    );
    JsonView::Object(f4.push(("required"@, JsonView::Bool(true))))
}

pub open spec fn manifest_json(d: UpdateDecisionView) -> JsonView {
    JsonView::Object(
        seq![
            ("version"@, JsonView::Text(d.target_version)),
            ("packages"@, single("package"@, JsonView::Array(seq![package_json(d)]))),
        ],
    )
}

/// The update check of one app: without an update the status alone, with one
/// the download locations and the manifest too.
pub open spec fn update_check_json(d: UpdateDecisionView) -> JsonView {
    match d.outcome {
        Outcome::NoUpdate => single("status"@, JsonView::Text("noupdate"@)),
        Outcome::Update => JsonView::Object(
            seq![
                ("status"@, JsonView::Text("ok"@)),
                ("urls"@, urls_json(d)),
                ("manifest"@, manifest_json(d)),
            ],
        ),
    }
}

pub open spec fn app_json(d: UpdateDecisionView) -> JsonView {
    JsonView::Object(
        seq![
            ("appid"@, JsonView::Text(d.id)),
            ("status"@, JsonView::Text("ok"@)),
            ("updatecheck"@, update_check_json(d)),
        ],
    )
}

/// A 3.x response with one app for each decision, in their order.
pub open spec fn response_json(decisions: Seq<UpdateDecisionView>) -> JsonView {
    single(
        "response"@,
        JsonView::Object(
            seq![
                ("protocol"@, JsonView::Text("3.1"@)),
                ("server"@, JsonView::Text("prod"@)),
                ("app"@, JsonView::Array(decisions.map_values(|d: UpdateDecisionView| app_json(d)))),
            ],
        ),
    )
}

fn urls_to_json(d: &UpdateDecision) -> (j: Json)
    ensures
        j@ == urls_json(d@),
{
    let mut items: Vec<Json> = Vec::new();
    let full = url_of_package(d);
    push_item(&mut items, single_member("codebase", Json::text(full.as_str())));
    if has_diff(d) {
        let diff = url_of_diff(d);
        push_item(&mut items, single_member("codebasediff", Json::text(diff.as_str())));
    }
    let list = Json::array(items);
    assert(list@->Array_0 =~= urls_json(d@)->Object_0[0].1->Array_0);
    single_member("url", list)
}

fn package_to_json(d: &UpdateDecision) -> (j: Json)
    ensures
        j@ == package_json(d@),
{
    let with_diff = has_diff(d);
    let mut fields: Vec<(String, Json)> = Vec::new();
    let name = package_name(d.target_version.as_str());
    push_member(&mut fields, "name", Json::text(name.as_str()));
    assert(fields_view(fields@) =~= seq![("name"@, JsonView::Text(package_file(d@.target_version)))]);
    match &d.diff {
        Some(patch) => {
            if with_diff {
                push_member(&mut fields, "namediff", Json::text(patch.namediff.as_str()));
                push_member(&mut fields, "sizediff", Json::Unsigned(patch.sizediff));
            }
        },
        None => {},
    }
    push_member(&mut fields, "fp", Json::text(d.target_hash.as_str()));
    push_member(&mut fields, "hash_sha256", Json::text(d.target_hash.as_str()));
    match &d.diff {
        Some(patch) => {
            if with_diff {
                push_member(&mut fields, "hashdiff_sha256", Json::text(patch.hashdiff.as_str()));
            }
        },
        None => {},
    }
    push_member(&mut fields, "required", Json::Bool(true));
    Json::object(fields)
}

fn manifest_to_json(d: &UpdateDecision) -> (j: Json)
    ensures
        j@ == manifest_json(d@),
{
    let mut packages: Vec<Json> = Vec::new();
    push_item(&mut packages, package_to_json(d));
    let list = Json::array(packages);
    assert(list@->Array_0 =~= seq![package_json(d@)]);
    let mut fields: Vec<(String, Json)> = Vec::new();
    push_member(&mut fields, "version", Json::text(d.target_version.as_str()));
    push_member(&mut fields, "packages", single_member("package", list));
    let j = Json::object(fields);
    assert(j@->Object_0 =~= manifest_json(d@)->Object_0);
    j
}

fn update_check_to_json(d: &UpdateDecision) -> (j: Json)
    ensures
        j@ == update_check_json(d@),
{
    match d.outcome {
        Outcome::NoUpdate => single_member("status", Json::text("noupdate")),
        Outcome::Update => {
            let mut fields: Vec<(String, Json)> = Vec::new();
            push_member(&mut fields, "status", Json::text("ok"));
            push_member(&mut fields, "urls", urls_to_json(d));
            push_member(&mut fields, "manifest", manifest_to_json(d));
            let j = Json::object(fields);
            assert(j@->Object_0 =~= update_check_json(d@)->Object_0);
            j
        },
    }
}

fn app_to_json(d: &UpdateDecision) -> (j: Json)
    ensures
        j@ == app_json(d@),
{
    let mut fields: Vec<(String, Json)> = Vec::new();
    push_member(&mut fields, "appid", Json::text(d.id.as_str()));
    push_member(&mut fields, "status", Json::text("ok"));
    push_member(&mut fields, "updatecheck", update_check_to_json(d));
    let j = Json::object(fields);
    assert(j@->Object_0 =~= app_json(d@)->Object_0);
    j
}

/// Writes the update response of protocol 3.1 as JSON. It fails as a whole
/// where a decision names no hash for its target.
pub fn marshal_update_response_json(exts: &[UpdateDecision]) -> (r: Result<Vec<u8>, BuildError>)
    ensures
        match r {
            Ok(bytes) => all_hashed(decisions_view(exts@)) && bytes@ == rendered(
                response_json(decisions_view(exts@)),
            ),
            Err(e) => reports_first_without_hash(decisions_view(exts@), e@),
        },
{
    match check_hashes(exts) {
        Ok(_) => {},
        Err(e) => {
            return Err(e);
        },
    }
    let ghost views = decisions_view(exts@);
    let ghost target = views.map_values(|d: UpdateDecisionView| app_json(d));
    let mut apps: Vec<Json> = Vec::new();
    let mut i: usize = 0;
    assert(items_view(apps@) =~= target.take(0));
    while i < exts.len()
        invariant
            i <= exts@.len(),
            views == decisions_view(exts@),
            target == views.map_values(|d: UpdateDecisionView| app_json(d)),
            items_view(apps@) == target.take(i as int),
        decreases exts@.len() - i,
    {
        assert(views[i as int] == exts@[i as int]@);
        push_item(&mut apps, app_to_json(&exts[i]));
        assert(target.take(i + 1) =~= target.take(i as int).push(target[i as int]));
        i += 1;
    }
    assert(target.take(i as int) =~= target);
    let mut inner: Vec<(String, Json)> = Vec::new();
    push_member(&mut inner, "protocol", Json::text("3.1"));
    push_member(&mut inner, "server", Json::text("prod"));
    push_member(&mut inner, "app", Json::array(apps));
    let response = Json::object(inner);
    assert(response@->Object_0 =~= response_json(views)->Object_0[0].1->Object_0);
    let document = single_member("response", response);
    Ok(render(&document))
}

/// The package of an update as an XML element; the name, hash and size of
/// the delta stand beside it where a delta is offered.
pub open spec fn package_xml(d: UpdateDecisionView) -> Seq<char> {
    "<package"@ + attribute_text("name"@, package_file(d.target_version)) + attribute_text(
        "hash_sha256"@,
        d.target_hash,
    ) + attribute_text("required"@, "true"@) + (if offers_diff(d) {
        attribute_text("namediff"@, d.diff->0.namediff) + attribute_text(
            "hashdiff_sha256"@,
            d.diff->0.hashdiff,
        ) + attribute_text("sizediff"@, decimal_text(d.diff->0.sizediff as nat))
    } else {
        Seq::empty()
    }) + "/>"@
}

/// The download locations of an update as an XML element.
pub open spec fn urls_xml(d: UpdateDecisionView) -> Seq<char> {
    "<urls><url"@ + attribute_text("codebase"@, package_url(d)) + "/>"@ + (if offers_diff(d) {
        "<url"@ + attribute_text("codebasediff"@, diff_url(d)) + "/>"@
    } else {
        Seq::empty()
    }) + "</urls>"@
}

/// One app of an XML update response.
pub open spec fn app_xml(d: UpdateDecisionView) -> Seq<char> {
    "<app"@ + attribute_text("appid"@, d.id) + "><updatecheck"@ + attribute_text(
        "status"@,
        update_status(d),
    ) + (match d.outcome {
        Outcome::NoUpdate => "/>"@,
        Outcome::Update => ">"@ + urls_xml(d) + "<manifest"@ + attribute_text(
            "version"@,
            d.target_version,
        ) + "><packages>"@ + package_xml(d) + "</packages></manifest></updatecheck>"@,
    }) + "</app>"@
}

/// The first `n` apps of an XML update response, one after the other.
pub open spec fn apps_xml(decisions: Seq<UpdateDecisionView>, n: nat) -> Seq<char>
    decreases n,
{
    if n == 0 || n > decisions.len() {
        Seq::empty()
    } else {
        apps_xml(decisions, (n - 1) as nat) + app_xml(decisions[n - 1])
    }
}

/// A 3.x update response in XML.
pub open spec fn response_xml(decisions: Seq<UpdateDecisionView>) -> Seq<char> {
    "<response protocol=\"3.1\" server=\"prod\">"@ + apps_xml(decisions, decisions.len())
        + "</response>"@
}

fn push_package_xml(out: &mut String, d: &UpdateDecision)
    ensures
        final(out)@ == old(out)@ + package_xml(d@),
{
    let with_diff = has_diff(d);
    out.append("<package");
    let name = package_name(d.target_version.as_str());
    push_attribute(out, "name", name.as_str());
    push_attribute(out, "hash_sha256", d.target_hash.as_str());
    push_attribute(out, "required", "true");
    match &d.diff {
        Some(patch) => {
            if with_diff {
                push_attribute(out, "namediff", patch.namediff.as_str());
                push_attribute(out, "hashdiff_sha256", patch.hashdiff.as_str());
                let mut size = String::new();
                push_decimal_text(&mut size, patch.sizediff);
                assert(size@ =~= decimal_text(patch.sizediff as nat));
                push_attribute(out, "sizediff", size.as_str());
            }
        },
        None => {},
    }
    out.append("/>");
    assert(out@ =~= old(out)@ + package_xml(d@));
}

fn push_urls_xml(out: &mut String, d: &UpdateDecision)
    ensures
        final(out)@ == old(out)@ + urls_xml(d@),
{
    out.append("<urls><url");
    let full = url_of_package(d);
    push_attribute(out, "codebase", full.as_str());
    out.append("/>");
    if has_diff(d) {
        out.append("<url");
        let diff = url_of_diff(d);
        push_attribute(out, "codebasediff", diff.as_str());
        out.append("/>");
    }
    out.append("</urls>");
    assert(out@ =~= old(out)@ + urls_xml(d@));
}

fn push_app_xml(out: &mut String, d: &UpdateDecision)
    ensures
        final(out)@ == old(out)@ + app_xml(d@),
{
    out.append("<app");
    push_attribute(out, "appid", d.id.as_str());
    out.append("><updatecheck");
    push_attribute(out, "status", get_update_status(d));
    let ghost head = out@;
    assert(head =~= old(out)@ + ("<app"@ + attribute_text("appid"@, d@.id) + "><updatecheck"@
        + attribute_text("status"@, update_status(d@))));
    match d.outcome {
        Outcome::NoUpdate => {
            out.append("/>");
        },
        Outcome::Update => {
            out.append(">");
            push_urls_xml(out, d);
            out.append("<manifest");
            push_attribute(out, "version", d.target_version.as_str());
            out.append("><packages>");
            push_package_xml(out, d);
            out.append("</packages></manifest></updatecheck>");
            assert(out@ =~= head + (">"@ + urls_xml(d@) + "<manifest"@ + attribute_text(
                "version"@,
                d@.target_version,
            ) + "><packages>"@ + package_xml(d@) + "</packages></manifest></updatecheck>"@));
        },
    }
    out.append("</app>");
    assert(out@ =~= old(out)@ + app_xml(d@));
}

/// Writes the update response of protocol 3.1 as XML. It fails as a whole
/// where a decision names no hash for its target.
pub fn marshal_update_response_xml(exts: &[UpdateDecision]) -> (r: Result<String, BuildError>)
    ensures
        match r {
            Ok(text) => all_hashed(decisions_view(exts@)) && text@ == response_xml(
                decisions_view(exts@),
            ),
            Err(e) => reports_first_without_hash(decisions_view(exts@), e@),
        },
{
    match check_hashes(exts) {
        Ok(_) => {},
        Err(e) => {
            return Err(e);
        },
    }
    let ghost views = decisions_view(exts@);
    let mut out = "<response protocol=\"3.1\" server=\"prod\">".to_owned();
    let ghost head = out@;
    let mut i: usize = 0;
    assert(out@ =~= head + apps_xml(views, 0));
    while i < exts.len()
        invariant
            i <= exts@.len(),
            views == decisions_view(exts@),
            out@ == head + apps_xml(views, i as nat),
        decreases exts@.len() - i,
    {
        assert(views[i as int] == exts@[i as int]@);
        push_app_xml(&mut out, &exts[i]);
        assert(out@ =~= head + apps_xml(views, (i + 1) as nat));
        i += 1;
    }
    out.append("</response>");
    Ok(out)
}

/// One app of a web store response in JSON: always served as an update.
pub open spec fn store_app_json(d: UpdateDecisionView) -> JsonView {
    JsonView::Object(
        seq![
            ("appid"@, JsonView::Text(d.id)),
            ("status"@, JsonView::Text("ok"@)),
            (
                "updatecheck"@,
                JsonView::Object(
                    seq![
                        ("status"@, JsonView::Text("ok"@)),
                        ("codebase"@, JsonView::Text(package_url(d))),
                        ("version"@, JsonView::Text(d.target_version)),
                        ("hash_sha256"@, JsonView::Text(d.target_hash)),
                    ],
                ),
            ),
        ],
    )
}

/// A web store response in JSON.
pub open spec fn store_response_json(decisions: Seq<UpdateDecisionView>) -> JsonView {
    single(
        "gupdate"@,
        JsonView::Object(
            seq![
                ("protocol"@, JsonView::Text("3.1"@)),
                ("server"@, JsonView::Text("prod"@)),
                (
                    "app"@,
                    JsonView::Array(decisions.map_values(|d: UpdateDecisionView| store_app_json(d))),
                ),
            ],
        ),
    )
}

fn store_app_to_json(d: &UpdateDecision) -> (j: Json)
    ensures
        j@ == store_app_json(d@),
{
    let url = url_of_package(d);
    let mut check: Vec<(String, Json)> = Vec::new();
    push_member(&mut check, "status", Json::text("ok"));
    push_member(&mut check, "codebase", Json::text(url.as_str()));
    push_member(&mut check, "version", Json::text(d.target_version.as_str()));
    push_member(&mut check, "hash_sha256", Json::text(d.target_hash.as_str()));
    let update_check = Json::object(check);
    assert(update_check@->Object_0 =~= store_app_json(d@)->Object_0[2].1->Object_0);
    let mut fields: Vec<(String, Json)> = Vec::new();
    push_member(&mut fields, "appid", Json::text(d.id.as_str()));
    push_member(&mut fields, "status", Json::text("ok"));
    push_member(&mut fields, "updatecheck", update_check);
    let j = Json::object(fields);
    assert(j@->Object_0 =~= store_app_json(d@)->Object_0);
    j
}

/// Writes the web store response as JSON. It fails as a whole where a
/// decision names no hash for its target.
pub fn marshal_webstore_response_json(exts: &[UpdateDecision]) -> (r: Result<Vec<u8>, BuildError>)
    ensures
        match r {
            Ok(bytes) => all_hashed(decisions_view(exts@)) && bytes@ == rendered(
                store_response_json(decisions_view(exts@)),
            ),
            Err(e) => reports_first_without_hash(decisions_view(exts@), e@),
        },
{
    match check_hashes(exts) {
        Ok(_) => {},
        Err(e) => {
            return Err(e);
        },
    }
    let ghost views = decisions_view(exts@);
    let ghost target = views.map_values(|d: UpdateDecisionView| store_app_json(d));
    let mut apps: Vec<Json> = Vec::new();
    let mut i: usize = 0;
    assert(items_view(apps@) =~= target.take(0));
    while i < exts.len()
        invariant
            i <= exts@.len(),
            views == decisions_view(exts@),
            target == views.map_values(|d: UpdateDecisionView| store_app_json(d)),
            items_view(apps@) == target.take(i as int),
        decreases exts@.len() - i,
    {
        assert(views[i as int] == exts@[i as int]@);
        push_item(&mut apps, store_app_to_json(&exts[i]));
        assert(target.take(i + 1) =~= target.take(i as int).push(target[i as int]));
        i += 1;
    }
    assert(target.take(i as int) =~= target);
    let mut inner: Vec<(String, Json)> = Vec::new();
    push_member(&mut inner, "protocol", Json::text("3.1"));
    push_member(&mut inner, "server", Json::text("prod"));
    push_member(&mut inner, "app", Json::array(apps));
    let response = Json::object(inner);
    assert(response@->Object_0 =~= store_response_json(views)->Object_0[0].1->Object_0);
    let document = single_member("gupdate", response);
    Ok(render(&document))
}

/// One app of a web store response in XML.
pub open spec fn store_app_xml(d: UpdateDecisionView) -> Seq<char> {
    "<app"@ + attribute_text("appid"@, d.id) + attribute_text("status"@, "ok"@)
        + "><updatecheck"@ + attribute_text("status"@, "ok"@) + attribute_text(
        "codebase"@,
        package_url(d),
    ) + attribute_text("version"@, d.target_version) + attribute_text(
        "hash_sha256"@,
        d.target_hash,
    ) + "/></app>"@
}

/// The first `n` apps of a web store response in XML.
pub open spec fn store_apps_xml(decisions: Seq<UpdateDecisionView>, n: nat) -> Seq<char>
    decreases n,
{
    if n == 0 || n > decisions.len() {
        Seq::empty()
    } else {
        store_apps_xml(decisions, (n - 1) as nat) + store_app_xml(decisions[n - 1])
    }
}

/// A web store response in XML.
pub open spec fn store_response_xml(decisions: Seq<UpdateDecisionView>) -> Seq<char> {
    "<gupdate protocol=\"3.1\" server=\"prod\">"@ + store_apps_xml(decisions, decisions.len())
        + "</gupdate>"@
}

fn push_store_app_xml(out: &mut String, d: &UpdateDecision)
    ensures
        final(out)@ == old(out)@ + store_app_xml(d@),
{
    let url = url_of_package(d);
    out.append("<app");
    push_attribute(out, "appid", d.id.as_str());
    push_attribute(out, "status", "ok");
    out.append("><updatecheck");
    push_attribute(out, "status", "ok");
    push_attribute(out, "codebase", url.as_str());
    push_attribute(out, "version", d.target_version.as_str());
    push_attribute(out, "hash_sha256", d.target_hash.as_str());
    out.append("/></app>");
    assert(out@ =~= old(out)@ + store_app_xml(d@));
}

/// Writes the web store response as XML. It fails as a whole where a
/// decision names no hash for its target.
pub fn marshal_webstore_response_xml(exts: &[UpdateDecision]) -> (r: Result<String, BuildError>)
    ensures
        match r {
            Ok(text) => all_hashed(decisions_view(exts@)) && text@ == store_response_xml(
                decisions_view(exts@),
            ),
            Err(e) => reports_first_without_hash(decisions_view(exts@), e@),
        },
{
    match check_hashes(exts) {
        Ok(_) => {},
        Err(e) => {
            return Err(e);
        },
    }
    let ghost views = decisions_view(exts@);
    let mut out = "<gupdate protocol=\"3.1\" server=\"prod\">".to_owned();
    let ghost head = out@;
    let mut i: usize = 0;
    assert(out@ =~= head + store_apps_xml(views, 0));
    while i < exts.len()
        invariant
            i <= exts@.len(),
            views == decisions_view(exts@),
            out@ == head + store_apps_xml(views, i as nat),
        decreases exts@.len() - i,
    {
        assert(views[i as int] == exts@[i as int]@);
        push_store_app_xml(&mut out, &exts[i]);
        assert(out@ =~= head + store_apps_xml(views, (i + 1) as nat));
        i += 1;
    }
    out.append("</gupdate>");
    Ok(out)
}

} // verus!
