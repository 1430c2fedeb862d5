//! Reading apps and their ids out of JSON documents, as the importer and
//! the plain listing of records need them.

use crate::error::{ParseError, ParseErrorView};
use crate::json::{items_view, json_decoded, parse_json, Json, JsonView};
use crate::omaha::v3::request::{text_member, text_of};
use crate::text::{decimal_text, push_decimal_text, texts_view};
use crate::update2::loader::{AttributeValue, AttributeValueView, Item};
use crate::update2::model::{
    App,
    AppView,
    CodeBase,
    Extension,
    ExtensionView,
    Manifest,
    ManifestView,
    Package,
    PackageView,
    Packages,
    Status,
    Timestamp,
    UpdateCheck,
    UpdateCheckView,
    Urls,
};
use vstd::prelude::*;

verus! {

/// The ids of a list of apps, in their order; an app without an `appid`
/// that is a string is passed over.
pub open spec fn appids(apps: Seq<JsonView>) -> Seq<Seq<char>>
    decreases apps.len(),
{
    if apps.len() == 0 {
        Seq::empty()
    } else {
        let before = appids(apps.drop_last());
        match text_member(apps.last(), "appid"@) {
            Some(id) => before.push(id),
            None => before,
        }
    }
}

/// The ids that a request names in `request.app`; none where that is no
/// array.
pub open spec fn requested_ids(root: JsonView) -> Seq<Seq<char>> {
    match root.member("request"@) {
        Some(request) => match request.member("app"@) {
            Some(list) => match list.items() {
                Some(apps) => appids(apps),
                None => Seq::empty(),
            },
            None => Seq::empty(),
        },
        None => Seq::empty(),
    }
}

/// The ids of the apps that a request names.
pub fn extract_appids(json: &Json) -> (ids: Vec<String>)
    ensures
        texts_view(ids@) == requested_ids(json@),
{
    let mut ids: Vec<String> = Vec::new();
    assert(texts_view(ids@) =~= Seq::empty());
    let request = match json.get("request") {
        Some(request) => request,
        None => {
            return ids;
        },
    };
    let list = match request.get("app") {
        Some(list) => list,
        None => {
            return ids;
        },
    };
    let apps = match list.as_array() {
        Some(apps) => apps,
        None => {
            return ids;
        },
    };
    let ghost views = items_view(apps@);
    let mut i: usize = 0;
    assert(views.take(0) =~= Seq::empty());
    while i < apps.len()
        invariant
            i <= apps@.len(),
            views == items_view(apps@),
            texts_view(ids@) == appids(views.take(i as int)),
        decreases apps@.len() - i,
    {
        let ghost before = texts_view(ids@);
        proof {
            assert(views.take(i + 1).drop_last() =~= views.take(i as int));
            assert(views.take(i + 1).last() == apps@[i as int]@);
        }
        match text_of(&apps[i], "appid") {
            Some(id) => {
                ids.push(id);
                assert(texts_view(ids@) =~= before.push(id@));
            },
            None => {},
        }
        i += 1;
    }
    assert(views.take(i as int) =~= views);
    ids
}

/// The member `key` of the member `outer`.
pub open spec fn nested(j: JsonView, outer: Seq<char>, key: Seq<char>) -> Option<JsonView> {
    match j.member(outer) {
        Some(inner) => inner.member(key),
        None => None,
    }
}

/// A package, where all its fields are there with their types.
pub open spec fn package_from(j: JsonView) -> Option<PackageView> {
    match (
        text_member(j, "hash_sha256"@),
        j.member("size"@),
        text_member(j, "name"@),
        text_member(j, "fp"@),
        j.member("required"@),
        text_member(j, "hash"@),
    ) {
        (
            Some(hash_sha256),
            Some(JsonView::Unsigned(size)),
            Some(name),
            Some(fp),
            Some(JsonView::Bool(required)),
            Some(hash),
        ) => Some(PackageView { hash_sha256, size, name, fp, required, hash }),
        _ => None,
    }
}

/// The packages that can be read from a list, in their order.
pub open spec fn packages_from(list: Seq<JsonView>) -> Seq<PackageView>
    decreases list.len(),
{
    if list.len() == 0 {
        Seq::empty()
    } else {
        let before = packages_from(list.drop_last());
        match package_from(list.last()) {
            Some(p) => before.push(p),
            None => before,
        }
    }
}

/// The codebases that can be read from a list of URLs, in their order.
pub open spec fn codebases_from(list: Seq<JsonView>) -> Seq<Seq<char>>
    decreases list.len(),
{
    if list.len() == 0 {
        Seq::empty()
    } else {
        let before = codebases_from(list.drop_last());
        match text_member(list.last(), "codebase"@) {
            Some(c) => before.push(c),
            None => before,
        }
    }
}

/// The update check of an app with its manifest.
pub open spec fn checked_from(updatecheck: JsonView) -> Option<(UpdateCheckView, ManifestView)> {
    match (
        updatecheck.member("manifest"@),
        text_member(updatecheck, "status"@),
        nested(updatecheck, "urls"@, "url"@),
    ) {
        (Some(manifest), Some(status), Some(JsonView::Array(urls))) => match nested(
            manifest,
            "packages"@,
            "package"@,
        ) {
            Some(JsonView::Array(packages)) => Some(
                (
                    UpdateCheckView { status, urls: codebases_from(urls) },
                    ManifestView {
                        version: match text_member(manifest, "version"@) {
                            Some(v) => v,
                            None => "0.0.0"@,
                        },
                        packages: packages_from(packages),
                    },
                ),
            ),
            _ => None,
        },
        _ => None,
    }
}

/// The app that a JSON value describes: every part of it must be there,
/// but for the version of the manifest, which counts as 0.0.0 where it is
/// missing, and for packages and URLs that cannot be read, which are left out.
pub open spec fn app_from(value: JsonView) -> Option<AppView> {
    match (
        nested(value, "ping"@, "status"@),
        value.member("updatecheck"@),
        text_member(value, "appid"@),
        text_member(value, "cohort"@),
        text_member(value, "status"@),
        text_member(value, "cohortname"@),
    ) {
        (
            Some(JsonView::Text(ping)),
            Some(updatecheck),
            Some(appid),
            Some(cohort),
            Some(status),
            Some(cohortname),
        ) => match checked_from(updatecheck) {
            Some((check, manifest)) => Some(
                AppView {
                    appid,
                    cohort: Some(cohort),
                    status,
                    cohortname: Some(cohortname),
                    ping: Some(ping),
                    updatecheck: Some(check),
                    manifest: Some(manifest),
                },
            ),
            None => None,
        },
        _ => None,
    }
}

fn nested_of<'a>(j: &'a Json, outer: &str, key: &str) -> (found: Option<&'a Json>)
    ensures
        match found {
            Some(v) => nested(j@, outer@, key@) == Some(v@),
            None => nested(j@, outer@, key@) is None,
        },
{
    match j.get(outer) {
        Some(inner) => inner.get(key),
        None => None,
    }
}

fn package_of(j: &Json) -> (p: Option<Package>)
    ensures
        match p {
            Some(package) => package_from(j@) == Some(package@),
            None => package_from(j@) is None,
        },
{
    let hash_sha256 = match text_of(j, "hash_sha256") {
        Some(t) => t,
        None => {
            return None;
        },
    };
    let size = match j.get("size") {
        Some(Json::Unsigned(n)) => *n,
        _ => {
            return None;
        },
    };
    let name = match text_of(j, "name") {
        Some(t) => t,
        None => {
            return None;
        },
    };
    let fp = match text_of(j, "fp") {
        Some(t) => t,
        None => {
            return None;
        },
    };
    let required = match j.get("required") {
        Some(Json::Bool(b)) => *b,
        _ => {
            return None;
        },
    };
    let hash = match text_of(j, "hash") {
        Some(t) => t,
        None => {
            return None;
        },
    };
    Some(Package { hash_sha256, size, name, fp, required, hash })
}

fn packages_of(list: &Vec<Json>) -> (packages: Packages)
    ensures
        packages@ == packages_from(items_view(list@)),
{
    let ghost views = items_view(list@);
    let mut package: Vec<Package> = Vec::new();
    let mut i: usize = 0;
    assert(views.take(0) =~= Seq::empty());
    assert(package@.map_values(|p: Package| p@) =~= Seq::empty());
    while i < list.len()
        invariant
            i <= list@.len(),
            views == items_view(list@),
            package@.map_values(|p: Package| p@) == packages_from(views.take(i as int)),
        decreases list@.len() - i,
    {
        let ghost before = package@.map_values(|p: Package| p@);
        proof {
            assert(views.take(i + 1).drop_last() =~= views.take(i as int));
            assert(views.take(i + 1).last() == list@[i as int]@);
        }
        match package_of(&list[i]) {
            Some(p) => {
                package.push(p);
                assert(package@.map_values(|p: Package| p@) =~= before.push(p@));
            },
            None => {},
        }
        i += 1;
    }
    assert(views.take(i as int) =~= views);
    Packages { package }
}

fn codebases_of(list: &Vec<Json>) -> (urls: Urls)
    ensures
        urls@ == codebases_from(items_view(list@)),
{
    let ghost views = items_view(list@);
    let mut url: Vec<CodeBase> = Vec::new();
    let mut i: usize = 0;
    assert(views.take(0) =~= Seq::empty());
    assert(url@.map_values(|c: CodeBase| c@) =~= Seq::empty());
    while i < list.len()
        invariant
            i <= list@.len(),
            views == items_view(list@),
            url@.map_values(|c: CodeBase| c@) == codebases_from(views.take(i as int)),
        decreases list@.len() - i,
    {
        let ghost before = url@.map_values(|c: CodeBase| c@);
        proof {
            assert(views.take(i + 1).drop_last() =~= views.take(i as int));
            assert(views.take(i + 1).last() == list@[i as int]@);
        }
        match text_of(&list[i], "codebase") {
            Some(c) => {
                let entry = CodeBase { codebase: c };
                url.push(entry);
                assert(url@.map_values(|c: CodeBase| c@) =~= before.push(entry@));
            },
            None => {},
        }
        i += 1;
    }
    assert(views.take(i as int) =~= views);
    Urls { url }
}

fn checked_of(updatecheck: &Json) -> (r: Option<(UpdateCheck, Manifest)>)
    ensures
        match r {
            Some((check, manifest)) => checked_from(updatecheck@) == Some((check@, manifest@)),
            None => checked_from(updatecheck@) is None,
        },
{
    let manifest = match updatecheck.get("manifest") {
        Some(m) => m,
        None => {
            return None;
        },
    };
    let status = match text_of(updatecheck, "status") {
        Some(s) => s,
        None => {
            return None;
        },
    };
    let urls = match nested_of(updatecheck, "urls", "url") {
        Some(list) => match list.as_array() {
            Some(urls) => urls,
            None => {
                return None;
            },
        },
        None => {
            return None;
        },
    };
    let packages = match nested_of(manifest, "packages", "package") {
        Some(list) => match list.as_array() {
            Some(packages) => packages,
            None => {
                return None;
            },
        },
        None => {
            return None;
        },
    };
    let version = match text_of(manifest, "version") {
        Some(v) => v,
        None => "0.0.0".to_owned(),
    };
    Some(
        (
            UpdateCheck { status, urls: codebases_of(urls) },
            Manifest { version, packages: packages_of(packages) },
        ),
    )
}

impl App {
    /// Reads an app from a JSON value.
    pub fn from_value(value: &Json) -> (app: Option<App>)
        ensures
            match app {
                Some(a) => app_from(value@) == Some(a@),
                None => app_from(value@) is None,
            },
    {
        let ping = match nested_of(value, "ping", "status") {
            Some(status) => match status.as_str() {
                Some(text) => text.to_owned(),
                None => {
                    return None;
                },
            },
            None => {
                return None;
            },
        };
        let updatecheck = match value.get("updatecheck") {
            Some(u) => u,
            None => {
                return None;
            },
        };
        let appid = match text_of(value, "appid") {
            Some(t) => t,
            None => {
                return None;
            },
        };
        let cohort = match text_of(value, "cohort") {
            Some(t) => t,
            None => {
                return None;
            },
        };
        let status = match text_of(value, "status") {
            Some(t) => t,
            None => {
                return None;
            },
        };
        let cohortname = match text_of(value, "cohortname") {
            Some(t) => t,
            None => {
                return None;
            },
        };
        match checked_of(updatecheck) {
            Some((check, manifest)) => Some(
                App {
                    appid,
                    cohort: Some(cohort),
                    status,
                    cohortname: Some(cohortname),
                    ping: Some(Status { status: ping }),
                    updatecheck: Some(check),
                    manifest: Some(manifest),
                },
            ),
            None => None,
        }
    }
}

/// The registry record of an app that has been read: it is made from the
/// first package of the manifest, is not blacklisted and has no times.
pub open spec fn record_from(app: AppView) -> Option<ExtensionView> {
    match (app.cohort, app.cohortname, app.manifest) {
        (Some(cohort), Some(cohortname), Some(manifest)) => if manifest.packages.len() > 0 {
            let first = manifest.packages[0];
            Some(
                ExtensionView {
                    id: app.appid,
                    cohort,
                    cohortname,
                    package_name: first.name,
                    version: manifest.version,
                    hash_sha256: first.hash_sha256,
                    status: app.status,
                    fp: first.fp,
                    blacklisted: false,
                    required: first.required,
                    hash: first.hash,
                    size: first.size,
                    created_at: Timestamp { seconds: 0, nanos: 0 },
                    update_at: Timestamp { seconds: 0, nanos: 0 },
                    patch_list: Seq::empty(),
                },
            )
        } else {
            None
        },
        _ => None,
    }
}

impl Extension {
    /// The registry record of an app; none for an app without a cohort, a
    /// manifest or a package.
    pub fn from_app(value: App) -> (record: Option<Extension>)
        ensures
            match record {
                Some(r) => record_from(value@) == Some(r@),
                None => record_from(value@) is None,
            },
    {
        let App { appid, cohort, status, cohortname, ping, updatecheck, manifest } = value;
        let cohort = match cohort {
            Some(c) => c,
            None => {
                return None;
            },
        };
        let cohortname = match cohortname {
            Some(c) => c,
            None => {
                return None;
            },
        };
        let manifest = match manifest {
            Some(m) => m,
            None => {
                return None;
            },
        };
        if manifest.packages.package.len() == 0 {
            return None;
        }
        let first = &manifest.packages.package[0];
        assert(manifest@.packages[0] == first@);
        let record = Extension {
            id: appid,
            cohort,
            cohortname,
            package_name: first.name.clone(),
            version: manifest.version.clone(),
            hash_sha256: first.hash_sha256.clone(),
            status,
            fp: first.fp.clone(),
            blacklisted: false,
            required: first.required,
            hash: first.hash.clone(),
            size: first.size,
            created_at: Timestamp::origin(),
            update_at: Timestamp::origin(),
            patch_list: Vec::new(),
        };
        assert(record@.patch_list =~= Seq::empty());
        Some(record)
    }
}


/// The record of the store that a registry record is written as. The two
/// times are both the text `stamp`.
pub open spec fn item_of(ext: ExtensionView, stamp: Seq<char>) -> Seq<
    (Seq<char>, AttributeValueView),
> {
    seq![
        ("ID"@, AttributeValueView::S(ext.id)),
        ("COHORT"@, AttributeValueView::S(ext.cohort)),
        ("COHORTNAME"@, AttributeValueView::S(ext.cohortname)),
        ("NAME"@, AttributeValueView::S(ext.package_name)),
        ("VERSION"@, AttributeValueView::S(ext.version)),
        ("HASH_SHA256"@, AttributeValueView::S(ext.hash_sha256)),
        ("FP"@, AttributeValueView::S(ext.fp)),
        ("BLACKLISTED"@, AttributeValueView::Bool(ext.blacklisted)),
        ("REQUIRED"@, AttributeValueView::Bool(ext.required)),
        ("HASH"@, AttributeValueView::S(ext.hash)),
        ("SIZE"@, AttributeValueView::N(decimal_text(ext.size as nat))),
        ("CREATED_AT"@, AttributeValueView::S(stamp)),
        ("UPDATE_AT"@, AttributeValueView::S(stamp)),
    ]
}

fn field(name: &str, value: AttributeValue) -> (f: (String, AttributeValue))
    ensures
        f.0@ == name@,
        f.1 == value,
{
    (name.to_owned(), value)
}

fn text_field(name: &str, value: &String) -> (f: (String, AttributeValue))
    ensures
        f.0@ == name@,
        f.1@ == AttributeValueView::S(value@),
{
    (name.to_owned(), AttributeValue::S(value.clone()))
}

impl Extension {
    /// The record of the store that this record is written as, with `stamp`
    /// as the time of its creation and of its last update.
    pub fn to_item(&self, stamp: &str) -> (item: Item)
        ensures
            item@ == item_of(self@, stamp@),
    {
        let mut size = String::new();
        push_decimal_text(&mut size, self.size);
        assert(size@ =~= decimal_text(self.size as nat));
        let fields = vec![
            text_field("ID", &self.id),
            text_field("COHORT", &self.cohort),
            text_field("COHORTNAME", &self.cohortname),
            text_field("NAME", &self.package_name),
            text_field("VERSION", &self.version),
            text_field("HASH_SHA256", &self.hash_sha256),
            text_field("FP", &self.fp),
            field("BLACKLISTED", AttributeValue::Bool(self.blacklisted)),
            field("REQUIRED", AttributeValue::Bool(self.required)),
            text_field("HASH", &self.hash),
            field("SIZE", AttributeValue::N(size)),
            field("CREATED_AT", AttributeValue::S(stamp.to_owned())),
            field("UPDATE_AT", AttributeValue::S(stamp.to_owned())),
        ];
        let item = Item { fields };
        assert(item@ =~= item_of(self@, stamp@));
        item
    }
}

/// The first app of a record of a dump: the first item of `response.app`.
/// A record without `response.app` has none and is passed over.
pub open spec fn dumped_app(record: JsonView) -> Option<JsonView> {
    match nested(record, "response"@, "app"@) {
        Some(apps) => match apps.items() {
            Some(items) => if items.len() > 0 {
                Some(items[0])
            } else {
                Some(JsonView::Null)
            },
            None => Some(JsonView::Null),
        },
        None => None,
    }
}

/// The store record of one record of a dump, where it has an app: the app
/// must be readable and have a package.
pub open spec fn dumped_item(app: JsonView, stamp: Seq<char>) -> Result<
    Seq<(Seq<char>, AttributeValueView)>,
    ParseErrorView,
> {
    match app_from(app) {
        None => Err(ParseErrorView::MissingField("app"@)),
        Some(read) => match record_from(read) {
            None => Err(ParseErrorView::MissingField("package"@)),
            Some(ext) => Ok(item_of(ext, stamp)),
        },
    }
}

/// The store records of the records of a dump, in their order; the first
/// record that cannot be read fails the whole import.
pub open spec fn dumped_items(records: Seq<JsonView>, stamp: Seq<char>) -> Result<
    Seq<Seq<(Seq<char>, AttributeValueView)>>,
    ParseErrorView,
>
    decreases records.len(),
{
    if records.len() == 0 {
        Ok(Seq::empty())
    } else {
        match dumped_items(records.drop_last(), stamp) {
            Err(e) => Err(e),
            Ok(before) => match dumped_app(records.last()) {
                None => Ok(before),
                Some(app) => match dumped_item(app, stamp) {
                    Err(e) => Err(e),
                    Ok(item) => Ok(before.push(item)),
                },
            },
        }
    }
}

/// What a dump holds: it must be a JSON array of records.
pub open spec fn dump(data: Seq<u8>, stamp: Seq<char>) -> Result<
    Seq<Seq<(Seq<char>, AttributeValueView)>>,
    ParseErrorView,
> {
    match json_decoded(data) {
        Err(reason) => Err(ParseErrorView::Malformed(reason)),
        Ok(root) => match root.items() {
            None => Err(ParseErrorView::Malformed("expected an array of records"@)),
            Some(records) => dumped_items(records, stamp),
        },
    }
}

pub open spec fn items_list_view(items: Seq<Item>) -> Seq<Seq<(Seq<char>, AttributeValueView)>> {
    items.map_values(|item: Item| item@)
}

proof fn lemma_dump_fails(records: Seq<JsonView>, stamp: Seq<char>, n: int)
    requires
        0 <= n <= records.len(),
        dumped_items(records.take(n), stamp) is Err,
    ensures
        dumped_items(records, stamp) == dumped_items(records.take(n), stamp),
    decreases records.len() - n,
{
    if n < records.len() {
        assert(records.take(n + 1).drop_last() =~= records.take(n));
        lemma_dump_fails(records, stamp, n + 1);
    } else {
        assert(records.take(n) =~= records);
    }
}

fn app_of_record(record: &Json) -> (app: Option<Option<&Json>>)
    ensures
        match app {
            Some(Some(found)) => dumped_app(record@) == Some(found@),
            Some(None) => dumped_app(record@) == Some(JsonView::Null),
            None => dumped_app(record@) is None,
        },
{
    match nested_of(record, "response", "app") {
        Some(apps) => match apps.as_array() {
            Some(items) => if items.len() > 0 {
                Some(Some(&items[0]))
            } else {
                Some(None)
            },
            None => Some(None),
        },
        None => None,
    }
}

/// The store records of a dump that has been decoded.
pub fn items_from_records(records: &Vec<Json>, stamp: &str) -> (r: Result<Vec<Item>, ParseError>)
    ensures
        match r {
            Ok(items) => dumped_items(items_view(records@), stamp@) == Ok::<
                Seq<Seq<(Seq<char>, AttributeValueView)>>,
                ParseErrorView,
            >(items_list_view(items@)),
            Err(e) => dumped_items(items_view(records@), stamp@) == Err::<
                Seq<Seq<(Seq<char>, AttributeValueView)>>,
                ParseErrorView,
            >(e@),
        },
{
    let ghost views = items_view(records@);
    let mut items: Vec<Item> = Vec::new();
    let mut i: usize = 0;
    assert(views.take(0) =~= Seq::empty());
    assert(items_list_view(items@) =~= Seq::empty());
    while i < records.len()
        invariant
            i <= records@.len(),
            views == items_view(records@),
            dumped_items(views.take(i as int), stamp@) == Ok::<
                Seq<Seq<(Seq<char>, AttributeValueView)>>,
                ParseErrorView,
            >(items_list_view(items@)),
        decreases records@.len() - i,
    {
        let ghost before = items_list_view(items@);
        proof {
            assert(views.take(i + 1).drop_last() =~= views.take(i as int));
            assert(views.take(i + 1).last() == records@[i as int]@);
        }
        match app_of_record(&records[i]) {
            Some(None) => {
                proof {
                    lemma_dump_fails(views, stamp@, i + 1);
                }
                return Err(ParseError::MissingField("app".to_owned()));
            },
            Some(Some(found)) => {
                let app = match App::from_value(found) {
                    Some(app) => app,
                    None => {
                        proof {
                            lemma_dump_fails(views, stamp@, i + 1);
                        }
                        return Err(ParseError::MissingField("app".to_owned()));
                    },
                };
                let ext = match Extension::from_app(app) {
                    Some(ext) => ext,
                    None => {
                        proof {
                            lemma_dump_fails(views, stamp@, i + 1);
                        }
                        return Err(ParseError::MissingField("package".to_owned()));
                    },
                };
                let item = ext.to_item(stamp);
                items.push(item);
                assert(items_list_view(items@) =~= before.push(item@));
            },
            None => {},
        }
        i += 1;
    }
    assert(views.take(i as int) =~= views);
    Ok(items)
}

/// Reads a dump: a JSON array of records, each with its apps under
/// `response.app`.
pub fn items_from_dump(data: &[u8], stamp: &str) -> (r: Result<Vec<Item>, ParseError>)
    ensures
        match r {
            Ok(items) => dump(data@, stamp@) == Ok::<
                Seq<Seq<(Seq<char>, AttributeValueView)>>,
                ParseErrorView,
            >(items_list_view(items@)),
            Err(e) => dump(data@, stamp@) == Err::<
                Seq<Seq<(Seq<char>, AttributeValueView)>>,
                ParseErrorView,
            >(e@),
        },
{
    let root = match parse_json(data) {
        Ok(root) => root,
        Err(reason) => {
            return Err(ParseError::Malformed(reason));
        },
    };
    match root.as_array() {
        Some(records) => items_from_records(records, stamp),
        None => Err(ParseError::Malformed("expected an array of records".to_owned())),
    }
}

} // verus!
