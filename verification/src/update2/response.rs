//! The response that lists registry records as they are, one app for each.

use crate::text::str_eq;
use crate::update2::model::{
    App, AppView, Extension, ExtensionView, Manifest, ManifestView, Package, PackageView, Packages,
    Status, UpdateCheck, UpdateCheckView,
};
use crate::update2::registry::records_view;
use crate::update2::utils::{
    codebase_url, elapsed_days, elapsed_seconds, gen_codebase_urls, get_daystart, mirrors,
};
use vstd::prelude::*;

verus! {

/// The day start of a response.
#[derive(Clone, Copy, Debug, PartialEq, Eq, Structural)]
pub struct DayStart {
    pub elapsed_seconds: u64,
    pub elapsed_days: u64,
}

/// The body of a response.
#[derive(Debug)]
pub struct Response {
    pub server: String,
    pub protocol: String,
    pub daystart: DayStart,
    pub app: Vec<App>,
}

pub struct ResponseView {
    pub server: Seq<char>,
    pub protocol: Seq<char>,
    pub daystart: DayStart,
    pub app: Seq<AppView>,
}

impl View for Response {
    type V = ResponseView;

    open spec fn view(&self) -> ResponseView {
        ResponseView {
            server: self.server@,
            protocol: self.protocol@,
            daystart: self.daystart,
            app: self.app@.map_values(|a: App| a@),
        }
    }
}

/// A response document.
#[derive(Debug)]
pub struct ResponseRoot {
    pub response: Response,
}

impl View for ResponseRoot {
    type V = ResponseView;

    open spec fn view(&self) -> ResponseView {
        self.response@
    }
}

pub open spec fn update_status(status: Seq<char>) -> Seq<char> {
    if status == "noupdate"@ {
        "noupdate"@
    } else {
        "ok"@
    }
}

/// The status word of a response: "noupdate" stays, anything else is "ok".
pub fn get_update_status(status: &str) -> (word: String)
    ensures
        word@ == update_status(status@),
{
    if str_eq(status, "noupdate") {
        "noupdate".to_owned()
    } else {
        "ok".to_owned()
    }
}

/// The manifest of a record: its version and its one package.
pub open spec fn manifest_of(ext: ExtensionView) -> ManifestView {
    ManifestView {
        version: ext.version,
        packages: seq![
            PackageView {
                hash_sha256: ext.hash_sha256,
                size: ext.size,
                name: ext.package_name,
                fp: ext.fp,
                required: ext.required,
                hash: ext.hash,
            },
        ],
    }
}

/// The manifest of a record.
pub fn gen_manifest(ext: &Extension) -> (manifest: Manifest)
    ensures
        manifest@ == manifest_of(ext@),
{
    let package = Package {
        hash_sha256: ext.hash_sha256.clone(),
        size: ext.size,
        name: ext.package_name.clone(),
        fp: ext.fp.clone(),
        required: ext.required,
        hash: ext.hash.clone(),
    };
    let manifest = Manifest {
        version: ext.version.clone(),
        packages: Packages { package: vec![package] },
    };
    assert(manifest@.packages =~= manifest_of(ext@).packages);
    manifest
}

/// The app of a record: a record marked "noupdate" gives its id and status
/// alone; any other gives its cohort, the mirrors' URLs and its manifest.
pub open spec fn app_of(ext: ExtensionView) -> AppView {
    if ext.status == "noupdate"@ {
        AppView {
            appid: ext.id,
            cohort: None,
            status: "noupdate"@,
            cohortname: None,
            ping: None,
            updatecheck: None,
            manifest: None,
        }
    } else {
        AppView {
            appid: ext.id,
            cohort: Some(ext.cohort),
            status: "ok"@,
            cohortname: Some(ext.cohortname),
            ping: Some("ok"@),
            updatecheck: Some(
                UpdateCheckView {
                    status: "ok"@,
                    urls: mirrors().map_values(
                        |base: Seq<char>| codebase_url(base, ext.id, ext.version),
                    ),
                },
            ),
            manifest: Some(manifest_of(ext)),
        }
    }
}

fn app_for(ext: &Extension) -> (app: App)
    ensures
        app@ == app_of(ext@),
{
    if str_eq(ext.status.as_str(), "noupdate") {
        App {
            appid: ext.id.clone(),
            cohort: None,
            status: get_update_status(ext.status.as_str()),
            cohortname: None,
            ping: None,
            updatecheck: None,
            manifest: None,
        }
    } else {
        let urls = gen_codebase_urls(ext.id.as_str(), ext.version.as_str());
        let updatecheck = UpdateCheck { status: get_update_status(ext.status.as_str()), urls };
        App {
            appid: ext.id.clone(),
            cohort: Some(ext.cohort.clone()),
            status: get_update_status(ext.status.as_str()),
            cohortname: Some(ext.cohortname.clone()),
            ping: Some(Status { status: "ok".to_owned() }),
            updatecheck: Some(updatecheck),
            manifest: Some(gen_manifest(ext)),
        }
    }
}

/// The response for a list of records at a given day start.
pub open spec fn response_of(
    data: Seq<ExtensionView>,
    protocol: Seq<char>,
    days: u64,
    seconds: u32,
) -> ResponseView {
    ResponseView {
        server: "prod"@,
        protocol,
        daystart: DayStart { elapsed_seconds: seconds as u64, elapsed_days: days },
        app: data.map_values(|e: ExtensionView| app_of(e)),
    }
}

impl ResponseRoot {
    /// The response for a list of records, one app for each in their order,
    /// with the given day start.
    pub fn to_json_at(data: &Vec<Extension>, protocol: &str, days: u64, seconds: u32) -> (root:
        ResponseRoot)
        ensures
            root@ == response_of(records_view(data@), protocol@, days, seconds),
    {
        let ghost views = records_view(data@);
        let ghost target = views.map_values(|e: ExtensionView| app_of(e));
        let mut apps: Vec<App> = Vec::new();
        let mut i: usize = 0;
        while i < data.len()
            invariant
                i <= data@.len(),
                views == records_view(data@),
                target == views.map_values(|e: ExtensionView| app_of(e)),
                apps@.map_values(|a: App| a@) == target.take(i as int),
            decreases data@.len() - i,
        {
            assert(views[i as int] == data@[i as int]@);
            let ghost before = apps@.map_values(|a: App| a@);
            let app = app_for(&data[i]);
            apps.push(app);
            assert(apps@.map_values(|a: App| a@) =~= before.push(app@));
            assert(target.take(i + 1) =~= target.take(i as int).push(target[i as int]));
            i += 1;
        }
        assert(target.take(i as int) =~= target);
        ResponseRoot {
            response: Response {
                server: "prod".to_owned(),
                protocol: protocol.to_owned(),
                daystart: DayStart { elapsed_seconds: seconds as u64, elapsed_days: days },
                app: apps,
            },
        }
    }

    /// The response for a list of records, with the day start of the present.
    pub fn to_json(data: &Vec<Extension>, protocol: &str) -> (root: ResponseRoot)
        ensures
            exists|now: i64|
                root@ == response_of(
                    records_view(data@),
                    protocol@,
                    elapsed_days(now),
                    elapsed_seconds(now),
                ),
    {
        let (days, seconds) = get_daystart();
        ResponseRoot::to_json_at(data, protocol, days, seconds)
    }
}

} // verus!
