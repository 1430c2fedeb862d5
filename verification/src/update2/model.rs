//! The records of the extension registry and the items of an update check.

use crate::text::optional_text;
use vstd::prelude::*;

verus! {

/// A point in time: seconds and nanoseconds since 1970-01-01T00:00:00Z.
#[derive(Clone, Copy, Debug, PartialEq, Eq, Structural)]
pub struct Timestamp {
    pub seconds: i64,
    pub nanos: u32,
}

impl Timestamp {
    /// The origin of the epoch, which stands in for a time that cannot be read.
    pub fn origin() -> (t: Timestamp)
        ensures
            t == (Timestamp { seconds: 0, nanos: 0 }),
    {
        Timestamp { seconds: 0, nanos: 0 }
    }
}

/// A binary delta that leads from the content with one fingerprint to the
/// current content of an extension.
#[derive(Debug)]
pub struct PatchInfo {
    pub namediff: String,
    pub hashdiff: String,
    pub sizediff: u64,
}

pub struct PatchInfoView {
    pub namediff: Seq<char>,
    pub hashdiff: Seq<char>,
    pub sizediff: u64,
}

impl View for PatchInfo {
    type V = PatchInfoView;

    open spec fn view(&self) -> PatchInfoView {
        PatchInfoView { namediff: self.namediff@, hashdiff: self.hashdiff@, sizediff: self.sizediff }
    }
}

impl Clone for PatchInfo {
    fn clone(&self) -> (copy: PatchInfo)
        ensures
            copy@ == self@,
    {
        PatchInfo {
            namediff: self.namediff.clone(),
            hashdiff: self.hashdiff.clone(),
            sizediff: self.sizediff,
        }
    }
}

/// A patch together with the fingerprint of the content it applies to.
#[derive(Debug)]
pub struct Patch {
    pub fingerprint: String,
    pub info: PatchInfo,
}

pub struct PatchView {
    pub fingerprint: Seq<char>,
    pub info: PatchInfoView,
}

impl View for Patch {
    type V = PatchView;

    open spec fn view(&self) -> PatchView {
        PatchView { fingerprint: self.fingerprint@, info: self.info@ }
    }
}

impl Clone for Patch {
    fn clone(&self) -> (copy: Patch)
        ensures
            copy@ == self@,
    {
        Patch { fingerprint: self.fingerprint.clone(), info: self.info.clone() }
    }
}

/// The views of a list of patches.
pub open spec fn patches_view(patches: Seq<Patch>) -> Seq<PatchView> {
    patches.map_values(|p: Patch| p@)
}

/// The patch for the content with fingerprint `fp`: the first one in the
/// list that is filed under it.
pub open spec fn find_patch(patches: Seq<PatchView>, fp: Seq<char>) -> Option<PatchInfoView>
    decreases patches.len(),
{
    if patches.len() == 0 {
        None
    } else if patches[0].fingerprint == fp {
        Some(patches[0].info)
    } else {
        find_patch(patches.drop_first(), fp)
    }
}

/// No fingerprint has more than one patch.
pub open spec fn single_hop(patches: Seq<PatchView>) -> bool {
    forall|i: int, j: int|
        0 <= i < j < patches.len() ==> (#[trigger] patches[i]).fingerprint != (
        #[trigger] patches[j]).fingerprint
}

/// Copies a list of patches.
pub fn clone_patches(patches: &Vec<Patch>) -> (copy: Vec<Patch>)
    ensures
        patches_view(copy@) == patches_view(patches@),
{
    let mut copy: Vec<Patch> = Vec::new();
    let mut i: usize = 0;
    while i < patches.len()
        invariant
            i <= patches@.len(),
            copy@.len() == i,
            forall|k: int| 0 <= k < i ==> (#[trigger] copy@[k])@ == patches@[k]@,
        decreases patches@.len() - i,
    {
        copy.push(patches[i].clone());
        i += 1;
    }
    assert(patches_view(copy@) =~= patches_view(patches@));
    copy
}

/// The registry's record of one extension.
#[derive(Debug)]
pub struct Extension {
    pub id: String,
    pub cohort: String,
    pub cohortname: String,
    pub package_name: String,
    pub version: String,
    pub hash_sha256: String,
    pub status: String,
    pub fp: String,
    pub blacklisted: bool,
    pub required: bool,
    pub hash: String,
    pub size: u64,
    pub created_at: Timestamp,
    pub update_at: Timestamp,
    pub patch_list: Vec<Patch>,
}

pub struct ExtensionView {
    pub id: Seq<char>,
    pub cohort: Seq<char>,
    pub cohortname: Seq<char>,
    pub package_name: Seq<char>,
    pub version: Seq<char>,
    pub hash_sha256: Seq<char>,
    pub status: Seq<char>,
    pub fp: Seq<char>,
    pub blacklisted: bool,
    pub required: bool,
    pub hash: Seq<char>,
    pub size: u64,
    pub created_at: Timestamp,
    pub update_at: Timestamp,
    pub patch_list: Seq<PatchView>,
}

impl View for Extension {
    type V = ExtensionView;

    open spec fn view(&self) -> ExtensionView {
        ExtensionView {
            id: self.id@,
            cohort: self.cohort@,
            cohortname: self.cohortname@,
            package_name: self.package_name@,
            version: self.version@,
            hash_sha256: self.hash_sha256@,
            status: self.status@,
            fp: self.fp@,
            blacklisted: self.blacklisted,
            required: self.required,
            hash: self.hash@,
            size: self.size,
            created_at: self.created_at,
            update_at: self.update_at,
            patch_list: patches_view(self.patch_list@),
        }
    }
}

impl Clone for Extension {
    fn clone(&self) -> (copy: Extension)
        ensures
            copy@ == self@,
    {
        Extension {
            id: self.id.clone(),
            cohort: self.cohort.clone(),
            cohortname: self.cohortname.clone(),
            package_name: self.package_name.clone(),
            version: self.version.clone(),
            hash_sha256: self.hash_sha256.clone(),
            status: self.status.clone(),
            fp: self.fp.clone(),
            blacklisted: self.blacklisted,
            required: self.required,
            hash: self.hash.clone(),
            size: self.size,
            created_at: self.created_at,
            update_at: self.update_at,
            patch_list: clone_patches(&self.patch_list),
        }
    }
}

/// Putting a patch in place of the first one with its fingerprint changes
/// what is found under that fingerprint alone.
pub proof fn lemma_find_after_update(patches: Seq<PatchView>, i: int, patch: PatchView, fp: Seq<char>)
    requires
        0 <= i < patches.len(),
        patches[i].fingerprint == patch.fingerprint,
        forall|j: int| 0 <= j < i ==> (#[trigger] patches[j]).fingerprint != patch.fingerprint,
    ensures
        find_patch(patches.update(i, patch), fp) == if fp == patch.fingerprint {
            Some(patch.info)
        } else {
            find_patch(patches, fp)
        },
    decreases i,
{
    let after = patches.update(i, patch);
    if i > 0 {
        assert(patches[0].fingerprint != patch.fingerprint);
        assert(after.drop_first() =~= patches.drop_first().update(i - 1, patch));
        assert forall|j: int| 0 <= j < i - 1 implies (#[trigger] patches.drop_first()[j]).fingerprint
            != patch.fingerprint by {
            assert(patches.drop_first()[j] == patches[j + 1]);
        }
        lemma_find_after_update(patches.drop_first(), i - 1, patch, fp);
    } else {
        assert(after.drop_first() =~= patches.drop_first());
    }
}

/// Adding a patch with a new fingerprint changes what is found under that
/// fingerprint alone.
pub proof fn lemma_find_after_push(patches: Seq<PatchView>, patch: PatchView, fp: Seq<char>)
    requires
        forall|j: int|
            0 <= j < patches.len() ==> (#[trigger] patches[j]).fingerprint != patch.fingerprint,
    ensures
        find_patch(patches.push(patch), fp) == if fp == patch.fingerprint {
            Some(patch.info)
        } else {
            find_patch(patches, fp)
        },
    decreases patches.len(),
{
    let after = patches.push(patch);
    reveal_with_fuel(find_patch, 2);
    if patches.len() > 0 {
        assert(patches[0].fingerprint != patch.fingerprint);
        assert(after.drop_first() =~= patches.drop_first().push(patch));
        assert forall|j: int| 0 <= j < patches.drop_first().len() implies (
        #[trigger] patches.drop_first()[j]).fingerprint != patch.fingerprint by {
            assert(patches.drop_first()[j] == patches[j + 1]);
        }
        lemma_find_after_push(patches.drop_first(), patch, fp);
    } else {
        assert(after.drop_first() =~= Seq::empty());
    }
}

impl Extension {
    /// Whether the record keeps at most one patch for each fingerprint.
    pub open spec fn well_formed(&self) -> bool {
        single_hop(self@.patch_list)
    }

    /// Files `info` as the patch for the content with fingerprint
    /// `fingerprint`, in place of the one that was filed under it, if any.
    /// Nothing else changes.
    pub fn set_patch(&mut self, fingerprint: &str, info: PatchInfo)
        requires
            old(self).well_formed(),
        ensures
            final(self).well_formed(),
            forall|fp: Seq<char>|
                #[trigger] find_patch(final(self)@.patch_list, fp) == if fp == fingerprint@ {
                    Some(info@)
                } else {
                    find_patch(old(self)@.patch_list, fp)
                },
            final(self)@ == (ExtensionView {
                patch_list: final(self)@.patch_list,
                ..old(self)@
            }),
    {
        let ghost before = patches_view(self.patch_list@);
        let patch = Patch { fingerprint: fingerprint.to_owned(), info };
        let mut i: usize = 0;
        while i < self.patch_list.len()
            invariant
                i <= self.patch_list@.len(),
                before == patches_view(self.patch_list@),
                *self == *old(self),
                patch@ == (PatchView { fingerprint: fingerprint@, info: info@ }),
                single_hop(before),
                forall|j: int| 0 <= j < i ==> (#[trigger] before[j]).fingerprint != fingerprint@,
            decreases self.patch_list@.len() - i,
        {
            assert(before[i as int] == self.patch_list@[i as int]@);
            if crate::text::str_eq(self.patch_list[i].fingerprint.as_str(), fingerprint) {
                self.patch_list.set(i, patch);
                proof {
                    let after = patches_view(self.patch_list@);
                    assert(after =~= before.update(i as int, patch@));
                    assert forall|fp: Seq<char>| #[trigger]
                        find_patch(after, fp) == if fp == fingerprint@ {
                            Some(patch@.info)
                        } else {
                            find_patch(before, fp)
                        } by {
                        lemma_find_after_update(before, i as int, patch@, fp);
                    }
                    assert forall|a: int, b: int| 0 <= a < b < after.len() implies (
                    #[trigger] after[a]).fingerprint != (#[trigger] after[b]).fingerprint by {
                        assert(after[a].fingerprint == before[a].fingerprint);
                        assert(after[b].fingerprint == before[b].fingerprint);
                    }
                }
                return ;
            }
            i += 1;
        }
        self.patch_list.push(patch);
        proof {
            let after = patches_view(self.patch_list@);
            assert(after =~= before.push(patch@));
            assert forall|fp: Seq<char>| #[trigger]
                find_patch(after, fp) == if fp == fingerprint@ {
                    Some(patch@.info)
                } else {
                    find_patch(before, fp)
                } by {
                lemma_find_after_push(before, patch@, fp);
            }
            assert forall|a: int, b: int| 0 <= a < b < after.len() implies (
            #[trigger] after[a]).fingerprint != (#[trigger] after[b]).fingerprint by {
                if b < before.len() {
                    assert(after[a] == before[a]);
                    assert(after[b] == before[b]);
                } else {
                    assert(after[a] == before[a]);
                }
            }
        }
    }
}

/// One item of an update check: what a client says it has installed.
#[derive(Debug)]
pub struct RequestedComponent {
    pub id: String,
    pub client_version: String,
    pub client_fingerprint: String,
}

pub struct RequestedComponentView {
    pub id: Seq<char>,
    pub client_version: Seq<char>,
    pub client_fingerprint: Seq<char>,
}

impl View for RequestedComponent {
    type V = RequestedComponentView;

    open spec fn view(&self) -> RequestedComponentView {
        RequestedComponentView {
            id: self.id@,
            client_version: self.client_version@,
            client_fingerprint: self.client_fingerprint@,
        }
    }
}

/// The views of a list of requested components.
pub open spec fn components_view(items: Seq<RequestedComponent>) -> Seq<RequestedComponentView> {
    items.map_values(|c: RequestedComponent| c@)
}

/// Whether a client is to fetch a new version.
#[derive(Clone, Copy, Debug, PartialEq, Eq, Structural)]
pub enum Outcome {
    NoUpdate,
    Update,
}

/// What the registry answers for one requested component.
#[derive(Debug)]
pub struct UpdateDecision {
    pub id: String,
    pub outcome: Outcome,
    pub target_version: String,
    pub target_hash: String,
    pub target_size: u64,
    /// The fingerprint of the content that the client holds.
    pub client_fingerprint: String,
    /// The delta from the client's content to the target, where one is known.
    pub diff: Option<PatchInfo>,
}

pub struct UpdateDecisionView {
    pub id: Seq<char>,
    pub outcome: Outcome,
    pub target_version: Seq<char>,
    pub target_hash: Seq<char>,
    pub target_size: u64,
    pub client_fingerprint: Seq<char>,
    pub diff: Option<PatchInfoView>,
}

impl View for UpdateDecision {
    type V = UpdateDecisionView;

    open spec fn view(&self) -> UpdateDecisionView {
        UpdateDecisionView {
            id: self.id@,
            outcome: self.outcome,
            target_version: self.target_version@,
            target_hash: self.target_hash@,
            target_size: self.target_size,
            client_fingerprint: self.client_fingerprint@,
            diff: match self.diff {
                Some(p) => Some(p@),
                None => None,
            },
        }
    }
}

/// The views of a list of decisions.
pub open spec fn decisions_view(items: Seq<UpdateDecision>) -> Seq<UpdateDecisionView> {
    items.map_values(|d: UpdateDecision| d@)
}


/// One download location.
#[derive(Debug)]
pub struct CodeBase {
    pub codebase: String,
}

impl View for CodeBase {
    type V = Seq<char>;

    open spec fn view(&self) -> Seq<char> {
        self.codebase@
    }
}

/// The download locations of a package.
#[derive(Debug)]
pub struct Urls {
    pub url: Vec<CodeBase>,
}

impl View for Urls {
    type V = Seq<Seq<char>>;

    open spec fn view(&self) -> Seq<Seq<char>> {
        self.url@.map_values(|c: CodeBase| c@)
    }
}


/// A status word.
#[derive(Debug)]
pub struct Status {
    pub status: String,
}

impl View for Status {
    type V = Seq<char>;

    open spec fn view(&self) -> Seq<char> {
        self.status@
    }
}

/// One package of a manifest.
#[derive(Debug)]
pub struct Package {
    pub hash_sha256: String,
    pub size: u64,
    pub name: String,
    pub fp: String,
    pub required: bool,
    pub hash: String,
}

pub struct PackageView {
    pub hash_sha256: Seq<char>,
    pub size: u64,
    pub name: Seq<char>,
    pub fp: Seq<char>,
    pub required: bool,
    pub hash: Seq<char>,
}

impl View for Package {
    type V = PackageView;

    open spec fn view(&self) -> PackageView {
        PackageView {
            hash_sha256: self.hash_sha256@,
            size: self.size,
            name: self.name@,
            fp: self.fp@,
            required: self.required,
            hash: self.hash@,
        }
    }
}

/// The packages of a manifest.
#[derive(Debug)]
pub struct Packages {
    pub package: Vec<Package>,
}

impl View for Packages {
    type V = Seq<PackageView>;

    open spec fn view(&self) -> Seq<PackageView> {
        self.package@.map_values(|p: Package| p@)
    }
}

/// What a version of an extension consists of.
#[derive(Debug)]
pub struct Manifest {
    pub version: String,
    pub packages: Packages,
}

pub struct ManifestView {
    pub version: Seq<char>,
    pub packages: Seq<PackageView>,
}

impl View for Manifest {
    type V = ManifestView;

    open spec fn view(&self) -> ManifestView {
        ManifestView { version: self.version@, packages: self.packages@ }
    }
}

/// The answer to an update check for one app: a status and where to download.
#[derive(Debug)]
pub struct UpdateCheck {
    pub status: String,
    pub urls: Urls,
}

pub struct UpdateCheckView {
    pub status: Seq<char>,
    pub urls: Seq<Seq<char>>,
}

impl View for UpdateCheck {
    type V = UpdateCheckView;

    open spec fn view(&self) -> UpdateCheckView {
        UpdateCheckView { status: self.status@, urls: self.urls@ }
    }
}

/// One app of a response. An app without an update has its id and status
/// alone.
#[derive(Debug)]
pub struct App {
    pub appid: String,
    pub cohort: Option<String>,
    pub status: String,
    pub cohortname: Option<String>,
    pub ping: Option<Status>,
    pub updatecheck: Option<UpdateCheck>,
    pub manifest: Option<Manifest>,
}

pub struct AppView {
    pub appid: Seq<char>,
    pub cohort: Option<Seq<char>>,
    pub status: Seq<char>,
    pub cohortname: Option<Seq<char>>,
    pub ping: Option<Seq<char>>,
    pub updatecheck: Option<UpdateCheckView>,
    pub manifest: Option<ManifestView>,
}

impl View for App {
    type V = AppView;

    open spec fn view(&self) -> AppView {
        AppView {
            appid: self.appid@,
            cohort: optional_text(self.cohort),
            status: self.status@,
            cohortname: optional_text(self.cohortname),
            ping: match self.ping {
                Some(p) => Some(p@),
                None => None,
            },
            updatecheck: match self.updatecheck {
                Some(u) => Some(u@),
                None => None,
            },
            manifest: match self.manifest {
                Some(m) => Some(m@),
                None => None,
            },
        }
    }
}

} // verus!
