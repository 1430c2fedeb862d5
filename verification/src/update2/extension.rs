//! The update decision: what the registry answers to the items of a check.

use crate::text::str_eq;
use crate::update2::model::{
    components_view, decisions_view, find_patch, patches_view, Extension, ExtensionView, Outcome,
    Patch, PatchInfo, PatchInfoView, RequestedComponent, RequestedComponentView, UpdateDecision,
    UpdateDecisionView,
};
use crate::update2::registry::ExtensionRegistry;
use crate::version::{compare_spec, compare_versions};
use vstd::prelude::*;

verus! {

/// Whether a client that sent `item` is to fetch the version that `entry`
/// holds: never for a blacklisted entry, and else exactly where the client's
/// version is older.
pub open spec fn needs_update(item: RequestedComponentView, entry: ExtensionView) -> bool {
    !entry.blacklisted && compare_spec(item.client_version, entry.version) < 0
}

/// The delta that can be offered for the content with fingerprint `fp`: the
/// patch filed under it, unless that patch has no hash.
pub open spec fn usable_diff(entry: ExtensionView, fp: Seq<char>) -> Option<PatchInfoView> {
    match find_patch(entry.patch_list, fp) {
        Some(patch) => if patch.hashdiff.len() > 0 {
            Some(patch)
        } else {
            None
        },
        None => None,
    }
}

/// The decision for one item whose id the registry knows.
pub open spec fn decide(item: RequestedComponentView, entry: ExtensionView) -> UpdateDecisionView {
    UpdateDecisionView {
        id: item.id,
        outcome: if needs_update(item, entry) {
            Outcome::Update
        } else {
            Outcome::NoUpdate
        },
        target_version: entry.version,
        target_hash: entry.hash_sha256,
        target_size: entry.size,
        client_fingerprint: item.client_fingerprint,
        diff: if needs_update(item, entry) {
            usable_diff(entry, item.client_fingerprint)
        } else {
            None
        },
    }
}

/// The decisions for a list of items, in the order of the items; an item
/// whose id the registry does not know gets none.
pub open spec fn resolve_spec(
    items: Seq<RequestedComponentView>,
    registry: Map<Seq<char>, ExtensionView>,
) -> Seq<UpdateDecisionView>
    decreases items.len(),
{
    if items.len() == 0 {
        Seq::empty()
    } else {
        let before = resolve_spec(items.drop_last(), registry);
        let item = items.last();
        if registry.contains_key(item.id) {
            before.push(decide(item, registry[item.id]))
        } else {
            before
        }
    }
}

/// Every decision answers one of the items, for an id that the registry
/// knows, and is the decision that the registry's record for that id gives.
/// So no decision is made for an unknown id.
pub proof fn lemma_resolve_only_known(
    items: Seq<RequestedComponentView>,
    registry: Map<Seq<char>, ExtensionView>,
)
    ensures
        forall|k: int|
            0 <= k < resolve_spec(items, registry).len() ==> {
                let d = #[trigger] resolve_spec(items, registry)[k];
                &&& registry.contains_key(d.id)
                &&& exists|i: int|
                    0 <= i < items.len() && d == decide(#[trigger] items[i], registry[d.id])
                        && items[i].id == d.id
            },
    decreases items.len(),
{
    if items.len() > 0 {
        let init = items.drop_last();
        lemma_resolve_only_known(init, registry);
        let all = resolve_spec(items, registry);
        let before = resolve_spec(init, registry);
        assert forall|k: int| 0 <= k < all.len() implies {
            let d = #[trigger] all[k];
            &&& registry.contains_key(d.id)
            &&& exists|i: int|
                0 <= i < items.len() && d == decide(#[trigger] items[i], registry[d.id])
                    && items[i].id == d.id
        } by {
            let d = all[k];
            if k < before.len() {
                assert(d == before[k]);
                let i = choose|i: int|
                    0 <= i < init.len() && d == decide(#[trigger] init[i], registry[d.id])
                        && init[i].id == d.id;
                assert(items[i] == init[i]);
            } else {
                assert(d == decide(items[items.len() - 1], registry[d.id]));
            }
        }
    }
}

/// An item whose id the registry does not know has no decision: no decision
/// carries an id that is not in the registry.
pub proof fn lemma_unknown_id_excluded(
    items: Seq<RequestedComponentView>,
    registry: Map<Seq<char>, ExtensionView>,
    id: Seq<char>,
)
    requires
        !registry.contains_key(id),
    ensures
        forall|k: int|
            0 <= k < resolve_spec(items, registry).len() ==> (#[trigger] resolve_spec(
                items,
                registry,
            )[k]).id != id,
{
    lemma_resolve_only_known(items, registry);
}

/// A blacklisted record always answers with no update and offers no delta,
/// whatever version the client has.
pub proof fn lemma_blacklisted_no_update(
    items: Seq<RequestedComponentView>,
    registry: Map<Seq<char>, ExtensionView>,
)
    ensures
        forall|k: int|
            0 <= k < resolve_spec(items, registry).len() ==> {
                let d = #[trigger] resolve_spec(items, registry)[k];
                registry[d.id].blacklisted ==> d.outcome == Outcome::NoUpdate && d.diff is None
            },
{
    lemma_resolve_only_known(items, registry);
}

/// A decision offers a delta only with an update, and never one without a
/// hash.
pub proof fn lemma_diff_has_hash(
    items: Seq<RequestedComponentView>,
    registry: Map<Seq<char>, ExtensionView>,
)
    ensures
        forall|k: int|
            0 <= k < resolve_spec(items, registry).len() ==> {
                let d = #[trigger] resolve_spec(items, registry)[k];
                d.diff is Some ==> d.outcome == Outcome::Update && d.diff->0.hashdiff.len() > 0
            },
{
    lemma_resolve_only_known(items, registry);
}

/// The patch that is filed under the fingerprint `fp`.
pub fn find_patch_for<'a>(patches: &'a Vec<Patch>, fp: &str) -> (found: Option<&'a PatchInfo>)
    ensures
        match found {
            Some(info) => find_patch(patches_view(patches@), fp@) == Some(info@),
            None => find_patch(patches_view(patches@), fp@) is None,
        },
{
    let ghost views = patches_view(patches@);
    let mut i: usize = 0;
    assert(views.skip(0) =~= views);
    while i < patches.len()
        invariant
            i <= patches@.len(),
            views == patches_view(patches@),
            find_patch(views, fp@) == find_patch(views.skip(i as int), fp@),
        decreases patches@.len() - i,
    {
        assert(views.skip(i as int)[0] == patches@[i as int]@);
        if str_eq(patches[i].fingerprint.as_str(), fp) {
            return Some(&patches[i].info);
        }
        assert(views.skip(i as int).drop_first() =~= views.skip(i + 1));
        i += 1;
    }
    None
}

/// The decision for one item against the record that the registry holds for
/// its id.
pub fn decide_one(item: &RequestedComponent, entry: &Extension) -> (decision: UpdateDecision)
    ensures
        decision@ == decide(item@, entry@),
{
    let update = !entry.blacklisted && compare_versions(
        item.client_version.as_str(),
        entry.version.as_str(),
    ) < 0;
    let mut diff: Option<PatchInfo> = None;
    if update {
        match find_patch_for(&entry.patch_list, item.client_fingerprint.as_str()) {
            Some(patch) => {
                if patch.hashdiff.as_str().unicode_len() > 0 {
                    diff = Some(patch.clone());
                }
            },
            None => {},
        }
    }
    UpdateDecision {
        id: item.id.clone(),
        outcome: if update {
            Outcome::Update
        } else {
            Outcome::NoUpdate
        },
        target_version: entry.version.clone(),
        target_hash: entry.hash_sha256.clone(),
        target_size: entry.size,
        client_fingerprint: item.client_fingerprint.clone(),
        diff,
    }
}

impl Extension {
    /// Resolves the items of an update check against one snapshot of the
    /// registry, which is read for the whole pass.
    pub fn filter_for_updates(
        extensions: &Vec<RequestedComponent>,
        all_extensions_map: &ExtensionRegistry,
    ) -> (decisions: Vec<UpdateDecision>)
        ensures
            decisions_view(decisions@) == resolve_spec(
                components_view(extensions@),
                all_extensions_map@,
            ),
    {
        let ghost items = components_view(extensions@);
        let mut decisions: Vec<UpdateDecision> = Vec::new();
        let mut i: usize = 0;
        assert(items.take(0) =~= Seq::empty());
        assert(decisions_view(decisions@) =~= Seq::empty());
        while i < extensions.len()
            invariant
                i <= extensions@.len(),
                items == components_view(extensions@),
                decisions_view(decisions@) == resolve_spec(
                    items.take(i as int),
                    all_extensions_map@,
                ),
            decreases extensions@.len() - i,
        {
            let item = &extensions[i];
            let ghost before = decisions_view(decisions@);
            proof {
                assert(items.take(i + 1).drop_last() =~= items.take(i as int));
                assert(items.take(i + 1).last() == item@);
            }
            match all_extensions_map.lookup(item.id.as_str()) {
                Some(entry) => {
                    let decision = decide_one(item, entry);
                    decisions.push(decision);
                    assert(decisions_view(decisions@) =~= before.push(decision@));
                },
                None => {},
            }
            i += 1;
        }
        assert(items.take(i as int) =~= items);
        decisions
    }
}

} // verus!
