//! The in-memory registry: one snapshot of all known extensions, looked up
//! by id and replaced as a whole.

use crate::error::LoadError;
use crate::update2::model::{Extension, ExtensionView};
use vstd::prelude::*;

verus! {

/// The views of a list of records.
pub open spec fn records_view(records: Seq<Extension>) -> Seq<ExtensionView> {
    records.map_values(|e: Extension| e@)
}

/// The map from id to record that a list of records stands for: where an id
/// occurs more than once, its last record counts.
pub open spec fn index_by_id(records: Seq<ExtensionView>) -> Map<Seq<char>, ExtensionView>
    decreases records.len(),
{
    if records.len() == 0 {
        Map::empty()
    } else {
        index_by_id(records.drop_last()).insert(records.last().id, records.last())
    }
}

/// An id is in the index exactly where some record has it.
pub proof fn lemma_index_has(records: Seq<ExtensionView>, id: Seq<char>)
    ensures
        index_by_id(records).contains_key(id) <==> exists|k: int|
            0 <= k < records.len() && (#[trigger] records[k]).id == id,
    decreases records.len(),
{
    if records.len() > 0 {
        let init = records.drop_last();
        lemma_index_has(init, id);
        if index_by_id(records).contains_key(id) {
            if records.last().id == id {
                assert(records[records.len() - 1].id == id);
            } else {
                let k = choose|k: int| 0 <= k < init.len() && (#[trigger] init[k]).id == id;
                assert(records[k].id == id);
            }
        }
        if exists|k: int| 0 <= k < records.len() && (#[trigger] records[k]).id == id {
            let k = choose|k: int| 0 <= k < records.len() && (#[trigger] records[k]).id == id;
            if k < init.len() {
                assert(init[k].id == id);
            }
        }
    }
}

/// An id is mapped to the last record that has it.
pub proof fn lemma_index_last(records: Seq<ExtensionView>, id: Seq<char>, k: int)
    requires
        0 <= k < records.len(),
        records[k].id == id,
        forall|j: int| k < j < records.len() ==> (#[trigger] records[j]).id != id,
    ensures
        index_by_id(records).contains_key(id),
        index_by_id(records)[id] == records[k],
    decreases records.len(),
{
    let init = records.drop_last();
    if k < init.len() {
        assert(records[records.len() - 1].id != id);
        assert(init[k] == records[k]);
        assert forall|j: int| k < j < init.len() implies (#[trigger] init[j]).id != id by {
            assert(init[j] == records[j]);
        }
        lemma_index_last(init, id, k);
    }
}

/// Every record in the index is filed under its own id.
pub proof fn lemma_index_keyed(records: Seq<ExtensionView>, id: Seq<char>)
    requires
        index_by_id(records).contains_key(id),
    ensures
        index_by_id(records)[id].id == id,
    decreases records.len(),
{
    if records.len() > 0 && records.last().id != id {
        lemma_index_keyed(records.drop_last(), id);
    }
}

/// Putting a record before a list changes the index only where the list
/// has no record of its id: a later record of an id counts.
pub proof fn lemma_index_prepend(first: ExtensionView, rest: Seq<ExtensionView>)
    ensures
        index_by_id(seq![first] + rest) == if index_by_id(rest).contains_key(first.id) {
            index_by_id(rest)
        } else {
            index_by_id(rest).insert(first.id, first)
        },
    decreases rest.len(),
{
    let all = seq![first] + rest;
    if rest.len() == 0 {
        reveal_with_fuel(index_by_id, 2);
        assert(all.drop_last() =~= Seq::empty());
        assert(all.last() == first);
        assert(index_by_id(all) =~= index_by_id(rest).insert(first.id, first));
    } else {
        let init = rest.drop_last();
        assert(all.drop_last() =~= seq![first] + init);
        assert(all.last() == rest.last());
        lemma_index_prepend(first, init);
        assert(index_by_id(all) =~= if index_by_id(rest).contains_key(first.id) {
            index_by_id(rest)
        } else {
            index_by_id(rest).insert(first.id, first)
        });
    }
}

/// The values of a map of records.
pub open spec fn record_views(records: Map<Seq<char>, Extension>) -> Map<Seq<char>, ExtensionView> {
    records.map_values(|e: Extension| e@)
}

/// A snapshot of the extension registry: a hash map from id to record.
///
/// Readers look records up by id; a writer replaces the whole snapshot and
/// never changes a record in place.
pub struct ExtensionRegistry {
    records: vstd::hash_map::StringHashMap<Extension>,
}

impl View for ExtensionRegistry {
    type V = Map<Seq<char>, ExtensionView>;

    closed spec fn view(&self) -> Map<Seq<char>, ExtensionView> {
        record_views(self.records@)
    }
}

impl ExtensionRegistry {
    /// A registry without records.
    pub fn new() -> (registry: ExtensionRegistry)
        ensures
            registry@ == Map::<Seq<char>, ExtensionView>::empty(),
    {
        let registry = ExtensionRegistry { records: vstd::hash_map::StringHashMap::new() };
        assert(registry@ =~= Map::<Seq<char>, ExtensionView>::empty());
        registry
    }

    /// The registry that holds `records`, each filed under its id; where an
    /// id occurs more than once, its last record counts.
    pub fn from_records(records: Vec<Extension>) -> (registry: ExtensionRegistry)
        ensures
            registry@ == index_by_id(records_view(records@)),
    {
        let ghost all = records_view(records@);
        let mut rest = records;
        let mut map: vstd::hash_map::StringHashMap<Extension> =
            vstd::hash_map::StringHashMap::new();
        assert(all.skip(all.len() as int) =~= Seq::empty());
        assert(record_views(map@) =~= index_by_id(all.skip(all.len() as int)));
        while rest.len() > 0
            invariant
                rest@.len() <= all.len(),
                records_view(rest@) == all.take(rest@.len() as int),
                record_views(map@) == index_by_id(all.skip(rest@.len() as int)),
            decreases rest@.len(),
        {
            let ghost before = rest@;
            let ghost tail = all.skip(before.len() as int);
            let record = rest.pop().unwrap();
            proof {
                assert(records_view(before)[before.len() - 1] == record@);
                assert(all[before.len() - 1] == record@);
                assert(all.skip(before.len() - 1) =~= seq![record@] + tail);
                lemma_index_prepend(record@, tail);
                assert(records_view(rest@) =~= all.take(rest@.len() as int));
            }
            if !map.contains_key(record.id.as_str()) {
                let ghost old_map = map@;
                map.insert(record.id.clone(), record);
                assert(record_views(map@) =~= record_views(old_map).insert(record@.id, record@));
            }
        }
        assert(all.skip(0) =~= all);
        ExtensionRegistry { records: map }
    }

    /// The record that is filed under `id`.
    pub fn lookup(&self, id: &str) -> (found: Option<&Extension>)
        ensures
            match found {
                Some(record) => self@.contains_key(id@) && self@[id@] == record@,
                None => !self@.contains_key(id@),
            },
    {
        self.records.get(id)
    }

    /// How many ids the snapshot holds.
    pub fn len(&self) -> (count: usize)
        ensures
            count == self@.dom().len(),
    {
        assert(self@.dom() =~= self.records@.dom());
        self.records.len()
    }

    /// Replaces the whole snapshot by `records`: nothing of the old snapshot
    /// stays. The new snapshot is handed over as it is, so the replacement
    /// takes the same time whatever the size of either snapshot.
    pub fn replace_all(&mut self, records: ExtensionRegistry)
        ensures
            final(self)@ == records@,
    {
        *self = records;
    }
}

/// The number of seconds between two refreshes, unless configured otherwise.
pub const DEFAULT_REFRESH_SECONDS: u64 = 1200;

/// What a refresh did.
#[derive(Debug)]
pub enum RefreshReport {
    /// The snapshot was replaced; the new one holds this many ids.
    Refreshed(usize),
    /// The load failed and the old snapshot stays; the reason is the store's.
    Failed(String),
}

impl ExtensionRegistry {
    /// Ends one tick of the refresh: a load that succeeded replaces the
    /// whole snapshot, one that failed leaves the registry as it was.
    pub fn apply_refresh(&mut self, loaded: Result<ExtensionRegistry, LoadError>) -> (report:
        RefreshReport)
        ensures
            match loaded {
                Ok(fresh) => final(self)@ == fresh@ && report == RefreshReport::Refreshed(
                    fresh@.dom().len() as usize,
                ),
                Err(e) => final(self)@ == old(self)@ && report is Failed && report->Failed_0@
                    == e.reason@,
            },
    {
        match loaded {
            Ok(fresh) => {
                let count = fresh.len();
                self.replace_all(fresh);
                RefreshReport::Refreshed(count)
            },
            Err(e) => RefreshReport::Failed(e.reason),
        }
    }
}

/// The registry that holds `items`.
pub fn init_from_dynamodb(items: Vec<Extension>) -> (registry: ExtensionRegistry)
    ensures
        registry@ == index_by_id(records_view(items@)),
{
    ExtensionRegistry::from_records(items)
}

} // verus!
