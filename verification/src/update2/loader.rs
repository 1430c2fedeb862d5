//! From the records of the store to the records of the registry.

use crate::text::{
    ends_with, first_value, has_suffix, lemma_first_value, parse_u64, position_of, str_eq,
    unsigned_number,
};
use crate::update2::model::{Extension, ExtensionView, Timestamp};
use crate::update2::registry::records_view;
use vstd::prelude::*;

verus! {

/// A value of the store.
#[derive(Debug)]
pub enum AttributeValue {
    /// A string.
    S(String),
    /// A number, as the store writes it.
    N(String),
    Bool(bool),
    /// A value of any other kind.
    Other,
}

pub enum AttributeValueView {
    S(Seq<char>),
    N(Seq<char>),
    Bool(bool),
    Other,
}

impl View for AttributeValue {
    type V = AttributeValueView;

    open spec fn view(&self) -> AttributeValueView {
        match self {
            AttributeValue::S(s) => AttributeValueView::S(s@),
            AttributeValue::N(n) => AttributeValueView::N(n@),
            AttributeValue::Bool(b) => AttributeValueView::Bool(*b),
            AttributeValue::Other => AttributeValueView::Other,
        }
    }
}

/// A record of the store: fields with their values. Of two fields with one
/// name the first counts.
#[derive(Debug)]
pub struct Item {
    pub fields: Vec<(String, AttributeValue)>,
}

impl View for Item {
    type V = Seq<(Seq<char>, AttributeValueView)>;

    open spec fn view(&self) -> Seq<(Seq<char>, AttributeValueView)> {
        self.fields@.map_values(|f: (String, AttributeValue)| (f.0@, f.1@))
    }
}

/// A field as a string: its value where it is a string, else the empty string.
pub open spec fn string_field(item: Seq<(Seq<char>, AttributeValueView)>, field: Seq<char>) -> Seq<
    char,
> {
    match first_value(item, field) {
        Some(AttributeValueView::S(s)) => s,
        _ => Seq::empty(),
    }
}

/// A field as a boolean: its value where it is a boolean, whether it reads
/// "true" where it is a string, else false.
pub open spec fn bool_field(item: Seq<(Seq<char>, AttributeValueView)>, field: Seq<char>) -> bool {
    match first_value(item, field) {
        Some(AttributeValueView::Bool(b)) => b,
        Some(AttributeValueView::S(s)) => s == "true"@,
        _ => false,
    }
}

/// A field as a number: its value where it is a number or a string of
/// decimal digits that fits in 64 bits, else zero.
pub open spec fn number_field(item: Seq<(Seq<char>, AttributeValueView)>, field: Seq<char>) -> u64 {
    match first_value(item, field) {
        Some(AttributeValueView::N(n)) => match unsigned_number(n) {
            Some(value) => value,
            None => 0,
        },
        Some(AttributeValueView::S(s)) => match unsigned_number(s) {
            Some(value) => value,
            None => 0,
        },
        _ => 0,
    }
}

/// The instant that `chrono` reads from a text in the format of RFC 3339.
pub uninterp spec fn rfc3339_instant(text: Seq<char>) -> Option<Timestamp>;

/// `chrono::DateTime::parse_from_rfc3339`, with the instant as seconds and
/// nanoseconds since 1970. The result is a function of the text alone.
#[verifier::external_body]
fn parse_rfc3339(text: &str) -> (t: Option<Timestamp>)
    ensures
        t == rfc3339_instant(text@),
{
    match chrono::DateTime::parse_from_rfc3339(text) {
        Ok(d) => Some(Timestamp { seconds: d.timestamp(), nanos: d.timestamp_subsec_nanos() }),
        Err(_) => None,
    }
}

/// The instant that a text names, or the origin of the epoch where it
/// names none.
pub open spec fn instant_or_origin(text: Seq<char>) -> Timestamp {
    match rfc3339_instant(text) {
        Some(t) => t,
        None => Timestamp { seconds: 0, nanos: 0 },
    }
}

/// The registry record that a record of the store stands for. A field that
/// is missing or of another kind counts as empty, false or zero, and a time
/// that cannot be read as the origin of the epoch.
pub open spec fn record_of(item: Seq<(Seq<char>, AttributeValueView)>) -> ExtensionView {
    ExtensionView {
        id: string_field(item, "ID"@),
        cohort: string_field(item, "COHORT"@),
        cohortname: string_field(item, "COHORTNAME"@),
        package_name: string_field(item, "NAME"@),
        version: string_field(item, "VERSION"@),
        hash_sha256: string_field(item, "HASH_SHA256"@),
        status: string_field(item, "STATUS"@),
        fp: string_field(item, "FP"@),
        blacklisted: bool_field(item, "BLACKLISTED"@),
        required: bool_field(item, "REQUIRED"@),
        hash: string_field(item, "HASH"@),
        size: number_field(item, "SIZE"@),
        created_at: instant_or_origin(string_field(item, "CREATED_AT"@)),
        update_at: instant_or_origin(string_field(item, "UPDATE_AT"@)),
        patch_list: Seq::empty(),
    }
}

impl Item {
    /// The value of the field `field`.
    pub fn get(&self, field: &str) -> (value: Option<&AttributeValue>)
        ensures
            match value {
                Some(v) => first_value(self@, field@) == Some(v@),
                None => first_value(self@, field@) is None,
            },
    {
        let at = position_of(&self.fields, field);
        proof {
            let views = self@;
            let stop = match at {
                Some(i) => i as int,
                None => views.len() as int,
            };
            assert forall|j: int| 0 <= j < stop implies (#[trigger] views[j]).0 != field@ by {
                assert(views[j].0 == self.fields@[j].0@);
            }
            lemma_first_value(views, field@, stop);
        }
        match at {
            Some(i) => Some(&self.fields[i].1),
            None => None,
        }
    }

    fn flag(&self, field: &str) -> (b: bool)
        ensures
            b == bool_field(self@, field@),
    {
        match self.get(field) {
            Some(AttributeValue::Bool(b)) => *b,
            Some(AttributeValue::S(s)) => str_eq(s.as_str(), "true"),
            _ => false,
        }
    }

    fn number(&self, field: &str) -> (n: u64)
        ensures
            n == number_field(self@, field@),
    {
        match self.get(field) {
            Some(AttributeValue::N(n)) => match parse_u64(n.as_str()) {
                Some(value) => value,
                None => 0,
            },
            Some(AttributeValue::S(s)) => match parse_u64(s.as_str()) {
                Some(value) => value,
                None => 0,
            },
            _ => 0,
        }
    }

    fn instant(&self, field: &str) -> (t: Timestamp)
        ensures
            t == instant_or_origin(string_field(self@, field@)),
    {
        let text = extract_data_from_have_map(field, self);
        match parse_rfc3339(text.as_str()) {
            Some(t) => t,
            None => Timestamp::origin(),
        }
    }
}

/// A field of a record as a string.
pub fn extract_data_from_have_map(field: &str, output: &Item) -> (text: String)
    ensures
        text@ == string_field(output@, field@),
{
    match output.get(field) {
        Some(AttributeValue::S(s)) => s.clone(),
        _ => String::new(),
    }
}

/// A field of a record that may not have been found, as a string.
pub fn extract_data_from_get_item(field: &str, output: &Option<Item>) -> (text: String)
    ensures
        text@ == match output {
            Some(item) => string_field(item@, field@),
            None => Seq::empty(),
        },
{
    match output {
        Some(item) => extract_data_from_have_map(field, item),
        None => String::new(),
    }
}

impl Extension {
    /// The registry record that a record of the store stands for.
    pub fn from_item(item: &Item) -> (record: Extension)
        ensures
            record@ == record_of(item@),
    {
        let record = Extension {
            id: extract_data_from_have_map("ID", item),
            cohort: extract_data_from_have_map("COHORT", item),
            cohortname: extract_data_from_have_map("COHORTNAME", item),
            package_name: extract_data_from_have_map("NAME", item),
            version: extract_data_from_have_map("VERSION", item),
            hash_sha256: extract_data_from_have_map("HASH_SHA256", item),
            status: extract_data_from_have_map("STATUS", item),
            fp: extract_data_from_have_map("FP", item),
            blacklisted: item.flag("BLACKLISTED"),
            required: item.flag("REQUIRED"),
            hash: extract_data_from_have_map("HASH", item),
            size: item.number("SIZE"),
            created_at: item.instant("CREATED_AT"),
            update_at: item.instant("UPDATE_AT"),
            patch_list: Vec::new(),
        };
        assert(record@.patch_list =~= Seq::empty());
        record
    }
}

/// The registry records of a list of store records.
pub open spec fn records_of(items: Seq<Item>) -> Seq<ExtensionView> {
    items.map_values(|item: Item| record_of(item@))
}

/// How far a scan of the whole store has come: the records of the pages
/// that have been read.
pub struct ScanState {
    pub collected: Vec<Extension>,
}

/// What follows a page of a scan.
pub enum ScanStep {
    /// The store has more: ask for the next page.
    More(ScanState),
    /// The store is exhausted: these are all its records.
    Done(Vec<Extension>),
}

impl ScanState {
    /// The state before the first page.
    pub fn new() -> (state: ScanState)
        ensures
            records_view(state.collected@) == Seq::<ExtensionView>::empty(),
    {
        let state = ScanState { collected: Vec::new() };
        assert(records_view(state.collected@) =~= Seq::empty());
        state
    }

    /// Takes in one page. The records of the page follow those of the pages
    /// before it; the scan is done with the first page after which the store
    /// has no more.
    pub fn on_page(self, items: &Vec<Item>, has_more: bool) -> (step: ScanStep)
        ensures
            match step {
                ScanStep::More(state) => has_more && records_view(state.collected@)
                    == records_view(self.collected@) + records_of(items@),
                ScanStep::Done(records) => !has_more && records_view(records@) == records_view(
                    self.collected@,
                ) + records_of(items@),
            },
    {
        let mut collected = self.collected;
        let ghost before = records_view(collected@);
        let mut i: usize = 0;
        assert(records_of(items@).take(0) =~= Seq::empty());
        assert(before + records_of(items@).take(0) =~= before);
        while i < items.len()
            invariant
                i <= items@.len(),
                records_view(collected@) == before + records_of(items@).take(i as int),
            decreases items@.len() - i,
        {
            let ghost so_far = records_view(collected@);
            let record = Extension::from_item(&items[i]);
            collected.push(record);
            assert(records_view(collected@) =~= so_far.push(record@));
            assert(records_of(items@).take(i + 1) =~= records_of(items@).take(i as int).push(
                record_of(items@[i as int]@),
            ));
            assert(records_view(collected@) =~= before + records_of(items@).take(i + 1));
            i += 1;
        }
        assert(records_of(items@).take(i as int) =~= records_of(items@));
        if has_more {
            ScanStep::More(ScanState { collected })
        } else {
            ScanStep::Done(collected)
        }
    }
}


/// An extension as the store lists it: its id, its version and the place of
/// its package.
#[derive(Debug)]
pub struct StoredExtension {
    pub extension_id: String,
    pub version: String,
    pub crx_url: String,
}

pub struct StoredExtensionView {
    pub extension_id: Seq<char>,
    pub version: Seq<char>,
    pub crx_url: Seq<char>,
}

impl View for StoredExtension {
    type V = StoredExtensionView;

    open spec fn view(&self) -> StoredExtensionView {
        StoredExtensionView {
            extension_id: self.extension_id@,
            version: self.version@,
            crx_url: self.crx_url@,
        }
    }
}

pub open spec fn stored_of(item: Seq<(Seq<char>, AttributeValueView)>) -> StoredExtensionView {
    StoredExtensionView {
        extension_id: string_field(item, "extension_id"@),
        version: string_field(item, "version"@),
        crx_url: string_field(item, "crx_url"@),
    }
}

/// The listed extensions whose package is a CRX3 file, in their order.
pub open spec fn listed(items: Seq<Item>) -> Seq<StoredExtensionView>
    decreases items.len(),
{
    if items.len() == 0 {
        Seq::empty()
    } else {
        let before = listed(items.drop_last());
        let last = stored_of(items.last()@);
        if has_suffix(last.crx_url, ".crx3"@) {
            before.push(last)
        } else {
            before
        }
    }
}

/// The extensions that a page of the store lists: those whose package URL
/// ends in `.crx3`.
pub fn get_extensions(items: &Vec<Item>) -> (extensions: Vec<StoredExtension>)
    ensures
        extensions@.map_values(|e: StoredExtension| e@) == listed(items@),
{
    let mut extensions: Vec<StoredExtension> = Vec::new();
    let mut i: usize = 0;
    assert(items@.take(0) =~= Seq::empty());
    assert(extensions@.map_values(|e: StoredExtension| e@) =~= Seq::empty());
    while i < items.len()
        invariant
            i <= items@.len(),
            extensions@.map_values(|e: StoredExtension| e@) == listed(items@.take(i as int)),
        decreases items@.len() - i,
    {
        let ghost before = extensions@.map_values(|e: StoredExtension| e@);
        proof {
            assert(items@.take(i + 1).drop_last() =~= items@.take(i as int));
            assert(items@.take(i + 1).last() == items@[i as int]);
        }
        let extension = StoredExtension {
            extension_id: extract_data_from_have_map("extension_id", &items[i]),
            version: extract_data_from_have_map("version", &items[i]),
            crx_url: extract_data_from_have_map("crx_url", &items[i]),
        };
        if ends_with(extension.crx_url.as_str(), ".crx3") {
            extensions.push(extension);
            assert(extensions@.map_values(|e: StoredExtension| e@) =~= before.push(extension@));
        }
        i += 1;
    }
    assert(items@.take(i as int) =~= items@);
    extensions
}

} // verus!
