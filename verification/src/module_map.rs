//! Module records and the cache that holds them.
//!
//! The cache maps the path of a file to the record that was built from it.
//! It is written once per path: a record that is in the cache stays there and
//! is never replaced. That a path is in the cache is the sign that the file
//! has been handled.

use dashmap::DashMap;
use std::sync::Arc;
use vstd::prelude::*;

verus! {

/// What parsing a file leaves behind for the traversal: the specifiers that
/// the file imports or requires, in the order in which they first occur.
#[derive(Debug)]
pub struct ModuleRecord {
    pub module_requests: Vec<String>,
}

impl DeepView for ModuleRecord {
    type V = Seq<Seq<char>>;

    open spec fn deep_view(&self) -> Seq<Seq<char>> {
        self.module_requests.deep_view()
    }
}

impl ModuleRecord {
    /// The record of a file with the module requests `module_requests`.
    pub fn new(module_requests: Vec<String>) -> (record: ModuleRecord)
        ensures
            record.deep_view() == module_requests.deep_view(),
    {
        ModuleRecord { module_requests }
    }
}

#[verifier::external_type_specification]
#[verifier::external_body]
#[verifier::reject_recursive_types(K)]
#[verifier::reject_recursive_types(V)]
#[verifier::reject_recursive_types(S)]
pub struct ExDashMap<K, V, S>(DashMap<K, V, S>);

/// What a `DashMap` of module records holds: for each path that is a key,
/// the module requests of the record stored under it.
pub uninterp spec fn module_records(map: DashMap<String, Arc<ModuleRecord>>) -> Map<
    Seq<char>,
    Seq<Seq<char>>,
>;

/// The cache that holds no record.
pub open spec fn no_records() -> Map<Seq<char>, Seq<Seq<char>>> {
    Map::empty()
}

/// `DashMap::new`: a map without entries.
#[verifier::external_body]
fn dashmap_new() -> (created: DashMap<String, Arc<ModuleRecord>>)
    ensures
        module_records(created) == no_records(),
{
    DashMap::new()
}

/// `DashMap::contains_key`: whether the map has an entry for the key.
#[verifier::external_body]
fn dashmap_contains_key(map: &DashMap<String, Arc<ModuleRecord>>, path: &str) -> (found: bool)
    ensures
        found == module_records(*map).dom().contains(path@),
{
    map.contains_key(path)
}

/// `DashMap::get`: the value stored under the key, if there is one. The
/// record is handed out as a second handle to the stored one.
#[verifier::external_body]
fn dashmap_get(map: &DashMap<String, Arc<ModuleRecord>>, path: &str) -> (record: Option<
    Arc<ModuleRecord>,
>)
    ensures
        match record {
            Some(record) => module_records(*map).dom().contains(path@) && record.deep_view()
                == module_records(*map)[path@],
            None => !module_records(*map).dom().contains(path@),
        },
{
    match map.get(path) {
        Some(entry) => Some(Arc::clone(entry.value())),
        None => None,
    }
}

/// `DashMap::insert`: afterwards the map holds the value under the key,
/// whether or not it held one before, and every other entry as it was. The
/// map is borrowed mutably, so nobody else writes to it meanwhile.
#[verifier::external_body]
fn dashmap_insert(map: &mut DashMap<String, Arc<ModuleRecord>>, path: String, record: Arc<ModuleRecord>)
    ensures
        module_records(*final(map)) == module_records(*old(map)).insert(
            path@,
            record.deep_view(),
        ),
{
    map.insert(path, record);
}

/// The cache of module records, keyed by path.
pub struct ModuleMap {
    records: DashMap<String, Arc<ModuleRecord>>,
}

impl View for ModuleMap {
    type V = Map<Seq<char>, Seq<Seq<char>>>;

    closed spec fn view(&self) -> Map<Seq<char>, Seq<Seq<char>>> {
        module_records(self.records)
    }
}

impl ModuleMap {
    /// An empty cache.
    pub fn new() -> (cache: ModuleMap)
        ensures
            cache@ == no_records(),
    {
        ModuleMap { records: dashmap_new() }
    }

    /// Whether the cache holds a record for `path`.
    pub fn contains_key(&self, path: &str) -> (found: bool)
        ensures
            found == self@.dom().contains(path@),
    {
        dashmap_contains_key(&self.records, path)
    }

    /// The record that the cache holds for `path`, if it holds one.
    pub fn get(&self, path: &str) -> (record: Option<Arc<ModuleRecord>>)
        ensures
            match record {
                Some(record) => self@.dom().contains(path@) && record.deep_view() == self@[path@],
                None => !self@.dom().contains(path@),
            },
    {
        dashmap_get(&self.records, path)
    }

    /// Stores `record` for `path` unless the cache holds a record for
    /// `path` already, in which case nothing changes. Returns whether the
    /// record was stored.
    pub fn insert(&mut self, path: &str, record: Arc<ModuleRecord>) -> (stored: bool)
        ensures
            stored == !old(self)@.dom().contains(path@),
            final(self)@ == stored_once(old(self)@, path@, record.deep_view()),
    {
        if dashmap_contains_key(&self.records, path) {
            false
        } else {
            dashmap_insert(&mut self.records, path.to_owned(), record);
            true
        }
    }
}

/// The cache `records` after an attempt to store `record` for `path`: the
/// first record stored for a path stays.
pub open spec fn stored_once(
    records: Map<Seq<char>, Seq<Seq<char>>>,
    path: Seq<char>,
    record: Seq<Seq<char>>,
) -> Map<Seq<char>, Seq<Seq<char>>> {
    if records.dom().contains(path) {
        records
    } else {
        records.insert(path, record)
    }
}

/// Write-once: whatever is stored, every record that was in the cache is
/// still there, unchanged.
pub proof fn lemma_stored_once_keeps(
    records: Map<Seq<char>, Seq<Seq<char>>>,
    path: Seq<char>,
    record: Seq<Seq<char>>,
)
    ensures
        records.submap_of(stored_once(records, path, record)),
        stored_once(records, path, record).dom().contains(path),
        stored_once(records, path, record).dom() == records.dom().insert(path),
{
    assert(stored_once(records, path, record).dom() =~= records.dom().insert(path));
}

} // verus!
