//! The table of client records, kept in a hash map with the Fx hasher.
//!
//! The map itself is not verified. This file states what its operations do to
//! the table's contents, and everything else in the crate reasons from these
//! statements alone.

use vstd::prelude::*;
use rustc_hash::FxHashMap;
use crate::dos::DosRecord;

verus! {

/// The builder of the hasher that the table's map uses.
#[verifier::external_type_specification]
#[verifier::external_body]
pub struct ExFxBuildHasher(rustc_hash::FxBuildHasher);

/// What a table holds: for each client in it, that client's record.
pub uninterp spec fn table_records(table: FxHashMap<String, DosRecord>) -> Map<
    Seq<char>,
    DosRecord,
>;

/// The contents of a table in which no client has been seen.
pub open spec fn no_records() -> Map<Seq<char>, DosRecord> {
    Map::empty()
}

/// The identities in a list of client names.
pub open spec fn identities(clients: Seq<String>) -> Seq<Seq<char>> {
    clients.map_values(|name: String| name@)
}

/// `FxHashMap::default`: a new map holds no entry.
#[verifier::external_body]
pub(crate) fn table_empty() -> (table: FxHashMap<String, DosRecord>)
    ensures
        table_records(table) == no_records(),
{
    FxHashMap::default()
}

/// `HashMap::get`: the value stored under the key, if the key is present.
#[verifier::external_body]
pub(crate) fn table_get(table: &FxHashMap<String, DosRecord>, client: &str) -> (record: Option<
    DosRecord,
>)
    ensures
        record == if table_records(*table).contains_key(client@) {
            Some(table_records(*table)[client@])
        } else {
            None
        },
{
    table.get(client).copied()
}

/// `HashMap::insert`: afterwards the key maps to the value, whether or not it
/// was present before, and no other entry has changed.
#[verifier::external_body]
pub(crate) fn table_insert(
    table: &mut FxHashMap<String, DosRecord>,
    client: &str,
    record: DosRecord,
)
    ensures
        table_records(*final(table)) == table_records(*old(table)).insert(client@, record),
{
    table.insert(client.to_string(), record);
}

/// `HashMap::remove`: afterwards the key is absent, and no other entry has
/// changed.
#[verifier::external_body]
pub(crate) fn table_remove(table: &mut FxHashMap<String, DosRecord>, client: &str)
    ensures
        table_records(*final(table)) == table_records(*old(table)).remove(client@),
{
    table.remove(client);
}

/// `HashMap::keys`: every key of the map once, in an order that is not
/// specified.
#[verifier::external_body]
pub(crate) fn table_clients(table: &FxHashMap<String, DosRecord>) -> (clients: Vec<String>)
    ensures
        identities(clients@).no_duplicates(),
        identities(clients@).to_set() == table_records(*table).dom(),
{
    table.keys().cloned().collect()
}

/// `HashMap::len`: the number of entries.
#[verifier::external_body]
pub(crate) fn table_len(table: &FxHashMap<String, DosRecord>) -> (count: usize)
    ensures
        count == table_records(*table).dom().len(),
{
    table.len()
}

} // verus!
