//! The hash table that holds the cells of a namespace.
//!
//! The table is `hashbrown`'s map, reached only through its raw-entry
//! interface: every probe and every insertion is handed the hash of the scope,
//! so the table never hashes a scope that a caller has already hashed. Nothing
//! in this file is proved; each contract restates what `hashbrown` documents.
use vstd::prelude::*;
use crate::cache_cell::{CacheCell, CellView};
use crate::key_miss::{hash_of_scope, same_scope, scope_hash};
use crate::model::{marked, swept, Cells};

verus! {

/// A `hashbrown::HashMap` from scope to cell, built without a hasher of its
/// own. Only the functions of this file touch the map, and each of them files
/// a cell under `hash_of_scope` of its scope.
#[verifier::external_body]
pub struct CellTable {
    inner: hashbrown::HashMap<u64, CacheCell, ()>,
}

/// What a table holds: the view of the cell filed under each scope.
pub uninterp spec fn cells(table: CellTable) -> Map<u64, CellView>;

/// The contents of a table that holds nothing.
pub open spec fn no_cells() -> Cells {
    Map::empty()
}

/// `m` holds finitely many cells, and `size` is their number.
pub open spec fn counted(m: Cells, size: usize) -> bool {
    m.dom().finite() && m.dom().len() == size
}

/// `HashMap::with_hasher`: the map it returns is empty.
#[verifier::external_body]
pub(crate) fn new_table() -> (table: CellTable)
    ensures
        cells(table) == no_cells(),
{
    CellTable { inner: hashbrown::HashMap::with_hasher(()) }
}

/// `HashMap::len`: the number of scopes that have a cell.
#[verifier::external_body]
pub(crate) fn count(table: &CellTable) -> (size: usize)
    ensures
        counted(cells(*table), size),
{
    table.inner.len()
}

/// `RawEntryBuilder::from_hash` with equality on the scope: a probe with the
/// scope's hash returns the cell filed under the scope, if there is one.
#[verifier::external_body]
pub(crate) fn find(table: &CellTable, hash: u64, key: u64) -> (found: Option<&CacheCell>)
    requires
        hash == hash_of_scope(key),
    ensures
        match found {
            Some(cell) => cells(*table).contains_key(key) && cell@ == cells(*table)[key],
            None => !cells(*table).contains_key(key),
        },
{
    match table.inner.raw_entry().from_hash(hash, |q| same_scope(q, key)) {
        Some((_, cell)) => Some(cell),
        None => None,
    }
}

/// `RawEntryBuilderMut::from_hash` with equality on the scope, followed by
/// `RawOccupiedEntryMut::into_mut`: a probe with the scope's hash returns the
/// cell filed under the scope for writing, if there is one. What the caller
/// leaves in the cell is what the table holds afterwards; no other scope is
/// touched.
#[verifier::external_body]
pub(crate) fn find_mut(table: &mut CellTable, hash: u64, key: u64) -> (found: Option<&mut CacheCell>)
    requires
        hash == hash_of_scope(key),
    ensures
        match found {
            Some(cell) => {
                &&& cells(*old(table)).contains_key(key)
                &&& cell@ == cells(*old(table))[key]
                &&& cells(*final(table)) == cells(*old(table)).insert(key, final(cell)@)
            },
            None => {
                &&& !cells(*old(table)).contains_key(key)
                &&& cells(*final(table)) == cells(*old(table))
            },
        },
{
    match table.inner.raw_entry_mut().from_hash(hash, |q| same_scope(q, key)) {
        hashbrown::hash_map::RawEntryMut::Occupied(entry) => Some(entry.into_mut()),
        hashbrown::hash_map::RawEntryMut::Vacant(_) => None,
    }
}

/// `RawEntryBuilderMut::from_hash`, then `RawVacantEntryMut::insert_with_hasher`
/// on a vacant entry or `RawOccupiedEntryMut::insert` on an occupied one:
/// afterwards the scope holds `cell`, and every other scope holds what it held.
/// The hasher handed over for a regrowth is `scope_hash`.
#[verifier::external_body]
pub(crate) fn insert_hashed(table: &mut CellTable, hash: u64, key: u64, cell: CacheCell)
    requires
        hash == hash_of_scope(key),
    ensures
        cells(*final(table)) == cells(*old(table)).insert(key, cell@),
{
    match table.inner.raw_entry_mut().from_hash(hash, |q| same_scope(q, key)) {
        hashbrown::hash_map::RawEntryMut::Occupied(mut entry) => {
            entry.insert(cell);
        },
        hashbrown::hash_map::RawEntryMut::Vacant(entry) => {
            entry.insert_with_hasher(hash, key, cell, |q| scope_hash(*q));
        },
    }
}

/// `HashMap::values_mut`, with `CacheCell::update_liveness` run on every
/// value: each cell is replaced by what that function makes of it.
#[verifier::external_body]
pub(crate) fn mark_each(table: &mut CellTable)
    ensures
        cells(*final(table)) == marked(cells(*old(table))),
{
    table.inner.values_mut().for_each(|cell| cell.update_liveness());
}

/// `HashMap::retain`, with `CacheCell::retire` as the predicate: the cells
/// for which it returns `true` stay, as it left them, and the others go.
#[verifier::external_body]
pub(crate) fn retain_live(table: &mut CellTable)
    ensures
        cells(*final(table)) == swept(cells(*old(table))),
{
    table.inner.retain(|_, cell| cell.retire());
}

/// `HashMap::keys`, copied out: every scope that has a cell, once, in the
/// order in which the table happens to hold them.
#[verifier::external_body]
pub(crate) fn list_keys(table: &CellTable) -> (keys: Vec<u64>)
    ensures
        keys@.no_duplicates(),
        keys@.to_set() == cells(*table).dom(),
{
    table.inner.keys().copied().collect()
}

} // verus!
