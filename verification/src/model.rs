//! The cache as a mathematical map from scope to cell, and what each
//! operation makes of it.
use vstd::prelude::*;
use crate::cache_cell::CellView;
use crate::dep_node::{DepNodeView, Dependent, Liveness};
use crate::key_miss::{hash_of_scope, KeyMissView};

verus! {

/// The contents of a namespace.
pub type Cells = Map<u64, CellView>;

/// Every cell's node has the cell's scope as its identity.
pub open spec fn identified(m: Cells) -> bool {
    forall|k: u64| #[trigger] m.contains_key(k) ==> m[k].id == k
}

/// A lookup of `key` with `input` finds an output: the scope has a cell, and
/// the cell was stored with that input.
pub open spec fn hit(m: Cells, key: u64, input: Seq<u8>) -> bool {
    m.contains_key(key) && m[key].input == input
}

/// The contents after a lookup of `key` with `input` on behalf of
/// `dependent`: a hit registers the dependent, a miss changes nothing.
pub open spec fn after_get(m: Cells, key: u64, input: Seq<u8>, dependent: Dependent) -> Cells {
    if hit(m, key, input) {
        m.insert(key, m[key].after_get(dependent))
    } else {
        m
    }
}

/// The miss that a failed lookup of `key` on behalf of `dependent` returns.
/// For a scope with a cell it names the cell's node; for a scope without one
/// it brings a fresh node on which the dependent is registered.
pub open spec fn miss_of(m: Cells, key: u64, dependent: Dependent) -> KeyMissView {
    KeyMissView {
        key,
        hash: Some(hash_of_scope(key)),
        dependent: Dependent::to_node(key),
        node: if m.contains_key(key) {
            None
        } else {
            Some(DepNodeView { id: key, dependents: seq![dependent] })
        },
    }
}

/// A miss can be stored into `m`: it brings a node exactly if its scope has
/// no cell.
pub open spec fn storable(m: Cells, miss: KeyMissView) -> bool {
    m.contains_key(miss.key) <==> miss.node is None
}

/// The cell that a store leaves under the scope of `miss`.
pub open spec fn stored_cell(m: Cells, miss: KeyMissView, input: Seq<u8>, output: Seq<u8>) -> CellView {
    if m.contains_key(miss.key) {
        m[miss.key].after_store(input, output, miss.dependent)
    } else {
        CellView {
            input,
            output,
            liveness: Liveness::Dead,
            id: miss.node.unwrap().id,
            dependents: miss.node.unwrap().dependents,
        }
    }
}

/// The contents after `input` and `output` were stored through `miss`.
pub open spec fn after_store(m: Cells, miss: KeyMissView, input: Seq<u8>, output: Seq<u8>) -> Cells {
    m.insert(miss.key, stored_cell(m, miss, input, output))
}

/// The contents after a mark: every cell has its liveness recomputed.
pub open spec fn marked(m: Cells) -> Cells {
    Map::new(|k: u64| m.contains_key(k), |k: u64| m[k].after_mark())
}

/// The contents after a sweep: the cells that the mark found live, each
/// demoted for the next pass.
pub open spec fn swept(m: Cells) -> Cells {
    Map::new(
        |k: u64| m.contains_key(k) && m[k].liveness == Liveness::Live,
        |k: u64| m[k].after_sweep(),
    )
}

} // verus!
