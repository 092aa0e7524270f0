//! The cache of one kind of query: a map from scope to cell, with the lookup
//! and store protocol that hashes a scope once, and the two phases of
//! collection.
use vstd::prelude::*;
use crate::cache_cell::CacheCell;
use crate::dep_node::{DepNode, Dependent};
use crate::gc::Gc;
use crate::key_miss::{Hashed, KeyMiss};
use crate::model::{after_get, after_store, hit, identified, miss_of, storable, Cells};
use crate::table::{cells, count, find, find_mut, insert_hashed, list_keys, mark_each, new_table, no_cells, retain_live, CellTable};

verus! {

/// All cached values of one kind of query.
pub struct Namespace {
    inner: CellTable,
}

impl View for Namespace {
    type V = Cells;

    closed spec fn view(&self) -> Cells {
        cells(self.inner)
    }
}

impl Namespace {
    /// Every cell's node is identified by the cell's scope.
    pub open spec fn wf(&self) -> bool {
        identified(self@)
    }

    /// An empty namespace.
    pub fn new() -> (ns: Namespace)
        ensures
            ns.wf(),
            ns@ == no_cells(),
    {
        Namespace { inner: new_table() }
    }

    /// Hashes `key` for a probe of this namespace.
    pub fn hashed(&self, key: u64) -> (h: Hashed)
        ensures
            h.wf(),
            h.spec_key() == key,
    {
        Hashed::new(key)
    }

    /// The cell filed under an already hashed scope, if there is one.
    pub fn entry(&self, hashed: &Hashed) -> (found: Option<&CacheCell>)
        requires
            hashed.wf(),
        ensures
            match found {
                Some(cell) => self@.contains_key(hashed.spec_key()) && cell@ == self@[hashed.spec_key()],
                None => !self@.contains_key(hashed.spec_key()),
            },
    {
        find(&self.inner, hashed.hash(), hashed.key())
    }

    /// The cell filed under an already hashed scope, for writing. What the
    /// caller leaves in the cell is what the namespace holds afterwards.
    fn entry_mut(&mut self, hashed: &Hashed) -> (found: Option<&mut CacheCell>)
        requires
            hashed.wf(),
        ensures
            match found {
                Some(cell) => {
                    &&& old(self)@.contains_key(hashed.spec_key())
                    &&& cell@ == old(self)@[hashed.spec_key()]
                    &&& final(self)@ == old(self)@.insert(hashed.spec_key(), final(cell)@)
                },
                None => !old(self)@.contains_key(hashed.spec_key()) && final(self)@ == old(self)@,
            },
    {
        find_mut(&mut self.inner, hashed.hash(), hashed.key())
    }

    /// The number of scopes that have a cell.
    pub fn len(&self) -> (n: usize)
        ensures
            self@.dom().finite(),
            n == self@.dom().len(),
    {
        count(&self.inner)
    }

    /// Whether `key` has a cell, whatever input it was stored with.
    pub fn contains(&self, key: u64) -> (present: bool)
        ensures
            present == self@.contains_key(key),
    {
        let hashed = self.hashed(key);
        self.entry(&hashed).is_some()
    }

    /// Whether the node that `dependent` names still exists in this
    /// namespace. A handle does not keep its node: once the cell is swept,
    /// the handle names nothing.
    pub fn resolves(&self, dependent: Dependent) -> (found: bool)
        ensures
            found == (dependent.target matches Some(k) && self@.contains_key(k)),
    {
        match dependent.target {
            Some(k) => self.contains(k),
            None => false,
        }
    }

    /// The scopes that have a cell, each once, in no particular order.
    pub fn scopes(&self) -> (keys: Vec<u64>)
        ensures
            keys@.no_duplicates(),
            keys@.to_set() == self@.dom(),
    {
        list_keys(&self.inner)
    }

    /// Looks up the output stored for `key` and `input`, on behalf of
    /// `dependent`.
    ///
    /// The scope is hashed once. On a hit the dependent is registered against
    /// the cell and the stored output is returned. On a miss nothing changes,
    /// and the token returned carries the hash and a dependency identity for
    /// the store that is to follow: the cell's own where the scope has a cell
    /// with another input, a fresh node rooted under `dependent` where it has
    /// none.
    pub fn get(&mut self, key: u64, input: &Vec<u8>, dependent: Dependent) -> (r: Result<&Vec<u8>, KeyMiss>)
        requires
            old(self).wf(),
        ensures
            final(self).wf(),
            final(self)@ == after_get(old(self)@, key, input@, dependent),
            match r {
                Ok(output) => hit(old(self)@, key, input@) && output@ == old(self)@[key].output,
                Err(miss) => !hit(old(self)@, key, input@) && miss@ == miss_of(
                    old(self)@,
                    key,
                    dependent,
                ),
            },
    {
        let hashed = self.hashed(key);
        match self.entry_mut(&hashed) {
            Some(cell) => match cell.get(input, dependent) {
                Ok(output) => Ok(output),
                Err(own) => Err(KeyMiss::hashed(hashed, None, own)),
            },
            None => {
                let mut node = DepNode::new(key);
                node.root(dependent);
                let own = node.as_dependent();
                proof {
                    assert(node@.dependents =~= seq![dependent]);
                }
                Err(KeyMiss::hashed(hashed, Some(node), own))
            },
        }
    }

    /// Commits `input` and `output` under the scope of `miss`.
    ///
    /// The hash is taken from the miss, or computed where the miss was made
    /// from a bare key. Where the scope has a cell, the cell's input and
    /// output are overwritten and the miss's handle is registered; the cell's
    /// node stays. Where it has none, a new cell takes over the node that the
    /// miss brings. A miss that brings a node for a scope that already has a
    /// cell, or none for a scope without one, is a bookkeeping error and is
    /// not accepted.
    pub fn store(&mut self, miss: KeyMiss, input: Vec<u8>, output: Vec<u8>)
        requires
            old(self).wf(),
            miss@.wf(),
            storable(old(self)@, miss@),
        ensures
            final(self).wf(),
            final(self)@ == after_store(old(self)@, miss@, input@, output@),
    {
        let (hashed, dependent, node) = miss.into_parts();
        match self.entry_mut(&hashed) {
            Some(cell) => {
                cell.store(input, output, dependent);
            },
            None => {
                if let Some(fresh) = node {
                    insert_hashed(
                        &mut self.inner,
                        hashed.hash(),
                        hashed.key(),
                        CacheCell::new(input, output, fresh),
                    );
                }
            },
        }
    }

    /// Stores through `miss` where the miss fits the namespace as it is now,
    /// and hands the miss back untouched where it does not: where it brings a
    /// node for a scope that has a cell by now, or none for a scope whose cell
    /// is gone.
    pub fn try_store(&mut self, miss: KeyMiss, input: Vec<u8>, output: Vec<u8>) -> (r: Result<(), KeyMiss>)
        requires
            old(self).wf(),
            miss@.wf(),
        ensures
            final(self).wf(),
            match r {
                Ok(_) => storable(old(self)@, miss@) && final(self)@ == after_store(
                    old(self)@,
                    miss@,
                    input@,
                    output@,
                ),
                Err(back) => !storable(old(self)@, miss@) && back@ == miss@ && final(self)@ == old(self)@,
            },
    {
        let hashed = miss.hashed_key();
        let present = self.entry(&hashed).is_some();
        if present == miss.has_fresh_node() {
            return Err(miss);
        }
        self.store(miss, input, output);
        Ok(())
    }
}

impl Default for Namespace {
    /// An empty namespace.
    fn default() -> (ns: Namespace)
        ensures
            ns.wf(),
            ns@ == no_cells(),
    {
        Namespace::new()
    }
}

impl Gc for Namespace {
    open spec fn valid(&self) -> bool {
        self.wf()
    }

    open spec fn contents(&self) -> Cells {
        self@
    }

    /// Recomputes the liveness of every cell from the registrations made
    /// since the last sweep.
    fn mark(&mut self) {
        mark_each(&mut self.inner);
    }

    /// Drops every cell that the last mark did not find live, and demotes
    /// the others for the next pass.
    fn sweep(&mut self) {
        retain_live(&mut self.inner);
    }
}

} // verus!
