//! The two phases of collection, and the point at which several stores are
//! collected together.
use vstd::prelude::*;
use crate::model::{marked, swept, Cells};

verus! {

/// What a store of cells offers to the collector.
///
/// One pass of the surrounding computation ends with one `mark` and then one
/// `sweep` of every store, with no lookup in between.
pub trait Gc {
    /// The store's own invariant.
    spec fn valid(&self) -> bool;

    /// The cells that the store holds, by scope.
    spec fn contents(&self) -> Cells;

    /// Recomputes the liveness of every cell from the registrations made
    /// since the last sweep.
    fn mark(&mut self)
        requires
            old(self).valid(),
        ensures
            final(self).valid(),
            final(self).contents() == marked(old(self).contents()),
    ;

    /// Keeps the cells that the last mark found live, demoted for the next
    /// pass, and drops the others.
    fn sweep(&mut self)
        requires
            old(self).valid(),
        ensures
            final(self).valid(),
            final(self).contents() == swept(old(self).contents()),
    ;
}

/// What one whole collection, a mark and then a sweep, makes of a store's
/// cells.
pub open spec fn collected(m: Cells) -> Cells {
    swept(marked(m))
}

/// Ends a pass: marks every store, then sweeps every store.
pub fn collect<G: Gc>(stores: &mut Vec<G>)
    requires
        forall|i: int| 0 <= i < old(stores)@.len() ==> (#[trigger] old(stores)@[i]).valid(),
    ensures
        final(stores)@.len() == old(stores)@.len(),
        forall|i: int|
            0 <= i < old(stores)@.len() ==> {
                &&& (#[trigger] final(stores)@[i]).valid()
                &&& final(stores)@[i].contents() == collected(old(stores)@[i].contents())
            },
{
    let ghost before = stores@;
    let n: usize = stores.len();
    let mut i: usize = 0;
    while i < n
        invariant
            i <= n,
            n == stores@.len(),
            n == before.len(),
            forall|j: int| 0 <= j < n ==> (#[trigger] stores@[j]).valid(),
            forall|j: int| 0 <= j < i ==> (#[trigger] stores@[j]).contents() == marked(before[j].contents()),
            forall|j: int| i <= j < n ==> (#[trigger] stores@[j]).contents() == before[j].contents(),
        decreases n - i,
    {
        stores[i].mark();
        i += 1;
    }
    let mut i: usize = 0;
    while i < n
        invariant
            i <= n,
            n == stores@.len(),
            n == before.len(),
            forall|j: int| 0 <= j < n ==> (#[trigger] stores@[j]).valid(),
            forall|j: int| 0 <= j < i ==> (#[trigger] stores@[j]).contents() == collected(before[j].contents()),
            forall|j: int| i <= j < n ==> (#[trigger] stores@[j]).contents() == marked(before[j].contents()),
        decreases n - i,
    {
        stores[i].sweep();
        i += 1;
    }
}

} // verus!
