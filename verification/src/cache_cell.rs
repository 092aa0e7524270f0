//! Per-scope storage: the last input, the output computed from it, and the
//! evidence that the pair is still in use.
use vstd::prelude::*;
use crate::dep_node::{DepNode, Dependent, Liveness};

verus! {

/// The mathematical content of a [`CacheCell`].
pub struct CellView {
    /// The input that the stored output was computed from.
    pub input: Seq<u8>,
    /// The stored output.
    pub output: Seq<u8>,
    /// What the last mark concluded.
    pub liveness: Liveness,
    /// The identity of the cell's dependency node.
    pub id: u64,
    /// The callers that registered against the cell since the last sweep.
    pub dependents: Seq<Dependent>,
}

impl CellView {
    /// The cell after a lookup with a matching input registered `dependent`.
    pub open spec fn after_get(self, dependent: Dependent) -> CellView {
        CellView { dependents: self.dependents.push(dependent), ..self }
    }

    /// The cell after `input` and `output` were stored on behalf of `dependent`.
    pub open spec fn after_store(
        self,
        input: Seq<u8>,
        output: Seq<u8>,
        dependent: Dependent,
    ) -> CellView {
        CellView {
            input,
            output,
            liveness: Liveness::Dead,
            id: self.id,
            dependents: self.dependents.push(dependent),
        }
    }

    /// Whether a mark finds the cell in use: some caller registered against
    /// it since the last sweep.
    pub open spec fn is_needed(self) -> bool {
        self.dependents.len() > 0
    }

    /// The cell after a mark.
    pub open spec fn after_mark(self) -> CellView {
        CellView {
            liveness: if self.is_needed() {
                Liveness::Live
            } else {
                Liveness::Dead
            },
            ..self
        }
    }

    /// The cell as a sweep leaves it when it keeps it: not yet proven live,
    /// with no registrations.
    pub open spec fn after_sweep(self) -> CellView {
        CellView { liveness: Liveness::Dead, dependents: Seq::empty(), ..self }
    }
}

/// Whether two byte strings hold the same bytes.
pub fn same_bytes(a: &Vec<u8>, b: &Vec<u8>) -> (same: bool)
    ensures
        same == (a@ == b@),
{
    if a.len() != b.len() {
        return false;
    }
    let mut i: usize = 0;
    while i < a.len()
        invariant
            i <= a.len(),
            a.len() == b.len(),
            forall|j: int| 0 <= j < i ==> a@[j] == b@[j],
        decreases a.len() - i,
    {
        if a[i] != b[i] {
            return false;
        }
        i += 1;
    }
    assert(a@ =~= b@);
    true
}

/// The cached value of one scope.
#[derive(Debug)]
pub struct CacheCell {
    input: Vec<u8>,
    output: Vec<u8>,
    liveness: Liveness,
    dep: DepNode,
}

impl View for CacheCell {
    type V = CellView;

    closed spec fn view(&self) -> CellView {
        CellView {
            input: self.input@,
            output: self.output@,
            liveness: self.liveness,
            id: self.dep@.id,
            dependents: self.dep@.dependents,
        }
    }
}

impl CacheCell {
    /// A cell that holds `input` and `output` and takes over `node` with the
    /// registrations already recorded against it.
    pub fn new(input: Vec<u8>, output: Vec<u8>, node: DepNode) -> (cell: CacheCell)
        ensures
            cell@ == (CellView {
                input: input@,
                output: output@,
                liveness: Liveness::Dead,
                id: node@.id,
                dependents: node@.dependents,
            }),
    {
        CacheCell { input, output, liveness: Liveness::Dead, dep: node }
    }

    /// Looks the cell up with `input`.
    ///
    /// Where `input` is the stored input, `dependent` is registered against the
    /// cell and the stored output is returned. Otherwise the cell is left as it
    /// was and its own handle is returned, under which a fresh output can be
    /// stored without replacing the node.
    pub fn get(&mut self, input: &Vec<u8>, dependent: Dependent) -> (r: Result<&Vec<u8>, Dependent>)
        ensures
            match r {
                Ok(output) => {
                    &&& old(self)@.input == input@
                    &&& output@ == old(self)@.output
                    &&& final(self)@ == old(self)@.after_get(dependent)
                },
                Err(own) => {
                    &&& old(self)@.input != input@
                    &&& own == Dependent::to_node(old(self)@.id)
                    &&& final(self)@ == old(self)@
                },
            },
    {
        if same_bytes(input, &self.input) {
            self.dep.root(dependent);
            Ok(&self.output)
        } else {
            Err(self.dep.as_dependent())
        }
    }

    /// Replaces the stored input and output, registers `dependent`, and
    /// starts over as not yet proven live. The node stays the same.
    pub fn store(&mut self, input: Vec<u8>, output: Vec<u8>, dependent: Dependent)
        ensures
            final(self)@ == old(self)@.after_store(input@, output@, dependent),
    {
        self.dep.root(dependent);
        self.input = input;
        self.output = output;
        self.liveness = Liveness::Dead;
    }

    /// Records whether any caller registered against the cell since the last
    /// sweep.
    pub fn update_liveness(&mut self)
        ensures
            final(self)@ == old(self)@.after_mark(),
    {
        if self.dep.is_needed() {
            self.liveness = Liveness::Live;
        } else {
            self.liveness = Liveness::Dead;
        }
    }

    /// What the last mark concluded.
    pub fn liveness(&self) -> (l: Liveness)
        ensures
            l == self@.liveness,
    {
        self.liveness
    }

    /// Demotes the cell to not yet proven live and forgets its registrations.
    pub fn mark_dead(&mut self)
        ensures
            final(self)@ == old(self)@.after_sweep(),
    {
        self.liveness = Liveness::Dead;
        self.dep.release();
    }

    /// The sweep's decision on this cell: reports whether the last mark found
    /// it live, and demotes it for the next pass either way.
    pub fn retire(&mut self) -> (keep: bool)
        ensures
            keep == (old(self)@.liveness == Liveness::Live),
            final(self)@ == old(self)@.after_sweep(),
    {
        let keep = self.liveness == Liveness::Live;
        self.mark_dead();
        keep
    }

    /// The handle of the cell's own node.
    pub fn dependent(&self) -> (d: Dependent)
        ensures
            d == Dependent::to_node(self@.id),
    {
        self.dep.as_dependent()
    }
}

} // verus!
