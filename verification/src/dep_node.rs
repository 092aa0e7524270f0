//! The vocabulary of the liveness forest: nodes and the handles that name them.
//!
//! A node collects the handles of the callers that needed it since the last
//! sweep. To register is to prove use: a caller registers while it runs, so a
//! node with a registration was needed in the pass that the next mark closes.
//! Holding a handle proves nothing; a node that nobody registers against
//! during a pass is not live at its end, whoever still names it.
use vstd::prelude::*;

verus! {

/// What a mark pass concluded about a cell.
#[derive(Clone, Copy, Debug, PartialEq, Eq, Structural)]
pub enum Liveness {
    /// Some caller registered against the cell since the last sweep.
    Live,
    /// Nobody has been seen to need the cell since the last sweep.
    Dead,
}

/// A cheap, non-owning handle to a dependency node.
///
/// The handle carries the node's identity and nothing else: holding one does
/// not keep the node's cell in the cache.
#[derive(Clone, Copy, Debug, PartialEq, Eq)]
pub struct Dependent {
    /// The identity of the node that the handle names, or `None` for the
    /// outermost caller of a pass, which has no node of its own.
    pub target: Option<u64>,
}

impl Dependent {
    /// The handle of the outermost caller of a pass.
    pub fn incoming() -> (d: Dependent)
        ensures
            d.target is None,
    {
        Dependent { target: None }
    }

    /// The handle that names the node with identity `id`.
    pub open spec fn to_node(id: u64) -> Dependent {
        Dependent { target: Some(id) }
    }

    /// The handle that names the node of the cell of `scope`.
    pub fn to_scope(scope: u64) -> (d: Dependent)
        ensures
            d == Dependent::to_node(scope),
    {
        Dependent { target: Some(scope) }
    }
}

/// The mathematical content of a [`DepNode`].
pub struct DepNodeView {
    /// The identity under which handles name the node.
    pub id: u64,
    /// The callers that registered against the node since the last sweep,
    /// oldest first.
    pub dependents: Seq<Dependent>,
}

/// One cache entry's place in the liveness forest.
///
/// A node keeps its identity for as long as it exists; only the registrations
/// recorded against it change.
#[derive(Debug)]
pub struct DepNode {
    id: u64,
    dependents: Vec<Dependent>,
}

impl View for DepNode {
    type V = DepNodeView;

    closed spec fn view(&self) -> DepNodeView {
        DepNodeView { id: self.id, dependents: self.dependents@ }
    }
}

impl DepNode {
    /// A node with identity `id` and no registrations.
    pub fn new(id: u64) -> (node: DepNode)
        ensures
            node@.id == id,
            node@.dependents == Seq::<Dependent>::empty(),
    {
        DepNode { id, dependents: Vec::new() }
    }

    /// Records that `dependent` needs this node.
    pub fn root(&mut self, dependent: Dependent)
        ensures
            final(self)@.id == old(self)@.id,
            final(self)@.dependents == old(self)@.dependents.push(dependent),
    {
        self.dependents.push(dependent);
    }

    /// The handle under which this node is passed on to further lookups.
    pub fn as_dependent(&self) -> (d: Dependent)
        ensures
            d == Dependent::to_node(self@.id),
    {
        Dependent { target: Some(self.id) }
    }

    /// The identity of this node.
    pub fn id(&self) -> (id: u64)
        ensures
            id == self@.id,
    {
        self.id
    }

    /// Whether any caller registered against this node since the last sweep.
    pub fn is_needed(&self) -> (needed: bool)
        ensures
            needed == (self@.dependents.len() > 0),
    {
        self.dependents.len() > 0
    }

    /// The registrations recorded since the last sweep, oldest first.
    pub fn dependents(&self) -> (d: &Vec<Dependent>)
        ensures
            d@ == self@.dependents,
    {
        &self.dependents
    }

    /// Forgets every registration, keeping the identity.
    pub fn release(&mut self)
        ensures
            final(self)@.id == old(self)@.id,
            final(self)@.dependents == Seq::<Dependent>::empty(),
    {
        self.dependents.clear();
    }
}

} // verus!
