//! The tree of scopes that a composition builds, and the order in which the
//! recorded scopes are shown after it.
//!
//! Scopes live in one flat arena and name each other by position. A child is
//! always made after its parent, so it stands behind it in the arena.
use vstd::prelude::*;

verus! {

/// The mathematical content of one scope.
pub struct ScopeView {
    /// The identity of the scope.
    pub id: u64,
    /// The position of the parent; the root has none.
    pub parent: Option<int>,
    /// The children by identity, with their positions.
    pub children: Seq<(u64, int)>,
    /// The identities of the children made since the scope was last prepared
    /// for composition, in the order in which they were made.
    pub bind_order: Seq<u64>,
    /// Whether a node was recorded in the scope.
    pub recorded: bool,
}

struct ScopeNode {
    id: u64,
    parent: Option<usize>,
    children: Vec<(u64, usize)>,
    bind_order: Vec<u64>,
    recorded: bool,
}

impl View for ScopeNode {
    type V = ScopeView;

    closed spec fn view(&self) -> ScopeView {
        ScopeView {
            id: self.id,
            parent: match self.parent {
                Some(p) => Some(p as int),
                None => None,
            },
            children: Seq::new(
                self.children@.len(),
                |i: int| (self.children@[i].0, self.children@[i].1 as int),
            ),
            bind_order: self.bind_order@,
            recorded: self.recorded,
        }
    }
}

/// The position under which `id` is found among the first `n` of
/// `children`, if it is.
pub open spec fn position_of(children: Seq<(u64, int)>, id: u64, n: nat) -> Option<int>
    decreases n,
{
    if n == 0 || n > children.len() {
        None
    } else if children[n - 1].0 == id {
        Some(children[n - 1].1)
    } else {
        position_of(children, id, (n - 1) as nat)
    }
}

/// The position of the child `id` of `scope`, if it has one.
pub open spec fn child_of(scope: ScopeView, id: u64) -> Option<int> {
    position_of(scope.children, id, scope.children.len())
}

/// The arena is a tree: the root comes first and has no parent, every other
/// scope has a parent before it, the children of a scope stand behind it and
/// name it as their parent, and every identity in a bind order is a child.
pub open spec fn is_tree(scopes: Seq<ScopeView>) -> bool {
    &&& scopes.len() > 0
    &&& scopes[0].parent is None
    &&& forall|i: int|
        0 < i < scopes.len() ==> ((#[trigger] scopes[i]).parent matches Some(p) && 0 <= p < i)
    &&& forall|i: int, j: int|
        0 <= i < scopes.len() && 0 <= j < scopes[i].children.len() ==> {
            let entry = #[trigger] scopes[i].children[j];
            &&& i < entry.1 < scopes.len()
            &&& scopes[entry.1].id == entry.0
            &&& scopes[entry.1].parent == Some(i)
        }
    &&& forall|i: int, j: int|
        0 <= i < scopes.len() && 0 <= j < scopes[i].bind_order.len() ==> child_of(
            scopes[i],
            #[trigger] scopes[i].bind_order[j],
        ) is Some
}

/// What is shown of the scope at `at` itself: its identity and its parent's,
/// if a node was recorded in it.
pub open spec fn own_sighting(scopes: Seq<ScopeView>, at: int) -> Seq<(u64, u64)> {
    if scopes[at].recorded && scopes[at].parent is Some {
        seq![(scopes[at].id, scopes[scopes[at].parent.unwrap()].id)]
    } else {
        Seq::empty()
    }
}

/// What is shown below the scope at `at` through the first `n` children of
/// its bind order: the child bound last comes first, and each child is
/// followed by everything below it.
pub open spec fn shown_below(scopes: Seq<ScopeView>, at: int, n: nat) -> Seq<(u64, u64)>
    decreases scopes.len() - at, 0nat, n,
{
    if n == 0 || n > scopes[at].bind_order.len() || at < 0 || at >= scopes.len() {
        Seq::empty()
    } else {
        (match child_of(scopes[at], scopes[at].bind_order[n - 1]) {
            Some(child) => if at < child < scopes.len() {
                shown_from(scopes, child)
            } else {
                Seq::empty()
            },
            None => Seq::empty(),
        }) + shown_below(scopes, at, (n - 1) as nat)
    }
}

/// What is shown of the scope at `at` and of everything below it.
pub open spec fn shown_from(scopes: Seq<ScopeView>, at: int) -> Seq<(u64, u64)>
    decreases scopes.len() - at, 1nat, 0nat,
{
    if at < 0 || at >= scopes.len() {
        Seq::empty()
    } else {
        own_sighting(scopes, at) + shown_below(scopes, at, scopes[at].bind_order.len())
    }
}

/// A fresh scope `id` under the parent at `parent`.
pub open spec fn fresh_scope(id: u64, parent: int) -> ScopeView {
    ScopeView {
        id,
        parent: Some(parent),
        children: Seq::empty(),
        bind_order: Seq::empty(),
        recorded: false,
    }
}

/// The arena after the scope at `at` was asked for its child `id`: nothing
/// changes where it has that child; else a fresh scope is appended, entered
/// among the children and added to the bind order.
pub open spec fn with_child(scopes: Seq<ScopeView>, at: int, id: u64) -> Seq<ScopeView> {
    if child_of(scopes[at], id) is Some {
        scopes
    } else {
        scopes.update(
            at,
            ScopeView {
                children: scopes[at].children.push((id, scopes.len() as int)),
                bind_order: scopes[at].bind_order.push(id),
                ..scopes[at]
            },
        ).push(fresh_scope(id, at))
    }
}

/// The scopes of one composition.
pub struct Scopes {
    nodes: Vec<ScopeNode>,
}

impl View for Scopes {
    type V = Seq<ScopeView>;

    closed spec fn view(&self) -> Seq<ScopeView> {
        Seq::new(self.nodes@.len(), |i: int| self.nodes@[i]@)
    }
}

impl Scopes {
    /// The arena is a tree.
    pub open spec fn wf(&self) -> bool {
        is_tree(self@)
    }

    /// An arena that holds the root scope `id` and nothing else.
    pub fn root(id: u64) -> (scopes: Scopes)
        ensures
            scopes.wf(),
            scopes@ == seq![
                ScopeView {
                    id,
                    parent: None,
                    children: Seq::empty(),
                    bind_order: Seq::empty(),
                    recorded: false,
                },
            ],
    {
        let mut nodes: Vec<ScopeNode> = Vec::new();
        nodes.push(
            ScopeNode { id, parent: None, children: Vec::new(), bind_order: Vec::new(), recorded: false },
        );
        let scopes = Scopes { nodes };
        proof {
            assert(scopes@[0].children =~= Seq::empty());
            assert(scopes@ =~= seq![
                ScopeView {
                    id,
                    parent: None,
                    children: Seq::empty(),
                    bind_order: Seq::empty(),
                    recorded: false,
                },
            ]);
        }
        scopes
    }

    /// The number of scopes.
    pub fn len(&self) -> (n: usize)
        ensures
            n == self@.len(),
    {
        self.nodes.len()
    }

    /// The identity of the scope at `at`.
    pub fn id(&self, at: usize) -> (id: u64)
        requires
            at < self@.len(),
        ensures
            id == self@[at as int].id,
    {
        self.nodes[at].id
    }

    /// The identity of the parent of the scope at `at`, which is not the
    /// root.
    pub fn parent_id(&self, at: usize) -> (id: u64)
        requires
            self.wf(),
            0 < at < self@.len(),
        ensures
            id == self@[self@[at as int].parent.unwrap()].id,
    {
        assert(self@[at as int].parent is Some);
        match self.nodes[at].parent {
            Some(p) => self.nodes[p].id,
            None => 0,
        }
    }

    /// The position of the child `id` of the scope at `at`, if it has one.
    pub fn find_child(&self, at: usize, id: u64) -> (found: Option<usize>)
        requires
            at < self@.len(),
        ensures
            match found {
                Some(p) => child_of(self@[at as int], id) == Some(p as int),
                None => child_of(self@[at as int], id) is None,
            },
    {
        let children = &self.nodes[at].children;
        let ghost view = self@[at as int].children;
        let mut n: usize = children.len();
        while n > 0
            invariant
                n <= children@.len(),
                view.len() == children@.len(),
                forall|j: int| 0 <= j < view.len() ==> view[j] == (children@[j].0, children@[j].1 as int),
                child_of(self@[at as int], id) == position_of(view, id, n as nat),
                view == self@[at as int].children,
            decreases n,
        {
            if children[n - 1].0 == id {
                return Some(children[n - 1].1);
            }
            n -= 1;
        }
        None
    }

    /// The child `id` of the scope at `at`: the one it has, or a fresh one,
    /// which is then the last in the scope's bind order.
    pub fn child(&mut self, at: usize, id: u64) -> (position: usize)
        requires
            old(self).wf(),
            at < old(self)@.len(),
        ensures
            final(self).wf(),
            final(self)@ == with_child(old(self)@, at as int, id),
            child_of(final(self)@[at as int], id) == Some(position as int),
            position < final(self)@.len(),
    {
        match self.find_child(at, id) {
            Some(p) => {
                proof {
                    lemma_position_is_entry(self@[at as int].children, id, self@[at as int].children.len());
                }
                p
            },
            None => {
                let position = self.nodes.len();
                self.nodes[at].children.push((id, position));
                self.nodes[at].bind_order.push(id);
                self.nodes.push(
                    ScopeNode {
                        id,
                        parent: Some(at),
                        children: Vec::new(),
                        bind_order: Vec::new(),
                        recorded: false,
                    },
                );
                proof {
                    let before = old(self)@;
                    let after = with_child(before, at as int, id);
                    assert(self@.len() == after.len());
                    assert forall|i: int| 0 <= i < after.len() implies self@[i] == after[i] by {
                        if i == at {
                            assert(self@[i].children =~= before[i].children.push((id, position as int)));
                        } else if i == position {
                            assert(self@[i].children =~= Seq::empty());
                        } else {
                            assert(self.nodes@[i] == old(self).nodes@[i]);
                        }
                    }
                    assert(self@ =~= after);
                    lemma_with_child_is_tree(before, at as int, id);
                }
                position
            },
        }
    }

    /// Prepares the scope at `at` for a composition: its bind order starts
    /// empty, and what was recorded in it is flushed.
    pub fn prepare_to_compose(&mut self, at: usize)
        requires
            old(self).wf(),
            at < old(self)@.len(),
        ensures
            final(self).wf(),
            final(self)@ == old(self)@.update(
                at as int,
                ScopeView { bind_order: Seq::empty(), recorded: false, ..old(self)@[at as int] },
            ),
    {
        self.nodes[at].bind_order.clear();
        self.nodes[at].recorded = false;
        proof {
            let before = old(self)@;
            let after = before.update(
                at as int,
                ScopeView { bind_order: Seq::empty(), recorded: false, ..before[at as int] },
            );
            assert forall|i: int| 0 <= i < after.len() implies self@[i] == after[i] by {
                if i == at {
                    assert(self@[i].children =~= before[i].children);
                    assert(self@[i].bind_order =~= Seq::empty());
                } else {
                    assert(self.nodes@[i] == old(self).nodes@[i]);
                }
            }
            assert(self@ =~= after);
        }
    }

    /// Records a node in the scope at `at`.
    pub fn record(&mut self, at: usize)
        requires
            old(self).wf(),
            at < old(self)@.len(),
        ensures
            final(self).wf(),
            final(self)@ == old(self)@.update(
                at as int,
                ScopeView { recorded: true, ..old(self)@[at as int] },
            ),
    {
        self.nodes[at].recorded = true;
        proof {
            let before = old(self)@;
            let after = before.update(at as int, ScopeView { recorded: true, ..before[at as int] });
            assert forall|i: int| 0 <= i < after.len() implies self@[i] == after[i] by {
                if i == at {
                    assert(self@[i].children =~= before[i].children);
                } else {
                    assert(self.nodes@[i] == old(self).nodes@[i]);
                }
            }
            assert(self@ =~= after);
        }
    }

    /// Starts the composition of the child `id` of the scope at `at`: finds
    /// or makes the child and prepares it. The caller composes the child and
    /// then finishes the composition.
    pub fn compose_child(&mut self, at: usize, id: u64) -> (position: usize)
        requires
            old(self).wf(),
            at < old(self)@.len(),
        ensures
            final(self).wf(),
            position < final(self)@.len(),
            child_of(with_child(old(self)@, at as int, id)[at as int], id) == Some(position as int),
            final(self)@ == with_child(old(self)@, at as int, id).update(
                position as int,
                ScopeView {
                    bind_order: Seq::empty(),
                    recorded: false,
                    ..with_child(old(self)@, at as int, id)[position as int]
                },
            ),
    {
        let position = self.child(at, id);
        self.prepare_to_compose(position);
        position
    }

    /// Finishes the composition of the scope at `at`, which is not a root
    /// with a record: returns what the witnesses are shown.
    pub fn finish_composition(&self, at: usize) -> (seen: Vec<(u64, u64)>)
        requires
            self.wf(),
            at < self@.len(),
            at == 0 ==> !self@[0].recorded,
        ensures
            seen@ == shown_from(self@, at as int),
    {
        self.show_witnesses_after_composition(at)
    }

    /// Appends what is shown of the scope at `at` and of everything below it.
    fn show_from(&self, at: usize, seen: &mut Vec<(u64, u64)>)
        requires
            self.wf(),
            at < self@.len(),
        ensures
            final(seen)@ == old(seen)@ + shown_from(self@, at as int),
        decreases self@.len() - at,
    {
        if self.nodes[at].recorded {
            match self.nodes[at].parent {
                Some(p) => {
                    assert(self@[at as int].parent == Some(p as int));
                    assert(at > 0);
                    seen.push((self.nodes[at].id, self.nodes[p].id));
                },
                None => {},
            }
        }
        assert(seen@ =~= old(seen)@ + own_sighting(self@, at as int));
        let ghost target = old(seen)@ + shown_from(self@, at as int);
        let mut n: usize = self.nodes[at].bind_order.len();
        assert(seen@ + shown_below(self@, at as int, n as nat) =~= target);
        while n > 0
            invariant
                self.wf(),
                at < self@.len(),
                n <= self@[at as int].bind_order.len(),
                self@[at as int].bind_order == self.nodes@[at as int].bind_order@,
                seen@ + shown_below(self@, at as int, n as nat) == target,
            decreases n,
        {
            let ghost so_far = seen@;
            let id = self.nodes[at].bind_order[n - 1];
            match self.find_child(at, id) {
                Some(c) => {
                    proof {
                        lemma_position_is_entry(
                            self@[at as int].children,
                            id,
                            self@[at as int].children.len(),
                        );
                    }
                    self.show_from(c, seen);
                },
                None => {},
            }
            assert(seen@ + shown_below(self@, at as int, (n - 1) as nat) =~= so_far + shown_below(
                self@,
                at as int,
                n as nat,
            ));
            n -= 1;
        }
        assert(seen@ =~= seen@ + shown_below(self@, at as int, 0));
    }

    /// What the witnesses are shown after a composition of the scope at
    /// `start`: for each scope in which a node was recorded, its identity
    /// and its parent's. The scope itself comes first. Below a scope, the
    /// child that was bound last comes first, each child followed by
    /// everything below it. A root in which a node was recorded has no
    /// parent to show and cannot be the start.
    pub fn show_witnesses_after_composition(&self, start: usize) -> (seen: Vec<(u64, u64)>)
        requires
            self.wf(),
            start < self@.len(),
            start == 0 ==> !self@[0].recorded,
        ensures
            seen@ == shown_from(self@, start as int),
    {
        let mut seen: Vec<(u64, u64)> = Vec::new();
        self.show_from(start, &mut seen);
        seen
    }
}

/// A position that is found for an identity is that of an entry with that
/// identity.
proof fn lemma_position_is_entry(children: Seq<(u64, int)>, id: u64, n: nat)
    requires
        n <= children.len(),
        position_of(children, id, n) is Some,
    ensures
        exists|j: int|
            0 <= j < n && (#[trigger] children[j]).0 == id && children[j].1 == position_of(
                children,
                id,
                n,
            ).unwrap(),
    decreases n,
{
    if n > 0 {
        if children[n - 1].0 == id {
            assert(children[n - 1].1 == position_of(children, id, n).unwrap());
        } else {
            lemma_position_is_entry(children, id, (n - 1) as nat);
        }
    }
}

/// What is found among the first `n` entries depends on those entries only.
proof fn lemma_position_of_prefix(a: Seq<(u64, int)>, b: Seq<(u64, int)>, id: u64, n: nat)
    requires
        n <= a.len(),
        n <= b.len(),
        forall|j: int| 0 <= j < n ==> a[j] == b[j],
    ensures
        position_of(a, id, n) == position_of(b, id, n),
    decreases n,
{
    if n > 0 {
        lemma_position_of_prefix(a, b, id, (n - 1) as nat);
    }
}

/// Asking a scope of a tree for a child leaves a tree.
proof fn lemma_with_child_is_tree(scopes: Seq<ScopeView>, at: int, id: u64)
    requires
        is_tree(scopes),
        0 <= at < scopes.len(),
    ensures
        is_tree(with_child(scopes, at, id)),
        child_of(with_child(scopes, at, id)[at], id) is Some,
        child_of(scopes[at], id) is None ==> child_of(with_child(scopes, at, id)[at], id) == Some(
            scopes.len() as int,
        ),
{
    let after = with_child(scopes, at, id);
    if child_of(scopes[at], id) is None {
        let entries = scopes[at].children;
        let grown = entries.push((id, scopes.len() as int));
        assert(after[at].children == grown);
        assert(position_of(grown, id, grown.len()) == Some(scopes.len() as int));
        assert forall|i: int, j: int|
            0 <= i < after.len() && 0 <= j < after[i].children.len() implies ({
            let entry = #[trigger] after[i].children[j];
            &&& i < entry.1 < after.len()
            &&& after[entry.1].id == entry.0
            &&& after[entry.1].parent == Some(i)
        }) by {
            if i == at && j == entries.len() {
            } else if i < scopes.len() {
                let entry = scopes[i].children[j];
                assert(i < entry.1 < scopes.len());
            }
        }
        assert forall|i: int, j: int|
            0 <= i < after.len() && 0 <= j < after[i].bind_order.len() implies child_of(
            after[i],
            #[trigger] after[i].bind_order[j],
        ) is Some by {
            if i == at {
                let wanted = after[i].bind_order[j];
                if wanted != id {
                    assert(scopes[at].bind_order[j] == wanted);
                    assert(child_of(scopes[at], scopes[at].bind_order[j]) is Some);
                    lemma_position_of_prefix(grown, entries, wanted, entries.len());
                }
            } else if i < scopes.len() {
                assert(child_of(scopes[i], scopes[i].bind_order[j]) is Some);
            }
        }
        assert forall|i: int| 0 < i < after.len() implies ((#[trigger] after[i]).parent matches Some(p)
            && 0 <= p < i) by {
            if i < scopes.len() {
                assert(scopes[i].parent is Some);
            }
        }
    }
}

} // verus!
