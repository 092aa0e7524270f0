//! Hashing a scope once, and the token that carries the hash from a failed
//! lookup to the store that follows it.
use vstd::prelude::*;
use crate::dep_node::{DepNode, DepNodeView, Dependent};

verus! {

/// The hash under which a scope is filed: a 64-bit finalizer that spreads
/// every input bit over the whole word.
pub open spec fn hash_of_scope(key: u64) -> u64 {
    let a = key.wrapping_add(0x9E37_79B9_7F4A_7C15u64);
    let b = (a ^ (a >> 30u64)).wrapping_mul(0xBF58_476D_1CE4_E5B9u64);
    let c = (b ^ (b >> 27u64)).wrapping_mul(0x94D0_49BB_1331_11EBu64);
    c ^ (c >> 31u64)
}

/// Computes the hash under which `key` is filed.
pub fn scope_hash(key: u64) -> (hash: u64)
    ensures
        hash == hash_of_scope(key),
{
    let a: u64 = key.wrapping_add(0x9E37_79B9_7F4A_7C15u64);
    let b: u64 = (a ^ (a >> 30u64)).wrapping_mul(0xBF58_476D_1CE4_E5B9u64);
    let c: u64 = (b ^ (b >> 27u64)).wrapping_mul(0x94D0_49BB_1331_11EBu64);
    c ^ (c >> 31u64)
}

/// Whether the scope found in the table is the one that is looked for.
pub fn same_scope(stored: &u64, key: u64) -> (same: bool)
    ensures
        same == (*stored == key),
{
    *stored == key
}

/// A scope together with its hash, computed during a lookup so that the store
/// that follows need not hash again.
#[derive(Clone, Copy, Debug)]
pub struct Hashed {
    key: u64,
    hash: u64,
}

impl Hashed {
    /// The scope that was hashed.
    pub closed spec fn spec_key(self) -> u64 {
        self.key
    }

    /// The hash that is carried along.
    pub closed spec fn spec_hash(self) -> u64 {
        self.hash
    }

    /// The carried hash is the hash of the carried scope.
    pub open spec fn wf(self) -> bool {
        self.spec_hash() == hash_of_scope(self.spec_key())
    }

    /// Hashes `key`.
    pub fn new(key: u64) -> (h: Hashed)
        ensures
            h.wf(),
            h.spec_key() == key,
    {
        Hashed { key, hash: scope_hash(key) }
    }

    /// The scope that was hashed.
    pub fn key(&self) -> (key: u64)
        ensures
            key == self.spec_key(),
    {
        self.key
    }

    /// The hash that is carried along.
    pub fn hash(&self) -> (hash: u64)
        ensures
            hash == self.spec_hash(),
    {
        self.hash
    }
}

/// The mathematical content of a [`KeyMiss`].
pub struct KeyMissView {
    /// The scope that the lookup asked for.
    pub key: u64,
    /// The hash that the lookup computed, if it computed one.
    pub hash: Option<u64>,
    /// The handle to record with whatever gets stored.
    pub dependent: Dependent,
    /// The node made for the scope, where it had no cell when the lookup ran.
    pub node: Option<DepNodeView>,
}

impl KeyMissView {
    /// The hash with which the store probes: the carried one, or the hash of
    /// the scope where none is carried.
    pub open spec fn hash_to_use(self) -> u64 {
        match self.hash {
            Some(h) => h,
            None => hash_of_scope(self.key),
        }
    }

    /// A carried hash is the hash of the scope, and a carried node has the
    /// scope as its identity.
    pub open spec fn wf(self) -> bool {
        &&& self.hash matches Some(h) ==> h == hash_of_scope(self.key)
        &&& self.node matches Some(n) ==> n.id == self.key
    }
}

/// What a lookup returns when it finds no output for the scope and input:
/// everything that the store of a fresh output needs.
#[derive(Debug)]
pub struct KeyMiss {
    inner: Result<Hashed, u64>,
    dependent: Dependent,
    node: Option<DepNode>,
}

impl View for KeyMiss {
    type V = KeyMissView;

    closed spec fn view(&self) -> KeyMissView {
        KeyMissView {
            key: match self.inner {
                Ok(h) => h.spec_key(),
                Err(k) => k,
            },
            hash: match self.inner {
                Ok(h) => Some(h.spec_hash()),
                Err(_) => None,
            },
            dependent: self.dependent,
            node: match self.node {
                Some(n) => Some(n@),
                None => None,
            },
        }
    }
}

impl KeyMiss {
    /// A miss that carries the hash computed by the lookup.
    pub fn hashed(h: Hashed, node: Option<DepNode>, dependent: Dependent) -> (miss: KeyMiss)
        ensures
            miss@ == (KeyMissView {
                key: h.spec_key(),
                hash: Some(h.spec_hash()),
                dependent,
                node: match node {
                    Some(n) => Some(n@),
                    None => None,
                },
            }),
    {
        KeyMiss { inner: Ok(h), dependent, node }
    }

    /// A miss for a scope that was never looked up: it carries no hash, and a
    /// fresh node for `k` on which `dependent` is registered.
    pub fn just_key(k: u64, dependent: Dependent) -> (miss: KeyMiss)
        ensures
            miss@ == (KeyMissView {
                key: k,
                hash: None,
                dependent: Dependent::to_node(k),
                node: Some(DepNodeView { id: k, dependents: seq![dependent] }),
            }),
            miss@.wf(),
    {
        let mut node = DepNode::new(k);
        node.root(dependent);
        let own = node.as_dependent();
        proof {
            assert(node@.dependents =~= seq![dependent]);
        }
        KeyMiss { inner: Err(k), dependent: own, node: Some(node) }
    }

    /// The handle to record with whatever gets stored.
    pub fn dependent(&self) -> (d: Dependent)
        ensures
            d == self@.dependent,
    {
        self.dependent
    }

    /// The scope that the lookup asked for.
    pub fn key(&self) -> (key: u64)
        ensures
            key == self@.key,
    {
        match &self.inner {
            Ok(h) => h.key(),
            Err(k) => *k,
        }
    }

    /// The hash that the lookup computed, if it computed one.
    pub fn hash(&self) -> (hash: Option<u64>)
        ensures
            hash == self@.hash,
    {
        match &self.inner {
            Ok(h) => Some(h.hash()),
            Err(_) => None,
        }
    }

    /// The scope of the miss with its hash: the one that the lookup computed,
    /// or one computed now where the miss was made from a bare key.
    pub fn hashed_key(&self) -> (h: Hashed)
        ensures
            h.spec_key() == self@.key,
            h.spec_hash() == self@.hash_to_use(),
    {
        match &self.inner {
            Ok(h) => *h,
            Err(k) => Hashed::new(*k),
        }
    }

    /// Whether the miss carries a node made for a scope that had no cell.
    pub fn has_fresh_node(&self) -> (fresh: bool)
        ensures
            fresh == (self@.node is Some),
    {
        self.node.is_some()
    }

    /// Takes the miss apart: the hash of its scope, computed now unless the
    /// lookup already did, the handle, and the node.
    pub fn into_parts(self) -> (parts: (Hashed, Dependent, Option<DepNode>))
        ensures
            parts.0.spec_key() == self@.key,
            parts.0.spec_hash() == self@.hash_to_use(),
            parts.1 == self@.dependent,
            match parts.2 {
                Some(n) => self@.node == Some(n@),
                None => self@.node is None,
            },
    {
        let KeyMiss { inner, dependent, node } = self;
        let hashed = match inner {
            Ok(h) => h,
            Err(k) => Hashed::new(k),
        };
        (hashed, dependent, node)
    }
}

} // verus!
