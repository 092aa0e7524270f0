use moxie::cache_cell::{same_bytes, CacheCell};
use moxie::dep_node::{DepNode, Dependent, Liveness};
use moxie::key_miss::{same_scope, scope_hash, Hashed, KeyMiss};

fn bytes(s: &str) -> Vec<u8> {
    s.as_bytes().to_vec()
}

#[test]
fn scope_hash_matches_known_values() {
    assert_eq!(scope_hash(0), 0xE220_A839_7B1D_CDAF);
    assert_eq!(scope_hash(1), 0x910A_2DEC_8902_5CC1);
    assert_eq!(scope_hash(u64::MAX), 0xE4D9_7177_1B65_2C20);
}

#[test]
fn hashed_carries_key_and_hash() {
    let h = Hashed::new(42);
    assert_eq!(h.key(), 42);
    assert_eq!(h.hash(), scope_hash(42));
}

#[test]
fn same_scope_compares_the_scopes() {
    assert!(same_scope(&7, 7));
    assert!(!same_scope(&7, 8));
}

#[test]
fn same_bytes_compares_contents() {
    assert!(same_bytes(&bytes(""), &bytes("")));
    assert!(same_bytes(&bytes("abc"), &bytes("abc")));
    assert!(!same_bytes(&bytes("abc"), &bytes("abd")));
    assert!(!same_bytes(&bytes("abc"), &bytes("ab")));
    assert!(!same_bytes(&bytes(""), &bytes("a")));
}

#[test]
fn incoming_names_no_node() {
    assert_eq!(Dependent::incoming().target, None);
    assert_eq!(Dependent::to_scope(9).target, Some(9));
}

#[test]
fn node_records_registrations_in_order() {
    let mut node = DepNode::new(3);
    assert_eq!(node.id(), 3);
    assert!(!node.is_needed());
    assert_eq!(node.as_dependent(), Dependent::to_scope(3));
    node.root(Dependent::incoming());
    node.root(Dependent::to_scope(8));
    assert!(node.is_needed());
    assert_eq!(node.dependents(), &vec![Dependent::incoming(), Dependent::to_scope(8)]);
    node.release();
    assert!(!node.is_needed());
    assert_eq!(node.id(), 3);
    assert_eq!(node.as_dependent(), Dependent::to_scope(3));
}

#[test]
fn cell_get_hits_on_the_stored_input_only() {
    let mut cell = CacheCell::new(bytes("in"), bytes("out"), DepNode::new(5));
    assert_eq!(cell.get(&bytes("in"), Dependent::incoming()), Ok(&bytes("out")));
    assert_eq!(cell.get(&bytes("other"), Dependent::incoming()), Err(Dependent::to_scope(5)));
    assert_eq!(cell.dependent(), Dependent::to_scope(5));
}

#[test]
fn cell_liveness_follows_registrations() {
    let mut cell = CacheCell::new(bytes("in"), bytes("out"), DepNode::new(5));
    assert_eq!(cell.liveness(), Liveness::Dead);
    cell.update_liveness();
    assert_eq!(cell.liveness(), Liveness::Dead);
    assert!(cell.get(&bytes("in"), Dependent::incoming()).is_ok());
    assert_eq!(cell.liveness(), Liveness::Dead);
    cell.update_liveness();
    assert_eq!(cell.liveness(), Liveness::Live);
    assert!(cell.retire());
    assert_eq!(cell.liveness(), Liveness::Dead);
    cell.update_liveness();
    assert_eq!(cell.liveness(), Liveness::Dead);
    assert!(!cell.retire());
}

#[test]
fn cell_miss_registers_nothing() {
    let mut cell = CacheCell::new(bytes("in"), bytes("out"), DepNode::new(5));
    assert!(cell.get(&bytes("other"), Dependent::incoming()).is_err());
    cell.update_liveness();
    assert_eq!(cell.liveness(), Liveness::Dead);
}

#[test]
fn cell_store_overwrites_and_registers() {
    let mut cell = CacheCell::new(bytes("in"), bytes("out"), DepNode::new(5));
    cell.update_liveness();
    cell.store(bytes("in2"), bytes("out2"), Dependent::to_scope(5));
    assert_eq!(cell.liveness(), Liveness::Dead);
    assert_eq!(cell.dependent(), Dependent::to_scope(5));
    assert!(cell.get(&bytes("in"), Dependent::incoming()).is_err());
    assert_eq!(cell.get(&bytes("in2"), Dependent::incoming()), Ok(&bytes("out2")));
    cell.update_liveness();
    assert_eq!(cell.liveness(), Liveness::Live);
    cell.mark_dead();
    assert_eq!(cell.liveness(), Liveness::Dead);
    cell.update_liveness();
    assert_eq!(cell.liveness(), Liveness::Dead);
}

#[test]
fn cell_takes_over_the_registrations_of_its_node() {
    let mut node = DepNode::new(1);
    node.root(Dependent::incoming());
    let mut cell = CacheCell::new(bytes("i"), bytes("o"), node);
    cell.update_liveness();
    assert_eq!(cell.liveness(), Liveness::Live);
}

#[test]
fn just_key_brings_a_rooted_node_and_no_hash() {
    let miss = KeyMiss::just_key(11, Dependent::incoming());
    assert_eq!(miss.key(), 11);
    assert_eq!(miss.hash(), None);
    assert!(miss.has_fresh_node());
    assert_eq!(miss.dependent(), Dependent::to_scope(11));
    let (hashed, dependent, node) = miss.into_parts();
    assert_eq!(hashed.key(), 11);
    assert_eq!(hashed.hash(), scope_hash(11));
    assert_eq!(dependent, Dependent::to_scope(11));
    let node = node.expect("a bare key brings a node");
    assert_eq!(node.id(), 11);
    assert_eq!(node.dependents(), &vec![Dependent::incoming()]);
}

#[test]
fn hashed_miss_keeps_what_it_was_given() {
    let miss = KeyMiss::hashed(Hashed::new(4), None, Dependent::to_scope(4));
    assert_eq!(miss.key(), 4);
    assert_eq!(miss.hash(), Some(scope_hash(4)));
    assert!(!miss.has_fresh_node());
    assert_eq!(miss.hashed_key().hash(), scope_hash(4));
    let (hashed, dependent, node) = miss.into_parts();
    assert_eq!((hashed.key(), hashed.hash()), (4, scope_hash(4)));
    assert_eq!(dependent, Dependent::to_scope(4));
    assert!(node.is_none());
}
