//! Incremental computation for declarative interfaces.
//!
//! The core is an incremental memoization cache. A [`namespace::Namespace`]
//! maps a scope to the output that was last computed for it, together with the
//! input that the output was computed from. Entries are reclaimed by a
//! mark-and-sweep pass that runs once per cycle of lookups: a scope that nobody
//! looked up or stored during a cycle is dropped at its end.
//!
//! Around it stand the rules of the parts that use it: [`compose`] keeps the
//! tree of scopes of a composition, [`mox`], [`mox_item`] and [`mox_tokens`]
//! turn markup nodes into builder calls, and [`ts_module`] collects the
//! declarations of a TypeScript module.
pub mod dep_node;
pub mod cache_cell;
pub mod key_miss;
pub mod model;
pub mod table;
pub mod namespace;
pub mod gc;
pub mod laws;
pub mod compose;
pub mod mox;
pub mod mox_item;
pub mod mox_tokens;
pub mod ts_module;
