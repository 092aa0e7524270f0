//! What holds of the cache across several operations, stated over the model
//! in which the operations' own contracts are written.
use vstd::prelude::*;
use crate::dep_node::Dependent;
use crate::gc::collected;
use crate::key_miss::KeyMissView;
use crate::model::{after_get, after_store, hit, identified, marked, miss_of, storable, swept, Cells};

verus! {

/// A failed lookup returns a miss that the store accepts.
pub proof fn miss_is_storable(m: Cells, key: u64, dependent: Dependent)
    ensures
        miss_of(m, key, dependent).wf(),
        storable(m, miss_of(m, key, dependent)),
{
}

/// After an output was stored through any miss, a lookup of the miss's scope
/// with the stored input hits and returns that output.
pub proof fn store_then_get_hits(m: Cells, miss: KeyMissView, input: Seq<u8>, output: Seq<u8>)
    ensures
        hit(after_store(m, miss, input, output), miss.key, input),
        after_store(m, miss, input, output)[miss.key].output == output,
{
}

/// A scope stored with one input misses on any other input; once
/// the other input is stored through that miss, the first input misses and
/// the other one hits with the new output. The scope never holds more than
/// one value, and no scope is added.
pub proof fn other_input_replaces(
    m: Cells,
    key: u64,
    first: Seq<u8>,
    other: Seq<u8>,
    output: Seq<u8>,
    dependent: Dependent,
)
    requires
        hit(m, key, first),
        other != first,
    ensures
        !hit(m, key, other),
        after_get(m, key, other, dependent) == m,
        ({
            let refreshed = after_store(m, miss_of(m, key, dependent), other, output);
            &&& !hit(refreshed, key, first)
            &&& hit(refreshed, key, other)
            &&& refreshed[key].output == output
            &&& refreshed.dom() == m.dom()
        }),
{
    let refreshed = after_store(m, miss_of(m, key, dependent), other, output);
    assert(refreshed.dom() =~= m.dom());
}

/// The miss of a failed lookup carries the hash of its scope, so the store
/// that follows has nothing to compute.
pub proof fn miss_carries_the_hash(m: Cells, key: u64, dependent: Dependent)
    ensures
        miss_of(m, key, dependent).hash == Some(crate::key_miss::hash_of_scope(key)),
{
}

/// A store on a scope that has a cell keeps the identity
/// of the cell's node, and every registration recorded before the store is
/// still recorded after it, in the same place.
pub proof fn store_keeps_identity(m: Cells, miss: KeyMissView, input: Seq<u8>, output: Seq<u8>)
    requires
        m.contains_key(miss.key),
    ensures
        after_store(m, miss, input, output)[miss.key].id == m[miss.key].id,
        m[miss.key].dependents.is_prefix_of(after_store(m, miss, input, output)[miss.key].dependents),
{
}

/// Every operation keeps each cell's node identified by the cell's scope.
pub proof fn identity_is_kept(
    m: Cells,
    key: u64,
    miss: KeyMissView,
    input: Seq<u8>,
    output: Seq<u8>,
    dependent: Dependent,
)
    requires
        identified(m),
        miss.wf(),
        storable(m, miss),
    ensures
        identified(after_get(m, key, input, dependent)),
        identified(after_store(m, miss, input, output)),
        identified(marked(m)),
        identified(swept(m)),
{
}

/// A scope against which nobody registered since the last sweep does not
/// survive a collection.
pub proof fn unused_scope_is_collected(m: Cells, key: u64)
    requires
        m.contains_key(key) ==> !m[key].is_needed(),
    ensures
        !collected(m).contains_key(key),
{
}

/// A collection leaves every surviving cell without registrations, so a
/// second collection with no lookup or store in between leaves nothing.
pub proof fn idle_pass_empties(m: Cells)
    ensures
        collected(collected(m)) == Map::<u64, crate::cache_cell::CellView>::empty(),
{
    assert(collected(collected(m)) =~= Map::<u64, crate::cache_cell::CellView>::empty());
}

/// A scope that was looked up with its stored input survives the collection
/// that follows, with its input, its output and its node.
pub proof fn used_scope_is_retained(m: Cells, key: u64, input: Seq<u8>, dependent: Dependent)
    requires
        hit(m, key, input),
    ensures
        collected(after_get(m, key, input, dependent)).contains_key(key),
        collected(after_get(m, key, input, dependent))[key].input == input,
        collected(after_get(m, key, input, dependent))[key].output == m[key].output,
        collected(after_get(m, key, input, dependent))[key].id == m[key].id,
{
}

/// A scope that was stored through the miss of a failed lookup survives the
/// collection that follows, with the stored input and output.
pub proof fn stored_scope_is_retained(
    m: Cells,
    key: u64,
    input: Seq<u8>,
    output: Seq<u8>,
    dependent: Dependent,
)
    ensures
        collected(after_store(m, miss_of(m, key, dependent), input, output)).contains_key(key),
        hit(collected(after_store(m, miss_of(m, key, dependent), input, output)), key, input),
        collected(after_store(m, miss_of(m, key, dependent), input, output))[key].output == output,
{
}

/// A lookup or a store of one scope leaves the cell of every other scope as
/// it was, and adds or removes no other scope.
pub proof fn other_scopes_are_untouched(
    m: Cells,
    key: u64,
    other: u64,
    miss: KeyMissView,
    input: Seq<u8>,
    output: Seq<u8>,
    dependent: Dependent,
)
    requires
        other != key,
        miss.key == key,
    ensures
        after_get(m, key, input, dependent).contains_key(other) == m.contains_key(other),
        after_get(m, key, input, dependent)[other] == m[other],
        after_store(m, miss, input, output).contains_key(other) == m.contains_key(other),
        after_store(m, miss, input, output)[other] == m[other],
{
}

} // verus!
