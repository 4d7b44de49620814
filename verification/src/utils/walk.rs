//! Walking a map that is keyed by slot number.

use std::collections::HashMap;
use vstd::prelude::*;
use vstd::std_specs::hash::spec_keys_iter;
use vstd::std_specs::iter::IteratorSpec;

verus! {

/// The slot numbers that a map holds, each once, in the order the map is
/// walked in.
pub fn slots_of<V>(map: &HashMap<u64, V>) -> (slots: Vec<u64>)
    ensures
        slots@.no_duplicates(),
        slots@.to_set() == map@.dom(),
{
    let mut slots: Vec<u64> = Vec::new();
    let ghost keys = spec_keys_iter(map).remaining();
    for slot in it: map.keys()
        invariant
            it.seq() == keys,
            slots@ == keys.take(it.index()).unref(),
    {
        slots.push(*slot);
        assert(keys.take(it.index() + 1).unref() == keys.take(it.index()).unref().push(*slot));
    }
    assert(keys.take(keys.len() as int) == keys);
    assert(slots@ == keys.unref());
    slots
}

/// One more step of a walk over `slots`: the element at `i` has not been
/// visited, and the visited ones are then those before it and itself.
pub proof fn lemma_walk_step(slots: Seq<u64>, i: int)
    requires
        slots.no_duplicates(),
        0 <= i < slots.len(),
    ensures
        !slots.take(i).contains(slots[i]),
        slots.contains(slots[i]),
        forall|slot: u64|
            slots.take(i + 1).contains(slot) <==> slots.take(i).contains(slot) || slot == slots[i],
{
    let done = slots.take(i);
    let next = slots.take(i + 1);
    if done.contains(slots[i]) {
        let n = choose|n: int| 0 <= n < done.len() && done[n] == slots[i];
        assert(slots[n] == slots[i]);
    }
    assert forall|slot: u64| next.contains(slot) implies done.contains(slot) || slot == slots[i] by {
        let n = choose|n: int| 0 <= n < next.len() && next[n] == slot;
        if n < i {
            assert(done[n] == slot);
        }
    }
    assert forall|slot: u64| done.contains(slot) || slot == slots[i] implies next.contains(slot) by {
        if done.contains(slot) {
            let n = choose|n: int| 0 <= n < done.len() && done[n] == slot;
            assert(next[n] == slot);
        } else {
            assert(next[i] == slot);
        }
    }
}

/// At the end of a walk over the keys of a map every key has been visited.
pub proof fn lemma_walk_end<V>(slots: Seq<u64>, map: Map<u64, V>)
    requires
        slots.to_set() == map.dom(),
    ensures
        slots.take(slots.len() as int) == slots,
        forall|slot: u64| map.contains_key(slot) <==> slots.contains(slot),
{
    assert(slots.take(slots.len() as int) == slots);
    assert forall|slot: u64| map.contains_key(slot) <==> slots.contains(slot) by {
        assert(slots.to_set().contains(slot) <==> slots.contains(slot));
    }
}

} // verus!
