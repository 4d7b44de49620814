//! Looking a text up in a sequence of texts.

use vstd::prelude::*;

verus! {

/// Index of the first of `keys` from `from` on that equals `key`; the
/// length of `keys` if there is none.
pub open spec fn first_from(keys: Seq<Seq<char>>, key: Seq<char>, from: int) -> int
    decreases keys.len() - from,
{
    if from < 0 || from >= keys.len() {
        keys.len() as int
    } else if keys[from] == key {
        from
    } else {
        first_from(keys, key, from + 1)
    }
}

/// Index of the first of `keys` that equals `key`; the length of `keys` if
/// there is none.
pub open spec fn first(keys: Seq<Seq<char>>, key: Seq<char>) -> int {
    first_from(keys, key, 0)
}

/// Whether one of `keys` equals `key`.
pub open spec fn contains_text(keys: Seq<Seq<char>>, key: Seq<char>) -> bool {
    first(keys, key) < keys.len()
}

/// Whether no two of `keys` are equal.
pub open spec fn distinct(keys: Seq<Seq<char>>) -> bool {
    forall|i: int, j: int| 0 <= i < j < keys.len() ==> #[trigger] keys[i] != #[trigger] keys[j]
}

/// `first_from` gives an index from `from` on that holds the key, with no
/// such index before it, or the length.
pub proof fn lemma_first_from(keys: Seq<Seq<char>>, key: Seq<char>, from: int)
    requires
        0 <= from <= keys.len(),
    ensures
        from <= first_from(keys, key, from) <= keys.len(),
        first_from(keys, key, from) < keys.len() ==> keys[first_from(keys, key, from)] == key,
        forall|i: int| from <= i < first_from(keys, key, from) ==> #[trigger] keys[i] != key,
    decreases keys.len() - from,
{
    if from < keys.len() && keys[from] != key {
        lemma_first_from(keys, key, from + 1);
    }
}

/// `first` gives an index that holds the key, with no such index before
/// it, or the length.
pub proof fn lemma_first(keys: Seq<Seq<char>>, key: Seq<char>)
    ensures
        0 <= first(keys, key) <= keys.len(),
        first(keys, key) < keys.len() ==> keys[first(keys, key)] == key,
        forall|i: int| 0 <= i < first(keys, key) ==> #[trigger] keys[i] != key,
{
    lemma_first_from(keys, key, 0);
}

/// An index that holds the key, with no such index before it, is what
/// `first` gives.
pub proof fn lemma_first_is(keys: Seq<Seq<char>>, key: Seq<char>, index: int)
    requires
        0 <= index <= keys.len(),
        index < keys.len() ==> keys[index] == key,
        forall|i: int| 0 <= i < index ==> #[trigger] keys[i] != key,
    ensures
        first(keys, key) == index,
{
    lemma_first(keys, key);
    let found = first(keys, key);
    if found < index {
        assert(keys[found] != key);
    } else if found > index {
        assert(keys[index] != key);
    }
}

} // verus!
