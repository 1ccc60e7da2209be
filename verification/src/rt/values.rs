//! The values that a runtime keeps, one for each type.

use std::collections::HashMap;
use std::hash::{BuildHasher, Hash};

use vstd::prelude::*;

verus! {

/// The values that a runtime keeps, by the identity of their types.
#[verifier::reject_recursive_types(K)]
#[verifier::reject_recursive_types(S)]
pub struct Values<K, V, S> {
    values: HashMap<K, V, S>,
}

impl<K: Eq + Hash, V, S: BuildHasher> View for Values<K, V, S> {
    type V = Map<K, V>;

    closed spec fn view(&self) -> Map<K, V> {
        self.values@
    }
}

/// Whether keys and hashers behave: equal keys are the same key, and equal keys
/// have equal hashes.
pub open spec fn hashes<K, S>() -> bool {
    &&& vstd::std_specs::hash::obeys_key_model::<K>()
    &&& vstd::std_specs::hash::builds_valid_hashers::<S>()
}

/// The value that is kept for a type, if any.
pub open spec fn found<K, V>(values: Map<K, V>, key: K) -> Option<V> {
    if values.contains_key(key) {
        Some(values[key])
    } else {
        None
    }
}

impl<K: Eq + Hash, V, S: BuildHasher + Default> Values<K, V, S> {
    /// Create an empty collection of values.
    pub fn new() -> (r: Self)
        ensures
            r@ == Map::<K, V>::empty(),
    {
        Values { values: HashMap::default() }
    }

    /// Get a value previously inserted. Where there is none, one is to be created
    /// and inserted.
    pub fn value(&self, key: &K) -> (r: Option<&V>)
        ensures
            hashes::<K, S>() ==> match r {
                Some(value) => found(self@, *key) == Some(*value),
                None => found(self@, *key) is None,
            },
    {
        self.values.get(key)
    }

    /// Insert a value, in place of the one that was there, if any.
    pub fn insert(&mut self, key: K, value: V)
        ensures
            hashes::<K, S>() ==> final(self)@ == old(self)@.insert(key, value),
    {
        let _ = self.values.insert(key, value);
    }
}

/// The values after some more are inserted, in order.
pub open spec fn inserted<K, V>(values: Map<K, V>, later: Seq<(K, V)>) -> Map<K, V>
    decreases later.len(),
{
    if later.len() == 0 {
        values
    } else {
        let (key, value) = later.last();
        inserted(values, later.drop_last()).insert(key, value)
    }
}

/// A value that was inserted is the one that is found from then on, so that no other
/// one is created, as long as no other one is inserted for its type.
pub proof fn law_inserted_value_is_kept<K, V>(
    values: Map<K, V>,
    key: K,
    value: V,
    later: Seq<(K, V)>,
)
    requires
        forall|i: int| 0 <= i < later.len() ==> (#[trigger] later[i]).0 != key,
    ensures
        found(inserted(values.insert(key, value), later), key) == Some(value),
    decreases later.len(),
{
    if later.len() > 0 {
        let less = later.drop_last();
        assert forall|i: int| 0 <= i < less.len() implies (#[trigger] less[i]).0 != key by {
            assert(less[i] == later[i]);
        }
        assert(later.last() == later[later.len() - 1]);
        law_inserted_value_is_kept(values, key, value, less);
    }
}

/// What asking for the value of a type returns: the value that is kept or else the
/// one that is then created, `made`.
pub open spec fn answer<K, V>(values: Map<K, V>, key: K, made: V) -> V {
    match found(values, key) {
        Some(value) => value,
        None => made,
    }
}

/// The values after each of `asks` asked for the value of a type and, where none was
/// found, inserted the one that it created.
pub open spec fn after_asks<K, V>(values: Map<K, V>, asks: Seq<(K, V)>) -> Map<K, V>
    decreases asks.len(),
{
    if asks.len() == 0 {
        values
    } else {
        let before = after_asks(values, asks.drop_last());
        let (key, made) = asks.last();
        if found(before, key) is Some {
            before
        } else {
            before.insert(key, made)
        }
    }
}

/// The value of a type is created once: whoever asks for it later finds the value that
/// the earlier one got, and creates none.
pub proof fn law_value_is_created_once<K, V>(
    values: Map<K, V>,
    asks: Seq<(K, V)>,
    first: int,
    later: int,
)
    requires
        0 <= first < later <= asks.len(),
    ensures
        ({
            let (key, made) = asks[first];
            found(after_asks(values, asks.take(later)), key) == Some(
                answer(after_asks(values, asks.take(first)), key, made),
            )
        }),
    decreases later,
{
    assert(asks.take(later).drop_last() =~= asks.take(later - 1));
    if later > first + 1 {
        law_value_is_created_once(values, asks, first, later - 1);
    }
}

/// The values of other types are not affected by an insertion.
pub proof fn law_insertion_is_isolated<K, V>(values: Map<K, V>, key: K, value: V, other: K)
    requires
        other != key,
    ensures
        found(values.insert(key, value), other) == found(values, other),
{
}

/// A value is found for a type if and only if one is kept for it, and it is that one.
pub proof fn law_found_value_is_the_kept_one<K, V>(values: Map<K, V>, key: K, value: V)
    ensures
        found(values, key) is Some <==> values.dom().contains(key),
        found(values, key) == Some(value) ==> values.contains_pair(key, value),
{
}

} // verus!
