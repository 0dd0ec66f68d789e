//! The guarantees of the registry and the resolver, stated once and
//! proved for every storable type.
//!
//! Each law is phrased over the models that the executable contracts
//! speak of: a [`TypeMap`](crate::typemap::TypeMap) is a map from type
//! token to erased value, and an [`Injector`](crate::Injector) chain is
//! a sequence of such maps, local scope first. The operations' own
//! contracts say which model each call produces; the laws here say what
//! a typed lookup finds in the produced model.

use vstd::prelude::*;

use crate::chain_lookup;
use crate::resolved_in;
use crate::typemap::stored_in;
use crate::value::Storable;
use crate::value::Value;

verus! {

/// After a value of the type `T` is written into a map, the map stores
/// exactly that value for `T`: a lookup of `T` right after `insert` or
/// `add_value` finds it.
pub proof fn lemma_insert_then_stored<T: Storable>(m: Map<u64, Value>, v: T)
    ensures
        stored_in::<T>(m.insert(T::key_spec(), v.to_value_spec())) == Some(v),
{
    T::lemma_round_trip(v);
}

/// Writing a second value of the type `T` over a first leaves the map
/// exactly as if only the second had been written: the first value is
/// gone, and a lookup of `T` finds the second.
pub proof fn lemma_insert_overwrites<T: Storable>(m: Map<u64, Value>, v1: T, v2: T)
    ensures
        m.insert(T::key_spec(), v1.to_value_spec()).insert(T::key_spec(), v2.to_value_spec())
            == m.insert(T::key_spec(), v2.to_value_spec()),
        stored_in::<T>(
            m.insert(T::key_spec(), v1.to_value_spec()).insert(T::key_spec(), v2.to_value_spec()),
        ) == Some(v2),
{
    assert(m.insert(T::key_spec(), v1.to_value_spec()).insert(T::key_spec(), v2.to_value_spec())
        =~= m.insert(T::key_spec(), v2.to_value_spec()));
    T::lemma_round_trip(v2);
}

/// After the entry of the type `T` is removed, the map stores nothing
/// for `T`: a lookup of `T` right after `remove` finds nothing.
pub proof fn lemma_remove_then_stored<T: Storable>(m: Map<u64, Value>)
    ensures
        stored_in::<T>(m.remove(T::key_spec())) is None,
{
}

/// A map without an entry for the type `T` stores nothing for `T`; in
/// particular a type never inserted is never found.
pub proof fn lemma_absent_stored<T: Storable>(m: Map<u64, Value>)
    requires
        !m.contains_key(T::key_spec()),
    ensures
        stored_in::<T>(m) is None,
{
}

/// A value of the type `T` held by the local scope shadows every
/// ancestor: the chain resolves `T` to the local value, whatever any
/// outer scope holds.
pub proof fn lemma_local_shadows<T: Storable>(c: Seq<Map<u64, Value>>, v: T)
    requires
        c.len() >= 1,
        c[0].contains_key(T::key_spec()),
        c[0][T::key_spec()] == v.to_value_spec(),
    ensures
        resolved_in::<T>(c) == Some(v),
{
    T::lemma_round_trip(v);
}

/// A type absent from the local scope resolves from the rest of the
/// chain: lookups fall through to the parent, and a chain with no entry
/// anywhere resolves to nothing.
pub proof fn lemma_miss_falls_through<T: Storable>(c: Seq<Map<u64, Value>>)
    requires
        c.len() >= 1,
        !c[0].contains_key(T::key_spec()),
    ensures
        resolved_in::<T>(c) == resolved_in::<T>(c.drop_first()),
{
}

/// Adding a value of the type `T` to the front scope of a chain makes
/// the whole chain resolve `T` to that value, whatever any scope held
/// before.
pub proof fn lemma_add_value_then_resolved<T: Storable>(c: Seq<Map<u64, Value>>, v: T)
    requires
        c.len() >= 1,
    ensures
        resolved_in::<T>(c.update(0, c[0].insert(T::key_spec(), v.to_value_spec()))) == Some(v),
{
    let c2 = c.update(0, c[0].insert(T::key_spec(), v.to_value_spec()));
    assert(c2[0].contains_key(T::key_spec()));
    lemma_local_shadows::<T>(c2, v);
}

/// A chain lookup never invents a value: whatever key it resolves, some
/// scope of the chain holds that key with that very value.
pub proof fn lemma_lookup_from_some_scope(c: Seq<Map<u64, Value>>, k: u64)
    requires
        chain_lookup(c, k) is Some,
    ensures
        exists|d: int|
            0 <= d < c.len() && (#[trigger] c[d]).contains_key(k) && chain_lookup(c, k) == Some(
                c[d][k],
            ),
    decreases c.len(),
{
    if c.len() > 0 && !c[0].contains_key(k) {
        lemma_lookup_from_some_scope(c.drop_first(), k);
        let d0 = choose|d: int|
            0 <= d < c.drop_first().len() && (#[trigger] c.drop_first()[d]).contains_key(k)
                && chain_lookup(c.drop_first(), k) == Some(c.drop_first()[d][k]);
        assert(c[d0 + 1].contains_key(k) && chain_lookup(c, k) == Some(c[d0 + 1][k]));
    }
}

} // verus!
