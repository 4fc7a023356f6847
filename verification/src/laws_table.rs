//! What holds of ordered tables: laws of putting in and looking up.

use vstd::prelude::*;

use crate::table::{
    has_key, key_from, key_from_first, key_slot, key_slot_bounds, keyed, value_at, with_new, with_new_keyed,
    with_value, with_value_keyed,
};
use crate::text::{less, less_irreflexive};

verus! {

/// Setting the value of one key leaves that of every other as it was.
pub proof fn other_keys_stay<V>(s: Seq<(Seq<char>, V)>, key: Seq<char>, value: V, other: Seq<char>)
    requires
        keyed(s),
        key != other,
    ensures
        value_at(with_value(s, key, value), other) == value_at(s, other),
{
    with_value_keyed(s, key, value);
    let t = with_value(s, key, value);
    key_from_first(s, other, 0);
    key_from_first(t, other, 0);
    key_from_first(s, key, 0);
    key_slot_bounds(s, key, s.len() as int);
    if let Some(k) = key_from(s, other, 0) {
        let j = if key_from(s, key, 0) is Some {
            k
        } else if k < key_slot(s, key, s.len() as int) {
            k
        } else {
            k + 1
        };
        assert(t[j] == s[k]);
        if let Some(m) = key_from(t, other, 0) {
            if m != j {
                less_irreflexive(other);
                if m < j {
                    assert(less(t[m].0, t[j].0));
                } else {
                    assert(less(t[j].0, t[m].0));
                }
            }
        }
    } else if let Some(m) = key_from(t, other, 0) {
        let slot = key_slot(s, key, s.len() as int);
        let j = if key_from(s, key, 0) is Some {
            m
        } else if m < slot {
            m
        } else {
            m - 1
        };
        assert(t[m].0 == other);
        assert(s[j].0 == other);
    }
}

/// A key that is there keeps its value; one that is new gets it; every other key keeps
/// what it had.
pub proof fn first_value_stays<V>(s: Seq<(Seq<char>, V)>, key: Seq<char>, value: V, other: Seq<char>)
    requires
        keyed(s),
    ensures
        value_at(with_new(s, key, value), key) == if has_key(s, key) {
            value_at(s, key)
        } else {
            Some(value)
        },
        other != key ==> value_at(with_new(s, key, value), other) == value_at(s, other),
        keyed(with_new(s, key, value)),
{
    with_new_keyed(s, key, value);
    if !has_key(s, key) {
        with_value_keyed(s, key, value);
        assert(with_new(s, key, value) == with_value(s, key, value));
        if other != key {
            other_keys_stay(s, key, value, other);
        }
    }
}

/// The value that is set last is the one that is found.
pub proof fn last_value_is_found<V>(s: Seq<(Seq<char>, V)>, key: Seq<char>, value: V)
    requires
        keyed(s),
    ensures
        value_at(with_value(s, key, value), key) == Some(value),
        keyed(with_value(s, key, value)),
{
    with_value_keyed(s, key, value);
}

/// A key has a value exactly where an entry of the table has the key, and then it is
/// that of the first such entry.
pub proof fn value_is_that_of_the_entry<V>(s: Seq<(Seq<char>, V)>, key: Seq<char>)
    ensures
        has_key(s, key) <==> exists|i: int| 0 <= i < s.len() && (#[trigger] s[i]).0 == key,
        value_at(s, key) is Some <==> has_key(s, key),
        forall|i: int|
            0 <= i < s.len() && (#[trigger] s[i]).0 == key && (forall|j: int|
                0 <= j < i ==> (#[trigger] s[j]).0 != key) ==> value_at(s, key) == Some(s[i].1),
{
    key_from_first(s, key, 0);
    assert forall|i: int|
        0 <= i < s.len() && (#[trigger] s[i]).0 == key && (forall|j: int|
            0 <= j < i ==> (#[trigger] s[j]).0 != key) implies value_at(s, key) == Some(s[i].1) by {
        first_is_found(s, key, 0, i);
    }
}

proof fn first_is_found<V>(s: Seq<(Seq<char>, V)>, key: Seq<char>, k: int, i: int)
    requires
        0 <= k <= i < s.len(),
        s[i].0 == key,
        forall|j: int| k <= j < i ==> (#[trigger] s[j]).0 != key,
    ensures
        key_from(s, key, k) == Some(i),
    decreases i - k,
{
    if k < i {
        assert(s[k].0 != key);
        first_is_found(s, key, k + 1, i);
    }
}

} // verus!
