//! Tables keyed by text: lists of pairs in dictionary order of their keys.

use vstd::prelude::*;

use crate::text::{is_less, less, less_irreflexive, less_total, less_transitive, same};

verus! {

/// The position of the key from `k` on.
pub open spec fn key_from<V>(s: Seq<(Seq<char>, V)>, key: Seq<char>, k: int) -> Option<int>
    decreases s.len() - k,
{
    if k < 0 || k >= s.len() {
        None
    } else if s[k].0 == key {
        Some(k)
    } else {
        key_from(s, key, k + 1)
    }
}

/// The value under the key.
pub open spec fn value_at<V>(s: Seq<(Seq<char>, V)>, key: Seq<char>) -> Option<V> {
    match key_from(s, key, 0) {
        Some(k) => Some(s[k].1),
        None => None,
    }
}

/// The table has the key.
pub open spec fn has_key<V>(s: Seq<(Seq<char>, V)>, key: Seq<char>) -> bool {
    key_from(s, key, 0) is Some
}

/// The place of the key among the first `n` entries.
pub open spec fn key_slot<V>(s: Seq<(Seq<char>, V)>, key: Seq<char>, n: int) -> int
    decreases n,
{
    if n > 0 && less(key, s[n - 1].0) {
        key_slot(s, key, n - 1)
    } else {
        n
    }
}

/// The table with an entry for the key, kept where there is one already.
pub open spec fn with_new<V>(s: Seq<(Seq<char>, V)>, key: Seq<char>, value: V) -> Seq<(Seq<char>, V)> {
    if has_key(s, key) {
        s
    } else {
        s.insert(key_slot(s, key, s.len() as int), (key, value))
    }
}

/// The table with the value under the key, replacing what stood there.
pub open spec fn with_value<V>(s: Seq<(Seq<char>, V)>, key: Seq<char>, value: V) -> Seq<
    (Seq<char>, V),
> {
    match key_from(s, key, 0) {
        Some(k) => s.update(k, (key, value)),
        None => s.insert(key_slot(s, key, s.len() as int), (key, value)),
    }
}

/// The keys stand in dictionary order, each once.
pub open spec fn keyed<V>(s: Seq<(Seq<char>, V)>) -> bool {
    forall|i: int, j: int| 0 <= i < j < s.len() ==> less(#[trigger] s[i].0, #[trigger] s[j].0)
}

pub proof fn key_slot_bounds<V>(s: Seq<(Seq<char>, V)>, key: Seq<char>, n: int)
    requires
        0 <= n <= s.len(),
    ensures
        0 <= key_slot(s, key, n) <= n,
        key_slot(s, key, n) > 0 ==> !less(key, s[key_slot(s, key, n) - 1].0),
        forall|j: int| key_slot(s, key, n) <= j < n ==> less(key, #[trigger] s[j].0),
    decreases n,
{
    if n > 0 && less(key, s[n - 1].0) {
        key_slot_bounds(s, key, n - 1);
    }
}

pub proof fn key_from_first<V>(s: Seq<(Seq<char>, V)>, key: Seq<char>, k: int)
    requires
        0 <= k,
    ensures
        (match key_from(s, key, k) {
            Some(i) => k <= i < s.len() && s[i].0 == key,
            None => forall|j: int| k <= j < s.len() ==> #[trigger] s[j].0 != key,
        }),
    decreases s.len() - k,
{
    if k < s.len() && s[k].0 != key {
        key_from_first(s, key, k + 1);
    }
}

/// A new entry keeps a table in order.
pub proof fn with_new_keyed<V>(s: Seq<(Seq<char>, V)>, key: Seq<char>, value: V)
    requires
        keyed(s),
    ensures
        keyed(with_new(s, key, value)),
        has_key(with_new(s, key, value), key),
{
    key_from_first(s, key, 0);
    if !has_key(s, key) {
        let n = s.len() as int;
        key_slot_bounds(s, key, n);
        let k = key_slot(s, key, n);
        let t = s.insert(k, (key, value));
        assert forall|i: int, j: int| 0 <= i < j < t.len() implies less(#[trigger] t[i].0, #[trigger] t[j].0) by {
            if j == k {
                less_total(s[k - 1].0, key);
                assert(less(s[k - 1].0, key));
                if i < k - 1 {
                    less_transitive(s[i].0, s[k - 1].0, key);
                }
            } else if i == k {
                assert(t[j] == s[j - 1]);
            } else {
                let a = if i < k { i } else { i - 1 };
                let b = if j < k { j } else { j - 1 };
                assert(less(s[a].0, s[b].0));
            }
        }
        assert(t[k].0 == key);
        key_from_first(t, key, 0);
    }
}

/// A value put under a key keeps a table in order, and is found there.
pub proof fn with_value_keyed<V>(s: Seq<(Seq<char>, V)>, key: Seq<char>, value: V)
    requires
        keyed(s),
    ensures
        keyed(with_value(s, key, value)),
        value_at(with_value(s, key, value), key) == Some(value),
{
    key_from_first(s, key, 0);
    match key_from(s, key, 0) {
        Some(k) => {
            let t = s.update(k, (key, value));
            assert forall|i: int, j: int| 0 <= i < j < t.len() implies less(#[trigger] t[i].0, #[trigger] t[j].0) by {
                assert(less(s[i].0, s[j].0));
            }
            key_from_first(t, key, 0);
            assert(t[k].0 == key);
            let m = key_from(t, key, 0).unwrap();
            if m != k {
                less_irreflexive(key);
                if m < k {
                    assert(less(t[m].0, t[k].0));
                } else {
                    assert(less(t[k].0, t[m].0));
                }
            }
        },
        None => {
            with_new_keyed(s, key, value);
            let t = with_new(s, key, value);
            let k = key_slot(s, key, s.len() as int);
            key_slot_bounds(s, key, s.len() as int);
            assert(t[k] == (key, value));
            key_from_first(t, key, 0);
            let m = key_from(t, key, 0).unwrap();
            if m != k {
                less_irreflexive(key);
                if m < k {
                    assert(less(t[m].0, t[k].0));
                } else {
                    assert(less(t[k].0, t[m].0));
                }
            }
        },
    }
}

/// The position of the key.
pub fn find_key<V: DeepView>(v: &Vec<(String, V)>, key: &str) -> (r: Option<usize>)
    ensures
        (match r {
            Some(k) => k < v.len() && key_from(v.deep_view(), key@, 0) == Some(k as int)
                && v@[k as int].0@ == key@,
            None => key_from(v.deep_view(), key@, 0) is None,
        }),
{
    let mut k: usize = 0;
    while k < v.len()
        invariant
            k <= v@.len(),
            key_from(v.deep_view(), key@, 0) == key_from(v.deep_view(), key@, k as int),
        decreases v@.len() - k,
    {
        if same(v[k].0.as_str(), key) {
            return Some(k);
        }
        k = k + 1;
    }
    None
}

fn place_for<V: DeepView>(v: &Vec<(String, V)>, key: &str) -> (r: usize)
    ensures
        r == key_slot(v.deep_view(), key@, v@.len() as int),
        r <= v@.len(),
{
    let mut n: usize = v.len();
    while n > 0 && is_less(key, v[n - 1].0.as_str())
        invariant
            n <= v@.len(),
            key_slot(v.deep_view(), key@, v@.len() as int) == key_slot(
                v.deep_view(),
                key@,
                n as int,
            ),
        decreases n,
    {
        n = n - 1;
    }
    n
}

/// Adds an entry where the key has none.
pub fn put_new<V: DeepView>(v: &mut Vec<(String, V)>, key: String, value: V)
    ensures
        final(v).deep_view() == with_new(old(v).deep_view(), key@, value.deep_view()),
{
    if find_key(v, key.as_str()).is_none() {
        let n: usize = place_for(v, key.as_str());
        let ghost start = v.deep_view();
        v.insert(n, (key, value));
        assert(v.deep_view() =~= start.insert(n as int, (key@, value.deep_view())));
    }
}

/// Puts the value under the key.
pub fn put<V: DeepView>(v: &mut Vec<(String, V)>, key: String, value: V)
    ensures
        final(v).deep_view() == with_value(old(v).deep_view(), key@, value.deep_view()),
{
    let ghost start = v.deep_view();
    match find_key(v, key.as_str()) {
        Some(k) => {
            v[k] = (key, value);
            assert(v.deep_view() =~= start.update(k as int, (key@, value.deep_view())));
        },
        None => {
            let n: usize = place_for(v, key.as_str());
            v.insert(n, (key, value));
            assert(v.deep_view() =~= start.insert(n as int, (key@, value.deep_view())));
        },
    }
}

} // verus!
