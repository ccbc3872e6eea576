//! Mathematical model of a key-value table held as a sequence of entries.
//!
//! Balances and allowances are association lists: sequences of
//! `(key, value)` pairs with pairwise-distinct keys. A key that is absent
//! stores the value zero, so a zero value is indistinguishable from an
//! absent one. `sum_of` gives the total value held by a table, the measure
//! that the total-supply invariant bounds.

use vstd::prelude::*;

verus! {

/// No two entries of the table share a key.
pub open spec fn keys_distinct<K>(s: Seq<(K, u128)>) -> bool {
    forall|i: int, j: int| 0 <= i < j < s.len() ==> s[i].0 != s[j].0
}

/// Some entry of the table has key `k`.
pub open spec fn contains_key<K>(s: Seq<(K, u128)>, k: K) -> bool {
    exists|i: int| 0 <= i < s.len() && s[i].0 == k
}

/// The value stored under `k`: the first entry with that key, or zero when
/// no entry has it.
pub open spec fn value_of<K>(s: Seq<(K, u128)>, k: K) -> u128
    decreases s.len(),
{
    if s.len() == 0 {
        0
    } else if s[0].0 == k {
        s[0].1
    } else {
        value_of(s.drop_first(), k)
    }
}

/// The sum of all values stored in the table.
pub open spec fn sum_of<K>(s: Seq<(K, u128)>) -> int
    decreases s.len(),
{
    if s.len() == 0 {
        0
    } else {
        s[0].1 + sum_of(s.drop_first())
    }
}

/// The sum of a table of unsigned values is never negative.
pub proof fn lemma_sum_nonneg<K>(s: Seq<(K, u128)>)
    ensures
        0 <= sum_of(s),
    decreases s.len(),
{
    if s.len() > 0 {
        lemma_sum_nonneg(s.drop_first());
    }
}

/// No single entry holds more than the whole table.
pub proof fn lemma_value_le_sum<K>(s: Seq<(K, u128)>, k: K)
    ensures
        value_of(s, k) <= sum_of(s),
    decreases s.len(),
{
    if s.len() > 0 {
        lemma_sum_nonneg(s.drop_first());
        if s[0].0 != k {
            lemma_value_le_sum(s.drop_first(), k);
        }
    }
}

/// A key that no entry has stores zero.
pub proof fn lemma_value_absent<K>(s: Seq<(K, u128)>, k: K)
    requires
        !contains_key(s, k),
    ensures
        value_of(s, k) == 0,
    decreases s.len(),
{
    if s.len() > 0 {
        assert(s[0].0 != k);
        assert(!contains_key(s.drop_first(), k)) by {
            if contains_key(s.drop_first(), k) {
                let i = choose|i: int|
                    0 <= i < s.drop_first().len() && s.drop_first()[i].0 == k;
                assert(s[i + 1].0 == k);
            }
        }
        lemma_value_absent(s.drop_first(), k);
    }
}

/// The first entry with key `k` is the one whose value `k` stores.
pub proof fn lemma_value_first<K>(s: Seq<(K, u128)>, i: int, k: K)
    requires
        0 <= i < s.len(),
        s[i].0 == k,
        forall|j: int| 0 <= j < i ==> s[j].0 != k,
    ensures
        value_of(s, k) == s[i].1,
    decreases i,
{
    if i > 0 {
        assert(forall|j: int| 0 <= j < i - 1 ==> s.drop_first()[j].0 != k);
        lemma_value_first(s.drop_first(), i - 1, k);
    }
}

/// Overwriting the first entry that has a key changes the value stored
/// under that key and no other.
pub proof fn lemma_value_update<K>(s: Seq<(K, u128)>, i: int, v: u128, k: K)
    requires
        0 <= i < s.len(),
        forall|j: int| 0 <= j < i ==> s[j].0 != s[i].0,
    ensures
        value_of(s.update(i, (s[i].0, v)), k) == if s[i].0 == k {
            v
        } else {
            value_of(s, k)
        },
    decreases i,
{
    let t = s.update(i, (s[i].0, v));
    if i == 0 {
        assert(t.drop_first() =~= s.drop_first());
    } else {
        assert(t.drop_first() =~= s.drop_first().update(i - 1, (s[i].0, v)));
        assert(forall|j: int|
            0 <= j < i - 1 ==> (#[trigger] s.drop_first()[j]).0 != s.drop_first()[i - 1].0);
        lemma_value_update(s.drop_first(), i - 1, v, k);
    }
}

/// Appending an entry with a fresh key changes the value stored under that
/// key and no other.
pub proof fn lemma_value_push<K>(s: Seq<(K, u128)>, p: (K, u128), k: K)
    requires
        !contains_key(s, p.0),
    ensures
        value_of(s.push(p), k) == if p.0 == k {
            p.1
        } else {
            value_of(s, k)
        },
    decreases s.len(),
{
    if s.len() == 0 {
        assert(s.push(p)[0] == p);
        assert(s.push(p).drop_first() =~= Seq::<(K, u128)>::empty());
        assert(value_of(s.push(p).drop_first(), k) == 0);
    } else {
        assert(s.push(p)[0] == s[0]);
        assert(s[0].0 != p.0);
        assert(!contains_key(s.drop_first(), p.0)) by {
            if contains_key(s.drop_first(), p.0) {
                let i = choose|i: int|
                    0 <= i < s.drop_first().len() && s.drop_first()[i].0 == p.0;
                assert(s[i + 1].0 == p.0);
            }
        }
        assert(s.push(p).drop_first() =~= s.drop_first().push(p));
        lemma_value_push(s.drop_first(), p, k);
    }
}

/// Overwriting an entry with the same key changes the sum by the difference
/// of the values.
pub proof fn lemma_sum_update<K>(s: Seq<(K, u128)>, i: int, v: u128)
    requires
        0 <= i < s.len(),
    ensures
        sum_of(s.update(i, (s[i].0, v))) == sum_of(s) - s[i].1 + v,
    decreases i,
{
    let t = s.update(i, (s[i].0, v));
    if i == 0 {
        assert(t.drop_first() =~= s.drop_first());
    } else {
        assert(t.drop_first() =~= s.drop_first().update(i - 1, (s[i].0, v)));
        lemma_sum_update(s.drop_first(), i - 1, v);
    }
}

/// Appending an entry adds its value to the sum.
pub proof fn lemma_sum_push<K>(s: Seq<(K, u128)>, p: (K, u128))
    ensures
        sum_of(s.push(p)) == sum_of(s) + p.1,
    decreases s.len(),
{
    if s.len() == 0 {
        assert(s.push(p)[0] == p);
        assert(s.push(p).drop_first() =~= Seq::<(K, u128)>::empty());
        assert(sum_of(s.push(p).drop_first()) == 0);
    } else {
        assert(s.push(p)[0] == s[0]);
        assert(s.push(p).drop_first() =~= s.drop_first().push(p));
        lemma_sum_push(s.drop_first(), p);
    }
}

/// Overwriting an entry with the same key keeps the keys distinct.
pub proof fn lemma_distinct_update<K>(s: Seq<(K, u128)>, i: int, v: u128)
    requires
        keys_distinct(s),
        0 <= i < s.len(),
    ensures
        keys_distinct(s.update(i, (s[i].0, v))),
{
    let t = s.update(i, (s[i].0, v));
    assert forall|x: int, y: int| 0 <= x < y < t.len() implies t[x].0 != t[y].0 by {
        assert(t[x].0 == s[x].0);
        assert(t[y].0 == s[y].0);
    }
}

/// Appending an entry with a fresh key keeps the keys distinct.
pub proof fn lemma_distinct_push<K>(s: Seq<(K, u128)>, p: (K, u128))
    requires
        keys_distinct(s),
        !contains_key(s, p.0),
    ensures
        keys_distinct(s.push(p)),
{
    let t = s.push(p);
    assert forall|x: int, y: int| 0 <= x < y < t.len() implies t[x].0 != t[y].0 by {
        if y < s.len() {
            assert(t[x].0 == s[x].0 && t[y].0 == s[y].0);
        } else {
            assert(t[x].0 == s[x].0);
            assert(s[x].0 != p.0);
        }
    }
}

/// One more entry of a prefix adds that entry's value to the prefix sum.
pub proof fn lemma_sum_take_succ<K>(s: Seq<(K, u128)>, i: int)
    requires
        0 <= i < s.len(),
    ensures
        sum_of(s.take(i + 1)) == sum_of(s.take(i)) + s[i].1,
{
    assert(s.take(i + 1) =~= s.take(i).push(s[i]));
    lemma_sum_push(s.take(i), s[i]);
}

/// A prefix never sums to more than the whole table.
pub proof fn lemma_sum_take_le<K>(s: Seq<(K, u128)>, i: int)
    requires
        0 <= i <= s.len(),
    ensures
        sum_of(s.take(i)) <= sum_of(s),
    decreases s.len() - i,
{
    if i == s.len() {
        assert(s.take(i) =~= s);
    } else {
        lemma_sum_take_succ(s, i);
        lemma_sum_take_le(s, i + 1);
    }
}

} // verus!
