//! Stable sorting by an unsigned key, as `sort_by_key` does.

use vstd::prelude::*;

verus! {

/// A value with an unsigned sort key.
pub trait Keyed {
    spec fn key_of(&self) -> u32;

    fn key(&self) -> (k: u32)
        ensures
            k == self.key_of(),
    ;
}

/// Position of the first element whose key exceeds `k` (the length when there is none).
pub open spec fn first_greater<T>(s: Seq<T>, k: u32, key: spec_fn(T) -> u32) -> int
    decreases s.len(),
{
    if s.len() == 0 {
        0
    } else if key(s[0]) > k {
        0
    } else {
        1 + first_greater(s.drop_first(), k, key)
    }
}

/// `x` inserted after every element whose key is not greater than its own.
pub open spec fn insert_sorted<T>(s: Seq<T>, x: T, key: spec_fn(T) -> u32) -> Seq<T> {
    s.insert(first_greater(s, key(x), key), x)
}

/// The stable sort of `s` by `key`: elements with equal keys keep their relative order.
pub open spec fn stable_sort<T>(s: Seq<T>, key: spec_fn(T) -> u32) -> Seq<T>
    decreases s.len(),
{
    if s.len() == 0 {
        s
    } else {
        insert_sorted(stable_sort(s.drop_last(), key), s.last(), key)
    }
}

/// Keys never decrease along the sequence.
pub open spec fn sorted_by<T>(s: Seq<T>, key: spec_fn(T) -> u32) -> bool {
    forall|i: int, j: int| 0 <= i <= j < s.len() ==> key(s[i]) <= key(s[j])
}

pub proof fn lemma_first_greater_range<T>(s: Seq<T>, k: u32, key: spec_fn(T) -> u32)
    ensures
        0 <= first_greater(s, k, key) <= s.len(),
    decreases s.len(),
{
    if s.len() > 0 && key(s[0]) <= k {
        lemma_first_greater_range(s.drop_first(), k, key);
    }
}

proof fn lemma_first_greater_at<T>(s: Seq<T>, k: u32, key: spec_fn(T) -> u32, p: int)
    requires
        0 <= p <= s.len(),
        forall|i: int| 0 <= i < p ==> key(#[trigger] s[i]) <= k,
        p == s.len() || key(s[p]) > k,
    ensures
        first_greater(s, k, key) == p,
    decreases p,
{
    if p > 0 {
        assert forall|i: int| 0 <= i < p - 1 implies key(#[trigger] s.drop_first()[i]) <= k by {
            assert(s.drop_first()[i] == s[i + 1]);
        }
        lemma_first_greater_at(s.drop_first(), k, key, p - 1);
    }
}

proof fn lemma_first_greater_props<T>(s: Seq<T>, k: u32, key: spec_fn(T) -> u32)
    ensures
        forall|i: int| 0 <= i < first_greater(s, k, key) ==> key(#[trigger] s[i]) <= k,
        first_greater(s, k, key) < s.len() ==> key(s[first_greater(s, k, key)]) > k,
    decreases s.len(),
{
    if s.len() > 0 && key(s[0]) <= k {
        lemma_first_greater_props(s.drop_first(), k, key);
        lemma_first_greater_range(s.drop_first(), k, key);
        let q = first_greater(s.drop_first(), k, key);
        if q < s.drop_first().len() {
            assert(s[q + 1] == s.drop_first()[q]);
        }
        assert forall|i: int| 0 <= i < first_greater(s, k, key) implies key(#[trigger] s[i]) <= k by {
            if i > 0 {
                assert(s[i] == s.drop_first()[i - 1]);
            }
        }
    }
}

/// Inserting into a sorted sequence keeps it sorted.
pub proof fn lemma_insert_sorted_sorted<T>(s: Seq<T>, x: T, key: spec_fn(T) -> u32)
    requires
        sorted_by(s, key),
    ensures
        sorted_by(insert_sorted(s, x, key), key),
        insert_sorted(s, x, key).len() == s.len() + 1,
{
    let p = first_greater(s, key(x), key);
    lemma_first_greater_range(s, key(x), key);
    lemma_first_greater_props(s, key(x), key);
    let r = insert_sorted(s, x, key);
    assert forall|i: int, j: int| 0 <= i <= j < r.len() implies key(r[i]) <= key(r[j]) by {
        if i < p && j < p {
        } else if i < p && j == p {
        } else if i < p && j > p {
            assert(r[j] == s[j - 1]);
        } else if i == p && j > p {
            assert(r[j] == s[j - 1]);
            assert(key(s[p]) > key(x));
            assert(key(s[p]) <= key(s[j - 1]));
        } else if i > p {
            assert(r[i] == s[i - 1]);
            assert(r[j] == s[j - 1]);
        }
    }
}

/// The stable sort is sorted by its key.
pub proof fn lemma_stable_sort_sorted<T>(s: Seq<T>, key: spec_fn(T) -> u32)
    ensures
        sorted_by(stable_sort(s, key), key),
        stable_sort(s, key).len() == s.len(),
    decreases s.len(),
{
    if s.len() > 0 {
        lemma_stable_sort_sorted(s.drop_last(), key);
        lemma_insert_sorted_sorted(stable_sort(s.drop_last(), key), s.last(), key);
    }
}

/// Sorting commutes with a mapping that preserves keys.
pub proof fn lemma_stable_sort_map<A, B>(
    s: Seq<A>,
    f: spec_fn(A) -> B,
    ka: spec_fn(A) -> u32,
    kb: spec_fn(B) -> u32,
)
    requires
        forall|a: A| #[trigger] kb(f(a)) == ka(a),
    ensures
        stable_sort(s.map_values(f), kb) == stable_sort(s, ka).map_values(f),
    decreases s.len(),
{
    if s.len() > 0 {
        assert(s.map_values(f).drop_last() =~= s.drop_last().map_values(f));
        lemma_stable_sort_map(s.drop_last(), f, ka, kb);
        let t = stable_sort(s.drop_last(), ka);
        lemma_first_greater_map(t, f, ka, kb, ka(s.last()));
        lemma_stable_sort_sorted(s.drop_last(), ka);
        lemma_first_greater_range(t, ka(s.last()), ka);
        let p = first_greater(t, ka(s.last()), ka);
        assert(t.map_values(f).insert(p, f(s.last())) =~= t.insert(p, s.last()).map_values(f));
    } else {
        assert(s.map_values(f) =~= Seq::<B>::empty());
    }
}

proof fn lemma_first_greater_map<A, B>(
    s: Seq<A>,
    f: spec_fn(A) -> B,
    ka: spec_fn(A) -> u32,
    kb: spec_fn(B) -> u32,
    k: u32,
)
    requires
        forall|a: A| #[trigger] kb(f(a)) == ka(a),
    ensures
        first_greater(s.map_values(f), k, kb) == first_greater(s, k, ka),
    decreases s.len(),
{
    if s.len() > 0 {
        assert(s.map_values(f).drop_first() =~= s.drop_first().map_values(f));
        assert(kb(s.map_values(f)[0]) == ka(s[0]));
        lemma_first_greater_map(s.drop_first(), f, ka, kb, k);
    }
}

/// Stable sort by key: insertion after every element with a key that is not greater.
pub fn stable_sort_by_key<T: Keyed>(v: Vec<T>) -> (r: Vec<T>)
    ensures
        r@ == stable_sort(v@, |x: T| x.key_of()),
{
    let ghost key = |x: T| x.key_of();
    let ghost orig = v@;
    let mut rest = v;
    let mut out: Vec<T> = Vec::new();
    let mut taken: usize = 0;
    let n = rest.len();
    assert(orig.take(0) =~= Seq::<T>::empty());
    while rest.len() > 0
        invariant
            n == orig.len(),
            taken + rest.len() == n,
            rest@ == orig.skip(taken as int),
            out@ == stable_sort(orig.take(taken as int), key),
            key == (|x: T| x.key_of()),
        decreases rest.len(),
    {
        let x = rest.remove(0);
        let k = x.key();
        let mut p: usize = 0;
        while p < out.len() && out[p].key() <= k
            invariant
                p <= out.len(),
                forall|i: int| 0 <= i < p ==> key(#[trigger] out@[i]) <= k,
                k == key(x),
                key == (|x: T| x.key_of()),
            decreases out.len() - p,
        {
            p = p + 1;
        }
        proof {
            lemma_first_greater_at(out@, k, key, p as int);
            assert(orig.take(taken + 1).drop_last() =~= orig.take(taken as int));
            assert(orig.take(taken + 1).last() == x);
        }
        out.insert(p, x);
        taken = taken + 1;
        assert(rest@ =~= orig.skip(taken as int));
    }
    assert(orig.take(n as int) =~= orig);
    out
}

} // verus!
