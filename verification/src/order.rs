//! Sorted sequences of level numbers.

use vstd::prelude::*;

verus! {

broadcast use vstd::seq_lib::group_to_multiset_ensures;

/// `s` is in ascending order.
pub open spec fn ascending(s: Seq<u32>) -> bool {
    forall|i: int, j: int| 0 <= i < j < s.len() ==> s[i] <= s[j]
}

/// `s` is in strictly ascending order (ascending, without repetitions).
pub open spec fn strictly_ascending(s: Seq<u32>) -> bool {
    forall|i: int, j: int| 0 <= i < j < s.len() ==> s[i] < s[j]
}

/// Whether `v` holds `x`.
pub fn contains_level(v: &Vec<u32>, x: u32) -> (b: bool)
    ensures
        b == v@.contains(x),
{
    let mut i: usize = 0;
    while i < v.len()
        invariant
            i <= v@.len(),
            forall|k: int| 0 <= k < i ==> v@[k] != x,
        decreases v.len() - i,
    {
        if v[i] == x {
            assert(v@[i as int] == x);
            return true;
        }
        i = i + 1;
    }
    false
}

/// Position at which `x` goes into the ascending `r`: after every element not above it.
fn insertion_point(r: &Vec<u32>, x: u32) -> (p: usize)
    requires
        ascending(r@),
    ensures
        p <= r@.len(),
        forall|k: int| 0 <= k < p ==> r@[k] <= x,
        forall|k: int| p <= k < r@.len() ==> r@[k] > x,
{
    let mut p: usize = 0;
    while p < r.len() && r[p] <= x
        invariant
            p <= r@.len(),
            ascending(r@),
            forall|k: int| 0 <= k < p ==> r@[k] <= x,
        decreases r.len() - p,
    {
        p = p + 1;
    }
    p
}

pub proof fn lemma_insert_multiset<A>(s: Seq<A>, p: int, x: A)
    requires
        0 <= p <= s.len(),
    ensures
        s.insert(p, x).to_multiset() == s.to_multiset().insert(x),
{
    let a = s.subrange(0, p);
    let b = s.subrange(p, s.len() as int);
    assert(s =~= a + b);
    assert(s.insert(p, x) =~= a.push(x) + b);
    vstd::seq_lib::lemma_multiset_commutative(a.push(x), b);
    vstd::seq_lib::lemma_multiset_commutative(a, b);
    assert(a.push(x).to_multiset() =~= a.to_multiset().insert(x));
    assert(s.insert(p, x).to_multiset() =~= s.to_multiset().insert(x));
}

/// The elements of `v` in ascending order.
pub fn sort_ascending(v: &Vec<u32>) -> (r: Vec<u32>)
    ensures
        ascending(r@),
        r@.to_multiset() == v@.to_multiset(),
{
    let mut r: Vec<u32> = Vec::new();
    let mut i: usize = 0;
    while i < v.len()
        invariant
            i <= v@.len(),
            ascending(r@),
            r@.to_multiset() == v@.subrange(0, i as int).to_multiset(),
        decreases v.len() - i,
    {
        let x = v[i];
        let p = insertion_point(&r, x);
        proof {
            lemma_insert_multiset(r@, p as int, x);
            assert(v@.subrange(0, i + 1) =~= v@.subrange(0, i as int).push(x));
        }
        r.insert(p, x);
        i = i + 1;
    }
    assert(v@.subrange(0, v@.len() as int) =~= v@);
    r
}

/// The distinct elements of `v` in strictly ascending order.
pub fn sort_dedup(v: &Vec<u32>) -> (r: Vec<u32>)
    ensures
        strictly_ascending(r@),
        r@.to_set() == v@.to_set(),
{
    let mut r: Vec<u32> = Vec::new();
    let mut i: usize = 0;
    while i < v.len()
        invariant
            i <= v@.len(),
            strictly_ascending(r@),
            r@.to_set() == v@.subrange(0, i as int).to_set(),
        decreases v.len() - i,
    {
        let x = v[i];
        let p = insertion_point(&r, x);
        let ghost pre = v@.subrange(0, i as int);
        let ghost pre1 = v@.subrange(0, i + 1);
        assert(pre1 =~= pre.push(x));
        let ghost old_r = r@;
        if p > 0 && r[p - 1] == x {
            assert(r@.to_set() =~= pre1.to_set()) by {
                assert(r@.contains(r@[p - 1]));
                assert forall|y: u32| pre1.contains(y) implies old_r.contains(y) by {
                    if y != x {
                        let k = choose|k: int| 0 <= k < pre1.len() && #[trigger] pre1[k] == y;
                        assert(pre[k] == y);
                        assert(pre.contains(y));
                        assert(pre.to_set().contains(y));
                    }
                }
                assert forall|y: u32| old_r.contains(y) implies pre1.contains(y) by {
                    assert(old_r.to_set().contains(y));
                    assert(pre.contains(y));
                    let k = choose|k: int| 0 <= k < pre.len() && #[trigger] pre[k] == y;
                    assert(pre1[k] == y);
                }
            }
        } else {
            r.insert(p, x);
            proof {
                old_r.insert_ensures(p as int, x);
                assert(r@.to_set() =~= pre1.to_set()) by {
                    assert forall|y: u32| pre1.contains(y) implies r@.contains(y) by {
                        if y == x {
                            assert(r@[p as int] == x);
                        } else {
                            let k = choose|k: int| 0 <= k < pre1.len() && #[trigger] pre1[k] == y;
                            assert(pre[k] == y);
                            assert(pre.contains(y));
                            assert(pre.to_set().contains(y));
                            assert(old_r.to_set().contains(y));
                            let m = choose|m: int| 0 <= m < old_r.len() && #[trigger] old_r[m] == y;
                            if m < p {
                                assert(r@[m] == y);
                            } else {
                                assert(r@[m + 1] == y);
                            }
                        }
                    }
                    assert forall|y: u32| r@.contains(y) implies pre1.contains(y) by {
                        let m = choose|m: int| 0 <= m < r@.len() && #[trigger] r@[m] == y;
                        if m == p {
                            assert(pre1[i as int] == y);
                        } else {
                            let m2 = if m < p { m } else { m - 1 };
                            assert(old_r[m2] == y);
                            assert(old_r.contains(y));
                            assert(old_r.to_set().contains(y));
                            assert(pre.contains(y));
                            let k = choose|k: int| 0 <= k < pre.len() && #[trigger] pre[k] == y;
                            assert(pre1[k] == y);
                        }
                    }
                }
                assert forall|a: int, b: int| 0 <= a < b < r@.len() implies r@[a] < r@[b] by {
                    if p > 0 {
                        assert(old_r[p - 1] <= x);
                        assert(old_r[p - 1] != x);
                    }
                }
            }
        }
        i = i + 1;
    }
    assert(v@.subrange(0, v@.len() as int) =~= v@);
    r
}

} // verus!
