//! Ranking of latency samples: the ascending order of a set of samples, and an
//! in-place heap sort that computes it.

use vstd::prelude::*;
use vstd::relations::*;
use vstd::seq_lib::*;

verus! {

/// The order by which samples are ranked: `a <= b` on nanosecond counts.
pub open spec fn sample_leq() -> spec_fn(u128, u128) -> bool {
    |a: u128, b: u128| a <= b
}

/// The values of `s`, each as often as it occurs in `s`, smallest first.
pub open spec fn ascending(s: Seq<u128>) -> Seq<u128> {
    s.sort_by(sample_leq())
}

/// No value of `s` stands before a smaller one.
pub open spec fn is_ascending(s: Seq<u128>) -> bool {
    forall|i: int, j: int| 0 <= i <= j < s.len() ==> s[i] <= s[j]
}

/// `a` and `b` hold the same values, each the same number of times.
pub open spec fn same_samples(a: Seq<u128>, b: Seq<u128>) -> bool {
    a.to_multiset() == b.to_multiset()
}

/// `ascending(s)` is in ascending order and holds exactly the values of `s`.
pub proof fn lemma_ascending_is_sorted_permutation(s: Seq<u128>)
    ensures
        is_ascending(ascending(s)),
        same_samples(ascending(s), s),
        ascending(s).len() == s.len(),
{
    s.lemma_sort_by_ensures(sample_leq());
    let t = ascending(s);
    assert(sorted_by(t, sample_leq()));
    assert forall|i: int, j: int| 0 <= i <= j < t.len() implies t[i] <= t[j] by {
        if i < j {
            assert(sample_leq()(t[i], t[j]));
        }
    }
    t.to_multiset_ensures();
    s.to_multiset_ensures();
}

/// There is one ascending arrangement of a given multiset of samples: a sequence in
/// ascending order with the values of `s` is `ascending(s)`.
pub proof fn lemma_ascending_unique(t: Seq<u128>, s: Seq<u128>)
    requires
        is_ascending(t),
        same_samples(t, s),
    ensures
        t == ascending(s),
{
    s.lemma_sort_by_ensures(sample_leq());
    assert(sorted_by(t, sample_leq())) by {
        assert forall|i: int, j: int| 0 <= i < j < t.len() implies #[trigger] sample_leq()(
            t[i],
            t[j],
        ) by {}
    }
    lemma_sorted_unique(t, ascending(s), sample_leq());
}

/// Sequences with the same samples have the same ascending arrangement.
pub proof fn lemma_ascending_of_permutation(a: Seq<u128>, b: Seq<u128>)
    requires
        same_samples(a, b),
    ensures
        ascending(a) == ascending(b),
{
    lemma_ascending_is_sorted_permutation(a);
    lemma_ascending_unique(ascending(a), b);
}

/// Exchanging two values of a sequence keeps its samples.
proof fn lemma_exchange_keeps_samples(s: Seq<u128>, a: int, b: int)
    requires
        0 <= a < s.len(),
        0 <= b < s.len(),
    ensures
        same_samples(s.update(a, s[b]).update(b, s[a]), s),
{
    let s1 = s.update(a, s[b]);
    let s2 = s1.update(b, s[a]);
    to_multiset_update(s, a, s[b]);
    to_multiset_update(s1, b, s[a]);
    s.to_multiset_ensures();
    s1.to_multiset_ensures();
    assert(s.to_multiset().count(s[a]) > 0) by {
        assert(s.contains(s[a]));
    }
    assert(s.to_multiset().count(s[b]) > 0) by {
        assert(s.contains(s[b]));
    }
    assert(s2.to_multiset() =~= s.to_multiset());
}

/// Among the first `n` values of `s`, the one at `i` is no smaller than its children in
/// the implicit binary tree (those at `2i + 1` and `2i + 2`).
spec fn dominates(s: Seq<u128>, i: int, n: int) -> bool {
    &&& (2 * i + 1 < n ==> s[i] >= s[2 * i + 1])
    &&& (2 * i + 2 < n ==> s[i] >= s[2 * i + 2])
}

/// Every node from `lo` on, among the first `n` values of `s`, dominates its children.
spec fn heap_from(s: Seq<u128>, lo: int, n: int) -> bool {
    forall|i: int| lo <= i < n ==> #[trigger] dominates(s, i, n)
}

/// In a heap the root is the greatest value.
proof fn lemma_root_is_greatest(s: Seq<u128>, n: int, i: int)
    requires
        heap_from(s, 0, n),
        0 <= i < n <= s.len(),
    ensures
        s[0] >= s[i],
    decreases i,
{
    if i > 0 {
        let p = (i - 1) / 2;
        lemma_root_is_greatest(s, n, p);
        assert(dominates(s, p, n));
    }
}

/// Exchanges the values at `a` and `b`.
fn exchange(v: &mut Vec<u128>, a: usize, b: usize)
    requires
        a < old(v).len(),
        b < old(v).len(),
    ensures
        final(v)@ == old(v)@.update(a as int, old(v)@[b as int]).update(b as int, old(v)@[a as int]),
        same_samples(final(v)@, old(v)@),
{
    let x = v[a];
    let y = v[b];
    v.set(a, y);
    v.set(b, x);
    proof {
        lemma_exchange_keeps_samples(old(v)@, a as int, b as int);
    }
}

/// Lets the value at `start` sink until it dominates its children, among the first `n`
/// values of `v`.
fn sift_down(v: &mut Vec<u128>, start: usize, n: usize)
    requires
        start < n <= old(v).len(),
        heap_from(old(v)@, start + 1, n as int),
    ensures
        final(v).len() == old(v).len(),
        heap_from(final(v)@, start as int, n as int),
        same_samples(final(v)@, old(v)@),
        forall|i: int| n <= i < old(v).len() ==> final(v)@[i] == old(v)@[i],
{
    let mut k = start;
    let mut settled = false;
    while !settled
        invariant
            start <= k < n <= v.len(),
            v.len() == old(v).len(),
            same_samples(v@, old(v)@),
            forall|i: int| n <= i < v.len() ==> v@[i] == old(v)@[i],
            forall|i: int| start <= i < n && i != k ==> #[trigger] dominates(v@, i, n as int),
            k > start ==> (k - 1) / 2 >= start,
            k > start && 2 * k + 1 < n ==> v@[(k - 1) / 2] >= v@[2 * k + 1],
            k > start && 2 * k + 2 < n ==> v@[(k - 1) / 2] >= v@[2 * k + 2],
            settled ==> dominates(v@, k as int, n as int),
        decreases n - k, if settled { 0int } else { 1int },
    {
        if k >= n / 2 {
            settled = true;
        } else {
            let left = 2 * k + 1;
            let right = left + 1;
            let mut child = left;
            if right < n && v[right] > v[left] {
                child = right;
            }
            if v[k] >= v[child] {
                settled = true;
            } else {
                let ghost before = v@;
                exchange(v, k, child);
                proof {
                    assert(dominates(before, child as int, n as int));
                    assert forall|i: int| start <= i < n && i != child implies #[trigger] dominates(
                        v@,
                        i,
                        n as int,
                    ) by {
                        if i != k {
                            assert(dominates(before, i, n as int));
                        }
                    }
                }
                k = child;
            }
        }
    }
}

/// Rearranges `v` into ascending order.
pub fn sort_ascending(v: &mut Vec<u128>)
    ensures
        final(v)@ == ascending(old(v)@),
{
    let n = v.len();
    let mut start = n / 2;
    while start > 0
        invariant
            start <= n / 2,
            n == v.len(),
            heap_from(v@, start as int, n as int),
            same_samples(v@, old(v)@),
        decreases start,
    {
        start -= 1;
        sift_down(v, start, n);
    }
    let mut end = n;
    while end > 1
        invariant
            end <= n == v.len(),
            n >= 1 ==> end >= 1,
            heap_from(v@, 0, end as int),
            same_samples(v@, old(v)@),
            forall|i: int, j: int| end <= i <= j < n ==> v@[i] <= v@[j],
            forall|i: int, j: int| 0 <= i < end <= j < n ==> v@[i] <= v@[j],
        decreases end,
    {
        end -= 1;
        let ghost before = v@;
        proof {
            assert forall|i: int| 0 <= i <= end implies before[0] >= #[trigger] before[i] by {
                lemma_root_is_greatest(before, end + 1, i);
            }
        }
        exchange(v, 0, end);
        proof {
            assert forall|i: int| 1 <= i < end implies #[trigger] dominates(v@, i, end as int) by {
                assert(dominates(before, i, end + 1));
            }
        }
        let ghost exchanged = v@;
        sift_down(v, 0, end);
        proof {
            assert forall|i: int, j: int| 0 <= i < end <= j < n implies v@[i] <= v@[j] by {
                // the value at `i` stood before `end` when the sift began
                lemma_prefix_values(exchanged, v@, end as int, i);
            }
        }
    }
    proof {
        assert(is_ascending(v@)) by {
            assert forall|i: int, j: int| 0 <= i <= j < v@.len() implies v@[i] <= v@[j] by {}
        }
        lemma_ascending_unique(v@, old(v)@);
    }
}

/// Where two sequences have the same samples and agree from `end` on, each value before
/// `end` in one occurs before `end` in the other.
proof fn lemma_prefix_values(a: Seq<u128>, b: Seq<u128>, end: int, i: int)
    requires
        a.len() == b.len(),
        0 <= i < end <= a.len(),
        same_samples(a, b),
        forall|j: int| end <= j < a.len() ==> a[j] == b[j],
    ensures
        exists|k: int| 0 <= k < end && a[k] == b[i],
{
    let a_head = a.subrange(0, end);
    let a_tail = a.subrange(end, a.len() as int);
    let b_head = b.subrange(0, end);
    let b_tail = b.subrange(end, b.len() as int);
    assert(a_tail =~= b_tail);
    assert(a =~= a_head + a_tail);
    assert(b =~= b_head + b_tail);
    lemma_multiset_commutative(a_head, a_tail);
    lemma_multiset_commutative(b_head, b_tail);
    assert(a_head.to_multiset() =~= b_head.to_multiset()) by {
        assert forall|x: u128| a_head.to_multiset().count(x) == b_head.to_multiset().count(x) by {
            assert(a.to_multiset().count(x) == a_head.to_multiset().count(x)
                + a_tail.to_multiset().count(x));
            assert(b.to_multiset().count(x) == b_head.to_multiset().count(x)
                + b_tail.to_multiset().count(x));
        }
    }
    a_head.to_multiset_ensures();
    b_head.to_multiset_ensures();
    assert(b_head[i] == b[i]);
    assert(b_head.contains(b[i]));
    assert(b_head.to_multiset().count(b[i]) > 0);
    assert(a_head.to_multiset().count(b[i]) > 0);
    assert(a_head.contains(b[i]));
    let k = choose|k: int| 0 <= k < a_head.len() && a_head[k] == b[i];
    assert(a[k] == b[i]);
}

} // verus!
