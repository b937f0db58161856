//! The statistics aggregator: a record of the latency of every completed request, with
//! its count, its extremes and its percentiles.
//!
//! A latency is a number of nanoseconds. The record is append-only: a sample, once
//! tracked, is never removed or altered.

use crate::sorting::{
    ascending, lemma_ascending_is_sorted_permutation, lemma_ascending_of_permutation,
    same_samples, sort_ascending,
};
use vstd::prelude::*;

verus! {

/// A percentile is given in tenths of a percent: 500 is the median, 999 is p99.9 and
/// `PER_MILLE` is the 100th percentile.
pub const PER_MILLE: u32 = 1000;

/// `m` occurs in `s` and no value of `s` is smaller.
pub open spec fn is_minimum(s: Seq<u128>, m: u128) -> bool {
    s.contains(m) && forall|i: int| 0 <= i < s.len() ==> m <= s[i]
}

/// `m` occurs in `s` and no value of `s` is greater.
pub open spec fn is_maximum(s: Seq<u128>, m: u128) -> bool {
    s.contains(m) && forall|i: int| 0 <= i < s.len() ==> s[i] <= m
}

/// The smallest sample of `s`, if it has any.
pub open spec fn least_of(s: Seq<u128>) -> Option<u128> {
    if s.len() == 0 {
        None
    } else {
        Some(ascending(s)[0])
    }
}

/// The greatest sample of `s`, if it has any.
pub open spec fn greatest_of(s: Seq<u128>) -> Option<u128> {
    if s.len() == 0 {
        None
    } else {
        Some(ascending(s)[s.len() - 1])
    }
}

/// How many places below the greatest of `n` samples the percentile `permille` stands:
/// `floor(n * (1 - permille / 1000))`, and at most `n - 1`. A percentile above the 100th
/// counts as the 100th.
pub open spec fn rank_from_top(n: nat, permille: u32) -> nat
    recommends
        n > 0,
{
    if permille >= PER_MILLE {
        0
    } else {
        let rank = (n * (PER_MILLE - permille)) / (PER_MILLE as int);
        if rank >= n {
            (n - 1) as nat
        } else {
            rank as nat
        }
    }
}

/// The percentile `permille` of the samples `s`: with the samples in ascending order, the
/// one that stands `rank_from_top` places below the last. `None` where `s` is empty.
pub open spec fn percentile_of(s: Seq<u128>, permille: u32) -> Option<u128> {
    if s.len() == 0 {
        None
    } else {
        Some(ascending(s)[s.len() - 1 - rank_from_top(s.len(), permille)])
    }
}

/// The value shown for a statistic that an empty record does not have: zero.
pub open spec fn or_zero(value: Option<u128>) -> u128 {
    match value {
        Some(v) => v,
        None => 0,
    }
}

/// The record after each sample of `arrivals` has been tracked in turn, starting from
/// the record `start`.
pub open spec fn after_tracking(start: Seq<u128>, arrivals: Seq<u128>) -> Seq<u128>
    decreases arrivals.len(),
{
    if arrivals.len() == 0 {
        start
    } else {
        after_tracking(start.push(arrivals[0]), arrivals.drop_first())
    }
}

/// The smallest sample of a record that is not empty is its minimum.
pub proof fn lemma_least_is_minimum(s: Seq<u128>)
    requires
        s.len() > 0,
    ensures
        is_minimum(s, least_of(s).unwrap()),
{
    lemma_ascending_is_sorted_permutation(s);
    let t = ascending(s);
    s.to_multiset_ensures();
    t.to_multiset_ensures();
    assert(t.contains(t[0]));
    assert(t.to_multiset().count(t[0]) > 0);
    assert(s.contains(t[0]));
    assert forall|i: int| 0 <= i < s.len() implies t[0] <= s[i] by {
        assert(s.contains(s[i]));
        assert(s.to_multiset().count(s[i]) > 0);
        assert(t.contains(s[i]));
    }
}

/// The greatest sample of a record that is not empty is its maximum.
pub proof fn lemma_greatest_is_maximum(s: Seq<u128>)
    requires
        s.len() > 0,
    ensures
        is_maximum(s, greatest_of(s).unwrap()),
{
    lemma_ascending_is_sorted_permutation(s);
    let t = ascending(s);
    let top = t[s.len() - 1];
    s.to_multiset_ensures();
    t.to_multiset_ensures();
    assert(t.contains(top));
    assert(t.to_multiset().count(top) > 0);
    assert(s.contains(top));
    assert forall|i: int| 0 <= i < s.len() implies s[i] <= top by {
        assert(s.contains(s[i]));
        assert(s.to_multiset().count(s[i]) > 0);
        assert(t.contains(s[i]));
    }
}

/// A record has one minimum and one maximum.
pub proof fn lemma_extremes_unique(s: Seq<u128>, lo: u128, hi: u128)
    requires
        is_minimum(s, lo),
        is_maximum(s, hi),
    ensures
        least_of(s) == Some(lo),
        greatest_of(s) == Some(hi),
{
    assert(s.len() > 0);
    lemma_least_is_minimum(s);
    lemma_greatest_is_maximum(s);
}

/// Tracking samples one after another appends them to the record, in the order in which
/// they came, and adds their number to the count.
pub proof fn lemma_count_after_tracking(start: Seq<u128>, arrivals: Seq<u128>)
    ensures
        after_tracking(start, arrivals) == start + arrivals,
        after_tracking(start, arrivals).len() == start.len() + arrivals.len(),
    decreases arrivals.len(),
{
    if arrivals.len() == 0 {
        assert(start + arrivals =~= start);
    } else {
        lemma_count_after_tracking(start.push(arrivals[0]), arrivals.drop_first());
        assert(start.push(arrivals[0]) + arrivals.drop_first() =~= start + arrivals);
    }
}

/// After `n` samples have been tracked in an empty record, its count is `n`.
pub proof fn lemma_count_is_number_tracked(arrivals: Seq<u128>)
    ensures
        after_tracking(Seq::empty(), arrivals).len() == arrivals.len(),
{
    lemma_count_after_tracking(Seq::empty(), arrivals);
}

/// The order in which samples come does not matter: two records with the same samples,
/// in whatever order, have the same minimum, maximum and percentiles. In particular a
/// record answers as the record of its own samples in ascending order does.
pub proof fn lemma_order_independent(a: Seq<u128>, b: Seq<u128>, permille: u32)
    requires
        same_samples(a, b),
    ensures
        least_of(a) == least_of(b),
        greatest_of(a) == greatest_of(b),
        percentile_of(a, permille) == percentile_of(b, permille),
        percentile_of(ascending(a), permille) == percentile_of(a, permille),
{
    lemma_ascending_of_permutation(a, b);
    a.to_multiset_ensures();
    b.to_multiset_ensures();
    lemma_ascending_is_sorted_permutation(a);
    lemma_ascending_of_permutation(ascending(a), a);
}

/// The 100th percentile is the maximum, and the 0th is the minimum.
pub proof fn lemma_percentile_bounds(s: Seq<u128>)
    ensures
        percentile_of(s, PER_MILLE) == greatest_of(s),
        percentile_of(s, 0) == least_of(s),
{
    if s.len() > 0 {
        assert((s.len() * 1000) / 1000 == s.len()) by (nonlinear_arith);
    }
}

/// Every percentile of a record lies between its minimum and its maximum, and a higher
/// percentile is never the smaller one.
pub proof fn lemma_percentile_monotone(s: Seq<u128>, lower: u32, higher: u32)
    requires
        s.len() > 0,
        lower <= higher,
    ensures
        or_zero(least_of(s)) <= or_zero(percentile_of(s, lower)),
        or_zero(percentile_of(s, lower)) <= or_zero(percentile_of(s, higher)),
        or_zero(percentile_of(s, higher)) <= or_zero(greatest_of(s)),
{
    lemma_ascending_is_sorted_permutation(s);
    let n = s.len();
    lemma_rank_antitone(n, lower, higher);
}

/// A higher percentile stands no further below the top.
proof fn lemma_rank_antitone(n: nat, lower: u32, higher: u32)
    requires
        n > 0,
        lower <= higher,
    ensures
        rank_from_top(n, higher) <= rank_from_top(n, lower) < n,
{
    if higher < PER_MILLE {
        let a = n * (PER_MILLE - higher);
        let b = n * (PER_MILLE - lower);
        assert(a <= b) by (nonlinear_arith)
            requires
                a == n * (PER_MILLE - higher),
                b == n * (PER_MILLE - lower),
                lower <= higher,
                n > 0,
        ;
        assert(0 <= a) by (nonlinear_arith)
            requires
                a == n * (PER_MILLE - higher),
                higher < PER_MILLE,
                n > 0,
        ;
        assert(a / 1000 <= b / 1000);
    }
}

/// The six statistics of the status line. One that an empty record does not have is
/// zero.
#[derive(Clone, Copy, Debug, PartialEq, Eq)]
pub struct Summary {
    pub max: u128,
    pub min: u128,
    pub p99_9: u128,
    pub p99: u128,
    pub p95: u128,
    pub p50: u128,
}

/// The summary of the samples `s`.
pub open spec fn summary_of(s: Seq<u128>) -> Summary {
    Summary {
        max: or_zero(greatest_of(s)),
        min: or_zero(least_of(s)),
        p99_9: or_zero(percentile_of(s, 999)),
        p99: or_zero(percentile_of(s, 990)),
        p95: or_zero(percentile_of(s, 950)),
        p50: or_zero(percentile_of(s, 500)),
    }
}

/// The latencies of the requests completed so far, in the order in which they came.
#[derive(Debug)]
pub struct Statistics {
    samples: Vec<u128>,
    least: u128,
    greatest: u128,
}

impl View for Statistics {
    type V = Seq<u128>;

    closed spec fn view(&self) -> Seq<u128> {
        self.samples@
    }
}

/// The place, among `n` samples in ascending order, of the percentile `permille`.
fn rank_index(n: usize, permille: u32) -> (r: usize)
    requires
        n > 0,
    ensures
        r == n - 1 - rank_from_top(n as nat, permille),
        r < n,
{
    if permille >= PER_MILLE {
        n - 1
    } else {
        let share: u128 = (PER_MILLE - permille) as u128;
        assert(n as u128 * share <= n as u128 * 1000) by (nonlinear_arith)
            requires
                share <= 1000,
        ;
        let rank: u128 = (n as u128 * share) / 1000;
        if rank >= n as u128 {
            0
        } else {
            n - 1 - rank as usize
        }
    }
}

impl Statistics {
    /// While the record is not empty, `least` and `greatest` are its extremes.
    #[verifier::type_invariant]
    spec fn extremes_kept(&self) -> bool {
        self.samples@.len() > 0 ==> is_minimum(self.samples@, self.least) && is_maximum(
            self.samples@,
            self.greatest,
        )
    }

    /// An empty record.
    pub fn new() -> (r: Self)
        ensures
            r@ == Seq::<u128>::empty(),
    {
        Statistics { samples: Vec::new(), least: 0, greatest: 0 }
    }

    /// The number of samples tracked so far.
    pub fn request_count(&self) -> (r: usize)
        ensures
            r == self@.len(),
    {
        self.samples.len()
    }

    /// Records one sample. The samples tracked before stay as they are.
    pub fn track(&mut self, duration: u128)
        ensures
            final(self)@ == old(self)@.push(duration),
            final(self)@.len() == old(self)@.len() + 1,
    {
        proof {
            use_type_invariant(&*self);
        }
        let mut least = duration;
        let mut greatest = duration;
        if self.samples.len() > 0 {
            if self.least < least {
                least = self.least;
            }
            if self.greatest > greatest {
                greatest = self.greatest;
            }
        }
        // The samples leave the record while they and the extremes are brought up to
        // date, so that the record never holds extremes that do not fit its samples.
        let mut samples: Vec<u128> = Vec::new();
        core::mem::swap(&mut self.samples, &mut samples);
        let ghost before = samples@;
        samples.push(duration);
        proof {
            let after = samples@;
            assert(after[before.len() as int] == duration);
            if before.len() > 0 {
                let i = choose|i: int| 0 <= i < before.len() && before[i] == old(self).least;
                assert(after[i] == old(self).least);
                let j = choose|j: int| 0 <= j < before.len() && before[j] == old(self).greatest;
                assert(after[j] == old(self).greatest);
            }
            assert forall|i: int| 0 <= i < after.len() implies least <= #[trigger] after[i]
                && after[i] <= greatest by {
                if i < before.len() {
                    assert(after[i] == before[i]);
                }
            }
        }
        *self = Statistics { samples, least, greatest };
    }

    /// The greatest sample, `None` while the record is empty.
    pub fn get_max_duration(&self) -> (r: Option<u128>)
        ensures
            r == greatest_of(self@),
            r is None <==> self@.len() == 0,
            r matches Some(m) ==> is_maximum(self@, m),
    {
        proof {
            use_type_invariant(self);
        }
        if self.samples.len() == 0 {
            None
        } else {
            proof {
                lemma_greatest_is_maximum(self.samples@);
            }
            Some(self.greatest)
        }
    }

    /// The smallest sample, `None` while the record is empty.
    pub fn get_min_duration(&self) -> (r: Option<u128>)
        ensures
            r == least_of(self@),
            r is None <==> self@.len() == 0,
            r matches Some(m) ==> is_minimum(self@, m),
    {
        proof {
            use_type_invariant(self);
        }
        if self.samples.len() == 0 {
            None
        } else {
            proof {
                lemma_least_is_minimum(self.samples@);
            }
            Some(self.least)
        }
    }

    /// The samples in ascending order.
    fn sorted_samples(&self) -> (r: Vec<u128>)
        ensures
            r@ == ascending(self@),
            r@.len() == self@.len(),
    {
        let mut sorted: Vec<u128> = Vec::new();
        let mut i: usize = 0;
        while i < self.samples.len()
            invariant
                i <= self.samples.len(),
                sorted@ == self.samples@.subrange(0, i as int),
            decreases self.samples.len() - i,
        {
            sorted.push(self.samples[i]);
            assert(sorted@ =~= self.samples@.subrange(0, i + 1));
            i += 1;
        }
        assert(sorted@ =~= self.samples@);
        sort_ascending(&mut sorted);
        proof {
            lemma_ascending_is_sorted_permutation(self.samples@);
        }
        sorted
    }

    /// The percentile `permille`, in tenths of a percent, of the samples tracked so far:
    /// `None` while the record is empty, never otherwise.
    pub fn p(&self, permille: u32) -> (r: Option<u128>)
        ensures
            r == percentile_of(self@, permille),
            r is None <==> self@.len() == 0,
    {
        let n = self.samples.len();
        if n == 0 {
            return None;
        }
        let sorted = self.sorted_samples();
        Some(sorted[rank_index(n, permille)])
    }

    /// The statistics of the status line, each zero while the record is empty.
    pub fn summary(&self) -> (r: Summary)
        ensures
            r == summary_of(self@),
    {
        let n = self.samples.len();
        if n == 0 {
            return Summary { max: 0, min: 0, p99_9: 0, p99: 0, p95: 0, p50: 0 };
        }
        let sorted = self.sorted_samples();
        Summary {
            max: sorted[n - 1],
            min: sorted[0],
            p99_9: sorted[rank_index(n, 999)],
            p99: sorted[rank_index(n, 990)],
            p95: sorted[rank_index(n, 950)],
            p50: sorted[rank_index(n, 500)],
        }
    }
}

} // verus!
