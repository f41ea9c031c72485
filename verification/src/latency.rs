//! Latency statistics.
//!
//! All figures are exact: times are whole microseconds, percentiles are
//! hundredths of a microsecond, and the mean and the variance are kept as the
//! sums that they are quotients of.
use crate::totals::{lemma_total_prefix, lemma_total_reordered, lemma_total_step, total};
use vstd::prelude::*;
use vstd::relations::sorted_by;

verus! {

/// Latency statistics of a set of calls.
///
/// The mean is `sum_us / count`. Percentiles use linear interpolation between
/// adjacent ranks. The **sample** variance (Bessel's correction, `count - 1` in
/// the denominator) is
/// `(count * sq_dev_us2 - r * r) / (count * (count - 1))` with
/// `r = sum_us % count`; for a single call it is 0.
#[derive(Debug, Clone, Copy, PartialEq, Eq, Structural)]
pub struct LatencyStats {
    pub count: usize,
    pub min_us: u64,
    pub max_us: u64,
    pub sum_us: u64,
    /// Median, in hundredths of a microsecond.
    pub p50_centi_us: u128,
    /// 95th percentile, in hundredths of a microsecond.
    pub p95_centi_us: u128,
    /// 99th percentile, in hundredths of a microsecond.
    pub p99_centi_us: u128,
    /// Sum of the squared distances from the mean rounded down.
    pub sq_dev_us2: u128,
}

/// A latency as a number.
pub open spec fn micros() -> spec_fn(u64) -> nat {
    |x: u64| x as nat
}

/// The squared distance of a latency from `c`.
pub open spec fn squared_distance(c: int) -> spec_fn(u64) -> nat {
    |x: u64| ((x - c) * (x - c)) as nat
}

/// The sum of some latencies.
pub open spec fn latency_sum(s: Seq<u64>) -> nat {
    total(s, micros())
}

/// The order of latencies.
pub open spec fn at_most() -> spec_fn(u64, u64) -> bool {
    |a: u64, b: u64| a <= b
}

/// The latencies of `s` in ascending order.
pub open spec fn ascending(s: Seq<u64>) -> Seq<u64> {
    s.sort_by(at_most())
}

/// The `p`-th percentile of the ascending sequence `sorted`, times 100: the
/// value at rank `p / 100 * (len - 1)`, interpolated linearly between the two
/// neighbouring elements.
pub open spec fn percentile(sorted: Seq<u64>, p: nat) -> nat
    recommends
        sorted.len() > 0,
        p <= 100,
{
    let rank = p * (sorted.len() - 1);
    let lo = rank / 100;
    let part = rank % 100;
    let hi = if lo + 1 < sorted.len() {
        lo + 1
    } else {
        sorted.len() - 1
    };
    (sorted[lo] * (100 - part) + sorted[hi] * part) as nat
}

/// The statistics of some latencies; none for no latency at all.
pub open spec fn latency_stats(s: Seq<u64>) -> Option<LatencyStats> {
    if s.len() == 0 {
        None
    } else {
        let sorted = ascending(s);
        Some(
            LatencyStats {
                count: s.len() as usize,
                min_us: sorted[0],
                max_us: sorted.last(),
                sum_us: latency_sum(s) as u64,
                p50_centi_us: percentile(sorted, 50) as u128,
                p95_centi_us: percentile(sorted, 95) as u128,
                p99_centi_us: percentile(sorted, 99) as u128,
                sq_dev_us2: total(s, squared_distance((latency_sum(s) / s.len()) as int)) as u128,
            },
        )
    }
}

/// `<[u64]>::sort_unstable`: puts the numbers into ascending order; none is
/// added, lost or changed.
#[verifier::external_body]
fn sort_unstable(v: &mut [u64])
    ensures
        sorted_by(final(v)@, at_most()),
        final(v)@.to_multiset() == old(v)@.to_multiset(),
{
    v.sort_unstable()
}

/// There is one way to sort numbers.
proof fn lemma_sorted_is_ascending(s: Seq<u64>, sorted: Seq<u64>)
    requires
        sorted_by(sorted, at_most()),
        sorted.to_multiset() == s.to_multiset(),
    ensures
        sorted == ascending(s),
        sorted.len() == s.len(),
{
    s.lemma_sort_by_ensures(at_most());
    s.to_multiset_ensures();
    sorted.to_multiset_ensures();
    vstd::seq_lib::lemma_sorted_unique(sorted, s.sort_by(at_most()), at_most());
}

/// What `ascending` does: sort, and keep the elements.
pub proof fn lemma_ascending(s: Seq<u64>)
    ensures
        ascending(s).len() == s.len(),
        ascending(s).to_multiset() == s.to_multiset(),
        forall|i: int, j: int| 0 <= i <= j < s.len() ==> ascending(s)[i] <= ascending(s)[j],
{
    s.lemma_sort_by_ensures(at_most());
    s.to_multiset_ensures();
    ascending(s).to_multiset_ensures();
    assert forall|i: int, j: int| 0 <= i <= j < s.len() implies ascending(s)[i] <= ascending(s)[j] by {
        if i < j {
            assert(at_most()(ascending(s)[i], ascending(s)[j]));
        }
    }
}

/// Squared distances from `c`, through the sum and the sum of the squares.
proof fn lemma_squared_distances(s: Seq<u64>, c: int)
    ensures
        total(s, squared_distance(c)) == total(s, squared_distance(0)) - 2 * c * latency_sum(s) + s.len()
            * (c * c),
    decreases s.len(),
{
    if s.len() > 0 {
        let t = s.drop_last();
        let x = s.last() as int;
        lemma_squared_distances(t, c);
        assert((x - c) * (x - c) == x * x - 2 * c * x + c * c) by (nonlinear_arith);
        assert((x - 0) * (x - 0) == x * x) by (nonlinear_arith);
        assert(0 <= (x - c) * (x - c)) by (nonlinear_arith);
        assert(0 <= x * x) by (nonlinear_arith);
        assert(2 * c * latency_sum(s) == 2 * c * latency_sum(t) + 2 * c * x) by (nonlinear_arith)
            requires
                latency_sum(s) == latency_sum(t) + x,
        ;
        assert(s.len() * (c * c) == t.len() * (c * c) + c * c) by (nonlinear_arith)
            requires
                s.len() == t.len() + 1,
        ;
    } else {
        assert(2 * c * 0 == 0 && 0 * (c * c) == 0) by (nonlinear_arith);
    }
}

/// The squares add up to at most the square of the sum.
proof fn lemma_squares_bound(s: Seq<u64>)
    ensures
        total(s, squared_distance(0)) <= latency_sum(s) * latency_sum(s),
    decreases s.len(),
{
    if s.len() > 0 {
        let t = s.drop_last();
        let x = s.last() as int;
        lemma_squares_bound(t);
        let a = latency_sum(t) as int;
        assert((x - 0) * (x - 0) == x * x) by (nonlinear_arith);
        assert(0 <= x * x) by (nonlinear_arith);
        assert((a + x) * (a + x) >= a * a + x * x) by (nonlinear_arith)
            requires
                a >= 0,
                x >= 0,
        ;
    }
}

/// With a sum below `2^64` the squared distances from the mean fit 128 bits.
proof fn lemma_squared_distances_fit(s: Seq<u64>)
    requires
        s.len() > 0,
        latency_sum(s) <= u64::MAX,
    ensures
        total(s, squared_distance((latency_sum(s) / s.len()) as int)) <= u128::MAX,
{
    let n = s.len() as int;
    let sum = latency_sum(s) as int;
    let q = sum / n;
    lemma_squared_distances(s, q);
    lemma_squares_bound(s);
    vstd::arithmetic::div_mod::lemma_fundamental_div_mod(sum, n);
    assert(q >= 0) by {
        vstd::arithmetic::div_mod::lemma_div_pos_is_pos(sum, n);
    }
    assert(n * (q * q) <= 2 * q * sum) by (nonlinear_arith)
        requires
            n * q <= sum,
            q >= 0,
            sum >= 0,
    ;
    assert(sum * sum <= u128::MAX) by (nonlinear_arith)
        requires
            0 <= sum <= u64::MAX,
    ;
}

/// A percentile lies between the first and the last element.
proof fn lemma_percentile_in_range(sorted: Seq<u64>, p: nat)
    requires
        sorted.len() > 0,
        p <= 100,
    ensures
        ({
            let rank = p * (sorted.len() - 1);
            &&& 0 <= rank / 100 < sorted.len()
            &&& 0 <= rank % 100 < 100
            &&& percentile(sorted, p) <= 100 * u64::MAX
        }),
{
    let n1 = sorted.len() - 1;
    let rank = p * n1;
    assert(rank <= 100 * n1) by (nonlinear_arith)
        requires
            rank == p * n1,
            p <= 100,
            n1 >= 0,
    ;
    assert(rank >= 0) by (nonlinear_arith)
        requires
            rank == p * n1,
            n1 >= 0,
            p >= 0,
    ;
    let lo = rank / 100;
    let part = rank % 100;
    let hi = if lo + 1 < sorted.len() {
        lo + 1
    } else {
        sorted.len() - 1
    };
    let a = sorted[lo] as int;
    let b = sorted[hi] as int;
    assert(0 <= a * (100 - part) + b * part <= 100 * u64::MAX) by (nonlinear_arith)
        requires
            0 <= a <= u64::MAX,
            0 <= b <= u64::MAX,
            0 <= part < 100,
    ;
}

/// Linear interpolation percentile of an ascending, non-empty slice, times 100.
pub fn interpolated_percentile(sorted: &[u64], p: u64) -> (v: u128)
    requires
        sorted@.len() > 0,
        p <= 100,
    ensures
        v == percentile(sorted@, p as nat),
{
    let n: usize = sorted.len();
    proof {
        lemma_percentile_in_range(sorted@, p as nat);
        assert(p * (n - 1) <= 100 * (n - 1)) by (nonlinear_arith)
            requires
                p <= 100,
                n >= 1,
        ;
        assert(p * (n - 1) >= 0) by (nonlinear_arith)
            requires
                n >= 1,
        ;
    }
    let rank: u128 = (p as u128) * ((n - 1) as u128);
    let lo: usize = (rank / 100) as usize;
    let part: u128 = rank % 100;
    let hi: usize = if lo + 1 < n {
        lo + 1
    } else {
        n - 1
    };
    let a: u128 = sorted[lo] as u128;
    let b: u128 = sorted[hi] as u128;
    assert(a * (100 - part) <= 100 * u64::MAX && b * part <= 100 * u64::MAX && 0 <= a * (100 - part) && 0 <= b
        * part) by (nonlinear_arith)
        requires
            a <= u64::MAX,
            b <= u64::MAX,
            part < 100,
    ;
    a * (100 - part) + b * part
}

/// Sum of a slice.
fn sum_of(v: &[u64]) -> (sum: u64)
    requires
        latency_sum(v@) <= u64::MAX,
    ensures
        sum == latency_sum(v@),
{
    let mut sum: u64 = 0;
    let mut i: usize = 0;
    while i < v.len()
        invariant
            i <= v@.len(),
            latency_sum(v@) <= u64::MAX,
            sum == latency_sum(v@.take(i as int)),
        decreases v.len() - i,
    {
        proof {
            lemma_total_step(v@, i as int, micros());
            lemma_total_prefix(v@, i + 1, micros());
        }
        sum = sum + v[i];
        i = i + 1;
    }
    assert(v@.take(i as int) =~= v@);
    sum
}

/// Sum of the squared distances of a slice from its mean rounded down.
fn squared_distances_of(v: &[u64], mean: u64) -> (sum: u128)
    requires
        total(v@, squared_distance(mean as int)) <= u128::MAX,
    ensures
        sum == total(v@, squared_distance(mean as int)),
{
    let mut sum: u128 = 0;
    let mut i: usize = 0;
    while i < v.len()
        invariant
            i <= v@.len(),
            total(v@, squared_distance(mean as int)) <= u128::MAX,
            sum == total(v@.take(i as int), squared_distance(mean as int)),
        decreases v.len() - i,
    {
        let x: u64 = v[i];
        let d: u128 = if x >= mean {
            (x - mean) as u128
        } else {
            (mean - x) as u128
        };
        assert(d * d == (x - mean) * (x - mean) && d * d <= u128::MAX) by (nonlinear_arith)
            requires
                d == x - mean || d == mean - x,
                0 <= d <= u64::MAX,
        ;
        proof {
            lemma_total_step(v@, i as int, squared_distance(mean as int));
            lemma_total_prefix(v@, i + 1, squared_distance(mean as int));
        }
        sum = sum + d * d;
        i = i + 1;
    }
    assert(v@.take(i as int) =~= v@);
    sum
}

/// A higher percentile is never smaller.
pub proof fn law_percentile_monotone(s: Seq<u64>, p: nat, q: nat)
    requires
        s.len() > 0,
        p <= q <= 100,
    ensures
        percentile(ascending(s), p) <= percentile(ascending(s), q),
        percentile(ascending(s), 0) == 100 * ascending(s)[0],
        percentile(ascending(s), 100) == 100 * ascending(s).last(),
{
    lemma_ascending(s);
    let t = ascending(s);
    let n1 = t.len() - 1;
    let rp = p * n1;
    let rq = q * n1;
    assert(rp <= rq) by (nonlinear_arith)
        requires
            rp == p * n1,
            rq == q * n1,
            p <= q,
            n1 >= 0,
    ;
    lemma_percentile_in_range(t, p);
    lemma_percentile_in_range(t, q);
    let lp = rp / 100;
    let lq = rq / 100;
    let fp = rp % 100;
    let fq = rq % 100;
    let hp = if lp + 1 < t.len() {
        lp + 1
    } else {
        t.len() - 1
    };
    let hq = if lq + 1 < t.len() {
        lq + 1
    } else {
        t.len() - 1
    };
    let a = t[lp] as int;
    let b = t[hp] as int;
    let c = t[lq] as int;
    let d = t[hq] as int;
    if lp == lq {
        assert(a * (100 - fp) + b * fp <= a * (100 - fq) + b * fq) by (nonlinear_arith)
            requires
                a <= b,
                fp <= fq,
        ;
    } else {
        assert(a * (100 - fp) + b * fp <= c * (100 - fq) + d * fq) by (nonlinear_arith)
            requires
                a <= b <= c <= d,
                0 <= fp < 100,
                0 <= fq < 100,
        ;
    }
    assert(0 * n1 == 0);
    assert(100 * n1 / 100 == n1 && (100 * n1) % 100 == 0);
}

/// Minimum, median, 95th and 99th percentile and maximum come in this order,
/// and the mean lies between minimum and maximum.
pub proof fn law_stats_ordered(s: Seq<u64>)
    requires
        s.len() > 0,
        s.len() <= usize::MAX,
        latency_sum(s) <= u64::MAX,
    ensures
        latency_stats(s) matches Some(t) && {
            &&& 100 * t.min_us <= t.p50_centi_us <= t.p95_centi_us <= t.p99_centi_us <= 100 * t.max_us
            &&& t.count * t.min_us <= t.sum_us <= t.count * t.max_us
        },
{
    let sorted = ascending(s);
    lemma_ascending(s);
    law_percentile_monotone(s, 0, 50);
    law_percentile_monotone(s, 50, 95);
    law_percentile_monotone(s, 95, 99);
    law_percentile_monotone(s, 99, 100);
    lemma_percentile_in_range(sorted, 50);
    lemma_percentile_in_range(sorted, 95);
    lemma_percentile_in_range(sorted, 99);
    lemma_total_reordered(sorted, s, micros());
    lemma_sum_between(sorted, sorted[0] as nat, sorted.last() as nat);
}

/// Numbers between `lo` and `hi` add up to between `lo` and `hi` per number.
proof fn lemma_sum_between(s: Seq<u64>, lo: nat, hi: nat)
    requires
        forall|i: int| 0 <= i < s.len() ==> lo <= #[trigger] s[i] <= hi,
    ensures
        s.len() * lo <= latency_sum(s) <= s.len() * hi,
    decreases s.len(),
{
    if s.len() > 0 {
        let t = s.drop_last();
        assert forall|i: int| 0 <= i < t.len() implies lo <= #[trigger] t[i] <= hi by {
            assert(t[i] == s[i]);
        }
        assert(lo <= s[s.len() - 1] <= hi);
        lemma_sum_between(t, lo, hi);
        assert(s.len() * lo == t.len() * lo + lo && s.len() * hi == t.len() * hi + hi) by (nonlinear_arith)
            requires
                s.len() == t.len() + 1,
        ;
    }
}

/// The statistics do not depend on the order in which the calls were made.
pub proof fn law_stats_ignore_order(s: Seq<u64>, t: Seq<u64>)
    requires
        s.to_multiset() == t.to_multiset(),
    ensures
        latency_stats(s) == latency_stats(t),
{
    s.to_multiset_ensures();
    t.to_multiset_ensures();
    t.lemma_sort_by_ensures(at_most());
    lemma_sorted_is_ascending(s, ascending(t));
    lemma_total_reordered(s, t, micros());
    lemma_total_reordered(s, t, squared_distance((latency_sum(s) / s.len()) as int));
}

/// The square of a sum is at most the number of summands times the sum of their
/// squares.
proof fn lemma_square_of_sum(s: Seq<u64>)
    ensures
        latency_sum(s) * latency_sum(s) <= s.len() * total(s, squared_distance(0)),
    decreases s.len(),
{
    if s.len() > 0 {
        let t = s.drop_last();
        let n = t.len() as int;
        let a = latency_sum(t) as int;
        let q = total(t, squared_distance(0)) as int;
        let x = s.last() as int;
        lemma_square_of_sum(t);
        assert((x - 0) * (x - 0) == x * x) by (nonlinear_arith);
        assert(0 <= x * x) by (nonlinear_arith);
        if n == 0 {
            assert(a == 0 && q == 0);
            assert((0 + x) * (0 + x) == 1 * (0 + x * x)) by (nonlinear_arith);
        } else {
            // n * (q + n * x * x - 2 * a * x) is at least the square of a - n * x.
            assert(2 * a * x <= q + n * (x * x)) by (nonlinear_arith)
                requires
                    a * a <= n * q,
                    n > 0,
            {
                assert((a - n * x) * (a - n * x) >= 0);
                assert((a - n * x) * (a - n * x) == a * a - 2 * n * (a * x) + n * n * (x * x));
                assert(n * (q + n * (x * x) - 2 * a * x) == n * q + n * n * (x * x) - 2 * n * (a * x));
            }
            assert((a + x) * (a + x) <= (n + 1) * (q + x * x)) by (nonlinear_arith)
                requires
                    a * a <= n * q,
                    2 * a * x <= q + n * (x * x),
            ;
        }
    } else {
        assert(0 * 0 == 0);
    }
}

/// The numerator of the sample variance, `count * sq_dev_us2 - r * r`, is
/// `count` times the sum of the squares minus the square of the sum, and is
/// never negative.
pub proof fn law_variance(s: Seq<u64>)
    requires
        s.len() > 0,
        s.len() <= usize::MAX,
        latency_sum(s) <= u64::MAX,
    ensures
        latency_stats(s) matches Some(t) && {
            let r = t.sum_us as int % t.count as int;
            &&& t.count * t.sq_dev_us2 - r * r == s.len() * total(s, squared_distance(0)) - latency_sum(s)
                * latency_sum(s)
            &&& t.count * t.sq_dev_us2 >= r * r
        },
{
    let n = s.len() as int;
    let sum = latency_sum(s) as int;
    let q = sum / n;
    let r = sum % n;
    let squares = total(s, squared_distance(0)) as int;
    lemma_squared_distances_fit(s);
    lemma_squared_distances(s, q);
    vstd::arithmetic::div_mod::lemma_fundamental_div_mod(sum, n);
    let d = squares - 2 * q * sum + n * (q * q);
    assert(n * d - r * r == n * squares - sum * sum) by (nonlinear_arith)
        requires
            d == squares - 2 * q * sum + n * (q * q),
            sum == n * q + r,
    ;
    lemma_square_of_sum(s);
}

/// A single call has no deviation, and every percentile is its latency.
pub proof fn law_single_call(x: u64)
    ensures
        latency_stats(seq![x]) == Some(
            LatencyStats {
                count: 1,
                min_us: x,
                max_us: x,
                sum_us: x,
                p50_centi_us: (100 * x) as u128,
                p95_centi_us: (100 * x) as u128,
                p99_centi_us: (100 * x) as u128,
                sq_dev_us2: 0,
            },
        ),
{
    let s = seq![x];
    lemma_ascending(s);
    reveal_with_fuel(total, 2);
    assert(s.drop_last() =~= seq![]);
    lemma_sorted_is_ascending(s, s);
    assert(latency_sum(s) == x);
    assert(latency_sum(s) / s.len() == x);
    assert((x - x) * (x - x) == 0);
    assert(total(s, squared_distance(x as int)) == 0);
    assert forall|p: nat| p <= 100 implies #[trigger] percentile(s, p) == 100 * x by {
        assert(p * 0 == 0);
        assert(x * (100 - 0) + x * 0 == 100 * x);
    }
    assert(percentile(s, 50) == 100 * x && percentile(s, 95) == 100 * x && percentile(s, 99) == 100 * x);
}

impl LatencyStats {
    /// Compute statistics from a mutable slice of latencies in microseconds,
    /// which is left in ascending order. Returns `None` if the slice is empty.
    pub fn from_latencies_us(latencies: &mut [u64]) -> (r: Option<LatencyStats>)
        requires
            latency_sum(old(latencies)@) <= u64::MAX,
        ensures
            r == latency_stats(old(latencies)@),
            final(latencies)@ == ascending(old(latencies)@),
    {
        let ghost given = latencies@;
        if latencies.len() == 0 {
            proof {
                lemma_ascending(given);
                assert(ascending(given) =~= given);
            }
            return None;
        }
        sort_unstable(latencies);
        let n: usize = latencies.len();
        proof {
            lemma_sorted_is_ascending(given, latencies@);
            lemma_total_reordered(latencies@, given, micros());
        }
        let sum: u64 = sum_of(latencies);
        let mean: u64 = sum / (n as u64);
        proof {
            lemma_squared_distances_fit(given);
            lemma_total_reordered(latencies@, given, squared_distance(mean as int));
            lemma_percentile_in_range(latencies@, 50);
            lemma_percentile_in_range(latencies@, 95);
            lemma_percentile_in_range(latencies@, 99);
        }
        Some(
            LatencyStats {
                count: n,
                min_us: latencies[0],
                max_us: latencies[n - 1],
                sum_us: sum,
                p50_centi_us: interpolated_percentile(latencies, 50),
                p95_centi_us: interpolated_percentile(latencies, 95),
                p99_centi_us: interpolated_percentile(latencies, 99),
                sq_dev_us2: squared_distances_of(latencies, mean),
            },
        )
    }
}

/// There are statistics exactly where there is a latency. They count the
/// latencies and add them up, and know the least and the greatest.
pub proof fn law_stats_of_latencies(s: Seq<u64>, i: int)
    requires
        s.len() <= usize::MAX,
        total(s, |x: u64| x as nat) <= u64::MAX,
    ensures
        latency_stats(s) is Some <==> s.len() > 0,
        latency_stats(s) matches Some(t) ==> {
            &&& t.count == s.len()
            &&& t.sum_us == total(s, |x: u64| x as nat)
            &&& s.contains(t.min_us)
            &&& s.contains(t.max_us)
            &&& 0 <= i < s.len() ==> t.min_us <= s[i] <= t.max_us
            &&& t.p50_centi_us == percentile(ascending(s), 50)
            &&& t.p95_centi_us == percentile(ascending(s), 95)
            &&& t.p99_centi_us == percentile(ascending(s), 99)
        },
{
    if s.len() > 0 {
        let sorted = ascending(s);
        lemma_ascending(s);
        assert(micros() =~= (|x: u64| x as nat));
        lemma_percentile_in_range(sorted, 50);
        lemma_percentile_in_range(sorted, 95);
        lemma_percentile_in_range(sorted, 99);
        sorted.to_multiset_ensures();
        s.to_multiset_ensures();
        assert(sorted.contains(sorted[0]) && sorted.contains(sorted[sorted.len() - 1]));
        assert(s.to_multiset().count(sorted[0]) > 0);
        assert(s.to_multiset().count(sorted.last()) > 0);
        if 0 <= i < s.len() {
            assert(s.contains(s[i]));
            assert(sorted.to_multiset().count(s[i]) > 0);
            assert(sorted.contains(s[i]));
            let k = choose|k: int| 0 <= k < sorted.len() && sorted[k] == s[i];
            assert(sorted[0] <= sorted[k] <= sorted[sorted.len() - 1]);
        }
    }
}

/// A percentile lies on the straight line between the two neighbours of its rank:
/// at a whole rank it is the element there, and between two ranks it moves from
/// one to the other in proportion.
pub proof fn law_percentile_interpolates(sorted: Seq<u64>, p: nat, k: nat)
    requires
        sorted.len() > 0,
        p <= 100,
        100 * k <= p * (sorted.len() - 1) < 100 * (k + 1),
    ensures
        k < sorted.len(),
        k + 1 < sorted.len() ==> percentile(sorted, p) == 100 * sorted[k as int] + (p * (sorted.len() - 1) - 100 * k)
            * (sorted[k as int + 1] - sorted[k as int]),
        k + 1 == sorted.len() ==> percentile(sorted, p) == 100 * sorted[k as int],
{
    lemma_percentile_in_range(sorted, p);
    let rank = p * (sorted.len() - 1);
    assert(rank / 100 == k && rank % 100 == rank - 100 * k);
    let part = rank % 100;
    let a = sorted[k as int] as int;
    if k + 1 < sorted.len() {
        let b = sorted[k as int + 1] as int;
        assert(a * (100 - part) + b * part == 100 * a + part * (b - a)) by (nonlinear_arith);
        assert(a * (100 - part) >= 0 && b * part >= 0) by (nonlinear_arith)
            requires
                a >= 0,
                b >= 0,
                0 <= part < 100,
        ;
    } else {
        assert(a * (100 - part) + a * part == 100 * a) by (nonlinear_arith);
    }
}

/// The sample variance over the sums of the latencies and of their squares.
pub proof fn law_variance_of_latencies(s: Seq<u64>)
    requires
        s.len() > 0,
        s.len() <= usize::MAX,
        total(s, |x: u64| x as nat) <= u64::MAX,
    ensures
        latency_stats(s) matches Some(t) && {
            let n = s.len() as int;
            let sum = total(s, |x: u64| x as nat) as int;
            let squares = total(s, |x: u64| (x * x) as nat) as int;
            n * t.sq_dev_us2 - (sum % n) * (sum % n) == n * squares - sum * sum
        },
{
    let square = |x: u64| (x * x) as nat;
    assert(micros() =~= (|x: u64| x as nat));
    assert forall|i: int| 0 <= i < s.len() implies squared_distance(0)(#[trigger] s[i]) == square(s[i]) by {
        let x = s[i] as int;
        assert((x - 0) * (x - 0) == x * x);
    }
    crate::totals::lemma_total_same(s, squared_distance(0), square);
    law_variance(s);
}

} // verus!
