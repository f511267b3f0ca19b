//! Statistics over a sample sequence: arithmetic mean and population standard
//! deviation (divisor N, not N - 1), both rounded down to whole units.
//!
//! Samples are whole numbers of the caller's unit (the benchmark driver hands
//! in microseconds, or IOPS counts). Sums are accumulated in 128-bit
//! arithmetic, so no precision is lost across a run's samples. An empty
//! sequence has no mean and no deviation: both functions return `None` there,
//! never a substitute zero.

use vstd::arithmetic::div_mod::lemma_div_is_ordered;
use vstd::arithmetic::div_mod::lemma_div_multiples_vanish;
use vstd::arithmetic::div_mod::lemma_fundamental_div_mod;
use vstd::arithmetic::div_mod::lemma_mod_division_less_than_divisor;
use vstd::arithmetic::mul::lemma_mul_inequality;
use vstd::prelude::*;

verus! {

/// The largest sample value `std_deviation` accepts; with at most
/// `MAX_STAT_SAMPLES` samples this keeps every intermediate sum of squares
/// within 128 bits. It spans more than four years of microseconds.
pub const MAX_STAT_SAMPLE: u64 = 0x800000000000;

/// The largest sample count `std_deviation` accepts; see `MAX_STAT_SAMPLE`.
pub const MAX_STAT_SAMPLES: usize = 65536;

/// The sum of a sample sequence.
pub open spec fn sum_of(s: Seq<u64>) -> int
    decreases s.len(),
{
    if s.len() == 0 {
        0
    } else {
        sum_of(s.drop_last()) + s.last()
    }
}

/// The sum of the squares of a sample sequence.
pub open spec fn sum_sq_of(s: Seq<u64>) -> int
    decreases s.len(),
{
    if s.len() == 0 {
        0
    } else {
        sum_sq_of(s.drop_last()) + s.last() * s.last()
    }
}

/// `n^2` times the population variance of `s` (where `n` is the sample
/// count): the sum of squared deviations from the true mean, cleared of its
/// denominator. Never negative.
pub open spec fn deviation_num(s: Seq<u64>) -> int {
    s.len() * sum_sq_of(s) - sum_of(s) * sum_of(s)
}

proof fn lemma_sum_of_bounds(s: Seq<u64>)
    ensures
        0 <= sum_of(s) <= s.len() * u64::MAX,
        0 <= sum_sq_of(s) <= s.len() * (u64::MAX as int * u64::MAX as int),
    decreases s.len(),
{
    if s.len() > 0 {
        lemma_sum_of_bounds(s.drop_last());
        let x = s.last() as int;
        assert(x * x <= u64::MAX as int * u64::MAX as int) by (nonlinear_arith)
            requires
                0 <= x <= u64::MAX,
        ;
        assert((s.len() - 1) * u64::MAX + u64::MAX == s.len() * u64::MAX) by (nonlinear_arith);
        assert((s.len() - 1) * (u64::MAX as int * u64::MAX as int) + u64::MAX as int
            * u64::MAX as int == s.len() * (u64::MAX as int * u64::MAX as int))
            by (nonlinear_arith);
    }
}

/// The squared sum never exceeds the sample count times the sum of squares:
/// so `deviation_num` is non-negative, and the variance is too.
proof fn lemma_deviation_num_nonneg(s: Seq<u64>)
    ensures
        sum_of(s) * sum_of(s) <= s.len() * sum_sq_of(s),
    decreases s.len(),
{
    if s.len() == 0 {
    } else {
        let t = s.drop_last();
        lemma_deviation_num_nonneg(t);
        lemma_sum_of_bounds(t);
        let x = s.last() as int;
        let sm = sum_of(t);
        let q = sum_sq_of(t);
        let n = t.len() as int;
        assert(sum_of(s) == sm + x);
        assert(sum_sq_of(s) == q + x * x);
        if n == 0 {
            assert((sm + x) * (sm + x) == x * x) by (nonlinear_arith)
                requires
                    sm == 0,
            ;
            assert(s.len() * sum_sq_of(s) == 1 * (q + x * x));
        } else {
            assert(n * (q + n * (x * x) - 2 * (sm * x)) >= 0) by (nonlinear_arith)
                requires
                    sm * sm <= n * q,
            ;
            assert(q + n * (x * x) - 2 * (sm * x) >= 0) by (nonlinear_arith)
                requires
                    n >= 1,
                    n * (q + n * (x * x) - 2 * (sm * x)) >= 0,
            ;
            assert((sm + x) * (sm + x) <= (n + 1) * (q + x * x)) by (nonlinear_arith)
                requires
                    sm * sm <= n * q,
                    q + n * (x * x) - 2 * (sm * x) >= 0,
            ;
            assert(s.len() * sum_sq_of(s) == (n + 1) * (q + x * x));
        }
    }
}

/// The arithmetic mean of `samples`, rounded down to a whole unit, or `None`
/// when there are no samples: a mean over nothing is absent, not zero.
pub fn mean(samples: &[u64]) -> (r: Option<u64>)
    ensures
        r is Some <==> samples@.len() > 0,
        r matches Some(m) ==> m == sum_of(samples@) / (samples@.len() as int),
{
    let len = samples.len();
    if len == 0 {
        return None;
    }
    let mut sum: u128 = 0;
    let mut i: usize = 0;
    proof {
        assert(samples@.subrange(0, 0) =~= Seq::<u64>::empty());
    }
    while i < len
        invariant
            0 <= i <= len,
            len == samples@.len(),
            sum == sum_of(samples@.subrange(0, i as int)),
            sum <= i * u64::MAX,
        decreases len - i,
    {
        let x = samples[i];
        proof {
            let pre = samples@.subrange(0, i as int);
            let post = samples@.subrange(0, i as int + 1);
            assert(post.drop_last() =~= pre);
            assert(post.last() == samples@[i as int]);
            assert((i + 1) * u64::MAX == i * u64::MAX + u64::MAX) by (nonlinear_arith);
            lemma_mul_inequality(i + 1 as int, len as int, u64::MAX as int);
            assert(len as int * u64::MAX as int <= u128::MAX as int) by (nonlinear_arith)
                requires
                    len <= usize::MAX,
            ;
        }
        sum = sum + x as u128;
        i = i + 1;
    }
    proof {
        assert(samples@.subrange(0, len as int) =~= samples@);
        lemma_div_is_ordered(sum as int, len as int * u64::MAX as int, len as int);
        lemma_div_multiples_vanish(u64::MAX as int, len as int);
    }
    Some((sum / len as u128) as u64)
}

/// The population standard deviation of `samples`, rounded down to a whole
/// unit, or `None` when there are no samples. The divisor is the sample count
/// N itself, not N - 1: each sample set is the whole population of interest.
///
/// The returned `d` is pinned as the floor of the true deviation: with `n`
/// samples, `d^2 * n^2` does not exceed the cleared sum of squared deviations
/// `deviation_num`, and `(d + 1)^2 * n^2` exceeds it. The deviation is never
/// negative, and a single sample deviates by exactly zero. The deviation is
/// always computed from the mean of this very sample sequence: `deviation_num`
/// ties both moments of the same input together.
///
/// The bounds on sample value and count are what keeps every intermediate sum
/// inside 128-bit arithmetic.
pub fn std_deviation(samples: &[u64]) -> (r: Option<u64>)
    requires
        samples@.len() <= MAX_STAT_SAMPLES,
        forall|i: int| 0 <= i < samples@.len() ==> samples@[i] <= MAX_STAT_SAMPLE,
    ensures
        r is Some <==> samples@.len() > 0,
        r matches Some(d) ==> {
            let n = samples@.len() as int;
            d * d * n * n <= deviation_num(samples@) < (d + 1) * (d + 1) * n * n
        },
        samples@.len() == 1 ==> r == Some(0u64),
{
    let len = samples.len();
    if len == 0 {
        return None;
    }
    let mut sum: u128 = 0;
    let mut sum_sq: u128 = 0;
    let mut i: usize = 0;
    proof {
        assert(samples@.subrange(0, 0) =~= Seq::<u64>::empty());
    }
    while i < len
        invariant
            0 <= i <= len,
            len == samples@.len(),
            len <= MAX_STAT_SAMPLES,
            forall|j: int| 0 <= j < samples@.len() ==> samples@[j] <= MAX_STAT_SAMPLE,
            sum == sum_of(samples@.subrange(0, i as int)),
            sum_sq == sum_sq_of(samples@.subrange(0, i as int)),
            sum <= i * MAX_STAT_SAMPLE,
            sum_sq <= i * (MAX_STAT_SAMPLE as int * MAX_STAT_SAMPLE as int),
        decreases len - i,
    {
        let x = samples[i];
        proof {
            let pre = samples@.subrange(0, i as int);
            let post = samples@.subrange(0, i as int + 1);
            assert(post.drop_last() =~= pre);
            assert(post.last() == samples@[i as int]);
            assert((i + 1) * MAX_STAT_SAMPLE == i * MAX_STAT_SAMPLE + MAX_STAT_SAMPLE)
                by (nonlinear_arith);
            lemma_mul_inequality(i + 1 as int, len as int, MAX_STAT_SAMPLE as int);
            assert(x as int * x as int <= MAX_STAT_SAMPLE as int * MAX_STAT_SAMPLE as int)
                by (nonlinear_arith)
                requires
                    0 <= x <= MAX_STAT_SAMPLE,
            ;
            assert((i + 1) * (MAX_STAT_SAMPLE as int * MAX_STAT_SAMPLE as int) == i
                * (MAX_STAT_SAMPLE as int * MAX_STAT_SAMPLE as int) + MAX_STAT_SAMPLE as int
                * MAX_STAT_SAMPLE as int) by (nonlinear_arith);
            lemma_mul_inequality(
                i + 1 as int,
                len as int,
                MAX_STAT_SAMPLE as int * MAX_STAT_SAMPLE as int,
            );
        }
        sum = sum + x as u128;
        sum_sq = sum_sq + (x as u128) * (x as u128);
        i = i + 1;
    }
    proof {
        assert(samples@.subrange(0, len as int) =~= samples@);
        lemma_deviation_num_nonneg(samples@);
        lemma_mul_inequality(
            len as int,
            MAX_STAT_SAMPLES as int,
            MAX_STAT_SAMPLE as int * MAX_STAT_SAMPLE as int,
        );
        assert(len as int * sum_sq <= MAX_STAT_SAMPLES as int * (MAX_STAT_SAMPLES as int * (
        MAX_STAT_SAMPLE as int * MAX_STAT_SAMPLE as int))) by (nonlinear_arith)
            requires
                0 <= len <= MAX_STAT_SAMPLES,
                0 <= sum_sq <= len as int * (MAX_STAT_SAMPLE as int * MAX_STAT_SAMPLE as int),
        ;
    }
    let num = (len as u128) * sum_sq - sum * sum;
    proof {
        assert(1 <= len as int * len as int <= MAX_STAT_SAMPLES as int * MAX_STAT_SAMPLES as int)
            by (nonlinear_arith)
            requires
                1 <= len <= MAX_STAT_SAMPLES,
        ;
    }
    let nn = (len as u128) * (len as u128);
    let q = num / nn;
    let d = isqrt(q);
    proof {
        let n = len as int;
        let numi = deviation_num(samples@);
        let qi = numi / (n * n);
        assert(num == numi);
        assert(q == qi);
        lemma_fundamental_div_mod(numi, n * n);
        lemma_mod_division_less_than_divisor(numi, n * n);
        assert(d as int * d as int <= qi);
        lemma_mul_inequality(d as int * d as int, qi, n * n);
        assert(qi * (n * n) <= numi);
        assert(d as int * d as int * n * n == d as int * d as int * (n * n))
            by (nonlinear_arith);
        assert(qi + 1 <= (d as int + 1) * (d as int + 1));
        lemma_mul_inequality(qi + 1, (d as int + 1) * (d as int + 1), n * n);
        assert((qi + 1) * (n * n) == qi * (n * n) + (n * n)) by (nonlinear_arith);
        assert(numi < (qi + 1) * (n * n));
        assert((d as int + 1) * (d as int + 1) * n * n == (d as int + 1) * (d as int + 1) * (n
            * n)) by (nonlinear_arith);
        assert(numi < (d as int + 1) * (d as int + 1) * n * n);
        if len == 1 {
            assert(samples@.drop_last() =~= Seq::<u64>::empty());
            let x = samples@.last() as int;
            assert(sum_of(samples@) == x);
            assert(sum_sq_of(samples@) == x * x);
            assert(numi == 1 * (x * x) - x * x);
            assert(numi == 0);
            assert(d as int * d as int * n * n <= 0);
            assert(d == 0) by (nonlinear_arith)
                requires
                    n == 1,
                    d as int * d as int * n * n <= 0,
                    d >= 0,
            ;
        }
    }
    Some(d)
}

/// The integer square root: the largest whole number whose square does not
/// exceed `q`.
pub fn isqrt(q: u128) -> (r: u64)
    ensures
        r * r <= q < (r + 1) * (r + 1),
{
    let mut lo: u128 = 0;
    let mut hi: u128 = 0x10000000000000000;
    proof {
        assert(q < 0x10000000000000000u128 as int * 0x10000000000000000u128 as int);
    }
    while hi - lo > 1
        invariant
            lo < hi <= 0x10000000000000000,
            lo as int * lo as int <= q,
            q < hi as int * hi as int,
        decreases hi - lo,
    {
        let mid = lo + (hi - lo) / 2;
        proof {
            assert(lo < mid < hi);
            assert(mid as int * mid as int <= 0xffffffffffffffffu128 as int
                * 0xffffffffffffffffu128 as int) by (nonlinear_arith)
                requires
                    0 <= mid <= 0xffffffffffffffffu128,
            ;
        }
        if mid * mid <= q {
            lo = mid;
        } else {
            hi = mid;
        }
    }
    lo as u64
}

} // verus!
