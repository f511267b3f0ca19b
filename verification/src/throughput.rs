//! Throughput readings: a byte count over the span it took to write, with
//! derived bytes-per-second, an auto-selected display unit, and IOPS.
//!
//! A reading scales its rate by 1024 per unit step and picks the largest of
//! B/s, KB/s, MB/s and GB/s for which the scaled value still reaches one
//! whole unit. The rate is displayed with two decimal places, except in B/s,
//! where nothing smaller than a byte exists and no decimals are shown. All
//! arithmetic is exact: the rate is the rational number
//! `bytes * 10^9 / nanoseconds`, never a truncated intermediate.

use vstd::arithmetic::div_mod::lemma_div_by_multiple;
use vstd::arithmetic::div_mod::lemma_div_denominator;
use vstd::arithmetic::div_mod::lemma_div_is_ordered;
use vstd::arithmetic::div_mod::lemma_fundamental_div_mod;
use vstd::arithmetic::div_mod::lemma_mod_division_less_than_divisor;
use vstd::arithmetic::mul::lemma_mul_inequality;
use vstd::prelude::*;
use vstd::string::StringExecFns;

use crate::fmt::dec_digits;
use crate::fmt::rhe;
use crate::fmt::round_half_even;
use crate::fmt::u128_to_dec;
use crate::timer::Duration;
use crate::utils::Bytes;
use crate::utils::HumanReadable;
use crate::utils::MetricWithUnit;

verus! {

/// An amount of data written over the span it took: the benchmark's rate
/// reading.
pub struct Throughput {
    pub write: Bytes,
    pub duration: Duration,
}

/// The scale factor of display unit `k`: 1024 to the `k`-th power, for
/// `k` from 0 (B/s) to 3 (GB/s).
pub open spec fn unit_factor(k: int) -> int
    recommends
        0 <= k <= 3,
{
    if k == 3 {
        1073741824
    } else if k == 2 {
        1048576
    } else if k == 1 {
        1024
    } else {
        1
    }
}

/// The display unit for `bytes` written over `nanos` nanoseconds: the largest
/// `k` for which the rate, scaled down by `unit_factor(k)`, still reaches one
/// whole unit; B/s (`k` = 0) is the floor.
pub open spec fn tp_unit(bytes: int, nanos: int) -> int
    recommends
        bytes >= 0,
        nanos >= 1,
{
    let a = bytes * 1000000000;
    if a >= nanos * 1073741824 {
        3
    } else if a >= nanos * 1048576 {
        2
    } else if a >= nanos * 1024 {
        1
    } else {
        0
    }
}

/// The display name of unit `k`.
pub open spec fn tp_unit_seq(k: int) -> Seq<char>
    recommends
        0 <= k <= 3,
{
    if k == 3 {
        "GB/s"@
    } else if k == 2 {
        "MB/s"@
    } else if k == 1 {
        "KB/s"@
    } else {
        "B/s"@
    }
}

/// The displayed numeric value of the rate `bytes` over `nanos` nanoseconds,
/// in its auto-selected unit: two decimal places (rounded half to even) in
/// KB/s and above, a whole number in B/s.
pub open spec fn tp_value_seq(bytes: int, nanos: int) -> Seq<char>
    recommends
        bytes >= 0,
        nanos >= 1,
{
    let a = bytes * 1000000000;
    let k = tp_unit(bytes, nanos);
    if k == 0 {
        dec_digits(rhe(a, nanos))
    } else {
        let c = rhe(100 * a, nanos * unit_factor(k));
        dec_digits(c / 100) + "."@ + (if c % 100 < 10 {
            "0"@ + dec_digits(c % 100)
        } else {
            dec_digits(c % 100)
        })
    }
}

/// The full human-readable rate: value, a space, and the unit name.
pub open spec fn tp_human(bytes: int, nanos: int) -> Seq<char>
    recommends
        bytes >= 0,
        nanos >= 1,
{
    tp_value_seq(bytes, nanos) + " "@ + tp_unit_seq(tp_unit(bytes, nanos))
}

/// IOPS of `bytes` written over `nanos` nanoseconds in blocks of `block`
/// bytes: bytes per second divided by the block size, rounded down (a count
/// of operations is conservative), and saturating at `u64::MAX`.
pub open spec fn spec_iops(bytes: int, nanos: int, block: int) -> int
    recommends
        bytes >= 0,
        nanos >= 1,
        block >= 1,
{
    let v = bytes * 1000000000 / (nanos * block);
    if v > u64::MAX {
        u64::MAX as int
    } else {
        v
    }
}

/// For a non-negative `a` and positive `c`: `n` fits into `a/c` exactly when
/// `n * c` fits into `a`.
proof fn lemma_div_ge(a: int, n: int, c: int)
    requires
        a >= 0,
        n >= 0,
        c >= 1,
    ensures
        (a / c >= n) <==> (a >= n * c),
{
    lemma_fundamental_div_mod(a, c);
    lemma_mod_division_less_than_divisor(a, c);
    if a / c >= n {
        lemma_mul_inequality(n, a / c, c);
    }
    if a >= n * c {
        lemma_div_is_ordered(n * c, a, c);
        lemma_div_by_multiple(n, c);
    }
}

impl Throughput {
    /// A reading of `write` bytes over `duration`.
    pub fn new(write: Bytes, duration: Duration) -> (r: Throughput)
        ensures
            r.write == write,
            r.duration == duration,
    {
        Throughput { write, duration }
    }

    /// I/O operations per second at block size `block_size`, rounded down.
    /// The duration must be a real measurement: a write cycle never takes
    /// zero time, and a rate over no time is undefined.
    pub fn as_iops(&self, block_size: Bytes) -> (r: u64)
        requires
            self.duration@ >= 1,
            block_size.0 >= 1,
        ensures
            r == spec_iops(self.write.0 as int, self.duration@, block_size.0 as int),
    {
        let a = self.rate_numerator();
        let nanos = self.duration.as_nanos();
        let per_sec = a / nanos;
        let ops = per_sec / (block_size.0 as u128);
        proof {
            lemma_div_denominator(a as int, self.duration@, block_size.0 as int);
        }
        if ops > u64::MAX as u128 {
            u64::MAX
        } else {
            ops as u64
        }
    }

    /// The exact rate numerator `bytes * 10^9`; over the nanosecond count it
    /// is the byte-per-second rate as a rational number.
    fn rate_numerator(&self) -> (a: u128)
        ensures
            a == self.write.0 as int * 1000000000,
    {
        proof {
            lemma_mul_inequality(self.write.0 as int, u64::MAX as int, 1000000000);
        }
        (self.write.0 as u128) * 1000000000
    }

    /// The auto-selected display unit of this reading, as its index on the
    /// 1024 scale: 0 for B/s up to 3 for GB/s.
    fn unit_index(&self) -> (k: u8)
        requires
            self.duration@ >= 1,
        ensures
            k == tp_unit(self.write.0 as int, self.duration@),
            k <= 3,
    {
        let a = self.rate_numerator();
        let nanos = self.duration.as_nanos();
        proof {
            lemma_div_ge(a as int, self.duration@, 1073741824);
            lemma_div_ge(a as int, self.duration@, 1048576);
            lemma_div_ge(a as int, self.duration@, 1024);
        }
        if a / 1073741824 >= nanos {
            3
        } else if a / 1048576 >= nanos {
            2
        } else if a / 1024 >= nanos {
            1
        } else {
            0
        }
    }
}

impl MetricWithUnit<String> for Throughput {
    /// A rate exists only over a non-empty span.
    open spec fn metric_wf(&self) -> bool {
        self.duration@ >= 1
    }

    open spec fn unit_spec(&self) -> Seq<char> {
        tp_unit_seq(tp_unit(self.write.0 as int, self.duration@))
    }

    /// The display name of this reading's auto-selected unit.
    fn as_unit(&self) -> (r: &'static str)
        ensures
            r@ == self.unit_spec(),
    {
        let k = self.unit_index();
        if k == 3 {
            "GB/s"
        } else if k == 2 {
            "MB/s"
        } else if k == 1 {
            "KB/s"
        } else {
            "B/s"
        }
    }

    /// The displayed numeric value of this reading, rendered per
    /// `tp_value_seq`: two decimals in KB/s and above, none in B/s.
    fn as_value(&self) -> (r: String)
        ensures
            r@ == tp_value_seq(self.write.0 as int, self.duration@),
    {
        let a = self.rate_numerator();
        let nanos = self.duration.as_nanos();
        let k = self.unit_index();
        if k == 0 {
            u128_to_dec(round_half_even(a, nanos))
        } else {
            let factor: u128 = if k == 3 {
                1073741824
            } else if k == 2 {
                1048576
            } else {
                1024
            };
            proof {
                lemma_div_ge(a as int, self.duration@, factor as int);
                assert(self.duration@ * factor <= a);
                lemma_mul_inequality(1, self.duration@, factor as int);
            }
            let denom = nanos * factor;
            let c = round_half_even(100 * a, denom);
            let mut out = u128_to_dec(c / 100);
            out.append(".");
            let frac = c % 100;
            if frac < 10 {
                out.append("0");
                let frac_digits = u128_to_dec(frac);
                out.append(frac_digits.as_str());
            } else {
                let frac_digits = u128_to_dec(frac);
                out.append(frac_digits.as_str());
            }
            proof {
                assert(out@ =~= tp_value_seq(self.write.0 as int, self.duration@));
            }
            out
        }
    }
}

impl HumanReadable for Throughput {
    /// A rate exists only over a non-empty span.
    open spec fn human_wf(&self) -> bool {
        self.duration@ >= 1
    }

    /// Renders this reading per `tp_human`: value, space, unit.
    fn as_human_readable(&self) -> (r: String)
        ensures
            r@ == tp_human(self.write.0 as int, self.duration@),
    {
        let mut out = self.as_value();
        out.append(" ");
        let unit = self.as_unit();
        out.append(unit);
        proof {
            assert(out@ =~= tp_human(self.write.0 as int, self.duration@));
        }
        out
    }
}

} // verus!
