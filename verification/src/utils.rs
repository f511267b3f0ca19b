//! Byte quantities: exact non-negative byte counts with kilobyte/megabyte
//! construction and conversion (1 KB = 1024 B, 1 MB = 1024 KB), and the
//! derivation of how many block-sized sequential writes compose the fixed
//! reference payload of one benchmark cycle.

use vstd::prelude::*;
use vstd::string::StringExecFns;

use crate::fmt::dec_digits;
use crate::fmt::rhe;
use crate::fmt::right_aligned;
use crate::fmt::round_half_even;
use crate::fmt::right_align;
use crate::fmt::u128_to_dec;
use crate::timer::Duration;

verus! {

/// The fixed reference payload of one write cycle: 1024 MB.
pub const TOTAL_REFERENCE_BYTES: u64 = 1073741824;

/// How many repeated cycles a full benchmark run performs.
pub const MAX_CYCLES: usize = 8;

/// A value with a human-readable rendering: a number joined with the unit
/// that reads best at its magnitude. `human_wf` is what a value must satisfy
/// before it can be rendered; most renderings accept every value.
pub trait HumanReadable {
    spec fn human_wf(&self) -> bool;

    fn as_human_readable(&self) -> String
        requires
            self.human_wf(),
    ;
}

/// A measurement that separates into a numeric value and the unit the value
/// is expressed in, for column-aligned reporting.
pub trait MetricWithUnit<T> {
    spec fn metric_wf(&self) -> bool;

    spec fn unit_spec(&self) -> Seq<char>;

    fn as_unit(&self) -> (r: &'static str)
        requires
            self.metric_wf(),
        ensures
            r@ == self.unit_spec(),
    ;

    fn as_value(&self) -> (r: T)
        requires
            self.metric_wf(),
    ;
}

/// An exact count of bytes.
#[derive(Debug, Clone, Copy, PartialEq, Eq, Structural)]
pub struct Bytes(pub u64);

impl Bytes {
    /// `mb` megabytes as a byte count.
    pub fn from_mb(mb: u64) -> (r: Bytes)
        requires
            mb * 1048576 <= u64::MAX,
        ensures
            r.0 == mb * 1048576,
    {
        Bytes(mb * 1048576)
    }

    /// `kb` kilobytes as a byte count.
    pub fn from_kb(kb: u64) -> (r: Bytes)
        requires
            kb * 1024 <= u64::MAX,
        ensures
            r.0 == kb * 1024,
    {
        Bytes(kb * 1024)
    }

    /// `b` bytes as a byte count.
    pub fn from_b(b: u64) -> (r: Bytes)
        ensures
            r.0 == b,
    {
        Bytes(b)
    }

    /// Whole megabytes contained in this count, rounded down.
    pub fn as_mb(&self) -> (r: u64)
        ensures
            r == self.0 as int / 1048576,
    {
        self.0 / 1048576
    }

    /// Whole kilobytes contained in this count, rounded down.
    pub fn as_kb(&self) -> (r: u64)
        ensures
            r == self.0 as int / 1024,
    {
        self.0 / 1024
    }

    /// The exact byte count.
    pub fn as_byte(&self) -> (r: u64)
        ensures
            r == self.0,
    {
        self.0
    }

    /// A buffer of exactly this many bytes, filled with non-cryptographic
    /// random data so that the storage layer cannot compress or deduplicate
    /// the writes away. Nothing is claimed of the contents: they are random.
    pub fn create_random_buffer(&self) -> (r: Vec<u8>)
        requires
            self.0 <= usize::MAX,
        ensures
            r@.len() == self.0,
    {
        let n = self.0 as usize;
        let mut buffer: Vec<u8> = Vec::new();
        while buffer.len() < n
            invariant
                buffer@.len() <= n,
            decreases n - buffer@.len(),
        {
            buffer.push(0);
        }
        fill_random(&mut buffer);
        buffer
    }

    /// How many sequential writes of this block size make up the reference
    /// payload of `TOTAL_REFERENCE_BYTES`: integer division, but at least one
    /// write even when a single block exceeds the whole payload.
    pub fn sequentials(&self) -> (r: u64)
        requires
            self.0 >= 1,
        ensures
            r == spec_sequentials(self.0 as int),
            1 <= r <= TOTAL_REFERENCE_BYTES,
    {
        let q = TOTAL_REFERENCE_BYTES / self.0;
        proof {
            vstd::arithmetic::div_mod::lemma_div_nonincreasing(
                TOTAL_REFERENCE_BYTES as int,
                self.0 as int,
            );
        }
        if q == 0 {
            1
        } else {
            q
        }
    }

    /// The payload one cycle writes in all: block size times the number of
    /// sequential writes.
    pub fn total_bytes(&self) -> (r: Bytes)
        requires
            self.0 >= 1,
        ensures
            r.0 == self.0 * spec_sequentials(self.0 as int),
    {
        let n = self.sequentials();
        proof {
            lemma_cycle_payload_bounded(self.0 as int);
        }
        Bytes(self.0 * n)
    }
}

/// The number of sequential writes for a block size of `b` bytes:
/// `TOTAL_REFERENCE_BYTES / b`, floored, with a floor of one write.
pub open spec fn spec_sequentials(b: int) -> int
    recommends
        b >= 1,
{
    let q = TOTAL_REFERENCE_BYTES as int / b;
    if q == 0 {
        1
    } else {
        q
    }
}

/// Overwrites every byte of `buffer` with a random value.
///
/// Relies on `fastrand::fill`: it fills the slice in place with output of the
/// global non-cryptographic generator, leaving the length unchanged. The
/// contents depend on the generator's state, so nothing is claimed of them.
#[verifier::external_body]
fn fill_random(buffer: &mut Vec<u8>)
    ensures
        final(buffer)@.len() == old(buffer)@.len(),
{
    fastrand::fill(buffer.as_mut_slice());
}

/// The human-readable rendering of a byte count `b`: the largest unit of B,
/// KB and MB for which the count reaches one whole unit, with the scaled
/// value rounded (half to even) to a whole number of units.
pub open spec fn bytes_human(b: int) -> Seq<char>
    recommends
        b >= 0,
{
    if b >= 1048576 {
        dec_digits(rhe(b, 1048576)) + " MB"@
    } else if b >= 1024 {
        dec_digits(rhe(b, 1024)) + " KB"@
    } else {
        dec_digits(b) + " B"@
    }
}

impl HumanReadable for Bytes {
    /// Every byte count can be rendered.
    open spec fn human_wf(&self) -> bool {
        true
    }

    /// Renders this byte count per `bytes_human`.
    fn as_human_readable(&self) -> (r: String)
        ensures
            r@ == bytes_human(self.0 as int),
    {
        if self.0 >= 1048576 {
            let mut out = u128_to_dec(round_half_even(self.0 as u128, 1048576));
            out.append(" MB");
            out
        } else if self.0 >= 1024 {
            let mut out = u128_to_dec(round_half_even(self.0 as u128, 1024));
            out.append(" KB");
            out
        } else {
            let mut out = u128_to_dec(self.0 as u128);
            out.append(" B");
            out
        }
    }
}

/// The human-readable rendering of an elapsed time of `nanos` nanoseconds,
/// banded by magnitude:
/// - a minute or more: whole minutes and leftover whole seconds ("1 m 40 s"),
///   the seconds part dropped when it is zero;
/// - ten seconds up to a minute: whole seconds, rounded to nearest,
///   right-aligned in a ten-character column;
/// - a millisecond up to ten seconds: whole milliseconds, rounded down, in
///   the same column;
/// - below a millisecond: whole microseconds, rounded down, in the same
///   column.
pub open spec fn duration_human(nanos: int) -> Seq<char>
    recommends
        nanos >= 0,
{
    if nanos >= 60000000000 {
        let secs = nanos / 1000000000;
        let m = secs / 60;
        let s = secs % 60;
        if s == 0 {
            dec_digits(m) + " m  "@
        } else {
            dec_digits(m) + " m "@ + dec_digits(s) + " s  "@
        }
    } else if nanos >= 10000000000 {
        right_aligned(dec_digits((nanos + 500000000) / 1000000000), 10) + " s   "@
    } else if nanos >= 1000000 {
        right_aligned(dec_digits(nanos / 1000000), 10) + " ms  "@
    } else {
        right_aligned(dec_digits(nanos / 1000), 10) + " µs  "@
    }
}

impl HumanReadable for Duration {
    /// Every span can be rendered.
    open spec fn human_wf(&self) -> bool {
        true
    }

    /// Renders this span per `duration_human`.
    fn as_human_readable(&self) -> (r: String)
        ensures
            r@ == duration_human(self@),
    {
        let nanos = self.as_nanos();
        if nanos >= 60000000000 {
            let secs = nanos / 1000000000;
            let m = secs / 60;
            let s = secs % 60;
            if s == 0 {
                let mut out = u128_to_dec(m);
                out.append(" m  ");
                out
            } else {
                let mut out = u128_to_dec(m);
                out.append(" m ");
                let sec_digits = u128_to_dec(s);
                out.append(sec_digits.as_str());
                out.append(" s  ");
                proof {
                    assert(out@ =~= duration_human(self@));
                }
                out
            }
        } else if nanos >= 10000000000 {
            let rounded = (nanos + 500000000) / 1000000000;
            let column = right_align(&u128_to_dec(rounded), 10);
            let mut out = column;
            out.append(" s   ");
            out
        } else if nanos >= 1000000 {
            let column = right_align(&u128_to_dec(nanos / 1000000), 10);
            let mut out = column;
            out.append(" ms  ");
            out
        } else {
            let column = right_align(&u128_to_dec(nanos / 1000), 10);
            let mut out = column;
            out.append(" µs  ");
            out
        }
    }
}

/// A cycle's total payload never exceeds the reference payload or the block
/// size itself, whichever is larger; in particular it fits in a `u64`.
pub proof fn lemma_cycle_payload_bounded(b: int)
    requires
        b >= 1,
    ensures
        b * spec_sequentials(b) <= if b > TOTAL_REFERENCE_BYTES {
            b
        } else {
            TOTAL_REFERENCE_BYTES as int
        },
{
    let q = TOTAL_REFERENCE_BYTES as int / b;
    if q == 0 {
        assert(b * 1 == b);
    } else {
        vstd::arithmetic::div_mod::lemma_fundamental_div_mod(TOTAL_REFERENCE_BYTES as int, b);
        vstd::arithmetic::div_mod::lemma_mod_division_less_than_divisor(
            TOTAL_REFERENCE_BYTES as int,
            b,
        );
        vstd::arithmetic::mul::lemma_mul_is_commutative(b, q);
    }
}

} // verus!

