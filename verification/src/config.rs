//! Block-size configuration: parsing human input such as "8m" or "4k" into an
//! exact byte count, and the bound a block size must stay under.
//!
//! The accepted form is the original command line's: an optional unit letter
//! at the end ('k' or 'm', either case, for 1024 and 1024^2; a trailing digit
//! means plain bytes), with the numeric value read from the decimal digits of
//! the input in order, ignoring any other characters in between.

use vstd::prelude::*;
use vstd::string::StrSliceExecFns;

use crate::utils::Bytes;

verus! {

/// The largest accepted block size: 256 MB.
pub const MAX_BLOCK_SIZE_BYTES: u64 = 268435456;

/// Why a block-size input was rejected; each input is rejected for exactly
/// one of these, checked in this order.
#[derive(Debug, Clone, Copy, PartialEq, Eq, Structural)]
pub enum ConfigError {
    /// The input is empty or ends in something that is neither a digit nor a
    /// recognized unit letter.
    UnrecognizedUnit,
    /// The input holds no digit to read a value from.
    MissingNumber,
    /// The value, scaled by its unit, exceeds `MAX_BLOCK_SIZE_BYTES`.
    BlockSizeTooLarge,
}

/// Whether `c` is a decimal digit.
pub open spec fn is_dec_digit(c: char) -> bool {
    48 <= c as int <= 57
}

/// The numeric value of a digit character.
pub open spec fn digit_value(c: char) -> int
    recommends
        is_dec_digit(c),
{
    c as int - 48
}

/// The decimal digits of `s`, in order, with everything else dropped.
pub open spec fn digits_of(s: Seq<char>) -> Seq<char>
    decreases s.len(),
{
    if s.len() == 0 {
        Seq::empty()
    } else if is_dec_digit(s.last()) {
        digits_of(s.drop_last()).push(s.last())
    } else {
        digits_of(s.drop_last())
    }
}

/// The value of a digit string read in base ten.
pub open spec fn dec_value(ds: Seq<char>) -> int
    decreases ds.len(),
{
    if ds.len() == 0 {
        0
    } else {
        10 * dec_value(ds.drop_last()) + digit_value(ds.last())
    }
}

/// The byte factor of the unit letter ending a block-size input: 1024 for
/// 'k', 1024^2 for 'm' (either case), 1 when the input ends in a digit, and
/// none for anything else.
pub open spec fn unit_factor_of(c: char) -> int {
    if c == 'k' || c == 'K' {
        1024
    } else if c == 'm' || c == 'M' {
        1048576
    } else if is_dec_digit(c) {
        1
    } else {
        0
    }
}

/// What parsing a block-size input yields: the byte count, or the one error
/// the input falls under. Empty input and an unknown unit letter are
/// rejected first, then an input without digits, then a value over the
/// maximum.
pub open spec fn spec_parse_block_size(s: Seq<char>) -> Result<int, ConfigError> {
    if s.len() == 0 || unit_factor_of(s.last()) == 0 {
        Err(ConfigError::UnrecognizedUnit)
    } else if digits_of(s).len() == 0 {
        Err(ConfigError::MissingNumber)
    } else if dec_value(digits_of(s)) * unit_factor_of(s.last()) > MAX_BLOCK_SIZE_BYTES {
        Err(ConfigError::BlockSizeTooLarge)
    } else {
        Ok(dec_value(digits_of(s)) * unit_factor_of(s.last()))
    }
}

/// Parses a human block-size input ("8m", "4k", "512") into bytes, exactly
/// per `spec_parse_block_size`.
pub fn parse_block_size(s: &str) -> (r: Result<Bytes, ConfigError>)
    ensures
        match spec_parse_block_size(s@) {
            Ok(v) => r matches Ok(b) && b.0 == v,
            Err(e) => r == Err::<Bytes, ConfigError>(e),
        },
{
    let len = s.unicode_len();
    if len == 0 {
        return Err(ConfigError::UnrecognizedUnit);
    }
    let last = s.get_char(len - 1);
    let factor: u64 = if last == 'k' || last == 'K' {
        1024
    } else if last == 'm' || last == 'M' {
        1048576
    } else if is_dec_digit_exec(last) {
        1
    } else {
        return Err(ConfigError::UnrecognizedUnit);
    };
    proof {
        assert(s@.subrange(0, len as int).last() == s@[len - 1]);
        assert(factor == unit_factor_of(s@.last()));
    }
    let mut value: u64 = 0;
    let mut found = false;
    let mut too_large = false;
    let mut i: usize = 0;
    proof {
        assert(s@.subrange(0, 0) =~= Seq::<char>::empty());
    }
    while i < len
        invariant
            0 <= i <= len,
            len == s@.len(),
            found <==> digits_of(s@.subrange(0, i as int)).len() > 0,
            !too_large ==> value == dec_value(digits_of(s@.subrange(0, i as int))) && value
                <= MAX_BLOCK_SIZE_BYTES,
            too_large ==> dec_value(digits_of(s@.subrange(0, i as int))) > MAX_BLOCK_SIZE_BYTES
                && found,
        decreases len - i,
    {
        let c = s.get_char(i);
        proof {
            assert(s@.subrange(0, i as int + 1).drop_last() =~= s@.subrange(0, i as int));
            assert(s@.subrange(0, i as int + 1).last() == s@[i as int]);
        }
        if is_dec_digit_exec(c) {
            proof {
                let pre = s@.subrange(0, i as int);
                let post = s@.subrange(0, i as int + 1);
                assert(digits_of(post) == digits_of(pre).push(c));
                assert(digits_of(pre).push(c).drop_last() =~= digits_of(pre));
                assert(dec_value(digits_of(post)) == 10 * dec_value(digits_of(pre)) + digit_value(
                    c,
                ));
            }
            let d = (c as u32 - 48) as u64;
            if !too_large {
                let candidate = value * 10 + d;
                if candidate > MAX_BLOCK_SIZE_BYTES {
                    too_large = true;
                } else {
                    value = candidate;
                }
            }
            found = true;
        }
        i = i + 1;
    }
    proof {
        assert(s@.subrange(0, len as int) =~= s@);
    }
    if !found {
        return Err(ConfigError::MissingNumber);
    }
    if too_large {
        proof {
            assert(dec_value(digits_of(s@)) * factor > MAX_BLOCK_SIZE_BYTES) by (nonlinear_arith)
                requires
                    dec_value(digits_of(s@)) > MAX_BLOCK_SIZE_BYTES,
                    factor >= 1,
            ;
        }
        return Err(ConfigError::BlockSizeTooLarge);
    }
    proof {
        assert(value as int * factor as int <= MAX_BLOCK_SIZE_BYTES as int * 1048576)
            by (nonlinear_arith)
            requires
                0 <= value <= MAX_BLOCK_SIZE_BYTES,
                0 <= factor <= 1048576,
        ;
    }
    let total = value * factor;
    if total > MAX_BLOCK_SIZE_BYTES {
        Err(ConfigError::BlockSizeTooLarge)
    } else {
        Ok(Bytes(total))
    }
}

/// Whether `c` is a decimal digit, per `is_dec_digit`.
fn is_dec_digit_exec(c: char) -> (r: bool)
    ensures
        r == is_dec_digit(c),
{
    let u = c as u32;
    48 <= u && u <= 57
}

} // verus!
