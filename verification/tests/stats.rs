//! The statistics engine: mean, population standard deviation, integer
//! square root.

use ssd_benchmark::{isqrt, mean, std_deviation};

#[test]
fn mean_of_one_through_nine() {
    let m = mean(&[1, 2, 3, 4, 5, 6, 7, 8, 9]);
    assert_eq!(m, Some(5));
}

#[test]
fn mean_of_empty_is_absent() {
    assert_eq!(mean(&[]), None);
}

#[test]
fn mean_rounds_down() {
    assert_eq!(mean(&[1, 2]), Some(1));
    assert_eq!(mean(&[3, 4, 5, 5]), Some(4));
}

#[test]
fn std_deviation_classic_sample() {
    // The true population deviation of this set is 4.898979...; the engine
    // reports whole units, rounded down.
    let v = std_deviation(&[10, 12, 23, 23, 16, 23, 21, 16]);
    assert_eq!(v, Some(4));
}

#[test]
fn std_deviation_of_empty_is_absent() {
    assert_eq!(std_deviation(&[]), None);
}

#[test]
fn std_deviation_of_single_sample_is_zero() {
    assert_eq!(std_deviation(&[42]), Some(0));
    assert_eq!(std_deviation(&[0]), Some(0));
}

#[test]
fn std_deviation_of_equal_samples_is_zero() {
    assert_eq!(std_deviation(&[7, 7, 7, 7]), Some(0));
}

#[test]
fn std_deviation_spread() {
    // Samples 2 and 6: mean 4, each deviates by 2.
    assert_eq!(std_deviation(&[2, 6]), Some(2));
}

#[test]
fn isqrt_exact_and_floored() {
    assert_eq!(isqrt(0), 0);
    assert_eq!(isqrt(1), 1);
    assert_eq!(isqrt(3), 1);
    assert_eq!(isqrt(4), 2);
    assert_eq!(isqrt(24), 4);
    assert_eq!(isqrt(25), 5);
    assert_eq!(isqrt(u64::MAX as u128 * u64::MAX as u128), u64::MAX);
}
