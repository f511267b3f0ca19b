//! Human-readable formatting of durations and byte counts.

use ssd_benchmark::{Bytes, Duration, HumanReadable};

#[test]
fn should_format_time() {
    assert_eq!(Duration::from_secs(100).as_human_readable(), "1 m 40 s  ");
    assert_eq!(Duration::from_secs(200).as_human_readable(), "3 m 20 s  ");
    assert_eq!(
        Duration::from_millis(60001).as_human_readable(),
        "1 m  ",
        "should display minutes"
    );
    assert_eq!(
        Duration::from_millis(59999).as_human_readable(),
        "        60 s   ",
        "should display seconds"
    );
    assert_eq!(
        Duration::from_millis(58999).as_human_readable(),
        "        59 s   ",
        "should display seconds"
    );
    assert_eq!(
        Duration::from_secs(10).as_human_readable(),
        "        10 s   ",
        "should display seconds"
    );
    assert_eq!(
        Duration::from_millis(9999).as_human_readable(),
        "      9999 ms  ",
        "should keep the ms"
    );
    assert_eq!(
        Duration::from_millis(100).as_human_readable(),
        "       100 ms  ",
        "should keep the ms"
    );
}

#[test]
fn format_time_microseconds() {
    assert_eq!(Duration::from_micros(500).as_human_readable(), "       500 µs  ");
    assert_eq!(Duration::from_nanos(999).as_human_readable(), "         0 µs  ");
}

#[test]
fn format_bytes_scenarios() {
    assert_eq!(Bytes(104857600).as_human_readable(), "100 MB");
    assert_eq!(Bytes(1024).as_human_readable(), "1 KB");
    assert_eq!(Bytes(512).as_human_readable(), "512 B");
}

#[test]
fn format_bytes_edges() {
    assert_eq!(Bytes(0).as_human_readable(), "0 B");
    assert_eq!(Bytes(1023).as_human_readable(), "1023 B");
    assert_eq!(Bytes(1048576).as_human_readable(), "1 MB");
    // 1536 KB is 1.5 MB; half rounds to the even neighbour, which is 2.
    assert_eq!(Bytes(1536 * 1024).as_human_readable(), "2 MB");
    // 2.5 MB also rounds to the even neighbour: 2 again.
    assert_eq!(Bytes(2621440).as_human_readable(), "2 MB");
}

#[test]
fn format_time_band_edges() {
    assert_eq!(Duration::from_secs(60).as_human_readable(), "1 m  ");
    assert_eq!(Duration::from_secs(61).as_human_readable(), "1 m 1 s  ");
    assert_eq!(Duration::from_millis(1).as_human_readable(), "         1 ms  ");
    assert_eq!(Duration::from_micros(999).as_human_readable(), "       999 µs  ");
}

#[test]
fn bytes_conversions() {
    let b = Bytes::from_mb(100);
    assert_eq!(b.as_byte(), 104857600);
    assert_eq!(b.as_kb(), 102400);
    assert_eq!(b.as_mb(), 100);
    assert_eq!(Bytes::from_kb(4).as_byte(), 4096);
    assert_eq!(Bytes::from_b(512).as_byte(), 512);
}

#[test]
fn sequentials_and_total_bytes() {
    // 8 MB blocks: 1024 MB / 8 MB = 128 writes.
    let b = Bytes::from_mb(8);
    assert_eq!(b.sequentials(), 128);
    assert_eq!(b.total_bytes().as_byte(), 1073741824);
    // A block larger than the reference payload still writes once.
    let huge = Bytes::from_mb(2048);
    assert_eq!(huge.sequentials(), 1);
    assert_eq!(huge.total_bytes().as_byte(), 2048 * 1048576);
    // A one-byte block: the full payload, one byte at a time.
    assert_eq!(Bytes(1).sequentials(), 1073741824);
}
