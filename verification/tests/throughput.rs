//! Throughput readings: display, unit selection and IOPS.

use ssd_benchmark::{Bytes, Duration, HumanReadable, MetricWithUnit, Throughput};

#[test]
fn test_display() {
    let throughput = Throughput::new(Bytes::from_mb(100), Duration::from_secs(1));
    assert_eq!(throughput.as_human_readable(), "100.00 MB/s");

    // small values should be displayed as KB/s
    let throughput = Throughput::new(Bytes::from_b(1024), Duration::from_secs(1));
    assert_eq!(throughput.as_human_readable(), "1.00 KB/s");

    // very small values should be displayed as B/s
    let throughput = Throughput::new(Bytes::from_b(512), Duration::from_secs(1));
    assert_eq!(throughput.as_human_readable(), "512 B/s");
}

#[test]
fn test_unit_value() {
    let tp = Throughput::new(Bytes::from_mb(100), Duration::from_secs(2));
    assert_eq!(tp.as_unit(), "MB/s");
    assert_eq!(tp.as_value(), "50.00");
}

#[test]
fn test_iops() {
    let block_size = Bytes::from_kb(4);

    let tp = Throughput::new(Bytes::from_mb(100), Duration::from_secs(2));
    let iops = tp.as_iops(block_size);
    assert_eq!(iops, 12_800);
}

#[test]
fn iops_scenario() {
    // 500 MB over one second in 4 KB blocks: 128000 operations per second.
    let tp = Throughput::new(Bytes::from_mb(500), Duration::from_secs(1));
    assert_eq!(tp.as_iops(Bytes::from_kb(4)), 128_000);
}

#[test]
fn iops_rounds_down() {
    // 1000 bytes over one second in 3-byte blocks: 333.33..., floored.
    let tp = Throughput::new(Bytes::from_b(1000), Duration::from_secs(1));
    assert_eq!(tp.as_iops(Bytes::from_b(3)), 333);
}

#[test]
fn display_unit_thresholds() {
    // Exactly 1 GB/s reaches the GB/s unit.
    let tp = Throughput::new(Bytes::from_mb(1024), Duration::from_secs(1));
    assert_eq!(tp.as_unit(), "GB/s");
    assert_eq!(tp.as_human_readable(), "1.00 GB/s");
    // One byte short of 1 KB/s stays in B/s.
    let tp = Throughput::new(Bytes::from_b(1023), Duration::from_secs(1));
    assert_eq!(tp.as_unit(), "B/s");
    assert_eq!(tp.as_human_readable(), "1023 B/s");
}

#[test]
fn display_fraction_padding() {
    // 1077 bytes over one second: 1.0517... KB/s, displayed as 1.05.
    let tp = Throughput::new(Bytes::from_b(1077), Duration::from_secs(1));
    assert_eq!(tp.as_human_readable(), "1.05 KB/s");
    // 1034 bytes over one second: 1.0097... KB/s, fraction needs its zero.
    let tp = Throughput::new(Bytes::from_b(1034), Duration::from_secs(1));
    assert_eq!(tp.as_human_readable(), "1.01 KB/s");
}

#[test]
fn throughput_fields() {
    let tp = Throughput::new(Bytes::from_kb(8), Duration::from_millis(250));
    assert_eq!(tp.write.as_byte(), 8192);
    assert_eq!(tp.duration.as_millis(), 250);
}
