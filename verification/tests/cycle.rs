//! The write-cycle state machine, temporary file names, buffers, and
//! block-size parsing.

use ssd_benchmark::{
    parse_block_size, temp_file_name, unique_temp_file_name, Bytes, ConfigError, CycleAction,
    CycleError, Duration, Timer, WriteCycle,
};

#[test]
fn cycle_happy_path() {
    let n = 4;
    let mut cycle = WriteCycle::new(n);
    assert_eq!(cycle.next_action(), CycleAction::OpenFile);
    cycle.file_opened();
    for _ in 0..n {
        assert_eq!(cycle.next_action(), CycleAction::WriteAndSync);
        cycle.write_completed(&Duration::from_millis(5));
    }
    assert_eq!(cycle.next_action(), CycleAction::RemoveFile);
    cycle.file_removed();
    assert_eq!(cycle.next_action(), CycleAction::Done);
    let total = cycle.result().expect("clean cycle");
    assert_eq!(total.as_millis(), 20);
}

#[test]
fn cycle_failed_write_still_removes_file() {
    // A cycle of eight writes whose fourth write fails: the machine still
    // demands the file's removal before it reports the failure.
    let n = 8;
    let mut cycle = WriteCycle::new(n);
    cycle.file_opened();
    for _ in 0..(n / 2) - 1 {
        cycle.write_completed(&Duration::from_millis(1));
    }
    cycle.write_failed();
    assert_eq!(cycle.next_action(), CycleAction::RemoveFile);
    cycle.file_removed();
    assert_eq!(cycle.next_action(), CycleAction::Done);
    assert_eq!(cycle.result(), Err(CycleError::WriteFailed));
}

#[test]
fn cycle_failed_sync_still_removes_file() {
    let mut cycle = WriteCycle::new(2);
    cycle.file_opened();
    cycle.write_completed(&Duration::from_millis(1));
    cycle.sync_failed();
    assert_eq!(cycle.next_action(), CycleAction::RemoveFile);
    cycle.remove_failed();
    // The earlier failure wins over the failed removal.
    assert_eq!(cycle.result(), Err(CycleError::SyncFailed));
}

#[test]
fn cycle_open_failure_needs_no_cleanup() {
    let mut cycle = WriteCycle::new(2);
    cycle.open_failed();
    assert_eq!(cycle.next_action(), CycleAction::Done);
    assert_eq!(cycle.result(), Err(CycleError::OpenFailed));
}

#[test]
fn cycle_remove_failure_is_reported() {
    let mut cycle = WriteCycle::new(1);
    cycle.file_opened();
    cycle.write_completed(&Duration::from_millis(1));
    cycle.remove_failed();
    assert_eq!(cycle.result(), Err(CycleError::RemoveFailed));
}

#[test]
fn cycle_progress_marks() {
    // 100 writes: a mark every 100/50 = 2 writes, at even indices.
    let mut cycle = WriteCycle::new(100);
    cycle.file_opened();
    let mut marks = 0;
    for _ in 0..100 {
        if cycle.write_completed(&Duration::from_micros(10)) {
            marks += 1;
        }
    }
    assert_eq!(marks, 50);
    // Fewer than fifty writes: a mark on every write.
    let mut small = WriteCycle::new(10);
    small.file_opened();
    let mut small_marks = 0;
    for _ in 0..10 {
        if small.write_completed(&Duration::from_micros(10)) {
            small_marks += 1;
        }
    }
    assert_eq!(small_marks, 10);
}

#[test]
fn temp_file_names_are_deterministic_per_suffix() {
    assert_eq!(temp_file_name(123456), ".benchmark.123456");
    assert_ne!(temp_file_name(100000), temp_file_name(100001));
}

#[test]
fn unique_temp_file_names_do_not_collide() {
    // Two runs in the same process draw distinct suffixes and so distinct
    // names.
    let first = unique_temp_file_name();
    let second = unique_temp_file_name();
    assert!(first.starts_with(".benchmark."));
    assert!(second.starts_with(".benchmark."));
    let suffix: u64 = first[".benchmark.".len()..].parse().unwrap();
    assert!(suffix >= 99999);
    assert_ne!(first, second);
}

#[test]
fn random_buffer_has_requested_size_and_random_content() {
    let buffer = Bytes(4096).create_random_buffer();
    assert_eq!(buffer.len(), 4096);
    // A buffer this large is never uniform once filled with random data; a
    // fill that left the zeroed allocation untouched would fail here.
    let first = buffer[0];
    assert!(buffer.iter().any(|&b| b != first));
}

#[test]
fn timer_measures_work() {
    let timer = Timer::start();
    let buffer = Bytes(65536).create_random_buffer();
    let elapsed = timer.stop();
    assert_eq!(buffer.len(), 65536);
    // A monotonic reading after real work is a representable duration.
    assert!(elapsed.as_nanos() <= u64::MAX as u128 * 1_000_000_000 + 999_999_999);
}

#[test]
fn parse_block_size_accepts_units() {
    assert_eq!(parse_block_size("8m").unwrap().as_byte(), 8 * 1048576);
    assert_eq!(parse_block_size("4k").unwrap().as_byte(), 4096);
    assert_eq!(parse_block_size("4K").unwrap().as_byte(), 4096);
    assert_eq!(parse_block_size("2M").unwrap().as_byte(), 2097152);
    assert_eq!(parse_block_size("512").unwrap().as_byte(), 512);
    assert_eq!(parse_block_size("256m").unwrap().as_byte(), 268435456);
}

#[test]
fn parse_block_size_rejects_bad_input() {
    assert_eq!(parse_block_size(""), Err(ConfigError::UnrecognizedUnit));
    assert_eq!(parse_block_size("8g"), Err(ConfigError::UnrecognizedUnit));
    assert_eq!(parse_block_size("m"), Err(ConfigError::MissingNumber));
    assert_eq!(parse_block_size("257m"), Err(ConfigError::BlockSizeTooLarge));
    assert_eq!(
        parse_block_size("999999999999999999999k"),
        Err(ConfigError::BlockSizeTooLarge)
    );
}

#[test]
fn parse_block_size_ignores_stray_characters() {
    // Digits are read in order; anything else in between is dropped, as the
    // command line always did.
    assert_eq!(parse_block_size("1_024").unwrap().as_byte(), 1024);
}
