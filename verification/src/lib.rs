//! Sequential disk-write benchmark core: byte quantities, elapsed times,
//! timing statistics, throughput and IOPS derivation, human-readable unit
//! formatting, and the write-cycle state machine that the benchmark driver
//! runs.

mod bench;
mod config;
mod fmt;
mod statistics;
mod throughput;
mod timer;
mod utils;

pub use bench::lemma_finished_cycle_cleans_up;
pub use bench::lemma_temp_file_name_injective;
pub use bench::temp_file_name;
pub use bench::unique_temp_file_name;
pub use bench::CycleAction;
pub use bench::CycleError;
pub use bench::CycleState;
pub use bench::WriteCycle;
pub use config::parse_block_size;
pub use config::ConfigError;
pub use config::MAX_BLOCK_SIZE_BYTES;
pub use statistics::isqrt;
pub use statistics::mean;
pub use statistics::std_deviation;
pub use statistics::MAX_STAT_SAMPLE;
pub use statistics::MAX_STAT_SAMPLES;
pub use throughput::Throughput;
pub use timer::Duration;
pub use timer::Timer;
pub use timer::MAX_STD_DURATION_NANOS;
pub use utils::Bytes;
pub use utils::HumanReadable;
pub use utils::MetricWithUnit;
pub use utils::MAX_CYCLES;
pub use utils::TOTAL_REFERENCE_BYTES;
