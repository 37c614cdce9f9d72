//! M10 partition lifecycle contracts: the error taxonomy and the monthly
//! partition arithmetic (`YYYYMM` month ids) that partition planning uses.
pub mod error;
pub mod shared;
pub mod phase6;

pub use error::DataLayerM10PartitionLifecycleError;
pub use phase6::{phase6_scheduler_error_reason_code, DataLayerM10Phase6SchedulerRuntimeState};
pub use shared::{
    add_months, deterministic_checksum_marker, month_distance, split_month_id, validate_non_empty,
    validate_partition_month_id,
};
