use kamn_core::data_layer_m10_partition_archival::{
    add_months, deterministic_checksum_marker, month_distance, split_month_id,
    validate_non_empty, validate_partition_month_id, DataLayerM10PartitionLifecycleError,
};

#[test]
fn unit_split_month_id_and_validation_reject_invalid_ranges() {
    assert_eq!(
        validate_partition_month_id(196912),
        Err(DataLayerM10PartitionLifecycleError::InvalidPartitionMonthId(196912))
    );
    assert_eq!(
        split_month_id(202513),
        Err(DataLayerM10PartitionLifecycleError::InvalidPartitionMonthId(202513))
    );
    assert_eq!(split_month_id(202512), Ok((2025, 12)));
}

#[test]
fn unit_month_arithmetic_handles_year_rollover_deterministically() {
    assert_eq!(add_months(202512, 1), Ok(202601));
    assert_eq!(add_months(202511, 3), Ok(202602));
    assert_eq!(month_distance(202411, 202502), Ok(3));
}

#[test]
fn unit_deterministic_checksum_marker_has_stable_shape() {
    assert_eq!(
        deterministic_checksum_marker("messages_2025_02", 202502),
        "sha256:messages_2025_02:202502"
    );
}

#[test]
fn month_arithmetic_edges() {
    assert_eq!(split_month_id(202400), Err(DataLayerM10PartitionLifecycleError::InvalidPartitionMonthId(202400)));
    assert_eq!(add_months(202401, 0), Ok(202401));
    assert_eq!(add_months(202401, 24), Ok(202601));
    assert_eq!(month_distance(202502, 202411), Ok(0));
    assert_eq!(
        month_distance(202502, 7),
        Err(DataLayerM10PartitionLifecycleError::InvalidPartitionMonthId(7))
    );
    assert_eq!(
        add_months(1, 1),
        Err(DataLayerM10PartitionLifecycleError::InvalidPartitionMonthId(1))
    );
    assert_eq!(
        validate_non_empty(" ", "partition_name"),
        Err(DataLayerM10PartitionLifecycleError::EmptyField("partition_name"))
    );
    assert_eq!(validate_non_empty("x", "partition_name"), Ok(()));
    assert_eq!(month_distance(202401, add_months(202401, 17).expect("valid")), Ok(17));
}
