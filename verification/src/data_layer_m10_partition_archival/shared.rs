//! Monthly partition arithmetic over `YYYYMM` month ids.
use vstd::prelude::*;
use crate::data_layer_m10_partition_archival::error::DataLayerM10PartitionLifecycleError;
use crate::text::{concat, dec_seq, dec_string, is_blank, is_blank_seq};

verus! {

/// A month id is valid when its year is at least 1970 and its month is 1..=12.
pub open spec fn month_id_valid(id: u32) -> bool {
    id / 100 >= 1970 && 1 <= id % 100 <= 12
}

/// Months since year zero of a month id.
pub open spec fn month_index(id: u32) -> int {
    (id / 100) * 12 + (id % 100 - 1)
}

/// The month id of a month index.
pub open spec fn month_id_of(index: int) -> int {
    (index / 12) * 100 + index % 12 + 1
}

/// Splits a `YYYYMM` month id into (year, month).
pub fn split_month_id(partition_month_id: u32) -> (r: Result<(u32, u32), DataLayerM10PartitionLifecycleError>)
    ensures
        month_id_valid(partition_month_id) ==> r == Ok::<_, DataLayerM10PartitionLifecycleError>(
            (partition_month_id / 100, partition_month_id % 100),
        ),
        !month_id_valid(partition_month_id) ==> r == Err::<(u32, u32), _>(
            DataLayerM10PartitionLifecycleError::InvalidPartitionMonthId(partition_month_id),
        ),
{
    let year = partition_month_id / 100;
    let month = partition_month_id % 100;
    if year < 1970 || !(1 <= month && month <= 12) {
        return Err(DataLayerM10PartitionLifecycleError::InvalidPartitionMonthId(partition_month_id));
    }
    Ok((year, month))
}

/// Checks a `YYYYMM` month id.
pub fn validate_partition_month_id(partition_month_id: u32) -> (r: Result<(), DataLayerM10PartitionLifecycleError>)
    ensures
        month_id_valid(partition_month_id) ==> r is Ok,
        !month_id_valid(partition_month_id) ==> r == Err::<(), _>(
            DataLayerM10PartitionLifecycleError::InvalidPartitionMonthId(partition_month_id),
        ),
{
    split_month_id(partition_month_id)?;
    Ok(())
}

/// The month id `months_to_add` months after a valid month id.
pub fn add_months(partition_month_id: u32, months_to_add: u32) -> (r: Result<u32, DataLayerM10PartitionLifecycleError>)
    requires
        month_id_valid(partition_month_id) ==> month_id_of(month_index(partition_month_id) + months_to_add)
            <= u32::MAX,
    ensures
        month_id_valid(partition_month_id) ==> r == Ok::<u32, DataLayerM10PartitionLifecycleError>(
            month_id_of(month_index(partition_month_id) + months_to_add) as u32,
        ),
        !month_id_valid(partition_month_id) ==> r == Err::<u32, _>(
            DataLayerM10PartitionLifecycleError::InvalidPartitionMonthId(partition_month_id),
        ),
{
    let (year, month) = split_month_id(partition_month_id)?;
    assert(year * 12 <= 0xffff_ffff) by (nonlinear_arith)
        requires
            year == partition_month_id / 100,
    ;
    let base = year * 12 + (month - 1);
    proof {
        let f = base + months_to_add;
        assert(f <= month_id_of(f)) by (nonlinear_arith)
            requires
                f >= 0,
        ;
    }
    let future = base + months_to_add;
    let future_year = future / 12;
    let future_month = (future % 12) + 1;
    assert(future_year * 100 + future_month == month_id_of(future as int));
    Ok(future_year * 100 + future_month)
}

/// Months from an older to a newer month id (zero when not newer).
pub fn month_distance(older_partition_month_id: u32, newer_partition_month_id: u32) -> (r: Result<
    u32,
    DataLayerM10PartitionLifecycleError,
>)
    ensures
        !month_id_valid(older_partition_month_id) ==> r == Err::<u32, _>(
            DataLayerM10PartitionLifecycleError::InvalidPartitionMonthId(older_partition_month_id),
        ),
        month_id_valid(older_partition_month_id) && !month_id_valid(newer_partition_month_id) ==> r
            == Err::<u32, _>(
            DataLayerM10PartitionLifecycleError::InvalidPartitionMonthId(newer_partition_month_id),
        ),
        month_id_valid(older_partition_month_id) && month_id_valid(newer_partition_month_id) ==> r
            == Ok::<u32, DataLayerM10PartitionLifecycleError>(
            (if month_index(newer_partition_month_id) >= month_index(older_partition_month_id) {
                month_index(newer_partition_month_id) - month_index(older_partition_month_id)
            } else {
                0
            }) as u32,
        ),
{
    let (older_year, older_month) = split_month_id(older_partition_month_id)?;
    let (newer_year, newer_month) = split_month_id(newer_partition_month_id)?;
    assert(older_year * 12 <= 0xffff_ffff && newer_year * 12 <= 0xffff_ffff) by (nonlinear_arith)
        requires
            older_year == older_partition_month_id / 100,
            newer_year == newer_partition_month_id / 100,
    ;
    let older = older_year * 12 + (older_month - 1);
    let newer = newer_year * 12 + (newer_month - 1);
    Ok(newer.saturating_sub(older))
}

/// Checksum marker of a partition: `sha256:<name>:<month id>`.
pub fn deterministic_checksum_marker(partition_name: &str, partition_month_id: u32) -> (s: String)
    ensures
        s@ == "sha256:"@ + partition_name@ + ":"@ + dec_seq(partition_month_id as nat),
{
    let s = concat("sha256:", partition_name);
    let s = concat(s.as_str(), ":");
    concat(s.as_str(), dec_string(partition_month_id as u64).as_str())
}

/// Refuses a blank value for `field`.
pub fn validate_non_empty(value: &str, field: &'static str) -> (r: Result<(), DataLayerM10PartitionLifecycleError>)
    ensures
        !is_blank_seq(value@) ==> r is Ok,
        is_blank_seq(value@) ==> r == Err::<(), _>(DataLayerM10PartitionLifecycleError::EmptyField(field)),
{
    if is_blank(value) {
        return Err(DataLayerM10PartitionLifecycleError::EmptyField(field));
    }
    Ok(())
}

/// Adding months and measuring the distance back agree: the distance from
/// a month id to the one `k` months later is `k`.
pub proof fn lemma_add_months_distance(id: u32, k: u32)
    requires
        month_id_valid(id),
        month_id_of(month_index(id) + k) <= u32::MAX,
    ensures
        month_id_valid(month_id_of(month_index(id) + k) as u32),
        month_index(month_id_of(month_index(id) + k) as u32) == month_index(id) + k,
{
    let f = month_index(id) + k;
    let r = month_id_of(f);
    assert(r / 100 == f / 12 && r % 100 == f % 12 + 1) by (nonlinear_arith)
        requires
            r == (f / 12) * 100 + f % 12 + 1,
            f >= 0,
    ;
    assert(f / 12 >= 1970) by (nonlinear_arith)
        requires
            f >= (id / 100) * 12,
            id / 100 >= 1970,
    ;
    assert((f / 12) * 12 + f % 12 == f) by (nonlinear_arith);
}

} // verus!
