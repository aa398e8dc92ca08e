//! The hourly UTC partition that rows belong to.

use vstd::prelude::*;

use super::row::{row_views, MaterializedFeatureRow, RowView};
use super::MaterializationError;

verus! {

/// The Julian day and the hour of a Unix time in UTC.
pub open spec fn utc_hour_of(nanos: int) -> (int, int) {
    (2_440_588 + nanos / 86_400_000_000_000, (nanos / 3_600_000_000_000) % 24)
}

/// Calls `time::OffsetDateTime::from_unix_timestamp_nanos`, and `to_julian_day` of the date and
/// `hour` of the result. Every 64-bit number of nanoseconds is in range; days count from the
/// Julian day of the epoch, and hours from midnight in UTC.
#[verifier::external_body]
fn utc_hour(nanos: i64) -> (hour: Option<(i32, u8)>)
    ensures
        hour is Some,
        (hour->Some_0.0 as int, hour->Some_0.1 as int) == utc_hour_of(nanos as int),
{
    let instant = time::OffsetDateTime::from_unix_timestamp_nanos(i128::from(nanos)).ok()?;
    Some((instant.date().to_julian_day(), instant.hour()))
}

/// The part of a dataset that rows are written to.
#[derive(Debug)]
pub struct PartitionKey {
    pub event_type: String,
    pub dataset_version: u32,
    pub schema_version: u32,
    pub venue: String,
    pub instrument_generation: u32,
    /// The Julian day of the UTC date.
    pub julian_day: i32,
    pub hour: u8,
}

/// Every row falls into the hour of the first.
pub open spec fn in_one_hour(rows: Seq<RowView>) -> bool {
    forall|i: int|
        0 <= i < rows.len() ==> utc_hour_of(
            (#[trigger] rows[i]).effective_event_time_ns as int,
        ) == utc_hour_of(rows[0].effective_event_time_ns as int)
}

/// Why rows have no partition, if they have none.
pub open spec fn partition_refusal(
    rows: Seq<RowView>,
    dataset_version: u32,
    schema_version: u32,
    instrument_generation: u32,
) -> Option<MaterializationError> {
    if rows.len() == 0 {
        Some(MaterializationError::InvalidRow)
    } else if !in_one_hour(rows) {
        Some(MaterializationError::PartitionMismatch)
    } else if dataset_version == 0 || schema_version == 0 || instrument_generation == 0 {
        Some(MaterializationError::InvalidManifest)
    } else {
        None
    }
}

/// The partition of rows under a dataset's versions, venue and instrument generation.
pub fn partition_key(
    rows: &Vec<MaterializedFeatureRow>,
    dataset_version: u32,
    schema_version: u32,
    venue: &str,
    instrument_generation: u32,
) -> (result: Result<PartitionKey, MaterializationError>)
    ensures
        match partition_refusal(
            row_views(rows@),
            dataset_version,
            schema_version,
            instrument_generation,
        ) {
            Some(error) => result is Err && result->Err_0 == error,
            None => {
                let key = result->Ok_0;
                &&& result is Ok
                &&& key.event_type@ == "feature-observation"@
                &&& key.dataset_version == dataset_version
                &&& key.schema_version == schema_version
                &&& key.venue@ == venue@
                &&& key.instrument_generation == instrument_generation
                &&& (key.julian_day as int, key.hour as int) == utc_hour_of(
                    row_views(rows@)[0].effective_event_time_ns as int,
                )
            },
        },
{
    let ghost views = row_views(rows@);
    if rows.len() == 0 {
        return Err(MaterializationError::InvalidRow);
    }
    let (julian_day, hour) = match utc_hour(rows[0].fields().effective_event_time_ns) {
        None => {
            return Err(MaterializationError::InvalidRow);
        },
        Some(instant) => instant,
    };
    proof {
        assert(views[0] == rows@[0]@);
    }
    let mut i: usize = 0;
    while i < rows.len()
        invariant
            0 < rows@.len(),
            i <= rows@.len(),
            views == row_views(rows@),
            (julian_day as int, hour as int) == utc_hour_of(views[0].effective_event_time_ns as int),
            forall|k: int|
                0 <= k < i ==> utc_hour_of((#[trigger] views[k]).effective_event_time_ns as int)
                    == utc_hour_of(views[0].effective_event_time_ns as int),
        decreases rows.len() - i,
    {
        proof {
            assert(views[i as int] == rows@[i as int]@);
        }
        let together: bool = match utc_hour(rows[i].fields().effective_event_time_ns) {
            None => false,
            Some((own_day, own_hour)) => own_day == julian_day && own_hour == hour,
        };
        if !together {
            return Err(MaterializationError::PartitionMismatch);
        }
        i += 1;
    }
    if dataset_version == 0 || schema_version == 0 || instrument_generation == 0 {
        return Err(MaterializationError::InvalidManifest);
    }
    Ok(
        PartitionKey {
            event_type: "feature-observation".to_owned(),
            dataset_version,
            schema_version,
            venue: venue.to_owned(),
            instrument_generation,
            julian_day,
            hour,
        },
    )
}

/// Rows of one partition lie within one hour of each other.
pub proof fn lemma_partitions_span_an_hour(a: int, b: int)
    requires
        utc_hour_of(a) == utc_hour_of(b),
    ensures
        a / 3_600_000_000_000 == b / 3_600_000_000_000,
        -3_600_000_000_000 < a - b < 3_600_000_000_000,
{
    let hour = 3_600_000_000_000int;
    assert(a / 86_400_000_000_000 == (a / hour) / 24);
    assert(b / 86_400_000_000_000 == (b / hour) / 24);
}

/// Days and hours count up from the epoch: each hour of each day is its own partition.
pub proof fn lemma_partitions_count_hours(day: int, hour: int, within: int)
    requires
        0 <= hour < 24,
        0 <= within < 3_600_000_000_000,
    ensures
        utc_hour_of((day * 24 + hour) * 3_600_000_000_000 + within) == (2_440_588 + day, hour),
{
    let hours = day * 24 + hour;
    let nanos = hours * 3_600_000_000_000 + within;
    vstd::arithmetic::div_mod::lemma_fundamental_div_mod_converse(
        nanos,
        3_600_000_000_000,
        hours,
        within,
    );
    vstd::arithmetic::div_mod::lemma_fundamental_div_mod_converse(hours, 24, day, hour);
    vstd::arithmetic::div_mod::lemma_fundamental_div_mod_converse(
        nanos,
        86_400_000_000_000,
        day,
        hour * 3_600_000_000_000 + within,
    );
}

/// Rows have a partition exactly where there are any, they all lie in one hour, and no version is
/// zero.
pub proof fn lemma_partitions_hold_one_hour(
    rows: Seq<RowView>,
    dataset_version: u32,
    schema_version: u32,
    instrument_generation: u32,
)
    ensures
        ({
            let refusal = partition_refusal(
                rows,
                dataset_version,
                schema_version,
                instrument_generation,
            );
            &&& refusal is None ==> {
                &&& rows.len() > 0
                &&& dataset_version > 0 && schema_version > 0 && instrument_generation > 0
                &&& forall|i: int, j: int|
                    #![trigger rows[i], rows[j]]
                    0 <= i < rows.len() && 0 <= j < rows.len() ==> rows[i].effective_event_time_ns
                        as int / 3_600_000_000_000 == rows[j].effective_event_time_ns as int
                        / 3_600_000_000_000
            }
            &&& rows.len() > 0 && dataset_version > 0 && schema_version > 0
                && instrument_generation > 0 && (forall|i: int|
                #![trigger rows[i]]
                0 <= i < rows.len() ==> rows[i].effective_event_time_ns as int
                    / 3_600_000_000_000 == rows[0].effective_event_time_ns as int
                    / 3_600_000_000_000) ==> refusal is None
        }),
{
    assert forall|i: int|
        #![trigger rows[i]]
        0 <= i < rows.len() implies (utc_hour_of(rows[i].effective_event_time_ns as int)
        == utc_hour_of(rows[0].effective_event_time_ns as int)
        <==> rows[i].effective_event_time_ns as int / 3_600_000_000_000
        == rows[0].effective_event_time_ns as int / 3_600_000_000_000) by {
        lemma_hours_are_told_apart(
            rows[i].effective_event_time_ns as int,
            rows[0].effective_event_time_ns as int,
        );
    }
}

proof fn lemma_hours_are_told_apart(a: int, b: int)
    ensures
        utc_hour_of(a) == utc_hour_of(b) <==> a / 3_600_000_000_000 == b / 3_600_000_000_000,
{
    if utc_hour_of(a) == utc_hour_of(b) {
        lemma_partitions_span_an_hour(a, b);
    }
    if a / 3_600_000_000_000 == b / 3_600_000_000_000 {
        assert(a / 86_400_000_000_000 == (a / 3_600_000_000_000) / 24);
        assert(b / 86_400_000_000_000 == (b / 3_600_000_000_000) / 24);
    }
}

} // verus!
