//! What the outside of a materialization must show: paths, logs and sealed datasets.

use vstd::prelude::*;

use super::batch::field_views;
use super::correction::{corrects_snapshot, validate_correction_snapshot};
use super::report::{
    all_sound, float_pairs, lemma_report_rows, report_of, report_refusal,
    rows_are_reportable, same_shape, MaterializationReport,
};
use super::row::{row_is_sound, row_views, MaterializedFeatureRow, RowFields, RowView};
use super::{MaterializationError, MaterializationMode};
use crate::digest::{blake3_digest, blake3_hash, same_digest};
use crate::ordering::{rank_precedes, settled, stably_sorted, Ranked};

verus! {

/// Most bytes of a manifest, and of a log for each of its rows.
pub const MAXIMUM_FIXTURE_BYTES: usize = 1_048_576;

/// What a file system says of the directory that a run writes to.
#[derive(Clone, Copy, Debug, PartialEq, Eq, Structural)]
pub struct RootStatus {
    pub is_directory: bool,
    pub owner: u32,
    pub effective_user: u32,
    pub mode: u32,
}

/// The directory belongs to the effective user, who alone has any permission on it.
pub open spec fn is_private_root(root: RootStatus) -> bool {
    root.is_directory && root.owner == root.effective_user && root.mode % 64 == 0
}

/// Whether a directory belongs to the effective user, who alone has any permission on it.
pub fn validate_private_root(root: RootStatus) -> (result: Result<(), MaterializationError>)
    ensures
        result == if root.is_directory && root.owner == root.effective_user && root.mode % 64 == 0 {
            Ok::<(), MaterializationError>(())
        } else {
            Err(MaterializationError::UnsafePath)
        },
        result is Ok <==> is_private_root(root),
{
    if !root.is_directory || root.owner != root.effective_user || root.mode % 64 != 0 {
        return Err(MaterializationError::UnsafePath);
    }
    Ok(())
}

/// What comes of a manifest's file: it may be read where it is a regular one of a bounded size.
pub open spec fn manifest_file_outcome(is_regular_file: bool, size: u64) -> Result<
    (),
    MaterializationError,
> {
    if !is_regular_file {
        Err(MaterializationError::UnsafePath)
    } else if size == 0 || size > MAXIMUM_FIXTURE_BYTES {
        Err(MaterializationError::CapacityExceeded)
    } else {
        Ok(())
    }
}

/// Whether a manifest may be read: a regular file of a bounded size.
pub fn validate_manifest_file(is_regular_file: bool, size: u64) -> (result: Result<
    (),
    MaterializationError,
>)
    ensures
        result == if !is_regular_file {
            Err::<(), MaterializationError>(MaterializationError::UnsafePath)
        } else if size == 0 || size > MAXIMUM_FIXTURE_BYTES {
            Err(MaterializationError::CapacityExceeded)
        } else {
            Ok(())
        },
        result == manifest_file_outcome(is_regular_file, size),
{
    if !is_regular_file {
        return Err(MaterializationError::UnsafePath);
    }
    if size == 0 || size > 1_048_576 {
        return Err(MaterializationError::CapacityExceeded);
    }
    Ok(())
}

/// The log has a size that its rows can have.
pub open spec fn log_size_fits(size: usize, rows: usize) -> bool {
    &&& size > 0
    &&& MAXIMUM_FIXTURE_BYTES * rows <= usize::MAX
    &&& size <= MAXIMUM_FIXTURE_BYTES * rows
}

/// Whether a log has a size that its rows can have.
pub fn validate_log_size(size: usize, rows: usize) -> (result: Result<(), MaterializationError>)
    ensures
        result == if size == 0 || MAXIMUM_FIXTURE_BYTES * rows > usize::MAX || size
            > MAXIMUM_FIXTURE_BYTES * rows {
            Err::<(), MaterializationError>(MaterializationError::CapacityExceeded)
        } else {
            Ok(())
        },
        result is Ok <==> log_size_fits(size, rows),
{
    match MAXIMUM_FIXTURE_BYTES.checked_mul(rows) {
        None => Err(MaterializationError::CapacityExceeded),
        Some(most) => if size == 0 || size > most {
            Err(MaterializationError::CapacityExceeded)
        } else {
            Ok(())
        },
    }
}

/// What a log says of one record, besides its payload.
#[derive(Clone, Copy, Debug, PartialEq, Eq, Structural)]
pub struct RecordMetadata {
    pub flags: u32,
    pub stream_id: u32,
    pub connection_epoch: u64,
    pub record_sequence: u64,
    pub receive_wall_time_ns: i64,
    pub receive_monotonic_time_ns: u64,
}

/// The metadata under which a row is logged.
pub open spec fn logged_metadata(row: RowView, stream_id: u32, connection_epoch: u64) -> RecordMetadata {
    RecordMetadata {
        flags: 0,
        stream_id,
        connection_epoch,
        record_sequence: row.wal_record_sequence,
        receive_wall_time_ns: row.receive_wall_time_ns,
        receive_monotonic_time_ns: row.wal_record_sequence,
    }
}

/// The metadata under which a row is logged.
pub fn record_metadata(row: &MaterializedFeatureRow, stream_id: u32, connection_epoch: u64) -> (
metadata: RecordMetadata)
    ensures
        metadata == logged_metadata(row@, stream_id, connection_epoch),
{
    let fields = row.fields();
    RecordMetadata {
        flags: 0,
        stream_id,
        connection_epoch,
        record_sequence: fields.wal_record_sequence,
        receive_wall_time_ns: fields.receive_wall_time_ns,
        receive_monotonic_time_ns: fields.wal_record_sequence,
    }
}

/// One record as it was recovered from a log.
#[derive(Debug)]
pub struct RecoveredRecord {
    pub metadata: RecordMetadata,
    /// The row that the payload holds, where it holds one.
    pub fields: Option<RowFields>,
    /// The identities of the row are accepted where identities are registered.
    pub identities_accepted: bool,
}

/// The row that a recovered record holds, where its payload holds one.
pub open spec fn held_row(record: RecoveredRecord) -> Option<RowView> {
    match record.fields {
        Some(fields) => Some(fields@),
        None => None,
    }
}

/// Why a recovered record is refused, if it is.
pub open spec fn record_refusal(record: RecoveredRecord, stream_id: u32) -> Option<
    MaterializationError,
> {
    match held_row(record) {
        None => Some(MaterializationError::Json),
        Some(row) => if record.metadata.stream_id != stream_id || record.metadata.connection_epoch
            != row.connection_epoch || record.metadata.record_sequence != row.wal_record_sequence
            || record.metadata.receive_wall_time_ns != row.receive_wall_time_ns {
            Some(MaterializationError::Integrity)
        } else if !record.identities_accepted || !row_is_sound(row) {
            Some(MaterializationError::InvalidRow)
        } else {
            None
        },
    }
}

/// The first refused record from a place on, if there is one.
pub open spec fn records_refusal(
    records: Seq<RecoveredRecord>,
    from: int,
    stream_id: u32,
) -> Option<MaterializationError>
    decreases records.len() - from,
{
    if from >= records.len() {
        None
    } else {
        match record_refusal(records[from], stream_id) {
            Some(error) => Some(error),
            None => records_refusal(records, from + 1, stream_id),
        }
    }
}

/// The rows of recovered records, each of which holds one.
pub open spec fn recovered_rows(records: Seq<RecoveredRecord>) -> Seq<RowView> {
    Seq::new(records.len(), |i: int| held_row(records[i])->Some_0)
}

fn check_record(record: &RecoveredRecord, stream_id: u32) -> (result: Result<
    MaterializedFeatureRow,
    MaterializationError,
>)
    ensures
        match record_refusal(*record, stream_id) {
            Some(error) => result is Err && result->Err_0 == error,
            None => result is Ok && Some(result->Ok_0@) == held_row(*record),
        },
{
    let metadata = record.metadata;
    match &record.fields {
        None => Err(MaterializationError::Json),
        Some(fields) => {
            if metadata.stream_id != stream_id || metadata.connection_epoch
                != fields.connection_epoch || metadata.record_sequence
                != fields.wal_record_sequence || metadata.receive_wall_time_ns
                != fields.receive_wall_time_ns {
                return Err(MaterializationError::Integrity);
            }
            MaterializedFeatureRow::try_new(fields.clone(), record.identities_accepted)
        },
    }
}

fn check_records(records: &Vec<RecoveredRecord>, stream_id: u32) -> (result: Result<
    Vec<MaterializedFeatureRow>,
    MaterializationError,
>)
    ensures
        match records_refusal(records@, 0, stream_id) {
            Some(error) => result is Err && result->Err_0 == error,
            None => result is Ok && row_views(result->Ok_0@) == recovered_rows(records@),
        },
{
    let mut rows: Vec<MaterializedFeatureRow> = Vec::new();
    let mut i: usize = 0;
    while i < records.len()
        invariant
            i <= records@.len(),
            rows@.len() == i,
            records_refusal(records@, 0, stream_id) == records_refusal(
                records@,
                i as int,
                stream_id,
            ),
            forall|k: int| 0 <= k < i ==> Some((#[trigger] rows@[k])@) == held_row(records@[k]),
        decreases records.len() - i,
    {
        let row = check_record(&records[i], stream_id)?;
        rows.push(row);
        i += 1;
    }
    proof {
        assert(row_views(rows@) =~= recovered_rows(records@));
    }
    Ok(rows)
}

/// What was recovered from a log.
#[derive(Debug)]
pub struct LogReplay {
    pub stream_id: u32,
    /// The bytes of the log's file.
    pub bytes: Vec<u8>,
    pub record_count: u64,
    pub lacks_metadata: bool,
    pub records: Vec<RecoveredRecord>,
}

/// Why a log does not replay so many rows, if it does not.
pub open spec fn log_refusal(log: LogReplay, rows: nat) -> Option<MaterializationError> {
    if log.bytes@.len() == 0 || MAXIMUM_FIXTURE_BYTES * rows > usize::MAX || log.bytes@.len()
        > MAXIMUM_FIXTURE_BYTES * rows {
        Some(MaterializationError::CapacityExceeded)
    } else if log.lacks_metadata || log.record_count != rows || log.records@.len() != rows {
        Some(MaterializationError::Integrity)
    } else {
        records_refusal(log.records@, 0, log.stream_id)
    }
}

/// The rows that a log replays.
pub fn replay_log(log: &LogReplay, rows: usize) -> (result: Result<
    Vec<MaterializedFeatureRow>,
    MaterializationError,
>)
    ensures
        match log_refusal(*log, rows as nat) {
            Some(error) => result is Err && result->Err_0 == error,
            None => result is Ok && row_views(result->Ok_0@) == recovered_rows(log.records@),
        },
{
    validate_log_size(log.bytes.len(), rows)?;
    if log.lacks_metadata || log.record_count != rows as u64 || log.records.len() != rows {
        return Err(MaterializationError::Integrity);
    }
    check_records(&log.records, log.stream_id)
}

/// A log that was written row by row replays the rows that were written.
pub proof fn lemma_logs_replay_what_was_written(
    log: LogReplay,
    rows: Seq<RowView>,
    connection_epoch: u64,
)
    requires
        rows.len() > 0,
        rows.len() * MAXIMUM_FIXTURE_BYTES <= usize::MAX,
        0 < log.bytes@.len() <= rows.len() * MAXIMUM_FIXTURE_BYTES,
        !log.lacks_metadata,
        log.record_count == rows.len(),
        log.records@.len() == rows.len(),
        forall|i: int|
            0 <= i < rows.len() ==> row_is_sound(#[trigger] rows[i]) && rows[i].connection_epoch
                == connection_epoch && held_row(log.records@[i]) == Some(rows[i])
                && log.records@[i].identities_accepted && log.records@[i].metadata
                == logged_metadata(rows[i], log.stream_id, connection_epoch),
    ensures
        log_refusal(log, rows.len()) is None,
        recovered_rows(log.records@) == rows,
{
    lemma_records_replay(log, rows, connection_epoch, 0);
    assert(recovered_rows(log.records@) =~= rows);
    assert(MAXIMUM_FIXTURE_BYTES * rows.len() == rows.len() * MAXIMUM_FIXTURE_BYTES)
        by (nonlinear_arith);
}

proof fn lemma_records_replay(
    log: LogReplay,
    rows: Seq<RowView>,
    connection_epoch: u64,
    from: int,
)
    requires
        0 <= from,
        log.records@.len() == rows.len(),
        forall|i: int|
            0 <= i < rows.len() ==> row_is_sound(#[trigger] rows[i]) && rows[i].connection_epoch
                == connection_epoch && held_row(log.records@[i]) == Some(rows[i])
                && log.records@[i].identities_accepted && log.records@[i].metadata
                == logged_metadata(rows[i], log.stream_id, connection_epoch),
    ensures
        records_refusal(log.records@, from, log.stream_id) is None,
    decreases rows.len() - from,
{
    if from < rows.len() {
        assert(row_is_sound(rows[from]));
        lemma_records_replay(log, rows, connection_epoch, from + 1);
    }
}

/// What was read back from a sealed dataset.
#[derive(Debug)]
pub struct DatasetReplay {
    pub fields: Vec<RowFields>,
    pub identities_accepted: bool,
    pub sealed_manifest_blake3: [u8; 32],
    pub verified_manifest_blake3: [u8; 32],
}

/// Why a dataset does not give back the rows that were written, if it does not.
pub open spec fn dataset_refusal(dataset: DatasetReplay, rows: Seq<RowView>) -> Option<
    MaterializationError,
> {
    let read = field_views(dataset.fields@);
    if dataset.verified_manifest_blake3@ != dataset.sealed_manifest_blake3@ {
        Some(MaterializationError::Integrity)
    } else if read.len() > 0 && (!dataset.identities_accepted || !all_sound(read)) {
        Some(MaterializationError::InvalidRow)
    } else if read != rows {
        Some(MaterializationError::Integrity)
    } else {
        None
    }
}

/// Rows of columns that are sound, as they were read.
pub fn rows_of_fields(fields: &Vec<RowFields>, identities_accepted: bool) -> (result: Result<
    Vec<MaterializedFeatureRow>,
    MaterializationError,
>)
    ensures
        if fields@.len() > 0 && (!identities_accepted || !all_sound(field_views(fields@))) {
            result is Err && result->Err_0 == MaterializationError::InvalidRow
        } else {
            result is Ok && row_views(result->Ok_0@) == field_views(fields@)
        },
{
    let ghost views = field_views(fields@);
    let mut rows: Vec<MaterializedFeatureRow> = Vec::new();
    let mut i: usize = 0;
    while i < fields.len()
        invariant
            i <= fields@.len(),
            views == field_views(fields@),
            rows@.len() == i,
            i > 0 ==> identities_accepted,
            forall|k: int| 0 <= k < i ==> row_is_sound(#[trigger] views[k]),
            forall|k: int| 0 <= k < i ==> (#[trigger] rows@[k])@ == views[k],
        decreases fields.len() - i,
    {
        proof {
            assert(views[i as int] == fields@[i as int]@);
        }
        let row = MaterializedFeatureRow::try_new(fields[i].clone(), identities_accepted)?;
        rows.push(row);
        i += 1;
    }
    proof {
        assert(row_views(rows@) =~= views);
    }
    Ok(rows)
}

fn same_rows(left: &Vec<MaterializedFeatureRow>, right: &Vec<MaterializedFeatureRow>) -> (answer:
    bool)
    ensures
        answer == (row_views(left@) == row_views(right@)),
{
    let ghost a = row_views(left@);
    let ghost b = row_views(right@);
    if left.len() != right.len() {
        proof {
            assert(a.len() != b.len());
        }
        return false;
    }
    let mut i: usize = 0;
    while i < left.len()
        invariant
            i <= left@.len() == right@.len(),
            a == row_views(left@),
            b == row_views(right@),
            forall|k: int| 0 <= k < i ==> a[k] == b[k],
        decreases left.len() - i,
    {
        proof {
            assert(a[i as int] == left@[i as int]@);
            assert(b[i as int] == right@[i as int]@);
        }
        if !left[i].same(&right[i]) {
            return false;
        }
        i += 1;
    }
    proof {
        assert(a =~= b);
    }
    true
}

/// The rows that a sealed dataset gives back.
pub fn replay_dataset(dataset: &DatasetReplay, rows: &Vec<MaterializedFeatureRow>) -> (result:
    Result<Vec<MaterializedFeatureRow>, MaterializationError>)
    ensures
        match dataset_refusal(*dataset, row_views(rows@)) {
            Some(error) => result is Err && result->Err_0 == error,
            None => result is Ok && row_views(result->Ok_0@) == row_views(rows@),
        },
{
    if !same_digest(&dataset.verified_manifest_blake3, &dataset.sealed_manifest_blake3) {
        return Err(MaterializationError::Integrity);
    }
    proof {
        assert(field_views(dataset.fields@).len() == dataset.fields@.len());
    }
    let read = rows_of_fields(&dataset.fields, dataset.identities_accepted)?;
    if !same_rows(&read, rows) {
        return Err(MaterializationError::Integrity);
    }
    Ok(read)
}

/// What a run took its rows from.
#[derive(Debug)]
pub enum Replay {
    Direct,
    Log(LogReplay),
    Dataset(DatasetReplay),
}

/// A list of rows makes this report.
pub open spec fn is_report_of(
    result: Result<MaterializationReport, MaterializationError>,
    rows: Seq<MaterializedFeatureRow>,
    wal_segment: Option<Seq<u8>>,
    manifest: Option<Seq<u8>>,
) -> bool {
    match report_refusal(rows) {
        Some(error) => result is Err && result->Err_0 == error,
        None => result is Ok && result->Ok_0@ == report_of(
            row_views(stably_sorted(rows)),
            wal_segment,
            manifest,
        ),
    }
}

/// Some list of rows with these contents makes this report.
pub open spec fn reports(
    result: Result<MaterializationReport, MaterializationError>,
    rows: Seq<RowView>,
    wal_segment: Option<Seq<u8>>,
    manifest: Option<Seq<u8>>,
) -> bool {
    exists|listed: Seq<MaterializedFeatureRow>| #[trigger]
        row_views(listed) == rows && is_report_of(result, listed, wal_segment, manifest)
}

proof fn lemma_settled_contents(
    a: Seq<MaterializedFeatureRow>,
    b: Seq<MaterializedFeatureRow>,
    first: MaterializedFeatureRow,
    second: MaterializedFeatureRow,
)
    requires
        row_views(a) == row_views(b),
        first@ == second@,
    ensures
        row_views(settled(a, first)) == row_views(settled(b, second)),
    decreases a.len(),
{
    assert(row_views(a).len() == a.len() && row_views(b).len() == b.len());
    if a.len() > 0 {
        assert(row_views(a)[a.len() - 1] == a.last()@);
        assert(row_views(b)[a.len() - 1] == b.last()@);
        assert(a.last()@ == b.last()@);
    }
    if a.len() == 0 || !rank_precedes(first.rank(), a.last().rank()) {
        assert(row_views(a.push(first)) =~= row_views(a).push(first@));
        assert(row_views(b.push(second)) =~= row_views(b).push(second@));
    } else {
        assert(row_views(a.drop_last()) =~= row_views(a).drop_last());
        assert(row_views(b.drop_last()) =~= row_views(b).drop_last());
        lemma_settled_contents(a.drop_last(), b.drop_last(), first, second);
        let left = settled(a.drop_last(), first);
        let right = settled(b.drop_last(), second);
        assert(row_views(left.push(a.last())) =~= row_views(left).push(a.last()@));
        assert(row_views(right.push(b.last())) =~= row_views(right).push(b.last()@));
    }
}

proof fn lemma_sorted_contents(a: Seq<MaterializedFeatureRow>, b: Seq<MaterializedFeatureRow>)
    requires
        row_views(a) == row_views(b),
    ensures
        row_views(stably_sorted(a)) == row_views(stably_sorted(b)),
        a.len() == b.len(),
    decreases a.len(),
{
    assert(row_views(a).len() == a.len() && row_views(b).len() == b.len());
    if a.len() > 0 {
        assert(row_views(a.drop_last()) =~= row_views(a).drop_last());
        assert(row_views(b.drop_last()) =~= row_views(b).drop_last());
        assert(row_views(a)[a.len() - 1] == a.last()@);
        assert(row_views(b)[a.len() - 1] == b.last()@);
        lemma_sorted_contents(a.drop_last(), b.drop_last());
        lemma_settled_contents(
            stably_sorted(a.drop_last()),
            stably_sorted(b.drop_last()),
            a.last(),
            b.last(),
        );
    }
}

/// Both runs fail alike, or report the same rows and the same digests. Their floating-point values
/// are then of the same observations, and pairwise the same.
pub open spec fn same_evidence(
    a: Result<MaterializationReport, MaterializationError>,
    b: Result<MaterializationReport, MaterializationError>,
) -> bool {
    match (a, b) {
        (Err(first), Err(second)) => first == second,
        (Ok(first), Ok(second)) => {
            let pairs = float_pairs(first@.rows, second@.rows);
            &&& first@.rows == second@.rows
            &&& first@.fixed_point_digest == second@.fixed_point_digest
            &&& first@.lineage_digest == second@.lineage_digest
            &&& first@.finality_quality_digest == second@.finality_quality_digest
            &&& same_shape(first@.rows, second@.rows)
            &&& forall|i: int| 0 <= i < pairs.len() ==> (#[trigger] pairs[i]).0 == pairs[i].1
        },
        _ => false,
    }
}

/// Every path gives the same evidence: runs over the same rows fail alike, or report the same rows
/// and the same digests, whatever the rows were taken from.
pub proof fn lemma_replays_agree(
    a: Result<MaterializationReport, MaterializationError>,
    b: Result<MaterializationReport, MaterializationError>,
    rows: Seq<RowView>,
    a_segment: Option<Seq<u8>>,
    a_manifest: Option<Seq<u8>>,
    b_segment: Option<Seq<u8>>,
    b_manifest: Option<Seq<u8>>,
)
    requires
        reports(a, rows, a_segment, a_manifest),
        reports(b, rows, b_segment, b_manifest),
    ensures
        same_evidence(a, b),
{
    let first = choose|listed: Seq<MaterializedFeatureRow>| #[trigger]
        row_views(listed) == rows && is_report_of(a, listed, a_segment, a_manifest);
    let second = choose|listed: Seq<MaterializedFeatureRow>| #[trigger]
        row_views(listed) == rows && is_report_of(b, listed, b_segment, b_manifest);
    lemma_sorted_contents(first, second);
}

/// What comes of a run over a fixture's rows: they are reported as they were taken directly, or as
/// a log or a dataset gave them back, with the hash of the log's bytes or of the sealed manifest.
pub open spec fn fixture_outcome(
    result: Result<MaterializationReport, MaterializationError>,
    rows: Seq<MaterializedFeatureRow>,
    is_correction: bool,
    mode: MaterializationMode,
    replay: Replay,
) -> bool {
    if is_correction {
        result is Err && result->Err_0 == MaterializationError::CorrectionAuthorityRequired
    } else {
        match (mode, replay) {
            (MaterializationMode::LiveSimulation, _) => reports(
                result,
                row_views(rows),
                None,
                None,
            ),
            (MaterializationMode::WalReplay, Replay::Log(log)) => match log_refusal(
                log,
                rows.len(),
            ) {
                Some(error) => result is Err && result->Err_0 == error,
                None => reports(
                    result,
                    recovered_rows(log.records@),
                    Some(blake3_digest(log.bytes@)),
                    None,
                ),
            },
            (MaterializationMode::ParquetReplay, Replay::Dataset(dataset)) => {
                match dataset_refusal(dataset, row_views(rows)) {
                    Some(error) => result is Err && result->Err_0 == error,
                    None => reports(
                        result,
                        row_views(rows),
                        None,
                        Some(dataset.sealed_manifest_blake3@),
                    ),
                }
            },
            _ => result is Err && result->Err_0 == MaterializationError::Integrity,
        }
    }
}

/// A report holds the rows that were taken, none left out or added. They ascend strictly by
/// identity and revision, their number is bounded, and each of them is final or corrected.
pub proof fn lemma_reports_hold_their_rows(
    result: Result<MaterializationReport, MaterializationError>,
    rows: Seq<RowView>,
    wal_segment: Option<Seq<u8>>,
    manifest: Option<Seq<u8>>,
)
    requires
        reports(result, rows, wal_segment, manifest),
        result is Ok,
        all_sound(rows),
    ensures
        rows_are_reportable(result->Ok_0@.rows),
        result->Ok_0@.rows.to_multiset() == rows.to_multiset(),
{
    let listed = choose|listed: Seq<MaterializedFeatureRow>| #[trigger]
        row_views(listed) == rows && is_report_of(result, listed, wal_segment, manifest);
    lemma_report_rows(listed);
}

/// A report holds just these rows, in any order given. They ascend strictly by identity and
/// revision, their number is bounded, and each of them is final or corrected.
pub open spec fn reports_exactly(
    result: Result<MaterializationReport, MaterializationError>,
    rows: Seq<RowView>,
) -> bool {
    result is Ok ==> rows_are_reportable(result->Ok_0@.rows)
        && result->Ok_0@.rows.to_multiset() == rows.to_multiset()
}

/// The rows that a run reports: a fixture's own, or those that its log gave back.
pub open spec fn taken_rows(
    rows: Seq<RowView>,
    mode: MaterializationMode,
    replay: Replay,
) -> Seq<RowView> {
    match (mode, replay) {
        (MaterializationMode::WalReplay, Replay::Log(log)) => recovered_rows(log.records@),
        _ => rows,
    }
}

/// A run publishes the hash of its log just where it replays one, and that of its sealed manifest
/// just where it replays a dataset. The hash of the log is that of the log's bytes.
pub proof fn lemma_modes_publish_their_evidence(
    result: Result<MaterializationReport, MaterializationError>,
    rows: Seq<MaterializedFeatureRow>,
    is_correction: bool,
    mode: MaterializationMode,
    replay: Replay,
)
    requires
        fixture_outcome(result, rows, is_correction, mode, replay),
        result is Ok,
    ensures
        result->Ok_0@.wal_segment_blake3 is Some <==> mode == MaterializationMode::WalReplay,
        result->Ok_0@.sealed_manifest_blake3 is Some <==> mode
            == MaterializationMode::ParquetReplay,
        mode == MaterializationMode::WalReplay ==> match replay {
            Replay::Log(log) => result->Ok_0@.wal_segment_blake3 == Some(
                blake3_digest(log.bytes@),
            ),
            _ => false,
        },
        mode == MaterializationMode::ParquetReplay ==> match replay {
            Replay::Dataset(dataset) => result->Ok_0@.sealed_manifest_blake3 == Some(
                dataset.sealed_manifest_blake3@,
            ),
            _ => false,
        },
{
}

/// A log holds the rows that were written to it, each under the metadata of its row.
pub open spec fn log_holds(log: LogReplay, rows: Seq<RowView>, connection_epoch: u64) -> bool {
    &&& rows.len() * MAXIMUM_FIXTURE_BYTES <= usize::MAX
    &&& 0 < log.bytes@.len() <= rows.len() * MAXIMUM_FIXTURE_BYTES
    &&& !log.lacks_metadata
    &&& log.record_count == rows.len()
    &&& log.records@.len() == rows.len()
    &&& forall|i: int|
        0 <= i < rows.len() ==> #[trigger] rows[i].connection_epoch == connection_epoch && held_row(
            log.records@[i],
        ) == Some(rows[i]) && log.records@[i].identities_accepted && log.records@[i].metadata
            == logged_metadata(rows[i], log.stream_id, connection_epoch)
}

/// A dataset holds the rows that were written to it, under the manifest that was sealed.
pub open spec fn dataset_holds(dataset: DatasetReplay, rows: Seq<RowView>) -> bool {
    &&& field_views(dataset.fields@) == rows
    &&& dataset.identities_accepted
    &&& dataset.verified_manifest_blake3@ == dataset.sealed_manifest_blake3@
}

/// The three modes are equivalent: over a log and a dataset that hold the rows, all runs fail
/// alike, or report the same rows, the same digests and the same floating-point values.
pub proof fn lemma_modes_agree(
    rows: Seq<MaterializedFeatureRow>,
    log: LogReplay,
    dataset: DatasetReplay,
    connection_epoch: u64,
    live: Result<MaterializationReport, MaterializationError>,
    wal: Result<MaterializationReport, MaterializationError>,
    parquet: Result<MaterializationReport, MaterializationError>,
    direct: Replay,
)
    requires
        rows.len() > 0,
        all_sound(row_views(rows)),
        log_holds(log, row_views(rows), connection_epoch),
        dataset_holds(dataset, row_views(rows)),
        fixture_outcome(live, rows, false, MaterializationMode::LiveSimulation, direct),
        fixture_outcome(wal, rows, false, MaterializationMode::WalReplay, Replay::Log(log)),
        fixture_outcome(
            parquet,
            rows,
            false,
            MaterializationMode::ParquetReplay,
            Replay::Dataset(dataset),
        ),
    ensures
        same_evidence(live, wal),
        same_evidence(live, parquet),
        same_evidence(wal, parquet),
{
    let views = row_views(rows);
    assert(views.len() == rows.len());
    assert forall|i: int| 0 <= i < views.len() implies row_is_sound(#[trigger] views[i])
        && views[i].connection_epoch == connection_epoch && held_row(log.records@[i]) == Some(
        views[i],
    ) && log.records@[i].identities_accepted && log.records@[i].metadata == logged_metadata(
        views[i],
        log.stream_id,
        connection_epoch,
    ) by {
        assert(views[i].connection_epoch == connection_epoch);
    }
    lemma_logs_replay_what_was_written(log, views, connection_epoch);
    let segment = Some(blake3_digest(log.bytes@));
    let manifest = Some(dataset.sealed_manifest_blake3@);
    lemma_replays_agree(live, wal, views, None, None, segment, None);
    lemma_replays_agree(live, parquet, views, None, None, None, manifest);
}

/// Any two runs over one fixture that report at all report the same rows, the same digests and the
/// same floating-point values, in whatever modes they ran. A dataset is held against the fixture's
/// rows by the run itself; of a log that is read, it is presumed that it gave the rows back.
pub proof fn lemma_any_two_modes_agree(
    rows: Seq<MaterializedFeatureRow>,
    a: Result<MaterializationReport, MaterializationError>,
    a_mode: MaterializationMode,
    a_replay: Replay,
    b: Result<MaterializationReport, MaterializationError>,
    b_mode: MaterializationMode,
    b_replay: Replay,
)
    requires
        fixture_outcome(a, rows, false, a_mode, a_replay),
        fixture_outcome(b, rows, false, b_mode, b_replay),
        a is Ok,
        b is Ok,
        taken_rows(row_views(rows), a_mode, a_replay) == row_views(rows),
        taken_rows(row_views(rows), b_mode, b_replay) == row_views(rows),
    ensures
        same_evidence(a, b),
{
    let views = row_views(rows);
    let (a_segment, a_manifest) = published(a_mode, a_replay);
    let (b_segment, b_manifest) = published(b_mode, b_replay);
    lemma_replays_agree(a, b, views, a_segment, a_manifest, b_segment, b_manifest);
}

/// The hashes that a run publishes: of its log, and of its sealed manifest.
spec fn published(mode: MaterializationMode, replay: Replay) -> (
    Option<Seq<u8>>,
    Option<Seq<u8>>,
) {
    match (mode, replay) {
        (MaterializationMode::WalReplay, Replay::Log(log)) => (
            Some(blake3_digest(log.bytes@)),
            None,
        ),
        (MaterializationMode::ParquetReplay, Replay::Dataset(dataset)) => (
            None,
            Some(dataset.sealed_manifest_blake3@),
        ),
        _ => (None, None),
    }
}

/// A dataset that is verified later gives the evidence of the run that wrote it, and of every
/// other run that reports the same fixture's rows.
pub proof fn lemma_datasets_bear_out_their_runs(
    rows: Seq<MaterializedFeatureRow>,
    run: Result<MaterializationReport, MaterializationError>,
    mode: MaterializationMode,
    replay: Replay,
    dataset: DatasetReplay,
    verified: Result<MaterializationReport, MaterializationError>,
)
    requires
        fixture_outcome(run, rows, false, mode, replay),
        run is Ok,
        taken_rows(row_views(rows), mode, replay) == row_views(rows),
        dataset_refusal(dataset, row_views(rows)) is None,
        reports(
            verified,
            row_views(rows),
            None,
            Some(dataset.verified_manifest_blake3@),
        ),
    ensures
        same_evidence(run, verified),
{
    let (segment, manifest) = published(mode, replay);
    lemma_replays_agree(
        run,
        verified,
        row_views(rows),
        segment,
        manifest,
        None,
        Some(dataset.verified_manifest_blake3@),
    );
}

/// Stateless bounded feature materializer.
#[derive(Debug)]
pub struct Materializer;

impl Materializer {
    /// The report of a fixture's rows, taken directly or as a log or a dataset gave them back.
    /// `is_correction` says that the fixture corrects another.
    pub fn run_fixture(
        rows: Vec<MaterializedFeatureRow>,
        is_correction: bool,
        mode: MaterializationMode,
        replay: Replay,
    ) -> (result: Result<MaterializationReport, MaterializationError>)
        ensures
            fixture_outcome(result, rows@, is_correction, mode, replay),
            reports_exactly(result, taken_rows(row_views(rows@), mode, replay)),
    {
        if is_correction {
            return Err(MaterializationError::CorrectionAuthorityRequired);
        }
        match (mode, replay) {
            (MaterializationMode::LiveSimulation, _) => {
                let ghost listed = rows@;
                let result = MaterializationReport::try_new(rows, None, None);
                proof {
                    assert(row_views(listed) == row_views(rows@) && is_report_of(
                        result,
                        listed,
                        None,
                        None,
                    ));
                }
                result
            },
            (MaterializationMode::WalReplay, Replay::Log(log)) => {
                let replayed = replay_log(&log, rows.len())?;
                let ghost listed = replayed@;
                let result = MaterializationReport::try_new(
                    replayed,
                    Some(blake3_hash(log.bytes.as_slice())),
                    None,
                );
                proof {
                    assert(row_views(listed) == recovered_rows(log.records@) && is_report_of(
                        result,
                        listed,
                        Some(blake3_digest(log.bytes@)),
                        None,
                    ));
                }
                result
            },
            (MaterializationMode::ParquetReplay, Replay::Dataset(dataset)) => {
                let replayed = replay_dataset(&dataset, &rows)?;
                let ghost listed = replayed@;
                let result = MaterializationReport::try_new(
                    replayed,
                    None,
                    Some(dataset.sealed_manifest_blake3),
                );
                proof {
                    assert(row_views(listed) == row_views(rows@) && is_report_of(
                        result,
                        listed,
                        None,
                        Some(dataset.sealed_manifest_blake3@),
                    ));
                }
                result
            },
            _ => Err(MaterializationError::Integrity),
        }
    }

    /// Whether rows may correct a sealed snapshot: its manifest is the one that the caller has
    /// authority over, and every row keeps or corrects its base.
    pub fn authorize_correction(
        base_rows: &Vec<MaterializedFeatureRow>,
        base_manifest_blake3: &[u8; 32],
        authorized_manifest_blake3: &[u8; 32],
        rows: &Vec<MaterializedFeatureRow>,
        known_at_ns: i64,
    ) -> (result: Result<(), MaterializationError>)
        ensures
            result == if base_manifest_blake3@ == authorized_manifest_blake3@ && corrects_snapshot(
                base_rows@,
                rows@,
                known_at_ns,
            ) {
                Ok::<(), MaterializationError>(())
            } else {
                Err(MaterializationError::InvalidCorrectionHistory)
            },
    {
        if !same_digest(base_manifest_blake3, authorized_manifest_blake3) {
            return Err(MaterializationError::InvalidCorrectionHistory);
        }
        validate_correction_snapshot(base_rows, rows, known_at_ns)
    }

    /// The report of a correction whose base was authorized, as its dataset gave the rows back.
    pub fn run_correction_fixture(
        rows: Vec<MaterializedFeatureRow>,
        is_correction: bool,
        base_rows: &Vec<MaterializedFeatureRow>,
        base_manifest_blake3: &[u8; 32],
        authorized_manifest_blake3: &[u8; 32],
        known_at_ns: i64,
        dataset: &DatasetReplay,
    ) -> (result: Result<MaterializationReport, MaterializationError>)
        ensures
            if !is_correction {
                result is Err && result->Err_0 == MaterializationError::CorrectionAuthorityRequired
            } else if base_manifest_blake3@ != authorized_manifest_blake3@ || !corrects_snapshot(
                base_rows@,
                rows@,
                known_at_ns,
            ) {
                result is Err && result->Err_0 == MaterializationError::InvalidCorrectionHistory
            } else {
                match dataset_refusal(*dataset, row_views(rows@)) {
                    Some(error) => result is Err && result->Err_0 == error,
                    None => reports(
                        result,
                        row_views(rows@),
                        None,
                        Some(dataset.sealed_manifest_blake3@),
                    ),
                }
            },
            reports_exactly(result, row_views(rows@)),
    {
        if !is_correction {
            return Err(MaterializationError::CorrectionAuthorityRequired);
        }
        Self::authorize_correction(
            base_rows,
            base_manifest_blake3,
            authorized_manifest_blake3,
            &rows,
            known_at_ns,
        )?;
        let replayed = replay_dataset(dataset, &rows)?;
        let ghost listed = replayed@;
        let result = MaterializationReport::try_new(
            replayed,
            None,
            Some(dataset.sealed_manifest_blake3),
        );
        proof {
            assert(row_views(listed) == row_views(rows@) && is_report_of(
                result,
                listed,
                None,
                Some(dataset.sealed_manifest_blake3@),
            ));
        }
        result
    }

    /// The report of a sealed dataset that holds just the expected rows.
    pub fn verify_fixture_dataset(
        expected_rows: &Vec<MaterializedFeatureRow>,
        dataset: &DatasetReplay,
    ) -> (result: Result<MaterializationReport, MaterializationError>)
        ensures
            match dataset_refusal(*dataset, row_views(expected_rows@)) {
                Some(error) => result is Err && result->Err_0 == error,
                None => reports(
                    result,
                    row_views(expected_rows@),
                    None,
                    Some(dataset.verified_manifest_blake3@),
                ),
            },
            reports_exactly(result, row_views(expected_rows@)),
    {
        let read = replay_dataset(dataset, expected_rows)?;
        let ghost listed = read@;
        let result = MaterializationReport::try_new(
            read,
            None,
            Some(dataset.verified_manifest_blake3),
        );
        proof {
            assert(row_views(listed) == row_views(expected_rows@) && is_report_of(
                result,
                listed,
                None,
                Some(dataset.verified_manifest_blake3@),
            ));
        }
        result
    }
}

/// A directory is private where its owner, who runs, has whatever permissions and neither the
/// group nor anyone else has any.
pub proof fn lemma_private_roots_grant_nobody_else(
    root: RootStatus,
    above: int,
    own: int,
    group: int,
    others: int,
)
    requires
        0 <= above,
        0 <= own < 8,
        0 <= group < 8,
        0 <= others < 8,
        root.mode == above * 512 + own * 64 + group * 8 + others,
    ensures
        is_private_root(root) <==> root.is_directory && root.owner == root.effective_user && group
            == 0 && others == 0,
{
    assert(root.mode % 64 == group * 8 + others);
}

/// A manifest's file may be read where it is a regular one that holds something, at most a
/// mebibyte; a log may hold at most a mebibyte for each of its rows.
pub proof fn lemma_files_are_bounded(is_regular_file: bool, bytes: u64, size: usize, rows: usize)
    ensures
        manifest_file_outcome(is_regular_file, bytes) is Ok <==> is_regular_file && 0 < bytes
            <= 1024 * 1024,
        manifest_file_outcome(is_regular_file, bytes) == Err::<(), MaterializationError>(
            MaterializationError::UnsafePath,
        ) <==> !is_regular_file,
        log_size_fits(size, rows) ==> 0 < size <= rows * 1024 * 1024,
        rows == 0 ==> !log_size_fits(size, rows),
        0 < size <= rows * 1024 * 1024 <= usize::MAX ==> log_size_fits(size, rows),
{
}

proof fn lemma_refused_records_are_found(
    records: Seq<RecoveredRecord>,
    from: int,
    stream_id: u32,
    i: int,
)
    requires
        0 <= from <= i < records.len(),
        records_refusal(records, from, stream_id) is None,
    ensures
        record_refusal(records[i], stream_id) is None,
    decreases records.len() - from,
{
    if from < i {
        lemma_refused_records_are_found(records, from + 1, stream_id, i);
    }
}

/// A log that replays holds as many records as rows are wanted. Each of them is of the log's own
/// stream and holds a sound row whose epoch, number and time of receipt the record repeats.
pub proof fn lemma_replayed_records_match_their_rows(log: LogReplay, rows: nat)
    requires
        log_refusal(log, rows) is None,
    ensures
        recovered_rows(log.records@).len() == rows == log.record_count,
        !log.lacks_metadata,
        forall|i: int|
            #![trigger log.records@[i]]
            0 <= i < rows ==> {
                let metadata = log.records@[i].metadata;
                let row = recovered_rows(log.records@)[i];
                &&& held_row(log.records@[i]) == Some(row)
                &&& row_is_sound(row)
                &&& metadata.stream_id == log.stream_id
                &&& metadata.connection_epoch == row.connection_epoch
                &&& metadata.record_sequence == row.wal_record_sequence
                &&& metadata.receive_wall_time_ns == row.receive_wall_time_ns
            },
{
    assert forall|i: int| #![trigger log.records@[i]] 0 <= i < rows implies record_refusal(
        log.records@[i],
        log.stream_id,
    ) is None by {
        lemma_refused_records_are_found(log.records@, 0, log.stream_id, i);
    }
}

} // verus!
