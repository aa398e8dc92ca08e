//! What a materialization hands to its storage: a log's segment and records, and the policy,
//! metadata and batch identity of a dataset.

use vstd::prelude::*;

use super::fixture::{decode_fixed_hash, is_hex_of, FixtureCorrection, FixtureManifest};
use super::observation::{ascii_chars, digest_text};
use super::replay::{logged_metadata, record_metadata, RecordMetadata};
use super::row::{row_json, row_views, MaterializedFeatureRow, RowView};
use super::{MaterializationError, MAXIMUM_FEATURE_ROWS};
use crate::digest::utf8;
use crate::wire::{hex_ascii, hex_bytes};

verus! {

/// The bounds of a dataset's writer and reader.
#[derive(Clone, Copy, Debug, PartialEq, Eq, Structural)]
pub struct DatasetPolicyInput {
    pub maximum_batch_rows: usize,
    pub maximum_batch_columns: usize,
    pub maximum_batch_bytes: usize,
    pub maximum_value_bytes: usize,
    pub maximum_schema_bytes: usize,
    pub maximum_schema_fields: usize,
    pub maximum_schema_depth: usize,
    pub maximum_writer_memory_bytes: usize,
    pub maximum_row_group_rows: usize,
    pub target_row_group_bytes: usize,
    pub maximum_file_bytes: u64,
    pub maximum_partition_bytes: u64,
    pub maximum_partition_rows: u64,
    pub maximum_active_fragments: usize,
    pub maximum_footer_bytes: usize,
    pub maximum_sealed_files: usize,
    pub reader_batch_rows: usize,
    pub maximum_correction_depth: usize,
}

/// The bounds under which every dataset of features is written and read.
pub fn materialization_policy() -> (policy: DatasetPolicyInput)
    ensures
        policy == (DatasetPolicyInput {
            maximum_batch_rows: 4_096,
            maximum_batch_columns: 64,
            maximum_batch_bytes: 16_777_216,
            maximum_value_bytes: 1_048_576,
            maximum_schema_bytes: 262_144,
            maximum_schema_fields: 128,
            maximum_schema_depth: 16,
            maximum_writer_memory_bytes: 67_108_864,
            maximum_row_group_rows: 4_096,
            target_row_group_bytes: 16_777_216,
            maximum_file_bytes: 67_108_864,
            maximum_partition_bytes: 67_108_864,
            maximum_partition_rows: 4_096,
            maximum_active_fragments: 16,
            maximum_footer_bytes: 1_048_576,
            maximum_sealed_files: 16,
            reader_batch_rows: 256,
            maximum_correction_depth: 64,
        }),
{
    DatasetPolicyInput {
        maximum_batch_rows: MAXIMUM_FEATURE_ROWS,
        maximum_batch_columns: 64,
        maximum_batch_bytes: 16 * 1024 * 1024,
        maximum_value_bytes: 1024 * 1024,
        maximum_schema_bytes: 256 * 1024,
        maximum_schema_fields: 128,
        maximum_schema_depth: 16,
        maximum_writer_memory_bytes: 64 * 1024 * 1024,
        maximum_row_group_rows: MAXIMUM_FEATURE_ROWS,
        target_row_group_bytes: 16 * 1024 * 1024,
        maximum_file_bytes: 64 * 1024 * 1024,
        maximum_partition_bytes: 64 * 1024 * 1024,
        maximum_partition_rows: MAXIMUM_FEATURE_ROWS as u64,
        maximum_active_fragments: 16,
        maximum_footer_bytes: 1024 * 1024,
        maximum_sealed_files: 16,
        reader_batch_rows: 256,
        maximum_correction_depth: 64,
    }
}

/// The records of a stream that a dataset covers.
#[derive(Debug)]
pub struct DatasetSourceCoverage {
    pub source_name: String,
    pub stream_name: String,
    pub connection_epoch: u64,
    pub subscription_epoch: u64,
    pub first_record_sequence: u64,
    pub last_record_sequence: u64,
}

/// The contents of a [`DatasetSourceCoverage`].
pub struct DatasetCoverageView {
    pub source_name: Seq<char>,
    pub stream_name: Seq<char>,
    pub connection_epoch: u64,
    pub subscription_epoch: u64,
    pub first_record_sequence: u64,
    pub last_record_sequence: u64,
}

impl View for DatasetSourceCoverage {
    type V = DatasetCoverageView;

    open spec fn view(&self) -> DatasetCoverageView {
        DatasetCoverageView {
            source_name: self.source_name@,
            stream_name: self.stream_name@,
            connection_epoch: self.connection_epoch,
            subscription_epoch: self.subscription_epoch,
            first_record_sequence: self.first_record_sequence,
            last_record_sequence: self.last_record_sequence,
        }
    }
}

/// The coverage of a fixture's rows: from the record of the first row to that of the last.
pub open spec fn coverage_of_rows(
    manifest: FixtureManifest,
    rows: Seq<RowView>,
) -> DatasetCoverageView {
    DatasetCoverageView {
        source_name: manifest.source_name@,
        stream_name: manifest.stream_name@,
        connection_epoch: manifest.connection_epoch,
        subscription_epoch: manifest.subscription_epoch,
        first_record_sequence: rows[0].wal_record_sequence,
        last_record_sequence: rows.last().wal_record_sequence,
    }
}

fn source_coverage(manifest: &FixtureManifest, rows: &Vec<MaterializedFeatureRow>) -> (coverage:
    DatasetSourceCoverage)
    requires
        rows@.len() > 0,
    ensures
        coverage@ == coverage_of_rows(*manifest, row_views(rows@)),
{
    DatasetSourceCoverage {
        source_name: manifest.source_name.clone(),
        stream_name: manifest.stream_name.clone(),
        connection_epoch: manifest.connection_epoch,
        subscription_epoch: manifest.subscription_epoch,
        first_record_sequence: rows[0].fields().wal_record_sequence,
        last_record_sequence: rows[rows.len() - 1].fields().wal_record_sequence,
    }
}

/// What a corrected dataset says of the dataset that it corrects.
#[derive(Debug)]
pub struct CorrectionLineage {
    pub base_dataset_version: u32,
    /// The hash of the base's manifest, in hexadecimal.
    pub base_manifest_blake3: String,
    pub known_at_ns: i64,
    pub reason: String,
    pub provenance: String,
}

/// The contents of a [`CorrectionLineage`].
pub struct CorrectionLineageView {
    pub base_dataset_version: u32,
    pub base_manifest_blake3: Seq<char>,
    pub known_at_ns: i64,
    pub reason: Seq<char>,
    pub provenance: Seq<char>,
}

impl View for CorrectionLineage {
    type V = CorrectionLineageView;

    open spec fn view(&self) -> CorrectionLineageView {
        CorrectionLineageView {
            base_dataset_version: self.base_dataset_version,
            base_manifest_blake3: self.base_manifest_blake3@,
            known_at_ns: self.known_at_ns,
            reason: self.reason@,
            provenance: self.provenance@,
        }
    }
}

/// The lineage of a correction of the dataset with a given manifest.
pub open spec fn lineage_of_correction(
    correction: FixtureCorrection,
    base_manifest_blake3: Seq<u8>,
) -> CorrectionLineageView {
    CorrectionLineageView {
        base_dataset_version: correction.base_dataset_version,
        base_manifest_blake3: ascii_chars(hex_ascii(base_manifest_blake3)),
        known_at_ns: correction.known_at_ns,
        reason: correction.reason@,
        provenance: correction.provenance@,
    }
}

/// The lineage of a correction of the dataset with a given manifest.
pub fn correction_lineage(correction: &FixtureCorrection, base_manifest_blake3: &[u8; 32]) -> (
result: Result<CorrectionLineage, MaterializationError>)
    ensures
        if correction.base_dataset_version == 0 {
            result is Err && result->Err_0 == MaterializationError::InvalidManifest
        } else {
            result is Ok && result->Ok_0@ == lineage_of_correction(
                *correction,
                base_manifest_blake3@,
            )
        },
{
    if correction.base_dataset_version == 0 {
        return Err(MaterializationError::InvalidManifest);
    }
    Ok(
        CorrectionLineage {
            base_dataset_version: correction.base_dataset_version,
            base_manifest_blake3: digest_text(base_manifest_blake3),
            known_at_ns: correction.known_at_ns,
            reason: correction.reason.clone(),
            provenance: correction.provenance.clone(),
        },
    )
}

/// What a dataset says of itself.
#[derive(Debug)]
pub struct DatasetMetadataInput {
    pub feature_version: String,
    pub parser_version: String,
    pub normalizer_version: String,
    pub code_identity: String,
    pub source_coverage: Vec<DatasetSourceCoverage>,
    pub correction_lineage: Option<CorrectionLineage>,
}

/// The contents of a [`DatasetMetadataInput`].
pub struct DatasetMetadataView {
    pub feature_version: Seq<char>,
    pub parser_version: Seq<char>,
    pub normalizer_version: Seq<char>,
    pub code_identity: Seq<char>,
    pub source_coverage: Seq<DatasetCoverageView>,
    pub correction_lineage: Option<CorrectionLineageView>,
}

pub open spec fn coverage_views(coverage: Seq<DatasetSourceCoverage>) -> Seq<DatasetCoverageView> {
    Seq::new(coverage.len(), |i: int| coverage[i]@)
}

pub open spec fn correction_view(lineage: Option<CorrectionLineage>) -> Option<
    CorrectionLineageView,
> {
    match lineage {
        Some(lineage) => Some(lineage@),
        None => None,
    }
}

impl View for DatasetMetadataInput {
    type V = DatasetMetadataView;

    open spec fn view(&self) -> DatasetMetadataView {
        DatasetMetadataView {
            feature_version: self.feature_version@,
            parser_version: self.parser_version@,
            normalizer_version: self.normalizer_version@,
            code_identity: self.code_identity@,
            source_coverage: coverage_views(self.source_coverage@),
            correction_lineage: correction_view(self.correction_lineage),
        }
    }
}

/// What the dataset of a fixture's rows says of itself. The code is identified by its commit.
pub open spec fn metadata_of_rows(
    manifest: FixtureManifest,
    rows: Seq<RowView>,
    correction: Option<CorrectionLineageView>,
) -> DatasetMetadataView {
    DatasetMetadataView {
        feature_version: manifest.feature_set_version@,
        parser_version: manifest.parser_version@,
        normalizer_version: manifest.normalizer_version@,
        code_identity: "git_sha1:"@ + manifest.code_commit@,
        source_coverage: seq![coverage_of_rows(manifest, rows)],
        correction_lineage: correction,
    }
}

/// The metadata of the dataset of a fixture's rows.
pub fn dataset_metadata(
    manifest: &FixtureManifest,
    rows: &Vec<MaterializedFeatureRow>,
    correction: Option<CorrectionLineage>,
) -> (result: Result<DatasetMetadataInput, MaterializationError>)
    ensures
        if rows@.len() == 0 {
            result is Err && result->Err_0 == MaterializationError::InvalidRow
        } else {
            result is Ok && result->Ok_0@ == metadata_of_rows(
                *manifest,
                row_views(rows@),
                correction_view(correction),
            )
        },
{
    if rows.len() == 0 {
        return Err(MaterializationError::InvalidRow);
    }
    let mut code_identity = "git_sha1:".to_owned();
    code_identity.append(manifest.code_commit.as_str());
    let mut coverage: Vec<DatasetSourceCoverage> = Vec::new();
    coverage.push(source_coverage(manifest, rows));
    let metadata = DatasetMetadataInput {
        feature_version: manifest.feature_set_version.clone(),
        parser_version: manifest.parser_version.clone(),
        normalizer_version: manifest.normalizer_version.clone(),
        code_identity,
        source_coverage: coverage,
        correction_lineage: correction,
    };
    proof {
        assert(metadata@.source_coverage =~= seq![coverage_of_rows(*manifest, row_views(rows@))]);
    }
    Ok(metadata)
}

/// Which part of which input a batch was made of.
#[derive(Debug)]
pub struct BatchId {
    pub source_coverage: DatasetSourceCoverage,
    pub input_wal_segment_blake3: String,
    pub wal_start_offset: u64,
    pub wal_end_offset: u64,
}

/// The identity of the batch of a fixture's rows.
pub fn batch_id(manifest: &FixtureManifest, rows: &Vec<MaterializedFeatureRow>) -> (result: Result<
    BatchId,
    MaterializationError,
>)
    ensures
        if rows@.len() == 0 {
            result is Err && result->Err_0 == MaterializationError::InvalidRow
        } else {
            let id = result->Ok_0;
            &&& result is Ok
            &&& id.source_coverage@ == coverage_of_rows(*manifest, row_views(rows@))
            &&& id.input_wal_segment_blake3@ == manifest.input_wal_segment_blake3@
            &&& id.wal_start_offset == manifest.wal_start_offset
            &&& id.wal_end_offset == manifest.wal_end_offset
        },
{
    if rows.len() == 0 {
        return Err(MaterializationError::InvalidRow);
    }
    Ok(
        BatchId {
            source_coverage: source_coverage(manifest, rows),
            input_wal_segment_blake3: manifest.input_wal_segment_blake3.clone(),
            wal_start_offset: manifest.wal_start_offset,
            wal_end_offset: manifest.wal_end_offset,
        },
    )
}

/// The one stream that a log's segment holds.
#[derive(Debug)]
pub struct StreamDescriptor {
    pub stream_id: u32,
    pub source_name: String,
    pub stream_name: String,
}

/// What a log's segment says of itself.
#[derive(Debug)]
pub struct SegmentMetadata {
    pub segment_id: [u8; 16],
    pub created_wall_time_ns: i64,
    pub schema: String,
    pub dataset: String,
    pub producer: String,
    pub stream: StreamDescriptor,
}

/// The segment is the one that a fixture's rows are logged in.
pub open spec fn is_segment_of(segment: SegmentMetadata, manifest: FixtureManifest) -> bool {
    &&& segment.segment_id@ == hex_bytes(utf8(manifest.wal_segment_id_hex@))
    &&& segment.created_wall_time_ns == manifest.created_wall_time_ns
    &&& segment.schema@ == "feature-observation-v1"@
    &&& segment.dataset@ == "golden-features-v1"@
    &&& segment.producer@ == "feature-engine-v1"@
    &&& segment.stream.stream_id == manifest.stream_id
    &&& segment.stream.source_name@ == manifest.source_name@
    &&& segment.stream.stream_name@ == manifest.stream_name@
}

/// The segment that a fixture's rows are logged in.
pub fn log_segment(manifest: &FixtureManifest) -> (result: Result<
    SegmentMetadata,
    MaterializationError,
>)
    ensures
        if is_hex_of(manifest.wal_segment_id_hex@, 16) {
            result is Ok && is_segment_of(result->Ok_0, *manifest)
        } else {
            result is Err && result->Err_0 == MaterializationError::InvalidManifest
        },
{
    let bytes = match decode_fixed_hash(manifest.wal_segment_id_hex.as_str(), 16) {
        None => {
            return Err(MaterializationError::InvalidManifest);
        },
        Some(bytes) => bytes,
    };
    let mut segment_id: [u8; 16] = [0;16];
    let mut i: usize = 0;
    while i < 16
        invariant
            i <= 16,
            bytes@.len() == 16,
            forall|k: int| 0 <= k < i ==> segment_id@[k] == #[trigger] bytes@[k],
        decreases 16 - i,
    {
        segment_id[i] = bytes[i];
        i += 1;
    }
    proof {
        assert(segment_id@ =~= bytes@);
    }
    Ok(
        SegmentMetadata {
            segment_id,
            created_wall_time_ns: manifest.created_wall_time_ns,
            schema: "feature-observation-v1".to_owned(),
            dataset: "golden-features-v1".to_owned(),
            producer: "feature-engine-v1".to_owned(),
            stream: StreamDescriptor {
                stream_id: manifest.stream_id,
                source_name: manifest.source_name.clone(),
                stream_name: manifest.stream_name.clone(),
            },
        },
    )
}

/// A record to append to a log.
#[derive(Debug)]
pub struct LogRecord {
    pub metadata: RecordMetadata,
    pub payload: Vec<u8>,
}

/// The record holds a row in JSON, under the row's own metadata.
pub open spec fn is_record_of(record: LogRecord, manifest: FixtureManifest, row: RowView) -> bool {
    &&& record.metadata == logged_metadata(row, manifest.stream_id, manifest.connection_epoch)
    &&& record.payload@ == row_json(row)
}

/// The records of a fixture's rows, in the order of the rows.
pub fn log_records(manifest: &FixtureManifest, rows: &Vec<MaterializedFeatureRow>) -> (records: Vec<
    LogRecord,
>)
    ensures
        records@.len() == rows@.len(),
        forall|i: int|
            0 <= i < rows@.len() ==> is_record_of(#[trigger] records@[i], *manifest, rows@[i]@),
{
    let mut records: Vec<LogRecord> = Vec::new();
    let mut i: usize = 0;
    while i < rows.len()
        invariant
            i <= rows@.len(),
            records@.len() == i,
            forall|k: int|
                0 <= k < i ==> is_record_of(#[trigger] records@[k], *manifest, rows@[k]@),
        decreases rows.len() - i,
    {
        let row = &rows[i];
        records.push(
            LogRecord {
                metadata: record_metadata(row, manifest.stream_id, manifest.connection_epoch),
                payload: row.fields().to_json(),
            },
        );
        i += 1;
    }
    records
}

/// A dataset covers the records from that of its first row to that of its last, in the epochs of
/// its fixture; a dataset of one row covers one record.
pub proof fn lemma_coverage_spans_its_rows(
    manifest: FixtureManifest,
    rows: Seq<RowView>,
    correction: Option<CorrectionLineageView>,
)
    requires
        rows.len() > 0,
    ensures
        ({
            let metadata = metadata_of_rows(manifest, rows, correction);
            let coverage = metadata.source_coverage[0];
            &&& metadata.source_coverage.len() == 1
            &&& coverage.first_record_sequence == rows[0].wal_record_sequence
            &&& coverage.last_record_sequence == rows[rows.len() - 1].wal_record_sequence
            &&& rows.len() == 1 ==> coverage.first_record_sequence
                == coverage.last_record_sequence
            &&& coverage.connection_epoch == manifest.connection_epoch
            &&& coverage.subscription_epoch == manifest.subscription_epoch
            &&& coverage.source_name == manifest.source_name@
            &&& coverage.stream_name == manifest.stream_name@
            &&& metadata.correction_lineage == correction
            &&& metadata.parser_version == manifest.parser_version@
            &&& metadata.normalizer_version == manifest.normalizer_version@
            &&& metadata.feature_version == manifest.feature_set_version@
        }),
{
}

} // verus!
