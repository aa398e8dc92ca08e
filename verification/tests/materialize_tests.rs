use feature_engine::decimal::FixedDecimal;
use feature_engine::domain::{
    AssetId, AssetNamespace, DurationNanos, FeatureEntity, FinalityState, FiniteF64,
    MissingnessReason, QualityScore, RegistryError, SourceCoverage, SourceCoverageEntry,
    SourceHealthState, SourceId, SourceKind, UnixNanos,
};
use feature_engine::lineage::{FeatureLineage, FeatureLineageInput, LineageError};
use feature_engine::materialize::batch::{
    fitting_batch, rows_from_batch, rows_from_batches, rows_to_batch,
};
use feature_engine::materialize::correction::validate_correction_snapshot;
use feature_engine::materialize::fixture::{
    parse_integer, FixtureCorrection, FixtureManifest, FixtureObservation, FixtureSource,
    FixtureTexts, ObservationTexts,
};
use feature_engine::materialize::history::PointInTimeFeatureSet;
use feature_engine::materialize::observation::{RowAuthority, RowTexts};
use feature_engine::materialize::partition::partition_key;
use feature_engine::materialize::query::{valid_sql_identifier, PointInTimeTrainingPlan};
use feature_engine::materialize::replay::{
    record_metadata, replay_log, validate_log_size, validate_manifest_file,
    validate_private_root, DatasetReplay, LogReplay, Materializer, RecoveredRecord, Replay,
    RootStatus,
};
use feature_engine::materialize::report::MaterializationReport;
use feature_engine::materialize::row::{
    finality_name, stored_reason_name, valid_lower_hash, valid_missingness_name, value_type_name,
    value_type_of, MaterializedFeatureRow, RowFields,
};
use feature_engine::materialize::storage::{
    batch_id, correction_lineage, dataset_metadata, log_records, log_segment,
    materialization_policy, DatasetPolicyInput,
};
use feature_engine::materialize::{MaterializationError, MaterializationMode};
use feature_engine::registry::{
    FeatureDatum, FeatureObservation, FeatureValue, FeatureValueType, FeatureVersion,
    ParsedVersion,
};
use feature_engine::wire::{canonical_json, is_recoded_as_itself};

const HOUR: i64 = 3_600_000_000_000;

fn fields() -> RowFields {
    RowFields {
        effective_event_time_ns: HOUR + 100,
        exchange_event_time_ns: Some(HOUR + 100),
        receive_wall_time_ns: HOUR + 300,
        event_type: "feature-observation".to_owned(),
        venue: "binance".to_owned(),
        instrument_generation: 1,
        connection_epoch: 1,
        subscription_epoch: 1,
        wal_record_sequence: 1,
        feature_id: "absolute_spread".to_owned(),
        feature_version: "1.0.0".to_owned(),
        entity_json: "{\"asset\":\"BTC\"}".to_owned(),
        window_id: "tumbling_1s".to_owned(),
        resolution_ns: 1_000_000_000,
        datum_json: "\"1.25\"".to_owned(),
        value_type: value_type_name(FeatureValueType::FixedDecimal).to_owned(),
        event_time_start_ns: HOUR + 50,
        event_time_end_ns: HOUR + 100,
        as_known_at_ns: HOUR + 200,
        computed_at_ns: HOUR + 300,
        watermark_ns: Some(HOUR + 110),
        finality_as_known_at_ns: HOUR + 150,
        finality_state: "final".to_owned(),
        revision: 1,
        source_coverage_json: "{\"expected\":1}".to_owned(),
        quality_millionths: 990_000,
        normalization_version: "1.0.0".to_owned(),
        formula_hash: "ab".repeat(32),
        code_commit: "abc".to_owned(),
        lineage_hash: "cd".repeat(32),
        float_bits: None,
    }
}

fn row_of(fields: RowFields) -> MaterializedFeatureRow {
    MaterializedFeatureRow::try_new(fields, true).unwrap()
}

fn refusal(change: impl Fn(&mut RowFields)) -> bool {
    let mut fields = fields();
    change(&mut fields);
    matches!(
        MaterializedFeatureRow::try_new(fields, true),
        Err(MaterializationError::InvalidRow)
    )
}

fn float_fields() -> RowFields {
    let mut fields = fields();
    fields.feature_id = "relative_spread".to_owned();
    fields.value_type = value_type_name(FeatureValueType::Float64).to_owned();
    fields.datum_json = "0.25".to_owned();
    fields.float_bits = Some(0.25f64.to_bits());
    fields.wal_record_sequence = 2;
    fields
}

fn corrected() -> RowFields {
    let mut fields = fields();
    fields.finality_state = "corrected".to_owned();
    fields.revision = 2;
    fields.as_known_at_ns = HOUR + 400;
    fields.computed_at_ns = HOUR + 500;
    fields.receive_wall_time_ns = HOUR + 500;
    fields.datum_json = "\"1.5\"".to_owned();
    fields
}

#[test]
fn only_sound_rows_are_made() {
    assert!(MaterializedFeatureRow::try_new(fields(), true).is_ok());
    assert!(MaterializedFeatureRow::try_new(fields(), false).is_err());
    assert!(refusal(|fields| fields.event_type = "trade".to_owned()));
    assert!(refusal(|fields| fields.venue = String::new()));
    assert!(refusal(|fields| fields.connection_epoch = 0));
    assert!(refusal(|fields| fields.feature_version = "1.0".to_owned()));
    assert!(refusal(|fields| fields.as_known_at_ns = HOUR + 99));
    assert!(refusal(|fields| fields.finality_state = "provisional".to_owned()));
    assert!(refusal(|fields| fields.finality_state = "corrected".to_owned()));
    assert!(refusal(|fields| fields.quality_millionths = 1_000_001));
    assert!(refusal(|fields| fields.formula_hash = "AB".repeat(32)));
    assert!(refusal(|fields| fields.entity_json = "{ \"asset\": 1 }".to_owned()));
    assert!(refusal(|fields| fields.datum_json = "1.25".to_owned()));
    assert!(refusal(|fields| fields.datum_json = "\"1.250\"".to_owned()));
    assert!(refusal(|fields| fields.value_type = "complex".to_owned()));
    assert!(refusal(|fields| fields.float_bits = Some(1)));
}

#[test]
fn floats_are_stored_with_their_bits() {
    assert_eq!(row_of(float_fields()).float_bits(), Some(0.25f64.to_bits()));
    let mut other = float_fields();
    other.float_bits = Some(0.5f64.to_bits());
    assert!(MaterializedFeatureRow::try_new(other, true).is_err());
}

#[test]
fn absences_are_stored_by_name() {
    let mut absent = fields();
    absent.datum_json = format!(
        "{{\"missing\":\"{}\"}}",
        stored_reason_name(MissingnessReason::SequenceGap)
    );
    assert!(MaterializedFeatureRow::try_new(absent, true).is_ok());
    assert!(valid_missingness_name(stored_reason_name(MissingnessReason::Unknown)));
    assert!(!valid_missingness_name("nothing"));
}

#[test]
fn names_read_back() {
    for value_type in [
        FeatureValueType::FixedDecimal,
        FeatureValueType::FixedDecimalMap,
        FeatureValueType::Float64,
        FeatureValueType::Integer,
        FeatureValueType::Boolean,
    ] {
        assert_eq!(value_type_of(value_type_name(value_type)), Some(value_type));
    }
    assert_eq!(value_type_of("text"), None);
    assert_eq!(finality_name(FinalityState::Final), "final");
    assert_eq!(finality_name(FinalityState::Corrected), "corrected");
    assert!(valid_lower_hash(&"0a".repeat(32)));
    assert!(!valid_lower_hash(&"0a".repeat(31)));
    assert!(!valid_lower_hash(&"0A".repeat(32)));
}

#[test]
fn rows_are_written_as_canonical_json() {
    let bytes = row_of(fields()).fields().to_json();
    let text = String::from_utf8(bytes).unwrap();
    let value: serde_json::Value = serde_json::from_str(&text).unwrap();
    assert_eq!(value["feature_id"], serde_json::Value::from("absolute_spread"));
    assert_eq!(value["datum_json"], serde_json::Value::from("\"1.25\""));
    assert_eq!(value["effective_event_time_ns"], serde_json::Value::from(HOUR + 100));
    assert_eq!(value["float_bits"], serde_json::Value::Null);
    assert_eq!(value.as_object().unwrap().len(), 31);
    assert!(text.starts_with("{\"effective_event_time_ns\":3600000000100,"));
}

#[test]
fn texts_are_escaped_in_json() {
    let text = "a\"b\\c\u{8}\t\n\u{c}\r\u{1}\u{1f}\u{7f}\u{e9}";
    let mut unusual = fields();
    unusual.venue = text.to_owned();
    let json = String::from_utf8(unusual.to_json()).unwrap();
    assert!(json.contains(
        "\"venue\":\"a\\\"b\\\\c\\b\\t\\n\\f\\r\\u0001\\u001f\u{7f}\u{e9}\","
    ));
    let value: serde_json::Value = serde_json::from_str(&json).unwrap();
    assert_eq!(value["venue"], serde_json::Value::from(text));
}

#[test]
fn json_is_canonical_where_it_recodes_as_itself() {
    assert!(canonical_json("{\"a\":[1,2]}"));
    assert!(!canonical_json("{\"a\": [1, 2]}"));
    assert!(!canonical_json("{\"a\""));
    assert!(is_recoded_as_itself("1", &Some("1".to_owned())));
    assert!(!is_recoded_as_itself("1.0", &Some("1".to_owned())));
    assert!(!is_recoded_as_itself("1", &None));
}

#[test]
fn batches_read_back() {
    let mut absent = fields();
    absent.watermark_ns = None;
    absent.window_id = "rolling_1m".to_owned();
    let rows = vec![row_of(fields()), row_of(float_fields()), row_of(absent)];
    let batch = rows_to_batch(&rows);
    assert_eq!(batch.batch.num_rows(), 3);
    assert_eq!(batch.batch.num_columns(), 31);
    let schema = batch.batch.schema();
    let nullable: Vec<&str> = schema
        .fields()
        .iter()
        .filter(|field| field.is_nullable())
        .map(|field| field.name().as_str())
        .collect();
    assert_eq!(nullable, ["exchange_event_time_ns", "watermark_ns", "float_bits"]);
    assert_eq!(schema.field(0).name(), "effective_event_time_ns");
    assert_eq!(schema.field(9).name(), "feature_id");
    assert_eq!(schema.field(30).name(), "float_bits");
    let read = rows_from_batch(&batch).unwrap();
    assert_eq!(read.len(), 3);
    for (fields, row) in read.iter().zip(rows.iter()) {
        assert!(fields.same(row.fields()));
    }
    let twice = rows_from_batches(&vec![rows_to_batch(&rows), batch]).unwrap();
    assert_eq!(twice.len(), 6);
    assert!(rows_from_batches(&Vec::new()).map(|rows| rows.is_empty()).unwrap_or(true));
}

#[test]
fn partitions_span_one_hour() {
    let key = partition_key(&vec![row_of(fields())], 1, 1, "binance", 1).unwrap();
    assert_eq!((key.julian_day, key.hour), (2_440_588, 1));
    assert_eq!(key.event_type, "feature-observation");
    let mut later = fields();
    later.effective_event_time_ns += HOUR;
    later.exchange_event_time_ns = Some(later.effective_event_time_ns);
    later.event_time_end_ns += HOUR;
    later.as_known_at_ns += HOUR;
    later.computed_at_ns += HOUR;
    later.receive_wall_time_ns += HOUR;
    assert!(matches!(
        partition_key(&vec![row_of(fields()), row_of(later)], 1, 1, "binance", 1),
        Err(MaterializationError::PartitionMismatch)
    ));
    assert!(matches!(
        partition_key(&Vec::new(), 1, 1, "binance", 1),
        Err(MaterializationError::InvalidRow)
    ));
    assert!(matches!(
        partition_key(&vec![row_of(fields())], 0, 1, "binance", 1),
        Err(MaterializationError::InvalidManifest)
    ));
}

#[test]
fn selections_never_know_the_future() {
    let set =
        PointInTimeFeatureSet::try_new(vec![row_of(corrected()), row_of(fields())]).unwrap();
    assert_eq!(set.as_known_at(HOUR + 299).len(), 0);
    let first = set.as_known_at(HOUR + 300);
    assert_eq!((first.len(), first[0].revision()), (1, 1));
    let last = set.as_known_at(HOUR + 500);
    assert_eq!((last.len(), last[0].revision()), (1, 2));
    assert_eq!(last[0].datum_json(), "\"1.5\"");
}

#[test]
fn feature_sets_do_not_depend_on_the_order_of_rows() {
    let one = PointInTimeFeatureSet::try_new(vec![
        row_of(fields()),
        row_of(float_fields()),
        row_of(corrected()),
    ])
    .unwrap();
    let other = PointInTimeFeatureSet::try_new(vec![
        row_of(corrected()),
        row_of(fields()),
        row_of(float_fields()),
    ])
    .unwrap();
    for time in [HOUR + 299, HOUR + 300, HOUR + 500] {
        let known = |set: &PointInTimeFeatureSet| -> Vec<Vec<u8>> {
            set.as_known_at(time).iter().map(|row| row.fields().to_json()).collect()
        };
        assert_eq!(known(&one), known(&other));
    }
    for rows in [vec![corrected(), corrected(), fields()], vec![fields(), corrected(), corrected()]]
    {
        assert!(matches!(
            PointInTimeFeatureSet::try_new(rows.into_iter().map(row_of).collect()),
            Err(MaterializationError::InvalidCorrectionHistory)
        ));
    }
}

#[test]
fn histories_count_up_from_one() {
    assert!(matches!(
        PointInTimeFeatureSet::try_new(vec![row_of(corrected())]),
        Err(MaterializationError::InvalidCorrectionHistory)
    ));
    assert!(matches!(
        PointInTimeFeatureSet::try_new(Vec::new()),
        Err(MaterializationError::CapacityExceeded)
    ));
}

#[test]
fn corrections_move_forward() {
    let base = vec![row_of(fields()), row_of(float_fields())];
    let correction = vec![row_of(float_fields()), row_of(corrected())];
    assert_eq!(validate_correction_snapshot(&base, &correction, HOUR + 400), Ok(()));
    assert_eq!(
        validate_correction_snapshot(&base, &correction, HOUR + 399),
        Err(MaterializationError::InvalidCorrectionHistory)
    );
    assert_eq!(
        validate_correction_snapshot(&correction, &base, HOUR + 400),
        Err(MaterializationError::InvalidCorrectionHistory)
    );
}

#[test]
fn reports_do_not_depend_on_the_order_of_rows() {
    let one = MaterializationReport::try_new(
        vec![row_of(fields()), row_of(float_fields())],
        None,
        None,
    )
    .unwrap();
    let other = MaterializationReport::try_new(
        vec![row_of(float_fields()), row_of(fields())],
        None,
        None,
    )
    .unwrap();
    assert_eq!(one.fixed_point_digest(), other.fixed_point_digest());
    assert_eq!(one.lineage_digest(), other.lineage_digest());
    assert_eq!(one.finality_quality_digest(), other.finality_quality_digest());
    assert_eq!(
        one.float_pairs(&other),
        Ok(vec![(0.25f64.to_bits(), 0.25f64.to_bits())])
    );
    let single = MaterializationReport::try_new(vec![row_of(fields())], None, None).unwrap();
    assert!(single.fixed_point_digest() != single.lineage_digest());
    assert_eq!(one.float_pairs(&single), Err(MaterializationError::ParityShapeMismatch));
    assert!(matches!(
        MaterializationReport::try_new(vec![row_of(fields()), row_of(fields())], None, None),
        Err(MaterializationError::DuplicateObservation)
    ));
}

fn log_of(rows: &[MaterializedFeatureRow]) -> LogReplay {
    LogReplay {
        stream_id: 7,
        bytes: vec![4; 1_000],
        record_count: rows.len() as u64,
        lacks_metadata: false,
        records: rows
            .iter()
            .map(|row| RecoveredRecord {
                metadata: record_metadata(row, 7, 1),
                fields: Some(row.fields().clone()),
                identities_accepted: true,
            })
            .collect(),
    }
}

fn dataset_of(rows: &[MaterializedFeatureRow]) -> DatasetReplay {
    DatasetReplay {
        fields: rows.iter().map(|row| row.fields().clone()).collect(),
        identities_accepted: true,
        sealed_manifest_blake3: [6; 32],
        verified_manifest_blake3: [6; 32],
    }
}

#[test]
fn replays_agree() {
    let rows = vec![row_of(fields()), row_of(float_fields())];
    let run = |mode: MaterializationMode, replay: Replay| {
        Materializer::run_fixture(rows.clone(), false, mode, replay).unwrap()
    };
    let live = run(MaterializationMode::LiveSimulation, Replay::Direct);
    let log = run(MaterializationMode::WalReplay, Replay::Log(log_of(&rows)));
    let dataset =
        run(MaterializationMode::ParquetReplay, Replay::Dataset(dataset_of(&rows)));
    assert_eq!(live.fixed_point_digest(), log.fixed_point_digest());
    assert_eq!(live.lineage_digest(), dataset.lineage_digest());
    assert_eq!(log.wal_segment_blake3(), Some(*blake3::hash(&[4; 1_000]).as_bytes()));
    assert_eq!(dataset.sealed_manifest_blake3(), Some([6; 32]));
    assert_eq!(live.wal_segment_blake3(), None);
    assert_eq!(live.sealed_manifest_blake3(), None);
    assert_eq!(dataset.wal_segment_blake3(), None);
    assert_eq!(log.sealed_manifest_blake3(), None);
    assert_eq!(live.fixed_point_digest(), dataset.fixed_point_digest());
    assert_eq!(live.finality_quality_digest(), log.finality_quality_digest());
    assert!(live.float_pairs(&dataset).unwrap().iter().all(|pair| pair.0 == pair.1));
}

#[test]
fn reports_ascend_by_identity_and_revision() {
    let mut first = fields();
    first.window_id = "a".to_owned();
    let rows = vec![row_of(corrected()), row_of(float_fields()), row_of(fields()), row_of(first)];
    let report = MaterializationReport::try_new(rows, None, None).unwrap();
    let keys: Vec<(String, String, u32)> = report
        .rows()
        .iter()
        .map(|row| {
            (row.feature_id().to_owned(), row.fields().window_id.clone(), row.revision())
        })
        .collect();
    assert_eq!(keys.len(), 4);
    assert!(keys.windows(2).all(|pair| pair[0] < pair[1]));
    assert!(report
        .rows()
        .iter()
        .all(|row| row.fields().finality_state == "final" || row.revision() >= 2));
    assert!(matches!(
        MaterializationReport::try_new(Vec::new(), None, None),
        Err(MaterializationError::CapacityExceeded)
    ));
}

#[test]
fn logs_must_hold_what_was_written() {
    let rows = vec![row_of(fields())];
    let replay = |change: fn(&mut LogReplay)| {
        let mut log = log_of(&rows);
        change(&mut log);
        replay_log(&log, 1).map(|_| ())
    };
    assert_eq!(replay(|_| ()), Ok(()));
    assert_eq!(replay(|log| log.bytes.clear()), Err(MaterializationError::CapacityExceeded));
    assert_eq!(replay(|log| log.record_count = 2), Err(MaterializationError::Integrity));
    assert_eq!(replay(|log| log.stream_id = 8), Err(MaterializationError::Integrity));
    assert_eq!(
        replay(|log| log.records[0].identities_accepted = false),
        Err(MaterializationError::InvalidRow)
    );
    assert_eq!(replay(|log| log.records[0].fields = None), Err(MaterializationError::Json));
    assert_eq!(
        replay(|log| {
            log.records[0].fields = None;
            log.record_count = 2;
        }),
        Err(MaterializationError::Integrity)
    );
    let metadata = record_metadata(&rows[0], 7, 1);
    assert_eq!(metadata.record_sequence, 1);
    assert_eq!(metadata.receive_wall_time_ns, HOUR + 300);
    assert!(validate_log_size(1_048_577, 1).is_err());
}

#[test]
fn datasets_must_match_their_seal() {
    let rows = vec![row_of(fields())];
    let mut dataset = dataset_of(&rows);
    assert!(Materializer::verify_fixture_dataset(&rows, &dataset).is_ok());
    dataset.verified_manifest_blake3 = [5; 32];
    assert!(matches!(
        Materializer::verify_fixture_dataset(&rows, &dataset),
        Err(MaterializationError::Integrity)
    ));
}

#[test]
fn corrections_need_the_authority_of_their_base() {
    let base = vec![row_of(fields())];
    let rows = vec![row_of(corrected())];
    let run = |authorized: [u8; 32], is_correction: bool| {
        Materializer::run_correction_fixture(
            rows.clone(),
            is_correction,
            &base,
            &[1; 32],
            &authorized,
            HOUR + 400,
            &dataset_of(&rows),
        )
        .map(|_| ())
    };
    assert_eq!(run([1; 32], true), Ok(()));
    assert_eq!(run([2; 32], true), Err(MaterializationError::InvalidCorrectionHistory));
    assert_eq!(run([1; 32], false), Err(MaterializationError::CorrectionAuthorityRequired));
    assert_eq!(
        Materializer::run_fixture(
            rows.clone(),
            true,
            MaterializationMode::LiveSimulation,
            Replay::Direct
        )
        .map(|_| ()),
        Err(MaterializationError::CorrectionAuthorityRequired)
    );
    assert_eq!(
        Materializer::authorize_correction(&base, &[1; 32], &[1; 32], &rows, HOUR + 400),
        Ok(())
    );
}

#[test]
fn roots_must_be_private() {
    let root = RootStatus { is_directory: true, owner: 5, effective_user: 5, mode: 0o700 };
    assert_eq!(validate_private_root(root), Ok(()));
    for unfit in [
        RootStatus { is_directory: false, ..root },
        RootStatus { owner: 6, ..root },
        RootStatus { mode: 0o750, ..root },
    ] {
        assert_eq!(validate_private_root(unfit), Err(MaterializationError::UnsafePath));
    }
    assert_eq!(validate_manifest_file(true, 100), Ok(()));
    assert!(validate_manifest_file(false, 100).is_err());
    assert!(validate_manifest_file(true, 1_048_577).is_err());
}

#[test]
fn plans_join_on_what_was_known() {
    let plan = PointInTimeTrainingPlan::try_new("predictions", "features_v1").unwrap();
    assert!(plan.sql().starts_with(
        "SELECT p.prediction_id, p.prediction_time_ns, f.* FROM predictions AS p JOIN features_v1"
    ));
    assert!(plan.sql().contains("f.finality_as_known_at_ns <= p.prediction_time_ns"));
    assert!(PointInTimeTrainingPlan::try_new("a; drop", "f").is_err());
    assert!(valid_sql_identifier("a_1"));
    assert!(!valid_sql_identifier("1a"));
    assert!(!valid_sql_identifier(""));
}

fn observation(datum: FeatureDatum, value_type: FeatureValueType) -> FeatureObservation {
    let source = || SourceId::new(
        SourceKind::Exchange,
        "binance".to_owned(),
        1,
        "exchange:binance:1".to_owned(),
    );
    FeatureObservation {
        feature_id: "absolute_spread".to_owned(),
        feature_version: FeatureVersion::new(1, 0, 0),
        entity: FeatureEntity::Asset(AssetId {
            namespace: AssetNamespace::Native,
            chain_id: "main".to_owned(),
            contract_or_mint: "native".to_owned(),
            canonical_symbol: "BTC".to_owned(),
            generation: 1,
        }),
        window_id: "tumbling_1s".to_owned(),
        resolution: DurationNanos::new(1_000_000_000),
        datum,
        value_type,
        event_time_start: UnixNanos::new(50),
        event_time_end: UnixNanos::new(100),
        as_known_at: UnixNanos::new(200),
        computed_at: UnixNanos::new(300),
        watermark: Some(UnixNanos::new(110)),
        finality_as_known_at: UnixNanos::new(150),
        finality_state: FinalityState::Final,
        revision: 1,
        source_coverage: SourceCoverage::try_new_partial(
            vec![source()],
            vec![SourceCoverageEntry::new(source(), SourceHealthState::Healthy)],
        )
        .unwrap(),
        quality_score: QualityScore::from_millionths(990_000).unwrap(),
        normalization_version: FeatureVersion::new(1, 0, 0),
        formula_hash: [0xab; 32],
        code_commit: "abc".to_owned(),
        lineage_hash: [0x01; 32],
    }
}

fn materialized(
    datum: FeatureDatum,
    value_type: FeatureValueType,
) -> Result<MaterializedFeatureRow, MaterializationError> {
    MaterializedFeatureRow::try_from_observation(
        &observation(datum, value_type),
        RowAuthority {
            venue: "binance",
            instrument_generation: 1,
            connection_epoch: 1,
            subscription_epoch: 1,
            wal_record_sequence: 1,
        },
        &RowTexts {
            entity_json: "{}".to_owned(),
            source_coverage_json: "{}".to_owned(),
            float_json: "0.25".to_owned(),
        },
        true,
    )
}

fn decimal(text: &str) -> FixedDecimal {
    FixedDecimal::parse_canonical(text.as_bytes()).unwrap()
}

#[test]
fn observations_are_stored_by_their_type() {
    let present = FeatureDatum::Present;
    let row = materialized(
        present(FeatureValue::FixedDecimal(decimal("-1.5"))),
        FeatureValueType::FixedDecimal,
    )
    .unwrap();
    assert_eq!(row.datum_json(), "\"-1.5\"");
    assert_eq!(row.fields().formula_hash, "ab".repeat(32));
    assert_eq!(row.fields().lineage_hash, "01".repeat(32));
    assert_eq!(row.fields().feature_version, "1.0.0");
    let row = materialized(
        present(FeatureValue::FixedDecimalMap(vec![
            (decimal("9"), decimal("4")),
            (decimal("10"), decimal("2")),
            (decimal("1.5"), decimal("-3")),
        ])),
        FeatureValueType::FixedDecimalMap,
    )
    .unwrap();
    assert_eq!(row.datum_json(), "{\"1.5\":\"-3\",\"10\":\"2\",\"9\":\"4\"}");
    let row = materialized(
        present(FeatureValue::Float64(FiniteF64::from_bits(0.25f64.to_bits()).unwrap())),
        FeatureValueType::Float64,
    )
    .unwrap();
    assert_eq!((row.datum_json(), row.float_bits()), ("0.25", Some(0.25f64.to_bits())));
    let row =
        materialized(present(FeatureValue::Integer(-7)), FeatureValueType::Integer).unwrap();
    assert_eq!(row.datum_json(), "-7");
    let row =
        materialized(present(FeatureValue::Boolean(true)), FeatureValueType::Boolean).unwrap();
    assert_eq!(row.datum_json(), "true");
    let row = materialized(
        FeatureDatum::Missing(MissingnessReason::Stale),
        FeatureValueType::Integer,
    )
    .unwrap();
    assert!(row.datum_json().starts_with("{\"missing\":\""));
    assert!(matches!(
        materialized(present(FeatureValue::Boolean(true)), FeatureValueType::Integer),
        Err(MaterializationError::InvalidRow)
    ));
}

#[test]
fn provisional_observations_are_not_stored() {
    let mut provisional = observation(
        FeatureDatum::Present(FeatureValue::Integer(1)),
        FeatureValueType::Integer,
    );
    provisional.finality_state = FinalityState::Provisional;
    let authority = RowAuthority {
        venue: "binance",
        instrument_generation: 1,
        connection_epoch: 1,
        subscription_epoch: 1,
        wal_record_sequence: 1,
    };
    let texts = RowTexts {
        entity_json: "{}".to_owned(),
        source_coverage_json: "{}".to_owned(),
        float_json: String::new(),
    };
    assert!(matches!(
        MaterializedFeatureRow::try_from_observation(&provisional, authority, &texts, true),
        Err(MaterializationError::UnfinalizedObservation)
    ));
}

fn lineage(hashes: Vec<[u8; 32]>, version: (u64, u64, u64)) -> Result<FeatureLineage, LineageError> {
    FeatureLineage::try_new(FeatureLineageInput {
        feature_id: "absolute_spread".to_owned(),
        feature_version: ParsedVersion {
            release: FeatureVersion::new(version.0, version.1, version.2),
            pre_release: String::new(),
            build: String::new(),
        },
        formula_hash: [1; 32],
        input_event_hashes: hashes,
        source_coverage_json: b"{}".to_vec(),
        code_commit: "abc".to_owned(),
    })
}

#[test]
fn lineages_ignore_the_order_of_events() {
    let one = lineage(vec![[2; 32], [1; 32]], (1, 0, 0)).unwrap();
    let other = lineage(vec![[1; 32], [2; 32]], (1, 0, 0)).unwrap();
    assert_eq!(*one.input_event_hashes(), vec![[1; 32], [2; 32]]);
    assert_eq!(one.digest(b"x", b"h", b"c"), other.digest(b"x", b"h", b"c"));
    assert!(one.digest(b"x", b"h", b"c") != one.digest(b"y", b"h", b"c"));
    assert_eq!(one.source_coverage_hash(), other.source_coverage_hash());
    assert!(matches!(
        lineage(vec![[1; 32], [1; 32]], (1, 0, 0)),
        Err(LineageError::DuplicateInputEvent)
    ));
    for hashes in [vec![[1; 32], [0; 32], [1; 32]], vec![[0; 32], [1; 32], [1; 32]]] {
        assert!(matches!(lineage(hashes, (1, 0, 0)), Err(LineageError::InvalidInput)));
    }
    assert!(matches!(lineage(Vec::new(), (1, 0, 0)), Err(LineageError::InvalidInput)));
    assert!(matches!(lineage(vec![[1; 32]], (0, 9, 0)), Err(LineageError::InvalidInput)));
}

fn wire(value: &str, value_type: FeatureValueType, sequence: u64) -> FixtureObservation {
    FixtureObservation {
        feature_id: format!("feature_{sequence}"),
        feature_version: "1.0.0".to_owned(),
        window_id: "tumbling_1s".to_owned(),
        resolution_ns: 1_000_000_000,
        value_type,
        value: Some(value.to_owned()),
        missingness_reason: None,
        event_time_start_ns: 50,
        event_time_end_ns: 100,
        as_known_at_ns: 200,
        computed_at_ns: 300,
        watermark_ns: Some(110),
        finality_as_known_at_ns: 150,
        finality_state: FinalityState::Final,
        revision: 1,
        quality_millionths: 990_000,
        formula_hash: "ab".repeat(32),
        input_event_hashes: vec!["01".repeat(32), "02".repeat(32)],
        wal_record_sequence: sequence,
    }
}

fn manifest() -> FixtureManifest {
    FixtureManifest {
        schema_version: 1,
        artifact_id: "fixtures/golden-replays/features-v1/manifest.toml".to_owned(),
        status: "implemented".to_owned(),
        local_only: true,
        maximum_observations: 3,
        dataset_version: 1,
        partition_schema_version: 1,
        feature_set_version: "1".to_owned(),
        parser_version: "1".to_owned(),
        normalizer_version: "1".to_owned(),
        normalization_version: "1.0.0".to_owned(),
        code_commit: "abc".to_owned(),
        venue: "binance".to_owned(),
        instrument_generation: 1,
        asset_namespace: AssetNamespace::Native,
        asset_chain_id: "main".to_owned(),
        asset_contract_or_mint: "native".to_owned(),
        asset_symbol: "BTC".to_owned(),
        asset_generation: 1,
        source_name: "binance".to_owned(),
        stream_name: "features".to_owned(),
        stream_id: 7,
        connection_epoch: 1,
        subscription_epoch: 1,
        wal_segment_id_hex: "0f".repeat(16),
        input_wal_segment_blake3: "0e".repeat(32),
        wal_start_offset: 0,
        wal_end_offset: 10,
        created_wall_time_ns: 400,
        correction: None,
        source: vec![FixtureSource {
            kind: SourceKind::Exchange,
            name: "binance".to_owned(),
            generation: 1,
            label: "exchange:binance:1".to_owned(),
            health: SourceHealthState::Healthy,
        }],
        observation: vec![
            wire("1.5", FeatureValueType::FixedDecimal, 1),
            wire("-12", FeatureValueType::Integer, 2),
            wire("true", FeatureValueType::Boolean, 3),
        ],
    }
}

fn texts() -> (FixtureTexts, Vec<ObservationTexts>) {
    let own = |mark: u8| ObservationTexts {
        feature_id: Ok(()),
        window_id: Ok(()),
        revision: Ok(()),
        float_bits: None,
        float_json: String::new(),
        feature_id_json: format!("\"feature_{mark}\"").into_bytes(),
        formula_hash_json: format!("\"{}\"", "ab".repeat(32)).into_bytes(),
        identities_accepted: true,
        verdict: Ok(()),
    };
    (
        FixtureTexts {
            asset_accepted: true,
            sources_accepted: true,
            code_revision: Ok(()),
            entity_json: "{}".to_owned(),
            source_coverage_json: "{}".to_owned(),
            source_coverage_bytes: b"{}".to_vec(),
            code_commit_json: b"\"abc\"".to_vec(),
        },
        vec![own(1), own(2), own(3)],
    )
}

#[test]
fn manifests_are_validated_whole() {
    assert_eq!(manifest().validate(true), Ok(()));
    assert_eq!(manifest().validate(false), Err(MaterializationError::InvalidManifest));
    let refused = |change: fn(&mut FixtureManifest)| {
        let mut manifest = manifest();
        change(&mut manifest);
        manifest.validate(true) == Err(MaterializationError::InvalidManifest)
    };
    assert!(refused(|manifest| manifest.schema_version = 2));
    assert!(refused(|manifest| manifest.artifact_id = "other.toml".to_owned()));
    assert!(refused(|manifest| manifest.local_only = false));
    assert!(refused(|manifest| manifest.maximum_observations = 2));
    assert!(refused(|manifest| manifest.normalization_version = "one".to_owned()));
    assert!(refused(|manifest| manifest.wal_segment_id_hex = "0f".to_owned()));
    assert!(refused(|manifest| manifest.wal_end_offset = 0));
    assert!(refused(|manifest| manifest.dataset_version = 2));
    assert!(refused(|manifest| manifest.source.clear()));
    assert!(refused(|manifest| manifest.observation[1].wal_record_sequence = 3));
    let mut correction = manifest();
    correction.dataset_version = 2;
    correction.correction = Some(FixtureCorrection {
        base_dataset_version: 1,
        known_at_ns: 500,
        reason: "late trade".to_owned(),
        provenance: "venue".to_owned(),
    });
    assert_eq!(correction.validate(true), Ok(()));
}

#[test]
fn rows_rest_on_sound_observations() {
    let (texts, mut own) = texts();
    own[1].verdict = Err(RegistryError::UnsoundObservation);
    let refused = Err(MaterializationError::Registry(RegistryError::UnsoundObservation));
    assert_eq!(manifest().rows(&texts, &own).map(|_| ()), refused);
    let mut provisional = manifest();
    provisional.observation[1].finality_state = FinalityState::Provisional;
    assert_eq!(provisional.rows(&texts, &own).map(|_| ()), refused);
    own[1].verdict = Ok(());
    assert_eq!(
        provisional.rows(&texts, &own).map(|_| ()),
        Err(MaterializationError::UnfinalizedObservation)
    );
}

#[test]
fn rows_rest_on_registered_identities() {
    let identity = RegistryError::InvalidIdentity;
    let refused = |texts: &FixtureTexts, own: &Vec<ObservationTexts>| {
        manifest().rows(texts, own).map(|_| ()).unwrap_err()
    };
    let (mut shared, own) = texts();
    shared.code_revision = Err(identity);
    assert_eq!(refused(&shared, &own), MaterializationError::Registry(identity));
    shared.sources_accepted = false;
    assert_eq!(refused(&shared, &own), MaterializationError::Domain);
    let (mut shared, own) = texts();
    shared.asset_accepted = false;
    assert_eq!(refused(&shared, &own), MaterializationError::Domain);
    let (shared, mut own) = texts();
    own[2].identities_accepted = false;
    assert_eq!(refused(&shared, &own), MaterializationError::InvalidRow);
    own[2].revision = Err(RegistryError::InvalidRevision);
    assert_eq!(
        refused(&shared, &own),
        MaterializationError::Registry(RegistryError::InvalidRevision)
    );
    own[2].window_id = Err(identity);
    assert_eq!(refused(&shared, &own), MaterializationError::Registry(identity));
    let mut nameless = manifest();
    nameless.observation[2].feature_version = "one".to_owned();
    assert_eq!(
        nameless.rows(&shared, &own).map(|_| ()),
        Err(MaterializationError::InvalidManifest)
    );
    own[2].feature_id = Err(identity);
    assert_eq!(
        nameless.rows(&shared, &own).map(|_| ()),
        Err(MaterializationError::Registry(identity))
    );
}

#[test]
fn manifests_become_rows() {
    let (texts, own) = texts();
    let rows = manifest().rows(&texts, &own).unwrap();
    assert_eq!(rows.len(), 3);
    assert_eq!(rows[0].datum_json(), "\"1.5\"");
    assert_eq!(rows[1].datum_json(), "-12");
    assert_eq!(rows[2].datum_json(), "true");
    assert_eq!(rows[0].feature_id(), "feature_1");
    assert!(rows[0].fields().lineage_hash != rows[1].fields().lineage_hash);
    let mut reversed = manifest();
    reversed.observation[0].input_event_hashes.reverse();
    let same = reversed.rows(&texts, &own).unwrap();
    assert_eq!(same[0].fields().lineage_hash, rows[0].fields().lineage_hash);
    let mut other = manifest();
    other.observation[0].input_event_hashes[0] = "03".repeat(32);
    let changed = other.rows(&texts, &own).unwrap();
    assert!(changed[0].fields().lineage_hash != rows[0].fields().lineage_hash);
    let mut bad = manifest();
    bad.observation[0].value = Some("1.50".to_owned());
    assert!(bad.rows(&texts, &own).is_err());
    let mut bad = manifest();
    bad.observation[0].formula_hash = "00".repeat(32);
    assert!(bad.rows(&texts, &own).is_err());
}

#[test]
fn datasets_are_bounded() {
    assert_eq!(
        materialization_policy(),
        DatasetPolicyInput {
            maximum_batch_rows: 4_096,
            maximum_batch_columns: 64,
            maximum_batch_bytes: 16 << 20,
            maximum_value_bytes: 1 << 20,
            maximum_schema_bytes: 256 << 10,
            maximum_schema_fields: 128,
            maximum_schema_depth: 16,
            maximum_writer_memory_bytes: 64 << 20,
            maximum_row_group_rows: 4_096,
            target_row_group_bytes: 16 << 20,
            maximum_file_bytes: 64 << 20,
            maximum_partition_bytes: 64 << 20,
            maximum_partition_rows: 4_096,
            maximum_active_fragments: 16,
            maximum_footer_bytes: 1 << 20,
            maximum_sealed_files: 16,
            reader_batch_rows: 256,
            maximum_correction_depth: 64,
        }
    );
}

#[test]
fn datasets_describe_what_they_hold() {
    let (texts, own) = texts();
    let manifest = manifest();
    let rows = manifest.rows(&texts, &own).unwrap();
    let correction = FixtureCorrection {
        base_dataset_version: 1,
        known_at_ns: 500,
        reason: "late trade".to_owned(),
        provenance: "venue".to_owned(),
    };
    let lineage = correction_lineage(&correction, &[0xa5; 32]).unwrap();
    assert_eq!(lineage.base_manifest_blake3, "a5".repeat(32));
    assert_eq!((lineage.base_dataset_version, lineage.known_at_ns), (1, 500));
    assert_eq!((lineage.reason.as_str(), lineage.provenance.as_str()), ("late trade", "venue"));
    let unversioned = FixtureCorrection { base_dataset_version: 0, ..correction };
    assert_eq!(
        correction_lineage(&unversioned, &[0xa5; 32]).map(|_| ()),
        Err(MaterializationError::InvalidManifest)
    );
    let metadata = dataset_metadata(&manifest, &rows, Some(lineage)).unwrap();
    assert_eq!(metadata.code_identity, "git_sha1:abc");
    assert_eq!(metadata.feature_version, "1");
    assert_eq!(metadata.source_coverage.len(), 1);
    let coverage = &metadata.source_coverage[0];
    assert_eq!((coverage.source_name.as_str(), coverage.stream_name.as_str()), ("binance", "features"));
    assert_eq!((coverage.first_record_sequence, coverage.last_record_sequence), (1, 3));
    assert!(metadata.correction_lineage.is_some());
    let id = batch_id(&manifest, &rows).unwrap();
    assert_eq!(id.source_coverage.last_record_sequence, 3);
    assert_eq!(id.input_wal_segment_blake3, "0e".repeat(32));
    assert_eq!((id.wal_start_offset, id.wal_end_offset), (0, 10));
    assert_eq!(
        dataset_metadata(&manifest, &Vec::new(), None).map(|_| ()),
        Err(MaterializationError::InvalidRow)
    );
    assert_eq!(
        batch_id(&manifest, &Vec::new()).map(|_| ()),
        Err(MaterializationError::InvalidRow)
    );
}

#[test]
fn logs_describe_what_they_hold() {
    let (texts, own) = texts();
    let mut manifest = manifest();
    let rows = manifest.rows(&texts, &own).unwrap();
    let segment = log_segment(&manifest).unwrap();
    assert_eq!(segment.segment_id, [0x0f; 16]);
    assert_eq!(segment.created_wall_time_ns, 400);
    assert_eq!(segment.schema, "feature-observation-v1");
    assert_eq!(segment.dataset, "golden-features-v1");
    assert_eq!(segment.producer, "feature-engine-v1");
    assert_eq!(segment.stream.stream_id, 7);
    assert_eq!(segment.stream.stream_name, "features");
    let records = log_records(&manifest, &rows);
    assert_eq!(records.len(), 3);
    assert_eq!(records[1].metadata, record_metadata(&rows[1], 7, 1));
    assert_eq!(records[1].payload, rows[1].fields().to_json());
    manifest.wal_segment_id_hex = "0f".to_owned();
    assert_eq!(
        log_segment(&manifest).map(|_| ()),
        Err(MaterializationError::InvalidManifest)
    );
}

#[test]
fn batches_are_built_where_their_texts_fit() {
    let (texts, own) = texts();
    let rows = manifest().rows(&texts, &own).unwrap();
    let batch = fitting_batch(&rows).unwrap();
    let read = rows_from_batch(&batch).unwrap();
    assert_eq!(read.len(), 3);
    for (stored, row) in read.iter().zip(&rows) {
        assert_eq!(stored.to_json(), row.fields().to_json());
    }
}

#[test]
fn integers_are_read_in_full() {
    assert_eq!(parse_integer("-12"), Some(-12));
    assert_eq!(parse_integer("+7"), Some(7));
    assert_eq!(parse_integer("007"), Some(7));
    assert_eq!(parse_integer("9223372036854775807"), Some(i64::MAX));
    assert_eq!(parse_integer("-9223372036854775808"), Some(i64::MIN));
    assert_eq!(parse_integer("9223372036854775808"), None);
    assert_eq!(parse_integer(""), None);
    assert_eq!(parse_integer("-"), None);
    assert_eq!(parse_integer("1.0"), None);
}
