//! One stored observation of a feature.

use vstd::prelude::*;

use super::MaterializationError;
use crate::decimal::{denotes_at, digits_ascii, put_digits, FixedDecimal};
use crate::digest::{labelled, put_bytes, utf8};
use crate::domain::{
    finite_bits, lemma_utf8_injective, FinalityState, FiniteF64, MissingnessReason,
};
use crate::ordering::{
    byte_rank, bytes_precede, lemma_byte_rank_concat, lemma_rank_concat, lemma_rank_order_is_total,
    rank_precedes, Ranked,
};
use crate::registry::{
    is_release, same_text, valid_release_version, version_parts, FeatureValueType,
};
use crate::wire::{
    canonical_json, decode_json, entry_views, integer_ascii, is_canonical_json, json_decoded,
    json_quoted, put_integer, quoted_json, text_view, DecodedJson, JsonView,
};

verus! {

/// Most entries of a stored map of decimals. This stands for
/// `feature_registry::MAX_FIXED_DECIMAL_MAP_ENTRIES`; it is written down here, not read from there,
/// and has to follow it.
pub const MAX_FIXED_DECIMAL_MAP_ENTRIES: usize = 100_000;

/// The columns of a stored observation.
#[derive(Debug)]
pub struct RowFields {
    pub effective_event_time_ns: i64,
    pub exchange_event_time_ns: Option<i64>,
    pub receive_wall_time_ns: i64,
    pub event_type: String,
    pub venue: String,
    pub instrument_generation: u32,
    pub connection_epoch: u64,
    pub subscription_epoch: u64,
    pub wal_record_sequence: u64,
    pub feature_id: String,
    pub feature_version: String,
    pub entity_json: String,
    pub window_id: String,
    pub resolution_ns: u64,
    pub datum_json: String,
    pub value_type: String,
    pub event_time_start_ns: i64,
    pub event_time_end_ns: i64,
    pub as_known_at_ns: i64,
    pub computed_at_ns: i64,
    pub watermark_ns: Option<i64>,
    pub finality_as_known_at_ns: i64,
    pub finality_state: String,
    pub revision: u32,
    pub source_coverage_json: String,
    pub quality_millionths: u32,
    pub normalization_version: String,
    pub formula_hash: String,
    pub code_commit: String,
    pub lineage_hash: String,
    pub float_bits: Option<u64>,
}

/// The contents of [`RowFields`].
pub struct RowView {
    pub effective_event_time_ns: i64,
    pub exchange_event_time_ns: Option<i64>,
    pub receive_wall_time_ns: i64,
    pub event_type: Seq<char>,
    pub venue: Seq<char>,
    pub instrument_generation: u32,
    pub connection_epoch: u64,
    pub subscription_epoch: u64,
    pub wal_record_sequence: u64,
    pub feature_id: Seq<char>,
    pub feature_version: Seq<char>,
    pub entity_json: Seq<char>,
    pub window_id: Seq<char>,
    pub resolution_ns: u64,
    pub datum_json: Seq<char>,
    pub value_type: Seq<char>,
    pub event_time_start_ns: i64,
    pub event_time_end_ns: i64,
    pub as_known_at_ns: i64,
    pub computed_at_ns: i64,
    pub watermark_ns: Option<i64>,
    pub finality_as_known_at_ns: i64,
    pub finality_state: Seq<char>,
    pub revision: u32,
    pub source_coverage_json: Seq<char>,
    pub quality_millionths: u32,
    pub normalization_version: Seq<char>,
    pub formula_hash: Seq<char>,
    pub code_commit: Seq<char>,
    pub lineage_hash: Seq<char>,
    pub float_bits: Option<u64>,
}

impl View for RowFields {
    type V = RowView;

    open spec fn view(&self) -> RowView {
        RowView {
            effective_event_time_ns: self.effective_event_time_ns,
            exchange_event_time_ns: self.exchange_event_time_ns,
            receive_wall_time_ns: self.receive_wall_time_ns,
            event_type: self.event_type@,
            venue: self.venue@,
            instrument_generation: self.instrument_generation,
            connection_epoch: self.connection_epoch,
            subscription_epoch: self.subscription_epoch,
            wal_record_sequence: self.wal_record_sequence,
            feature_id: self.feature_id@,
            feature_version: self.feature_version@,
            entity_json: self.entity_json@,
            window_id: self.window_id@,
            resolution_ns: self.resolution_ns,
            datum_json: self.datum_json@,
            value_type: self.value_type@,
            event_time_start_ns: self.event_time_start_ns,
            event_time_end_ns: self.event_time_end_ns,
            as_known_at_ns: self.as_known_at_ns,
            computed_at_ns: self.computed_at_ns,
            watermark_ns: self.watermark_ns,
            finality_as_known_at_ns: self.finality_as_known_at_ns,
            finality_state: self.finality_state@,
            revision: self.revision,
            source_coverage_json: self.source_coverage_json@,
            quality_millionths: self.quality_millionths,
            normalization_version: self.normalization_version@,
            formula_hash: self.formula_hash@,
            code_commit: self.code_commit@,
            lineage_hash: self.lineage_hash@,
            float_bits: self.float_bits,
        }
    }
}

impl Clone for RowFields {
    fn clone(&self) -> (copy: Self)
        ensures
            copy@ == self@,
    {
        RowFields {
            effective_event_time_ns: self.effective_event_time_ns,
            exchange_event_time_ns: self.exchange_event_time_ns,
            receive_wall_time_ns: self.receive_wall_time_ns,
            event_type: self.event_type.clone(),
            venue: self.venue.clone(),
            instrument_generation: self.instrument_generation,
            connection_epoch: self.connection_epoch,
            subscription_epoch: self.subscription_epoch,
            wal_record_sequence: self.wal_record_sequence,
            feature_id: self.feature_id.clone(),
            feature_version: self.feature_version.clone(),
            entity_json: self.entity_json.clone(),
            window_id: self.window_id.clone(),
            resolution_ns: self.resolution_ns,
            datum_json: self.datum_json.clone(),
            value_type: self.value_type.clone(),
            event_time_start_ns: self.event_time_start_ns,
            event_time_end_ns: self.event_time_end_ns,
            as_known_at_ns: self.as_known_at_ns,
            computed_at_ns: self.computed_at_ns,
            watermark_ns: self.watermark_ns,
            finality_as_known_at_ns: self.finality_as_known_at_ns,
            finality_state: self.finality_state.clone(),
            revision: self.revision,
            source_coverage_json: self.source_coverage_json.clone(),
            quality_millionths: self.quality_millionths,
            normalization_version: self.normalization_version.clone(),
            formula_hash: self.formula_hash.clone(),
            code_commit: self.code_commit.clone(),
            lineage_hash: self.lineage_hash.clone(),
            float_bits: self.float_bits,
        }
    }
}

fn same_optional_i64(left: Option<i64>, right: Option<i64>) -> (answer: bool)
    ensures
        answer == (left == right),
{
    match (left, right) {
        (Some(left), Some(right)) => left == right,
        (None, None) => true,
        _ => false,
    }
}

fn same_optional_u64(left: Option<u64>, right: Option<u64>) -> (answer: bool)
    ensures
        answer == (left == right),
{
    match (left, right) {
        (Some(left), Some(right)) => left == right,
        (None, None) => true,
        _ => false,
    }
}

impl RowFields {
    /// Whether every column is the same.
    pub fn same(&self, other: &Self) -> (answer: bool)
        ensures
            answer == (self@ == other@),
    {
        self.effective_event_time_ns == other.effective_event_time_ns
            && same_optional_i64(self.exchange_event_time_ns, other.exchange_event_time_ns)
            && self.receive_wall_time_ns == other.receive_wall_time_ns
            && self.event_type == other.event_type
            && self.venue == other.venue
            && self.instrument_generation == other.instrument_generation
            && self.connection_epoch == other.connection_epoch
            && self.subscription_epoch == other.subscription_epoch
            && self.wal_record_sequence == other.wal_record_sequence
            && self.feature_id == other.feature_id
            && self.feature_version == other.feature_version
            && self.entity_json == other.entity_json
            && self.window_id == other.window_id
            && self.resolution_ns == other.resolution_ns
            && self.datum_json == other.datum_json
            && self.value_type == other.value_type
            && self.event_time_start_ns == other.event_time_start_ns
            && self.event_time_end_ns == other.event_time_end_ns
            && self.as_known_at_ns == other.as_known_at_ns
            && self.computed_at_ns == other.computed_at_ns
            && same_optional_i64(self.watermark_ns, other.watermark_ns)
            && self.finality_as_known_at_ns == other.finality_as_known_at_ns
            && self.finality_state == other.finality_state
            && self.revision == other.revision
            && self.source_coverage_json == other.source_coverage_json
            && self.quality_millionths == other.quality_millionths
            && self.normalization_version == other.normalization_version
            && self.formula_hash == other.formula_hash
            && self.code_commit == other.code_commit
            && self.lineage_hash == other.lineage_hash
            && same_optional_u64(self.float_bits, other.float_bits)
    }
}

/// The JSON text of a number that may be absent.
pub open spec fn optional_ascii(value: Option<int>) -> Seq<u8> {
    match value {
        Some(value) => integer_ascii(value),
        None => utf8("null"@),
    }
}

pub open spec fn widened_i64(value: Option<i64>) -> Option<int> {
    match value {
        Some(value) => Some(value as int),
        None => None,
    }
}

pub open spec fn widened_u64(value: Option<u64>) -> Option<int> {
    match value {
        Some(value) => Some(value as int),
        None => None,
    }
}

fn put_optional_i64(buffer: &mut Vec<u8>, value: Option<i64>)
    ensures
        final(buffer)@ == old(buffer)@ + optional_ascii(widened_i64(value)),
{
    match value {
        Some(value) => put_integer(buffer, value),
        None => put_bytes(buffer, "null".as_bytes()),
    }
}

fn put_optional_u64(buffer: &mut Vec<u8>, value: Option<u64>)
    ensures
        final(buffer)@ == old(buffer)@ + optional_ascii(widened_u64(value)),
{
    match value {
        Some(value) => put_digits(buffer, value as u128),
        None => put_bytes(buffer, "null".as_bytes()),
    }
}

pub(crate) fn put_quoted(buffer: &mut Vec<u8>, text: &str)
    ensures
        final(buffer)@ == old(buffer)@ + utf8(json_quoted(text@)),
{
    let quoted = quoted_json(text);
    put_bytes(buffer, quoted.as_str().as_bytes());
}

/// A row as a JSON object, its columns in order.
pub open spec fn row_json(row: RowView) -> Seq<u8> {
    utf8("{\"effective_event_time_ns\":"@)
        + integer_ascii(row.effective_event_time_ns as int)
        + utf8(",\"exchange_event_time_ns\":"@)
        + optional_ascii(widened_i64(row.exchange_event_time_ns))
        + utf8(",\"receive_wall_time_ns\":"@)
        + integer_ascii(row.receive_wall_time_ns as int)
        + utf8(",\"event_type\":"@)
        + utf8(json_quoted(row.event_type))
        + utf8(",\"venue\":"@)
        + utf8(json_quoted(row.venue))
        + utf8(",\"instrument_generation\":"@)
        + digits_ascii(row.instrument_generation as nat)
        + utf8(",\"connection_epoch\":"@)
        + digits_ascii(row.connection_epoch as nat)
        + utf8(",\"subscription_epoch\":"@)
        + digits_ascii(row.subscription_epoch as nat)
        + utf8(",\"wal_record_sequence\":"@)
        + digits_ascii(row.wal_record_sequence as nat)
        + utf8(",\"feature_id\":"@)
        + utf8(json_quoted(row.feature_id))
        + utf8(",\"feature_version\":"@)
        + utf8(json_quoted(row.feature_version))
        + utf8(",\"entity_json\":"@)
        + utf8(json_quoted(row.entity_json))
        + utf8(",\"window_id\":"@)
        + utf8(json_quoted(row.window_id))
        + utf8(",\"resolution_ns\":"@)
        + digits_ascii(row.resolution_ns as nat)
        + utf8(",\"datum_json\":"@)
        + utf8(json_quoted(row.datum_json))
        + utf8(",\"value_type\":"@)
        + utf8(json_quoted(row.value_type))
        + utf8(",\"event_time_start_ns\":"@)
        + integer_ascii(row.event_time_start_ns as int)
        + utf8(",\"event_time_end_ns\":"@)
        + integer_ascii(row.event_time_end_ns as int)
        + utf8(",\"as_known_at_ns\":"@)
        + integer_ascii(row.as_known_at_ns as int)
        + utf8(",\"computed_at_ns\":"@)
        + integer_ascii(row.computed_at_ns as int)
        + utf8(",\"watermark_ns\":"@)
        + optional_ascii(widened_i64(row.watermark_ns))
        + utf8(",\"finality_as_known_at_ns\":"@)
        + integer_ascii(row.finality_as_known_at_ns as int)
        + utf8(",\"finality_state\":"@)
        + utf8(json_quoted(row.finality_state))
        + utf8(",\"revision\":"@)
        + digits_ascii(row.revision as nat)
        + utf8(",\"source_coverage_json\":"@)
        + utf8(json_quoted(row.source_coverage_json))
        + utf8(",\"quality_millionths\":"@)
        + digits_ascii(row.quality_millionths as nat)
        + utf8(",\"normalization_version\":"@)
        + utf8(json_quoted(row.normalization_version))
        + utf8(",\"formula_hash\":"@)
        + utf8(json_quoted(row.formula_hash))
        + utf8(",\"code_commit\":"@)
        + utf8(json_quoted(row.code_commit))
        + utf8(",\"lineage_hash\":"@)
        + utf8(json_quoted(row.lineage_hash))
        + utf8(",\"float_bits\":"@)
        + optional_ascii(widened_u64(row.float_bits))
        + utf8("}"@)
}

impl RowFields {
    /// The row as a JSON object.
    pub fn to_json(&self) -> (bytes: Vec<u8>)
        ensures
            bytes@ == row_json(self@),
    {
        let mut buffer = labelled("{\"effective_event_time_ns\":");
        put_integer(&mut buffer, self.effective_event_time_ns);
        put_bytes(&mut buffer, ",\"exchange_event_time_ns\":".as_bytes());
        put_optional_i64(&mut buffer, self.exchange_event_time_ns);
        put_bytes(&mut buffer, ",\"receive_wall_time_ns\":".as_bytes());
        put_integer(&mut buffer, self.receive_wall_time_ns);
        put_bytes(&mut buffer, ",\"event_type\":".as_bytes());
        put_quoted(&mut buffer, self.event_type.as_str());
        put_bytes(&mut buffer, ",\"venue\":".as_bytes());
        put_quoted(&mut buffer, self.venue.as_str());
        put_bytes(&mut buffer, ",\"instrument_generation\":".as_bytes());
        put_digits(&mut buffer, self.instrument_generation as u128);
        put_bytes(&mut buffer, ",\"connection_epoch\":".as_bytes());
        put_digits(&mut buffer, self.connection_epoch as u128);
        put_bytes(&mut buffer, ",\"subscription_epoch\":".as_bytes());
        put_digits(&mut buffer, self.subscription_epoch as u128);
        put_bytes(&mut buffer, ",\"wal_record_sequence\":".as_bytes());
        put_digits(&mut buffer, self.wal_record_sequence as u128);
        put_bytes(&mut buffer, ",\"feature_id\":".as_bytes());
        put_quoted(&mut buffer, self.feature_id.as_str());
        put_bytes(&mut buffer, ",\"feature_version\":".as_bytes());
        put_quoted(&mut buffer, self.feature_version.as_str());
        put_bytes(&mut buffer, ",\"entity_json\":".as_bytes());
        put_quoted(&mut buffer, self.entity_json.as_str());
        put_bytes(&mut buffer, ",\"window_id\":".as_bytes());
        put_quoted(&mut buffer, self.window_id.as_str());
        put_bytes(&mut buffer, ",\"resolution_ns\":".as_bytes());
        put_digits(&mut buffer, self.resolution_ns as u128);
        put_bytes(&mut buffer, ",\"datum_json\":".as_bytes());
        put_quoted(&mut buffer, self.datum_json.as_str());
        put_bytes(&mut buffer, ",\"value_type\":".as_bytes());
        put_quoted(&mut buffer, self.value_type.as_str());
        put_bytes(&mut buffer, ",\"event_time_start_ns\":".as_bytes());
        put_integer(&mut buffer, self.event_time_start_ns);
        put_bytes(&mut buffer, ",\"event_time_end_ns\":".as_bytes());
        put_integer(&mut buffer, self.event_time_end_ns);
        put_bytes(&mut buffer, ",\"as_known_at_ns\":".as_bytes());
        put_integer(&mut buffer, self.as_known_at_ns);
        put_bytes(&mut buffer, ",\"computed_at_ns\":".as_bytes());
        put_integer(&mut buffer, self.computed_at_ns);
        put_bytes(&mut buffer, ",\"watermark_ns\":".as_bytes());
        put_optional_i64(&mut buffer, self.watermark_ns);
        put_bytes(&mut buffer, ",\"finality_as_known_at_ns\":".as_bytes());
        put_integer(&mut buffer, self.finality_as_known_at_ns);
        put_bytes(&mut buffer, ",\"finality_state\":".as_bytes());
        put_quoted(&mut buffer, self.finality_state.as_str());
        put_bytes(&mut buffer, ",\"revision\":".as_bytes());
        put_digits(&mut buffer, self.revision as u128);
        put_bytes(&mut buffer, ",\"source_coverage_json\":".as_bytes());
        put_quoted(&mut buffer, self.source_coverage_json.as_str());
        put_bytes(&mut buffer, ",\"quality_millionths\":".as_bytes());
        put_digits(&mut buffer, self.quality_millionths as u128);
        put_bytes(&mut buffer, ",\"normalization_version\":".as_bytes());
        put_quoted(&mut buffer, self.normalization_version.as_str());
        put_bytes(&mut buffer, ",\"formula_hash\":".as_bytes());
        put_quoted(&mut buffer, self.formula_hash.as_str());
        put_bytes(&mut buffer, ",\"code_commit\":".as_bytes());
        put_quoted(&mut buffer, self.code_commit.as_str());
        put_bytes(&mut buffer, ",\"lineage_hash\":".as_bytes());
        put_quoted(&mut buffer, self.lineage_hash.as_str());
        put_bytes(&mut buffer, ",\"float_bits\":".as_bytes());
        put_optional_u64(&mut buffer, self.float_bits);
        put_bytes(&mut buffer, "}".as_bytes());
        buffer
    }
}

/// The name under which a reason for absence is stored.
pub open spec fn stored_reason(reason: MissingnessReason) -> Seq<char> {
    match reason {
        MissingnessReason::NotListed => "not_listed"@,
        MissingnessReason::SourceNotSupported => "source_not_supported"@,
        MissingnessReason::SourceDisconnected => "source_disconnected"@,
        MissingnessReason::SequenceGap => "sequence_gap"@,
        MissingnessReason::Stale => "stale"@,
        MissingnessReason::InsufficientHistory => "insufficient_history"@,
        MissingnessReason::WindowNotFinal => "window_not_final"@,
        MissingnessReason::BelowLiquidityThreshold => "below_liquidity_threshold"@,
        MissingnessReason::VendorRevisionPending => "vendor_revision_pending"@,
        MissingnessReason::ModelNotApplicable => "model_not_applicable"@,
        MissingnessReason::PrivacyOrLicenseRestriction => "privacy_or_license_restriction"@,
        MissingnessReason::Unknown => "unknown"@,
    }
}

pub fn stored_reason_name(reason: MissingnessReason) -> (name: &'static str)
    ensures
        name@ == stored_reason(reason),
{
    match reason {
        MissingnessReason::NotListed => "not_listed",
        MissingnessReason::SourceNotSupported => "source_not_supported",
        MissingnessReason::SourceDisconnected => "source_disconnected",
        MissingnessReason::SequenceGap => "sequence_gap",
        MissingnessReason::Stale => "stale",
        MissingnessReason::InsufficientHistory => "insufficient_history",
        MissingnessReason::WindowNotFinal => "window_not_final",
        MissingnessReason::BelowLiquidityThreshold => "below_liquidity_threshold",
        MissingnessReason::VendorRevisionPending => "vendor_revision_pending",
        MissingnessReason::ModelNotApplicable => "model_not_applicable",
        MissingnessReason::PrivacyOrLicenseRestriction => "privacy_or_license_restriction",
        MissingnessReason::Unknown => "unknown",
    }
}

/// The text names a reason for absence.
pub open spec fn is_reason_name(name: Seq<char>) -> bool {
    exists|reason: MissingnessReason| stored_reason(reason) == name
}

/// Whether a text names a reason for absence.
pub fn valid_missingness_name(name: &str) -> (answer: bool)
    ensures
        answer == is_reason_name(name@),
{
    let reasons: [MissingnessReason; 12] = [
        MissingnessReason::NotListed,
        MissingnessReason::SourceNotSupported,
        MissingnessReason::SourceDisconnected,
        MissingnessReason::SequenceGap,
        MissingnessReason::Stale,
        MissingnessReason::InsufficientHistory,
        MissingnessReason::WindowNotFinal,
        MissingnessReason::BelowLiquidityThreshold,
        MissingnessReason::VendorRevisionPending,
        MissingnessReason::ModelNotApplicable,
        MissingnessReason::PrivacyOrLicenseRestriction,
        MissingnessReason::Unknown,
    ];
    let mut i: usize = 0;
    while i < 12
        invariant
            i <= 12,
            reasons@ == seq![
                MissingnessReason::NotListed,
                MissingnessReason::SourceNotSupported,
                MissingnessReason::SourceDisconnected,
                MissingnessReason::SequenceGap,
                MissingnessReason::Stale,
                MissingnessReason::InsufficientHistory,
                MissingnessReason::WindowNotFinal,
                MissingnessReason::BelowLiquidityThreshold,
                MissingnessReason::VendorRevisionPending,
                MissingnessReason::ModelNotApplicable,
                MissingnessReason::PrivacyOrLicenseRestriction,
                MissingnessReason::Unknown,
            ],
            forall|k: int| 0 <= k < i ==> stored_reason(#[trigger] reasons@[k]) != name@,
        decreases 12 - i,
    {
        if same_text(stored_reason_name(reasons[i]), name) {
            return true;
        }
        i += 1;
    }
    proof {
        if is_reason_name(name@) {
            let reason = choose|reason: MissingnessReason| stored_reason(reason) == name@;
            match reason {
                MissingnessReason::NotListed => assert(reasons@[0] == reason),
                MissingnessReason::SourceNotSupported => assert(reasons@[1] == reason),
                MissingnessReason::SourceDisconnected => assert(reasons@[2] == reason),
                MissingnessReason::SequenceGap => assert(reasons@[3] == reason),
                MissingnessReason::Stale => assert(reasons@[4] == reason),
                MissingnessReason::InsufficientHistory => assert(reasons@[5] == reason),
                MissingnessReason::WindowNotFinal => assert(reasons@[6] == reason),
                MissingnessReason::BelowLiquidityThreshold => assert(reasons@[7] == reason),
                MissingnessReason::VendorRevisionPending => assert(reasons@[8] == reason),
                MissingnessReason::ModelNotApplicable => assert(reasons@[9] == reason),
                MissingnessReason::PrivacyOrLicenseRestriction => assert(reasons@[10] == reason),
                MissingnessReason::Unknown => assert(reasons@[11] == reason),
            }
        }
    }
    false
}

/// The name under which a value type is stored.
pub open spec fn stored_type(value_type: FeatureValueType) -> Seq<char> {
    match value_type {
        FeatureValueType::FixedDecimal => "fixed_decimal"@,
        FeatureValueType::FixedDecimalMap => "fixed_decimal_map"@,
        FeatureValueType::Float64 => "float64"@,
        FeatureValueType::Integer => "integer"@,
        FeatureValueType::Boolean => "boolean"@,
    }
}

pub fn value_type_name(value_type: FeatureValueType) -> (name: &'static str)
    ensures
        name@ == stored_type(value_type),
{
    match value_type {
        FeatureValueType::FixedDecimal => "fixed_decimal",
        FeatureValueType::FixedDecimalMap => "fixed_decimal_map",
        FeatureValueType::Float64 => "float64",
        FeatureValueType::Integer => "integer",
        FeatureValueType::Boolean => "boolean",
    }
}

/// The value type of a stored name, if it is one.
pub open spec fn type_named(name: Seq<char>) -> Option<FeatureValueType> {
    if name == "fixed_decimal"@ {
        Some(FeatureValueType::FixedDecimal)
    } else if name == "fixed_decimal_map"@ {
        Some(FeatureValueType::FixedDecimalMap)
    } else if name == "float64"@ {
        Some(FeatureValueType::Float64)
    } else if name == "integer"@ {
        Some(FeatureValueType::Integer)
    } else if name == "boolean"@ {
        Some(FeatureValueType::Boolean)
    } else {
        None
    }
}

pub fn value_type_of(name: &str) -> (value_type: Option<FeatureValueType>)
    ensures
        value_type == type_named(name@),
{
    if same_text(name, "fixed_decimal") {
        Some(FeatureValueType::FixedDecimal)
    } else if same_text(name, "fixed_decimal_map") {
        Some(FeatureValueType::FixedDecimalMap)
    } else if same_text(name, "float64") {
        Some(FeatureValueType::Float64)
    } else if same_text(name, "integer") {
        Some(FeatureValueType::Integer)
    } else if same_text(name, "boolean") {
        Some(FeatureValueType::Boolean)
    } else {
        None
    }
}

/// A value type is read back from its stored name.
pub proof fn lemma_value_types_read_back(value_type: FeatureValueType)
    ensures
        type_named(stored_type(value_type)) == Some(value_type),
{
    reveal_strlit("fixed_decimal");
    reveal_strlit("fixed_decimal_map");
    reveal_strlit("float64");
    reveal_strlit("integer");
    reveal_strlit("boolean");
    assert("fixed_decimal"@.len() == 13);
    assert("fixed_decimal_map"@.len() == 17);
    assert("float64"@[0] == 'f');
    assert("integer"@[0] == 'i');
    assert("boolean"@[0] == 'b');
    assert("float64"@.len() == 7);
}

/// The name under which a finality is stored.
pub open spec fn stored_finality(finality: FinalityState) -> Seq<char> {
    match finality {
        FinalityState::Provisional => "provisional"@,
        FinalityState::Final => "final"@,
        FinalityState::Corrected => "corrected"@,
        FinalityState::Invalid => "invalid"@,
    }
}

pub fn finality_name(finality: FinalityState) -> (name: &'static str)
    ensures
        name@ == stored_finality(finality),
{
    match finality {
        FinalityState::Provisional => "provisional",
        FinalityState::Final => "final",
        FinalityState::Corrected => "corrected",
        FinalityState::Invalid => "invalid",
    }
}

/// Sixty-four lower-case hexadecimal digits, not all of them zero.
pub open spec fn is_lower_hash(text: Seq<u8>) -> bool {
    &&& text.len() == 64
    &&& forall|i: int|
        0 <= i < text.len() ==> 48 <= #[trigger] text[i] <= 57 || 97 <= text[i] <= 102
    &&& exists|i: int| 0 <= i < text.len() && #[trigger] text[i] != 48
}

/// Whether a text is a stored digest.
pub fn valid_lower_hash(text: &str) -> (answer: bool)
    ensures
        answer == is_lower_hash(utf8(text@)),
{
    let bytes = text.as_bytes();
    if bytes.len() != 64 {
        return false;
    }
    let mut some_digit: bool = false;
    let mut i: usize = 0;
    while i < bytes.len()
        invariant
            i <= bytes@.len() == 64,
            bytes@ == utf8(text@),
            forall|k: int| 0 <= k < i ==> 48 <= #[trigger] bytes@[k] <= 57 || 97 <= bytes@[k] <= 102,
            some_digit == exists|k: int| 0 <= k < i && #[trigger] bytes@[k] != 48,
        decreases bytes.len() - i,
    {
        let byte: u8 = bytes[i];
        if !((48 <= byte && byte <= 57) || (97 <= byte && byte <= 102)) {
            return false;
        }
        if byte != 48 {
            proof {
                assert(bytes@[i as int] != 48);
            }
            some_digit = true;
        }
        i += 1;
    }
    some_digit
}

/// The text is a canonical decimal.
pub open spec fn is_decimal_text(text: Seq<char>) -> bool {
    exists|point: int| denotes_at(utf8(text), point)
}

fn valid_decimal(text: &str) -> (answer: bool)
    ensures
        answer == is_decimal_text(text@),
{
    let bytes = text.as_bytes();
    let parsed = FixedDecimal::parse_canonical(bytes);
    proof {
        assert(bytes@ == utf8(text@));
        if is_decimal_text(text@) {
            let point = choose|point: int| denotes_at(utf8(text@), point);
            assert(denotes_at(bytes@, point));
        }
    }
    parsed.is_ok()
}

/// The object says only why a value is missing.
pub open spec fn says_missing(entries: Option<Seq<(Seq<char>, Option<Seq<char>>)>>) -> bool {
    match entries {
        Some(entries) => entries.len() == 1 && entries[0].0 == "missing"@ && entries[0].1 is Some
            && is_reason_name(entries[0].1->Some_0),
        None => false,
    }
}

/// Every key and every value of an object is a decimal.
pub open spec fn are_decimals(entries: Seq<(Seq<char>, Option<Seq<char>>)>) -> bool {
    forall|i: int|
        0 <= i < entries.len() ==> is_decimal_text((#[trigger] entries[i]).0) && entries[i].1
            is Some && is_decimal_text(entries[i].1->Some_0)
}

/// What was decoded is a datum of the type, or an absence, and the bit pattern goes with it.
pub open spec fn datum_is_stored(
    value_type: Option<FeatureValueType>,
    float_bits: Option<u64>,
    decoded: Option<JsonView>,
) -> bool {
    match decoded {
        None => false,
        Some(value) => if says_missing(value.entries) {
            float_bits is None
        } else {
            match value_type {
                Some(FeatureValueType::FixedDecimal) => float_bits is None && value.text is Some
                    && is_decimal_text(value.text->Some_0),
                Some(FeatureValueType::FixedDecimalMap) => float_bits is None && value.entries
                    is Some && value.entries->Some_0.len() <= MAX_FIXED_DECIMAL_MAP_ENTRIES
                    && are_decimals(value.entries->Some_0),
                Some(FeatureValueType::Float64) => value.number_bits is Some && finite_bits(
                    value.number_bits->Some_0,
                ) && float_bits == value.number_bits,
                Some(FeatureValueType::Integer) => float_bits is None && value.integer is Some,
                Some(FeatureValueType::Boolean) => float_bits is None && value.boolean is Some,
                None => false,
            }
        },
    }
}

fn entries_say_missing(entries: &Option<Vec<(String, Option<String>)>>) -> (answer: bool)
    ensures
        answer == says_missing(
            match *entries {
                Some(entries) => Some(entry_views(entries@)),
                None => None,
            },
        ),
{
    match entries {
        None => false,
        Some(entries) => {
            if entries.len() != 1 {
                return false;
            }
            proof {
                assert(entry_views(entries@)[0] == (entries@[0].0@, text_view(entries@[0].1)));
            }
            same_text(entries[0].0.as_str(), "missing") && match &entries[0].1 {
                Some(reason) => valid_missingness_name(reason.as_str()),
                None => false,
            }
        },
    }
}

fn entries_are_decimals(entries: &Vec<(String, Option<String>)>) -> (answer: bool)
    ensures
        answer == are_decimals(entry_views(entries@)),
{
    let ghost views = entry_views(entries@);
    let mut i: usize = 0;
    while i < entries.len()
        invariant
            i <= entries@.len(),
            views == entry_views(entries@),
            forall|k: int|
                0 <= k < i ==> is_decimal_text((#[trigger] views[k]).0) && views[k].1 is Some
                    && is_decimal_text(views[k].1->Some_0),
        decreases entries.len() - i,
    {
        proof {
            assert(views[i as int] == (entries@[i as int].0@, text_view(entries@[i as int].1)));
        }
        let decimal: bool = valid_decimal(entries[i].0.as_str()) && match &entries[i].1 {
            Some(value) => valid_decimal(value.as_str()),
            None => false,
        };
        if !decimal {
            return false;
        }
        i += 1;
    }
    true
}

/// Whether what was decoded is a datum of the type, and goes with the bit pattern.
pub fn valid_decoded_datum(
    value_type: Option<FeatureValueType>,
    float_bits: Option<u64>,
    decoded: &Option<DecodedJson>,
) -> (answer: bool)
    ensures
        answer == datum_is_stored(
            value_type,
            float_bits,
            match *decoded {
                Some(value) => Some(value@),
                None => None,
            },
        ),
{
    let value = match decoded {
        None => {
            return false;
        },
        Some(value) => value,
    };
    if entries_say_missing(&value.entries) {
        return float_bits.is_none();
    }
    match value_type {
        Some(FeatureValueType::FixedDecimal) => float_bits.is_none() && match &value.text {
            Some(text) => valid_decimal(text.as_str()),
            None => false,
        },
        Some(FeatureValueType::FixedDecimalMap) => float_bits.is_none() && match &value.entries {
            Some(entries) => {
                proof {
                    assert(entry_views(entries@).len() == entries@.len());
                }
                entries.len() <= MAX_FIXED_DECIMAL_MAP_ENTRIES && entries_are_decimals(entries)
            },
            None => false,
        },
        Some(FeatureValueType::Float64) => match (value.number_bits, float_bits) {
            (Some(number), Some(bits)) => FiniteF64::from_bits(number).is_ok() && number == bits,
            _ => false,
        },
        Some(FeatureValueType::Integer) => float_bits.is_none() && value.integer.is_some(),
        Some(FeatureValueType::Boolean) => float_bits.is_none() && value.boolean.is_some(),
        None => false,
    }
}

/// The times of a row are in order: the event ends before it is known, is known before it is
/// computed, and its finality is known no later than it is.
pub open spec fn times_are_ordered(row: RowView) -> bool {
    &&& 0 < row.event_time_start_ns <= row.event_time_end_ns <= row.as_known_at_ns
        <= row.computed_at_ns
    &&& row.effective_event_time_ns == row.event_time_end_ns
    &&& row.exchange_event_time_ns == Some(row.event_time_end_ns)
    &&& row.receive_wall_time_ns == row.computed_at_ns
    &&& 0 < row.finality_as_known_at_ns <= row.as_known_at_ns
    &&& row.watermark_ns is Some ==> 0 < row.watermark_ns->Some_0 <= row.finality_as_known_at_ns
}

/// Every column of a row is sound, but for what only a registry of identities can tell.
pub open spec fn row_is_sound(row: RowView) -> bool {
    &&& row.event_type == "feature-observation"@
    &&& row.venue.len() > 0
    &&& row.instrument_generation != 0
    &&& row.connection_epoch != 0
    &&& row.subscription_epoch != 0
    &&& row.wal_record_sequence != 0
    &&& is_release(version_parts(row.feature_version))
    &&& row.resolution_ns != 0
    &&& times_are_ordered(row)
    &&& row.finality_state == "final"@ || row.finality_state == "corrected"@
    &&& row.revision != 0
    &&& row.finality_state == "corrected"@ ==> row.revision != 1
    &&& row.quality_millionths <= 1_000_000
    &&& is_lower_hash(utf8(row.formula_hash))
    &&& is_lower_hash(utf8(row.lineage_hash))
    &&& is_release(version_parts(row.normalization_version))
    &&& is_canonical_json(row.entity_json)
    &&& is_canonical_json(row.datum_json)
    &&& is_canonical_json(row.source_coverage_json)
    &&& type_named(row.value_type) is Some
    &&& datum_is_stored(type_named(row.value_type), row.float_bits, json_decoded(row.datum_json))
}

impl RowFields {
    fn has_ordered_times(&self) -> (answer: bool)
        ensures
            answer == times_are_ordered(self@),
    {
        let end: i64 = self.event_time_end_ns;
        let finality: i64 = self.finality_as_known_at_ns;
        0 < self.event_time_start_ns && self.event_time_start_ns <= end && end
            <= self.as_known_at_ns && self.as_known_at_ns <= self.computed_at_ns
            && self.effective_event_time_ns == end && same_optional_i64(
            self.exchange_event_time_ns,
            Some(end),
        ) && self.receive_wall_time_ns == self.computed_at_ns && 0 < finality && finality
            <= self.as_known_at_ns && match self.watermark_ns {
            Some(watermark) => 0 < watermark && watermark <= finality,
            None => true,
        }
    }

    fn is_sound(&self) -> (answer: bool)
        ensures
            answer == row_is_sound(self@),
    {
        let corrected: bool = same_text(self.finality_state.as_str(), "corrected");
        let value_type = value_type_of(self.value_type.as_str());
        proof {
            reveal_strlit("");
            if self.venue@.len() == 0 {
                assert(self.venue@ =~= ""@);
            }
        }
        if !same_text(self.event_type.as_str(), "feature-observation") || same_text(
            self.venue.as_str(),
            "",
        ) || self.instrument_generation == 0 || self.connection_epoch == 0
            || self.subscription_epoch == 0 || self.wal_record_sequence == 0
            || !valid_release_version(self.feature_version.as_str()) || self.resolution_ns == 0
            || !self.has_ordered_times() || !(corrected || same_text(
            self.finality_state.as_str(),
            "final",
        )) || self.revision == 0 || (corrected && self.revision == 1) || self.quality_millionths
            > 1_000_000 || !valid_lower_hash(self.formula_hash.as_str()) || !valid_lower_hash(
            self.lineage_hash.as_str(),
        ) || !valid_release_version(self.normalization_version.as_str()) || !canonical_json(
            self.entity_json.as_str(),
        ) || !canonical_json(self.datum_json.as_str()) || !canonical_json(
            self.source_coverage_json.as_str(),
        ) || value_type.is_none() {
            return false;
        }
        let decoded = decode_json(self.datum_json.as_str());
        valid_decoded_datum(value_type, self.float_bits, &decoded)
    }
}

/// Canonical row of the point-in-time feature dataset. Every row is sound.
#[derive(Debug)]
pub struct MaterializedFeatureRow {
    fields: RowFields,
}

impl View for MaterializedFeatureRow {
    type V = RowView;

    closed spec fn view(&self) -> RowView {
        self.fields@
    }
}

impl Clone for MaterializedFeatureRow {
    fn clone(&self) -> (copy: Self)
        ensures
            copy@ == self@,
    {
        proof {
            use_type_invariant(self);
        }
        MaterializedFeatureRow { fields: self.fields.clone() }
    }
}

impl MaterializedFeatureRow {
    #[verifier::type_invariant]
    spec fn sound(self) -> bool {
        row_is_sound(self.fields@)
    }

    /// The row of sound columns. `identities_accepted` says that the feature, window, venue and
    /// code identities are accepted where identities are registered.
    pub fn try_new(fields: RowFields, identities_accepted: bool) -> (result: Result<
        Self,
        MaterializationError,
    >)
        ensures
            result is Ok <==> identities_accepted && row_is_sound(fields@),
            result is Ok ==> result->Ok_0@ == fields@,
            result is Err ==> result->Err_0 == MaterializationError::InvalidRow,
    {
        if !identities_accepted || !fields.is_sound() {
            return Err(MaterializationError::InvalidRow);
        }
        Ok(MaterializedFeatureRow { fields })
    }

    pub fn fields(&self) -> (fields: &RowFields)
        ensures
            fields@ == self@,
            row_is_sound(self@),
    {
        proof {
            use_type_invariant(self);
        }
        &self.fields
    }

    /// Whether every column is the same.
    pub fn same(&self, other: &Self) -> (answer: bool)
        ensures
            answer == (self@ == other@),
    {
        self.fields.same(&other.fields)
    }

    pub fn feature_id(&self) -> (id: &str)
        ensures
            id@ == self@.feature_id,
    {
        self.fields.feature_id.as_str()
    }

    pub fn datum_json(&self) -> (datum: &str)
        ensures
            datum@ == self@.datum_json,
    {
        self.fields.datum_json.as_str()
    }

    /// The bit pattern of a floating-point value.
    pub fn float_bits(&self) -> (bits: Option<u64>)
        ensures
            bits == self@.float_bits,
    {
        self.fields.float_bits
    }

    pub fn quality_millionths(&self) -> (quality: u32)
        ensures
            quality == self@.quality_millionths,
    {
        self.fields.quality_millionths
    }

    pub fn as_known_at_ns(&self) -> (time: i64)
        ensures
            time == self@.as_known_at_ns,
    {
        self.fields.as_known_at_ns
    }

    pub fn computed_at_ns(&self) -> (time: i64)
        ensures
            time == self@.computed_at_ns,
    {
        self.fields.computed_at_ns
    }

    pub fn finality_as_known_at_ns(&self) -> (time: i64)
        ensures
            time == self@.finality_as_known_at_ns,
    {
        self.fields.finality_as_known_at_ns
    }

    pub fn revision(&self) -> (revision: u32)
        ensures
            revision == self@.revision,
    {
        self.fields.revision
    }
}

/// What a row is an observation of: feature, version, entity, window and span.
pub type RowIdentity = (Seq<char>, Seq<char>, Seq<char>, Seq<char>, i64, i64);

impl RowView {
    pub open spec fn identity(self) -> RowIdentity {
        (
            self.feature_id,
            self.feature_version,
            self.entity_json,
            self.window_id,
            self.event_time_start_ns,
            self.event_time_end_ns,
        )
    }

    /// The rank of the row's identity with something behind it.
    pub open spec fn rank_with(self, tail: Seq<int>) -> Seq<int> {
        byte_rank(utf8(self.feature_id)) + (byte_rank(utf8(self.feature_version)) + (byte_rank(
            utf8(self.entity_json),
        ) + (byte_rank(utf8(self.window_id)) + (seq![self.event_time_start_ns as int] + (seq![
            self.event_time_end_ns as int,
        ] + tail)))))
    }
}

proof fn lemma_text_then(a: Seq<char>, b: Seq<char>, x: Seq<int>, y: Seq<int>)
    ensures
        a == b ==> rank_precedes(byte_rank(utf8(a)) + x, byte_rank(utf8(b)) + y) == rank_precedes(
            x,
            y,
        ),
        a != b ==> rank_precedes(byte_rank(utf8(a)) + x, byte_rank(utf8(b)) + y) == rank_precedes(
            byte_rank(utf8(a)),
            byte_rank(utf8(b)),
        ),
{
    lemma_byte_rank_concat(utf8(a), utf8(b), x, y);
    if utf8(a) == utf8(b) {
        lemma_utf8_injective(a, b);
    }
}

pub(crate) proof fn lemma_number_then(a: int, b: int, x: Seq<int>, y: Seq<int>)
    ensures
        a == b ==> rank_precedes(seq![a] + x, seq![b] + y) == rank_precedes(x, y),
        a != b ==> rank_precedes(seq![a] + x, seq![b] + y) == (a < b),
{
    lemma_rank_concat(seq![a], seq![b], x, y);
    assert(seq![a][0] == a && seq![b][0] == b);
    reveal_with_fuel(rank_precedes, 2);
}

/// Rows of different identities are ordered by their identities alone; behind equal identities
/// the rest decides.
pub proof fn lemma_identity_decides(a: RowView, b: RowView, x: Seq<int>, y: Seq<int>)
    ensures
        a.identity() == b.identity() ==> rank_precedes(a.rank_with(x), b.rank_with(y))
            == rank_precedes(x, y),
        a.identity() != b.identity() ==> rank_precedes(a.rank_with(x), b.rank_with(y))
            == rank_precedes(a.rank_with(Seq::empty()), b.rank_with(Seq::empty())),
{
    lemma_identity_order(a, b, x, y);
    lemma_identity_order(a, b, Seq::empty(), Seq::empty());
}

/// The order of identities: by the first part that differs.
pub open spec fn identity_before(a: RowView, b: RowView) -> bool {
    if a.feature_id != b.feature_id {
        rank_precedes(byte_rank(utf8(a.feature_id)), byte_rank(utf8(b.feature_id)))
    } else if a.feature_version != b.feature_version {
        rank_precedes(byte_rank(utf8(a.feature_version)), byte_rank(utf8(b.feature_version)))
    } else if a.entity_json != b.entity_json {
        rank_precedes(byte_rank(utf8(a.entity_json)), byte_rank(utf8(b.entity_json)))
    } else if a.window_id != b.window_id {
        rank_precedes(byte_rank(utf8(a.window_id)), byte_rank(utf8(b.window_id)))
    } else if a.event_time_start_ns != b.event_time_start_ns {
        a.event_time_start_ns < b.event_time_start_ns
    } else {
        a.event_time_end_ns < b.event_time_end_ns
    }
}

pub(crate) proof fn lemma_identity_order(a: RowView, b: RowView, x: Seq<int>, y: Seq<int>)
    ensures
        a.identity() == b.identity() ==> rank_precedes(a.rank_with(x), b.rank_with(y))
            == rank_precedes(x, y),
        a.identity() != b.identity() ==> rank_precedes(a.rank_with(x), b.rank_with(y))
            == identity_before(a, b),
{
    let x1 = seq![a.event_time_end_ns as int] + x;
    let y1 = seq![b.event_time_end_ns as int] + y;
    let x2 = seq![a.event_time_start_ns as int] + x1;
    let y2 = seq![b.event_time_start_ns as int] + y1;
    let x3 = byte_rank(utf8(a.window_id)) + x2;
    let y3 = byte_rank(utf8(b.window_id)) + y2;
    let x4 = byte_rank(utf8(a.entity_json)) + x3;
    let y4 = byte_rank(utf8(b.entity_json)) + y3;
    let x5 = byte_rank(utf8(a.feature_version)) + x4;
    let y5 = byte_rank(utf8(b.feature_version)) + y4;
    lemma_number_then(a.event_time_end_ns as int, b.event_time_end_ns as int, x, y);
    lemma_number_then(a.event_time_start_ns as int, b.event_time_start_ns as int, x1, y1);
    lemma_text_then(a.window_id, b.window_id, x2, y2);
    lemma_text_then(a.entity_json, b.entity_json, x3, y3);
    lemma_text_then(a.feature_version, b.feature_version, x4, y4);
    lemma_text_then(a.feature_id, b.feature_id, x5, y5);
}

proof fn lemma_texts_are_ordered(a: Seq<char>, b: Seq<char>)
    requires
        a != b,
    ensures
        rank_precedes(byte_rank(utf8(a)), byte_rank(utf8(b))) || rank_precedes(
            byte_rank(utf8(b)),
            byte_rank(utf8(a)),
        ),
{
    lemma_byte_rank_concat(utf8(a), utf8(b), Seq::empty(), Seq::empty());
    if utf8(a) == utf8(b) {
        lemma_utf8_injective(a, b);
    }
    lemma_rank_order_is_total(byte_rank(utf8(a)), byte_rank(utf8(b)));
}

/// Of two different identities one comes before the other.
pub proof fn lemma_identities_are_ordered(a: RowView, b: RowView)
    requires
        a.identity() != b.identity(),
    ensures
        rank_precedes(a.rank_with(Seq::empty()), b.rank_with(Seq::empty())) || rank_precedes(
            b.rank_with(Seq::empty()),
            a.rank_with(Seq::empty()),
        ),
{
    lemma_identity_order(a, b, Seq::empty(), Seq::empty());
    lemma_identity_order(b, a, Seq::empty(), Seq::empty());
    if a.feature_id != b.feature_id {
        lemma_texts_are_ordered(a.feature_id, b.feature_id);
    } else if a.feature_version != b.feature_version {
        lemma_texts_are_ordered(a.feature_version, b.feature_version);
    } else if a.entity_json != b.entity_json {
        lemma_texts_are_ordered(a.entity_json, b.entity_json);
    } else if a.window_id != b.window_id {
        lemma_texts_are_ordered(a.window_id, b.window_id);
    }
}

impl RowFields {
    /// Whether both observe the same.
    pub(crate) fn same_identity(&self, other: &Self) -> (answer: bool)
        ensures
            answer == (self@.identity() == other@.identity()),
    {
        self.feature_id == other.feature_id && self.feature_version == other.feature_version
            && self.entity_json == other.entity_json && self.window_id == other.window_id
            && self.event_time_start_ns == other.event_time_start_ns && self.event_time_end_ns
            == other.event_time_end_ns
    }

    /// Whether the identity comes before another.
    fn identity_precedes(&self, other: &Self) -> (before: bool)
        ensures
            before == identity_before(self@, other@),
    {
        if self.feature_id != other.feature_id {
            bytes_precede(
                self.feature_id.as_str().as_bytes(),
                other.feature_id.as_str().as_bytes(),
            )
        } else if self.feature_version != other.feature_version {
            bytes_precede(
                self.feature_version.as_str().as_bytes(),
                other.feature_version.as_str().as_bytes(),
            )
        } else if self.entity_json != other.entity_json {
            bytes_precede(
                self.entity_json.as_str().as_bytes(),
                other.entity_json.as_str().as_bytes(),
            )
        } else if self.window_id != other.window_id {
            bytes_precede(
                self.window_id.as_str().as_bytes(),
                other.window_id.as_str().as_bytes(),
            )
        } else if self.event_time_start_ns != other.event_time_start_ns {
            self.event_time_start_ns < other.event_time_start_ns
        } else {
            self.event_time_end_ns < other.event_time_end_ns
        }
    }
}

/// Rows are put in the order of their identities, then of their revisions and lineages.
impl Ranked for MaterializedFeatureRow {
    open spec fn rank(&self) -> Seq<int> {
        self@.rank_with(seq![self@.revision as int] + byte_rank(utf8(self@.lineage_hash)))
    }

    fn precedes(&self, other: &Self) -> (before: bool) {
        proof {
            let x = byte_rank(utf8(self@.lineage_hash));
            let y = byte_rank(utf8(other@.lineage_hash));
            lemma_identity_order(
                self@,
                other@,
                seq![self@.revision as int] + x,
                seq![other@.revision as int] + y,
            );
            lemma_number_then(self@.revision as int, other@.revision as int, x, y);
        }
        if !self.fields.same_identity(&other.fields) {
            self.fields.identity_precedes(&other.fields)
        } else if self.fields.revision != other.fields.revision {
            self.fields.revision < other.fields.revision
        } else {
            bytes_precede(
                self.fields.lineage_hash.as_str().as_bytes(),
                other.fields.lineage_hash.as_str().as_bytes(),
            )
        }
    }
}

/// A row in the order of identities alone.
#[derive(Debug)]
pub struct ByIdentity<'a> {
    pub row: &'a MaterializedFeatureRow,
}

impl<'a> Ranked for ByIdentity<'a> {
    open spec fn rank(&self) -> Seq<int> {
        self.row@.rank_with(Seq::empty())
    }

    fn precedes(&self, other: &Self) -> (before: bool) {
        proof {
            lemma_identity_order(self.row@, other.row@, Seq::empty(), Seq::empty());
        }
        !self.row.fields.same_identity(&other.row.fields) && self.row.fields.identity_precedes(
            &other.row.fields,
        )
    }
}

/// The contents of a list of rows.
pub open spec fn row_views(rows: Seq<MaterializedFeatureRow>) -> Seq<RowView> {
    Seq::new(rows.len(), |i: int| rows[i]@)
}

/// Each finality and each reason for absence has a stored name of its own.
pub proof fn lemma_stored_names_tell_apart(
    a: FinalityState,
    b: FinalityState,
    p: MissingnessReason,
    q: MissingnessReason,
)
    ensures
        stored_finality(a) == stored_finality(b) <==> a == b,
        stored_reason(p) == stored_reason(q) <==> p == q,
        stored_finality(a) == "final"@ <==> a == FinalityState::Final,
        stored_finality(a) == "corrected"@ <==> a == FinalityState::Corrected,
{
    reveal_strlit("provisional");
    reveal_strlit("final");
    reveal_strlit("corrected");
    reveal_strlit("invalid");
    reveal_strlit("not_listed");
    reveal_strlit("source_not_supported");
    reveal_strlit("source_disconnected");
    reveal_strlit("sequence_gap");
    reveal_strlit("stale");
    reveal_strlit("insufficient_history");
    reveal_strlit("window_not_final");
    reveal_strlit("below_liquidity_threshold");
    reveal_strlit("vendor_revision_pending");
    reveal_strlit("model_not_applicable");
    reveal_strlit("privacy_or_license_restriction");
    reveal_strlit("unknown");
    assert("provisional"@.len() == 11);
    assert("final"@.len() == 5);
    assert("corrected"@.len() == 9);
    assert("invalid"@.len() == 7);
    assert("not_listed"@.len() == 10);
    assert("source_not_supported"@.len() == 20);
    assert("source_disconnected"@.len() == 19);
    assert("sequence_gap"@.len() == 12);
    assert("stale"@.len() == 5);
    assert("insufficient_history"@.len() == 20);
    assert("window_not_final"@.len() == 16);
    assert("below_liquidity_threshold"@.len() == 25);
    assert("vendor_revision_pending"@.len() == 23);
    assert("model_not_applicable"@.len() == 20);
    assert("privacy_or_license_restriction"@.len() == 30);
    assert("unknown"@.len() == 7);
    assert("source_not_supported"@[0] == 's');
    assert("insufficient_history"@[0] == 'i');
    assert("model_not_applicable"@[0] == 'm');
}

/// Observations of one feature, entity and window come in the order in which they began, and in
/// the order in which they ended where they began together.
pub proof fn lemma_observations_of_one_feature_are_in_time_order(a: RowView, b: RowView)
    requires
        a.feature_id == b.feature_id,
        a.feature_version == b.feature_version,
        a.entity_json == b.entity_json,
        a.window_id == b.window_id,
    ensures
        a.event_time_start_ns < b.event_time_start_ns ==> identity_before(a, b)
            && !identity_before(b, a),
        a.event_time_start_ns == b.event_time_start_ns ==> (identity_before(a, b)
            <==> a.event_time_end_ns < b.event_time_end_ns),
        a.identity() == b.identity() <==> a.event_time_start_ns == b.event_time_start_ns
            && a.event_time_end_ns == b.event_time_end_ns,
{
}

/// A sound row never knows the future: what it observes ended before it was known, it was known
/// before it was computed, and neither its finality nor its watermark is later than what was
/// known. It is final, or it corrects an earlier revision.
pub proof fn lemma_sound_rows_never_know_the_future(row: RowView)
    requires
        row_is_sound(row),
    ensures
        0 < row.event_time_start_ns <= row.event_time_end_ns,
        row.event_time_end_ns <= row.as_known_at_ns <= row.computed_at_ns,
        0 < row.finality_as_known_at_ns <= row.as_known_at_ns,
        row.watermark_ns is Some ==> row.watermark_ns->Some_0 <= row.as_known_at_ns,
        row.effective_event_time_ns == row.event_time_end_ns,
        row.receive_wall_time_ns == row.computed_at_ns,
        row.quality_millionths <= 1_000_000,
        row.finality_state == "corrected"@ ==> row.revision >= 2,
        row.finality_state != "corrected"@ ==> row.finality_state == "final"@ && row.revision >= 1,
{
}

} // verus!
