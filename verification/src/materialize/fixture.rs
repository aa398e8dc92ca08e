//! Recorded fixtures, and the rows that they materialize.

use vstd::prelude::*;

use super::observation::{
    ascii_chars, datum_bits, stored_datum, version_chars, RowAuthority, RowTexts,
};
use super::row::{
    is_lower_hash, row_is_sound, row_views, stored_finality, stored_type, valid_lower_hash,
    MaterializedFeatureRow, RowView,
};
use super::{MaterializationError, MAXIMUM_FEATURE_ROWS};
use crate::decimal::{decimal_of_text, denotes_at, parse_decimal};
use crate::digest::{is_zero_digest, utf8, zero_digest};
use crate::domain::{
    coverage_refusal, entry_sources, entry_views, finite_bits, source_views, AssetId,
    AssetNamespace, DurationNanos, FeatureEntity, FinalityState, FiniteF64, MissingnessReason,
    QualityScore, RegistryError, SourceCoverage, SourceCoverageEntry, SourceHealthState, SourceId,
    SourceKind, SourceView, UnixNanos,
};
use crate::features::admission::Verdict;
use crate::lineage::{
    coverage_hash_of, lineage_digest_of, lineage_json, lineage_refusal, FeatureLineage,
    FeatureLineageInput, LineageView,
};
use crate::ordering::{ascending_bytes, digest_views, lemma_sorted_digests};
use crate::registry::{
    is_release, parse_version, parsed_parts, same_text, version_parts, DatumView, FeatureDatum,
    FeatureObservation, FeatureValue, FeatureValueType, FeatureVersion, ParsedVersion,
};
use crate::wire::{hex_ascii, hex_bytes, hex_decoded, is_hex, text_view};

verus! {

/// What a fixture corrects.
#[derive(Debug)]
pub struct FixtureCorrection {
    pub base_dataset_version: u32,
    pub known_at_ns: i64,
    pub reason: String,
    pub provenance: String,
}

/// A source that a fixture was recorded from.
#[derive(Debug)]
pub struct FixtureSource {
    pub kind: SourceKind,
    pub name: String,
    pub generation: u32,
    /// The text by which the source is known elsewhere.
    pub label: String,
    pub health: SourceHealthState,
}

/// One recorded observation.
#[derive(Debug)]
pub struct FixtureObservation {
    pub feature_id: String,
    pub feature_version: String,
    pub window_id: String,
    pub resolution_ns: u64,
    pub value_type: FeatureValueType,
    pub value: Option<String>,
    pub missingness_reason: Option<MissingnessReason>,
    pub event_time_start_ns: i64,
    pub event_time_end_ns: i64,
    pub as_known_at_ns: i64,
    pub computed_at_ns: i64,
    pub watermark_ns: Option<i64>,
    pub finality_as_known_at_ns: i64,
    pub finality_state: FinalityState,
    pub revision: u32,
    pub quality_millionths: u32,
    pub formula_hash: String,
    pub input_event_hashes: Vec<String>,
    pub wal_record_sequence: u64,
}

/// A recorded fixture.
#[derive(Debug)]
pub struct FixtureManifest {
    pub schema_version: u32,
    pub artifact_id: String,
    pub status: String,
    pub local_only: bool,
    pub maximum_observations: usize,
    pub dataset_version: u32,
    pub partition_schema_version: u32,
    pub feature_set_version: String,
    pub parser_version: String,
    pub normalizer_version: String,
    pub normalization_version: String,
    pub code_commit: String,
    pub venue: String,
    pub instrument_generation: u32,
    pub asset_namespace: AssetNamespace,
    pub asset_chain_id: String,
    pub asset_contract_or_mint: String,
    pub asset_symbol: String,
    pub asset_generation: u32,
    pub source_name: String,
    pub stream_name: String,
    pub stream_id: u32,
    pub connection_epoch: u64,
    pub subscription_epoch: u64,
    pub wal_segment_id_hex: String,
    pub input_wal_segment_blake3: String,
    pub wal_start_offset: u64,
    pub wal_end_offset: u64,
    pub created_wall_time_ns: i64,
    pub correction: Option<FixtureCorrection>,
    pub source: Vec<FixtureSource>,
    pub observation: Vec<FixtureObservation>,
}

/// The dataset version is the first, or the one behind the version that is corrected.
pub open spec fn version_follows(dataset_version: u32, correction: Option<FixtureCorrection>) -> bool {
    match correction {
        None => dataset_version == 1,
        Some(correction) => {
            &&& correction.base_dataset_version > 0
            &&& dataset_version == correction.base_dataset_version + 1
            &&& correction.known_at_ns > 0
            &&& correction.reason@.len() > 0
            &&& correction.provenance@.len() > 0
        },
    }
}

/// The text is so many bytes in hexadecimal digits.
pub open spec fn is_hex_of(text: Seq<char>, length: nat) -> bool {
    is_hex(utf8(text)) && utf8(text).len() == 2 * length
}

/// The numbers of the recorded observations.
pub open spec fn sequences_of(observations: Seq<FixtureObservation>) -> Seq<u64> {
    Seq::new(observations.len(), |i: int| observations[i].wal_record_sequence)
}

/// Every number from one to the length occurs once.
pub open spec fn counts_from_one(sequences: Seq<u64>) -> bool {
    sequences.no_duplicates() && forall|i: int|
        0 <= i < sequences.len() ==> 1 <= #[trigger] sequences[i] <= sequences.len()
}

/// One of the artifacts that a fixture may be.
pub open spec fn is_known_artifact(id: Seq<char>) -> bool {
    id == "fixtures/golden-replays/features-v1/manifest.toml"@ || id
        == "fixtures/golden-replays/features-v1/correction-v2.toml"@
}

/// Every part of a manifest is sound, but for what only a registry of identities can tell.
pub open spec fn manifest_is_sound(manifest: FixtureManifest) -> bool {
    &&& manifest.schema_version == 1
    &&& is_known_artifact(manifest.artifact_id@)
    &&& manifest.status@ == "implemented"@
    &&& manifest.local_only
    &&& 0 < manifest.maximum_observations <= MAXIMUM_FEATURE_ROWS
    &&& manifest.observation@.len() == manifest.maximum_observations
    &&& manifest.dataset_version != 0
    &&& manifest.partition_schema_version != 0
    &&& manifest.feature_set_version@.len() > 0
    &&& manifest.parser_version@.len() > 0
    &&& manifest.normalizer_version@.len() > 0
    &&& version_parts(manifest.normalization_version@) is Some
    &&& manifest.venue@.len() > 0
    &&& manifest.instrument_generation != 0
    &&& manifest.asset_generation != 0
    &&& manifest.source_name@.len() > 0
    &&& manifest.stream_name@.len() > 0
    &&& manifest.stream_id != 0
    &&& manifest.connection_epoch != 0
    &&& manifest.subscription_epoch != 0
    &&& is_hex_of(manifest.wal_segment_id_hex@, 16)
    &&& is_lower_hash(utf8(manifest.input_wal_segment_blake3@))
    &&& manifest.wal_start_offset < manifest.wal_end_offset
    &&& manifest.created_wall_time_ns > 0
    &&& version_follows(manifest.dataset_version, manifest.correction)
    &&& 0 < manifest.source@.len() <= 64
    &&& counts_from_one(sequences_of(manifest.observation@))
}

fn is_text(text: &str) -> (answer: bool)
    ensures
        answer == (text@.len() > 0),
{
    proof {
        reveal_strlit("");
        if text@.len() == 0 {
            assert(text@ =~= ""@);
        }
    }
    !same_text(text, "")
}

fn follows_version(dataset_version: u32, correction: &Option<FixtureCorrection>) -> (answer: bool)
    ensures
        answer == version_follows(dataset_version, *correction),
{
    match correction {
        None => dataset_version == 1,
        Some(correction) => correction.base_dataset_version > 0 && correction.base_dataset_version
            < u32::MAX && dataset_version == correction.base_dataset_version + 1
            && correction.known_at_ns > 0 && is_text(correction.reason.as_str()) && is_text(
            correction.provenance.as_str(),
        ),
    }
}

/// The bytes of a hexadecimal text of a given length.
pub(crate) fn decode_fixed_hash(text: &str, length: usize) -> (bytes: Option<Vec<u8>>)
    requires
        length <= 64,
    ensures
        bytes is Some <==> is_hex_of(text@, length as nat),
        bytes is Some ==> bytes->Some_0@ == hex_bytes(utf8(text@)) && bytes->Some_0@.len()
            == length,
{
    match hex_decoded(text) {
        None => None,
        Some(bytes) => if bytes.len() == length {
            Some(bytes)
        } else {
            None
        },
    }
}

fn counts_observations(observations: &Vec<FixtureObservation>) -> (answer: bool)
    ensures
        answer == counts_from_one(sequences_of(observations@)),
{
    let ghost sequences = sequences_of(observations@);
    let count: usize = observations.len();
    let mut seen: Vec<bool> = Vec::new();
    let mut n: usize = 0;
    while n < count
        invariant
            n <= count == observations@.len(),
            seen@.len() == n,
            forall|k: int| 0 <= k < n ==> !#[trigger] seen@[k],
        decreases count - n,
    {
        seen.push(false);
        n += 1;
    }
    let mut i: usize = 0;
    while i < count
        invariant
            i <= count == observations@.len(),
            seen@.len() == count,
            sequences == sequences_of(observations@),
            sequences.len() == count,
            forall|k: int| 0 <= k < i ==> 1 <= #[trigger] sequences[k] <= count,
            forall|j: int, k: int|
                0 <= j < k < i ==> #[trigger] sequences[j] != #[trigger] sequences[k],
            forall|value: int|
                0 <= value < count ==> (#[trigger] seen@[value] <==> exists|k: int|
                    0 <= k < i && #[trigger] sequences[k] == value + 1),
        decreases count - i,
    {
        let sequence: u64 = observations[i].wal_record_sequence;
        proof {
            assert(sequences[i as int] == sequence);
        }
        if sequence == 0 || sequence > count as u64 {
            return false;
        }
        let place: usize = (sequence - 1) as usize;
        if seen[place] {
            proof {
                let k = choose|k: int| 0 <= k < i && #[trigger] sequences[k] == place + 1;
                assert(sequences[k] == sequences[i as int]);
            }
            return false;
        }
        let ghost before = seen@;
        seen.set(place, true);
        proof {
            assert forall|value: int| 0 <= value < count implies (#[trigger] seen@[value]
                <==> exists|k: int| 0 <= k < i + 1 && #[trigger] sequences[k] == value + 1) by {
                if value == place {
                    assert(sequences[i as int] == value + 1);
                } else {
                    assert(seen@[value] == before[value]);
                    if seen@[value] {
                        let k = choose|k: int| 0 <= k < i && #[trigger] sequences[k] == value + 1;
                        assert(0 <= k < i + 1 && sequences[k] == value + 1);
                    }
                    if exists|k: int| 0 <= k < i + 1 && #[trigger] sequences[k] == value + 1 {
                        let k = choose|k: int|
                            0 <= k < i + 1 && #[trigger] sequences[k] == value + 1;
                        assert(k < i);
                        assert(before[value]);
                    }
                }
            }
            assert forall|j: int, k: int| 0 <= j < k < i + 1 implies #[trigger] sequences[j]
                != #[trigger] sequences[k] by {
                if k == i && sequences[j] == sequences[k] {
                    assert(before[place as int]);
                }
            }
        }
        i += 1;
    }
    true
}

impl FixtureManifest {
    /// Whether the manifest is sound. `code_accepted` says that the code revision is accepted
    /// where revisions are registered.
    pub fn validate(&self, code_accepted: bool) -> (result: Result<(), MaterializationError>)
        ensures
            result == if code_accepted && manifest_is_sound(*self) {
                Ok::<(), MaterializationError>(())
            } else {
                Err(MaterializationError::InvalidManifest)
            },
    {
        let known: bool = same_text(
            self.artifact_id.as_str(),
            "fixtures/golden-replays/features-v1/manifest.toml",
        ) || same_text(
            self.artifact_id.as_str(),
            "fixtures/golden-replays/features-v1/correction-v2.toml",
        );
        if !code_accepted || self.schema_version != 1 || !known || !same_text(
            self.status.as_str(),
            "implemented",
        ) || !self.local_only || self.maximum_observations == 0 || self.maximum_observations
            > MAXIMUM_FEATURE_ROWS || self.observation.len() != self.maximum_observations
            || self.dataset_version == 0 || self.partition_schema_version == 0 || !is_text(
            self.feature_set_version.as_str(),
        ) || !is_text(self.parser_version.as_str()) || !is_text(self.normalizer_version.as_str())
            || parse_version(self.normalization_version.as_str()).is_none() || !is_text(
            self.venue.as_str(),
        ) || self.instrument_generation == 0 || self.asset_generation == 0 || !is_text(
            self.source_name.as_str(),
        ) || !is_text(self.stream_name.as_str()) || self.stream_id == 0 || self.connection_epoch
            == 0 || self.subscription_epoch == 0 || decode_fixed_hash(
            self.wal_segment_id_hex.as_str(),
            16,
        ).is_none() || !valid_lower_hash(self.input_wal_segment_blake3.as_str())
            || self.wal_start_offset >= self.wal_end_offset || self.created_wall_time_ns <= 0
            || !follows_version(self.dataset_version, &self.correction) || self.source.len() == 0
            || self.source.len() > 64 {
            return Err(MaterializationError::InvalidManifest);
        }
        if !counts_observations(&self.observation) {
            return Err(MaterializationError::InvalidManifest);
        }
        Ok(())
    }
}

/// The whole number that a text stands for: digits, behind a sign or not.
pub open spec fn integer_of_text(text: Seq<u8>) -> Option<int> {
    let signed = text.len() > 0 && (text[0] == 43 || text[0] == 45);
    let digits = if signed {
        text.skip(1)
    } else {
        text
    };
    if digits.len() == 0 || !crate::decimal::all_digits(digits) {
        None
    } else {
        let size = crate::decimal::digit_value(digits);
        let value = if text[0] == 45 {
            -(size as int)
        } else {
            size as int
        };
        if i64::MIN <= value <= i64::MAX {
            Some(value)
        } else {
            None
        }
    }
}

/// Reads a whole number.
pub fn parse_integer(text: &str) -> (value: Option<i64>)
    ensures
        match integer_of_text(utf8(text@)) {
            None => value is None,
            Some(number) => value is Some && value->Some_0 == number,
        },
{
    let bytes = text.as_bytes();
    if bytes.len() == 0 {
        return None;
    }
    let negative: bool = bytes[0] == 45;
    let start: usize = if negative || bytes[0] == 43 {
        1
    } else {
        0
    };
    let ghost digits = if start == 1 {
        bytes@.skip(1)
    } else {
        bytes@
    };
    if start == bytes.len() {
        return None;
    }
    let mut size: u128 = 0;
    let mut i: usize = start;
    let mut beyond: bool = false;
    proof {
        assert(digits.take(0) =~= Seq::empty());
    }
    while i < bytes.len()
        invariant
            start <= i <= bytes@.len(),
            start <= 1,
            bytes@ == utf8(text@),
            digits == if start == 1 {
                bytes@.skip(1)
            } else {
                bytes@
            },
            digits.len() == bytes@.len() - start,
            forall|k: int| 0 <= k < i - start ==> 48 <= #[trigger] digits[k] <= 57,
            !beyond ==> size == crate::decimal::digit_value(digits.take(i - start)) && size
                <= 9_223_372_036_854_775_808,
            beyond ==> crate::decimal::digit_value(digits.take(i - start))
                > 9_223_372_036_854_775_808,
            start == 1 <==> bytes@[0] == 45 || bytes@[0] == 43,
            bytes@.len() > start,
        decreases bytes.len() - i,
    {
        let byte: u8 = bytes[i];
        proof {
            assert(digits[i - start] == byte);
        }
        if byte < 48 || byte > 57 {
            return None;
        }
        proof {
            assert(digits.take(i + 1 - start).drop_last() =~= digits.take(i - start));
            assert(digits.take(i + 1 - start).last() == byte);
        }
        if !beyond {
            size = size * 10 + (byte - 48) as u128;
            if size > 9_223_372_036_854_775_808 {
                beyond = true;
            }
        }
        i += 1;
    }
    proof {
        assert(digits.take(i - start) =~= digits);
    }
    if beyond {
        return None;
    }
    if negative {
        return Some((-(size as i128)) as i64);
    }
    if size > 9_223_372_036_854_775_807 {
        return None;
    }
    Some(size as i64)
}

/// The datum of a recorded observation, or why it has none. `float_bits` is the number that its
/// text stands for, where it stands for one.
pub open spec fn recorded_datum(
    value_type: FeatureValueType,
    value: Option<Seq<char>>,
    reason: Option<MissingnessReason>,
    float_bits: Option<u64>,
) -> Result<DatumView, MaterializationError> {
    match (value, reason) {
        (None, Some(reason)) => Ok(DatumView::Missing(reason)),
        (Some(text), None) => match value_type {
            FeatureValueType::FixedDecimal => if exists|point: int| denotes_at(utf8(text), point) {
                Ok(DatumView::FixedDecimal(decimal_of_text(utf8(text))))
            } else {
                Err(MaterializationError::Decimal)
            },
            FeatureValueType::FixedDecimalMap => Err(MaterializationError::InvalidManifest),
            FeatureValueType::Float64 => match float_bits {
                None => Err(MaterializationError::InvalidManifest),
                Some(bits) => if finite_bits(bits) {
                    Ok(DatumView::Float64(FiniteF64::of_pattern(bits)))
                } else {
                    Err(MaterializationError::Registry(RegistryError::NonFiniteValue))
                },
            },
            FeatureValueType::Integer => match integer_of_text(utf8(text)) {
                None => Err(MaterializationError::InvalidManifest),
                Some(number) => Ok(DatumView::Integer(number as i64)),
            },
            FeatureValueType::Boolean => if text == "true"@ {
                Ok(DatumView::Boolean(true))
            } else if text == "false"@ {
                Ok(DatumView::Boolean(false))
            } else {
                Err(MaterializationError::InvalidManifest)
            },
        },
        _ => Err(MaterializationError::InvalidManifest),
    }
}

fn datum_of(wire: &FixtureObservation, float_bits: Option<u64>) -> (result: Result<
    FeatureDatum,
    MaterializationError,
>)
    ensures
        match recorded_datum(
            wire.value_type,
            crate::wire::text_view(wire.value),
            wire.missingness_reason,
            float_bits,
        ) {
            Err(error) => result is Err && result->Err_0 == error,
            Ok(datum) => result is Ok && result->Ok_0@ == datum,
        },
{
    let text = match (&wire.value, wire.missingness_reason) {
        (None, Some(reason)) => {
            return Ok(FeatureDatum::Missing(reason));
        },
        (Some(text), None) => text,
        _ => {
            return Err(MaterializationError::InvalidManifest);
        },
    };
    let value = match wire.value_type {
        FeatureValueType::FixedDecimal => {
            let bytes = text.as_str().as_bytes();
            proof {
                assert(bytes@ == utf8(text@));
            }
            match parse_decimal(bytes) {
                None => {
                    return Err(MaterializationError::Decimal);
                },
                Some(value) => FeatureValue::FixedDecimal(value),
            }
        },
        FeatureValueType::FixedDecimalMap => {
            return Err(MaterializationError::InvalidManifest);
        },
        FeatureValueType::Float64 => match float_bits {
            None => {
                return Err(MaterializationError::InvalidManifest);
            },
            Some(bits) => match FiniteF64::from_bits(bits) {
                Err(error) => {
                    return Err(MaterializationError::Registry(error));
                },
                Ok(value) => FeatureValue::Float64(value),
            },
        },
        FeatureValueType::Integer => match parse_integer(text.as_str()) {
            None => {
                return Err(MaterializationError::InvalidManifest);
            },
            Some(value) => FeatureValue::Integer(value),
        },
        FeatureValueType::Boolean => if same_text(text.as_str(), "true") {
            FeatureValue::Boolean(true)
        } else if same_text(text.as_str(), "false") {
            FeatureValue::Boolean(false)
        } else {
            return Err(MaterializationError::InvalidManifest);
        },
    };
    Ok(FeatureDatum::Present(value))
}


/// Texts that every observation of a fixture shares, and the answers of the registries that its
/// identities belong to.
#[derive(Debug)]
pub struct FixtureTexts {
    /// The asset is one.
    pub asset_accepted: bool,
    /// Every source is one.
    pub sources_accepted: bool,
    /// Whether the registry takes the code revision.
    pub code_revision: Verdict,
    pub entity_json: String,
    pub source_coverage_json: String,
    /// The coverage as it enters a lineage.
    pub source_coverage_bytes: Vec<u8>,
    /// The code revision as it enters a lineage.
    pub code_commit_json: Vec<u8>,
}

/// What one observation needs besides plain values.
#[derive(Debug)]
pub struct ObservationTexts {
    /// Whether the registry takes the feature's name.
    pub feature_id: Verdict,
    /// Whether the registry takes the window's name.
    pub window_id: Verdict,
    /// Whether the registry takes the number of the revision.
    pub revision: Verdict,
    /// The number that the value's text stands for, where it stands for one.
    pub float_bits: Option<u64>,
    /// That number's text in JSON.
    pub float_json: String,
    /// The feature as it enters a lineage.
    pub feature_id_json: Vec<u8>,
    /// The formula hash as it enters a lineage.
    pub formula_hash_json: Vec<u8>,
    /// The identities of the stored row are accepted where identities are registered.
    pub identities_accepted: bool,
    /// Whether the registry finds the observation sound in itself.
    pub verdict: Verdict,
}

/// Every text is a digest in hexadecimal digits.
pub open spec fn are_hashes(texts: Seq<String>) -> bool {
    forall|i: int| 0 <= i < texts.len() ==> is_hex_of((#[trigger] texts[i])@, 32)
}

/// The digests that texts stand for.
pub open spec fn hashes_of(texts: Seq<String>) -> Seq<Seq<u8>> {
    Seq::new(texts.len(), |i: int| hex_bytes(utf8(texts[i]@)))
}

/// Why an observation has no lineage, if it has none.
pub open spec fn recorded_lineage_refusal(wire: FixtureObservation) -> Option<
    MaterializationError,
> {
    if version_parts(wire.feature_version@) is None || !is_hex_of(wire.formula_hash@, 32) {
        Some(MaterializationError::InvalidManifest)
    } else if hex_bytes(utf8(wire.formula_hash@)) == zero_digest() {
        Some(MaterializationError::Registry(RegistryError::ZeroHash))
    } else if !are_hashes(wire.input_event_hashes@) {
        Some(MaterializationError::InvalidManifest)
    } else {
        match lineage_refusal(
            version_parts(wire.feature_version@),
            hashes_of(wire.input_event_hashes@),
        ) {
            Some(error) => Some(MaterializationError::Lineage(error)),
            None => None,
        }
    }
}

/// The lineage of a recorded observation, its events in ascending order.
pub open spec fn recorded_lineage(
    manifest: FixtureManifest,
    wire: FixtureObservation,
    texts: FixtureTexts,
) -> LineageView {
    LineageView {
        feature_id: wire.feature_id@,
        feature_version: release_of(version_parts(wire.feature_version@)),
        formula_hash: hex_bytes(utf8(wire.formula_hash@)),
        input_event_hashes: ascending_bytes(hashes_of(wire.input_event_hashes@)),
        source_coverage_hash: coverage_hash_of(texts.source_coverage_bytes@),
        code_commit: manifest.code_commit@,
    }
}

/// The digest of a recorded observation's lineage.
pub open spec fn recorded_lineage_digest(
    manifest: FixtureManifest,
    wire: FixtureObservation,
    texts: FixtureTexts,
    own: ObservationTexts,
) -> Seq<u8> {
    lineage_digest_of(
        lineage_json(
            recorded_lineage(manifest, wire, texts),
            own.feature_id_json@,
            own.formula_hash_json@,
            texts.code_commit_json@,
        ),
    )
}

fn digest_of_text(text: &str) -> (digest: Option<[u8; 32]>)
    ensures
        digest is Some <==> is_hex_of(text@, 32),
        digest is Some ==> digest->Some_0@ == hex_bytes(utf8(text@)),
{
    let bytes = match decode_fixed_hash(text, 32) {
        None => {
            return None;
        },
        Some(bytes) => bytes,
    };
    let mut digest: [u8; 32] = [0;32];
    let mut i: usize = 0;
    while i < 32
        invariant
            i <= 32,
            bytes@.len() == 32,
            forall|k: int| 0 <= k < i ==> digest@[k] == bytes@[k],
        decreases 32 - i,
    {
        digest[i] = bytes[i];
        i += 1;
    }
    proof {
        assert(digest@ =~= bytes@);
    }
    Some(digest)
}

fn digests_of_texts(texts: &Vec<String>) -> (digests: Option<Vec<[u8; 32]>>)
    ensures
        digests is Some <==> are_hashes(texts@),
        digests is Some ==> digest_views(digests->Some_0@) == hashes_of(texts@),
{
    let mut digests: Vec<[u8; 32]> = Vec::new();
    let mut i: usize = 0;
    while i < texts.len()
        invariant
            i <= texts@.len(),
            digests@.len() == i,
            forall|k: int| 0 <= k < i ==> is_hex_of((#[trigger] texts@[k])@, 32),
            forall|k: int|
                0 <= k < i ==> (#[trigger] digests@[k])@ == hex_bytes(utf8(texts@[k]@)),
        decreases texts.len() - i,
    {
        match digest_of_text(texts[i].as_str()) {
            None => {
                return None;
            },
            Some(digest) => {
                digests.push(digest);
            },
        }
        i += 1;
    }
    proof {
        assert(digest_views(digests@) =~= hashes_of(texts@));
    }
    Some(digests)
}

impl FixtureManifest {
    /// The lineage of one observation.
    pub fn lineage(&self, wire: &FixtureObservation, texts: &FixtureTexts) -> (result: Result<
        FeatureLineage,
        MaterializationError,
    >)
        ensures
            match recorded_lineage_refusal(*wire) {
                Some(error) => result is Err && result->Err_0 == error,
                None => result is Ok && result->Ok_0@ == recorded_lineage(*self, *wire, *texts),
            },
    {
        let feature_version = match parse_version(wire.feature_version.as_str()) {
            None => {
                return Err(MaterializationError::InvalidManifest);
            },
            Some(version) => version,
        };
        let formula_hash = match digest_of_text(wire.formula_hash.as_str()) {
            None => {
                return Err(MaterializationError::InvalidManifest);
            },
            Some(digest) => digest,
        };
        if is_zero_digest(&formula_hash) {
            return Err(MaterializationError::Registry(RegistryError::ZeroHash));
        }
        let input_event_hashes = match digests_of_texts(&wire.input_event_hashes) {
            None => {
                return Err(MaterializationError::InvalidManifest);
            },
            Some(digests) => digests,
        };
        let ghost hashes = input_event_hashes@;
        proof {
            lemma_sorted_digests(hashes);
        }
        let input = FeatureLineageInput {
            feature_id: wire.feature_id.clone(),
            feature_version,
            formula_hash,
            input_event_hashes,
            source_coverage_json: copy_bytes(&texts.source_coverage_bytes),
            code_commit: self.code_commit.clone(),
        };
        match FeatureLineage::try_new(input) {
            Err(error) => Err(MaterializationError::Lineage(error)),
            Ok(lineage) => Ok(lineage),
        }
    }
}

fn copy_bytes(bytes: &Vec<u8>) -> (copy: Vec<u8>)
    ensures
        copy@ == bytes@,
{
    let mut copy: Vec<u8> = Vec::new();
    crate::digest::put_bytes(&mut copy, bytes.as_slice());
    proof {
        assert(copy@ =~= bytes@);
    }
    copy
}

/// The sources of a fixture.
pub open spec fn recorded_sources(sources: Seq<FixtureSource>) -> Seq<SourceView> {
    Seq::new(
        sources.len(),
        |i: int|
            (sources[i].kind, sources[i].name@, sources[i].generation, sources[i].label@),
    )
}

/// The sources of a fixture with their health.
pub open spec fn recorded_entries(sources: Seq<FixtureSource>) -> Seq<
    (SourceView, SourceHealthState),
> {
    Seq::new(sources.len(), |i: int| (recorded_sources(sources)[i], sources[i].health))
}

impl FixtureManifest {
    /// The complete coverage of the fixture's sources.
    pub fn feature_source_coverage(&self) -> (result: Result<SourceCoverage, MaterializationError>)
        ensures
            match coverage_refusal(
                recorded_sources(self.source@),
                recorded_sources(self.source@),
            ) {
                Some(error) => result is Err && result->Err_0 == MaterializationError::Registry(
                    error,
                ),
                None => result is Ok && result->Ok_0@ == (
                    recorded_sources(self.source@),
                    recorded_entries(self.source@),
                ),
            },
    {
        let mut expected: Vec<SourceId> = Vec::new();
        let mut entries: Vec<SourceCoverageEntry> = Vec::new();
        let mut i: usize = 0;
        while i < self.source.len()
            invariant
                i <= self.source@.len(),
                expected@.len() == i,
                entries@.len() == i,
                forall|k: int|
                    0 <= k < i ==> (#[trigger] expected@[k])@ == recorded_sources(self.source@)[k],
                forall|k: int|
                    0 <= k < i ==> (#[trigger] entries@[k])@ == recorded_entries(self.source@)[k],
            decreases self.source.len() - i,
        {
            let wire = &self.source[i];
            let source = SourceId::new(
                wire.kind,
                wire.name.clone(),
                wire.generation,
                wire.label.clone(),
            );
            expected.push(source.clone());
            entries.push(SourceCoverageEntry::new(source, wire.health));
            i += 1;
        }
        proof {
            assert(source_views(expected@) =~= recorded_sources(self.source@));
            assert(entry_views(entries@) =~= recorded_entries(self.source@));
            assert(entry_sources(entries@) =~= recorded_sources(self.source@)) by {
                assert forall|k: int| 0 <= k < entries@.len() implies entry_sources(entries@)[k]
                    == recorded_sources(self.source@)[k] by {
                    assert(entries@[k]@ == recorded_entries(self.source@)[k]);
                }
            }
        }
        match SourceCoverage::try_new_partial(expected, entries) {
            Err(error) => Err(MaterializationError::Registry(error)),
            Ok(coverage) => Ok(coverage),
        }
    }
}

/// The row of one recorded observation.
pub open spec fn recorded_row(
    manifest: FixtureManifest,
    wire: FixtureObservation,
    datum: DatumView,
    texts: FixtureTexts,
    own: ObservationTexts,
) -> RowView {
    RowView {
        effective_event_time_ns: wire.event_time_end_ns,
        exchange_event_time_ns: Some(wire.event_time_end_ns),
        receive_wall_time_ns: wire.computed_at_ns,
        event_type: "feature-observation"@,
        venue: manifest.venue@,
        instrument_generation: manifest.instrument_generation,
        connection_epoch: manifest.connection_epoch,
        subscription_epoch: manifest.subscription_epoch,
        wal_record_sequence: wire.wal_record_sequence,
        feature_id: wire.feature_id@,
        feature_version: version_chars(release_of(version_parts(wire.feature_version@))),
        entity_json: texts.entity_json@,
        window_id: wire.window_id@,
        resolution_ns: wire.resolution_ns,
        datum_json: stored_datum(datum, own.float_json@),
        value_type: stored_type(wire.value_type),
        event_time_start_ns: wire.event_time_start_ns,
        event_time_end_ns: wire.event_time_end_ns,
        as_known_at_ns: wire.as_known_at_ns,
        computed_at_ns: wire.computed_at_ns,
        watermark_ns: wire.watermark_ns,
        finality_as_known_at_ns: wire.finality_as_known_at_ns,
        finality_state: stored_finality(wire.finality_state),
        revision: wire.revision,
        source_coverage_json: texts.source_coverage_json@,
        quality_millionths: wire.quality_millionths,
        normalization_version: version_chars(
            release_of(version_parts(manifest.normalization_version@)),
        ),
        formula_hash: ascii_chars(hex_ascii(hex_bytes(utf8(wire.formula_hash@)))),
        code_commit: manifest.code_commit@,
        lineage_hash: ascii_chars(
            hex_ascii(recorded_lineage_digest(manifest, wire, texts, own)),
        ),
        float_bits: datum_bits(datum),
    }
}

/// The three numbers of a version.
pub open spec fn release_of(parts: Option<(u64, u64, u64, Seq<char>, Seq<char>)>) -> FeatureVersion {
    let (major, minor, patch, _, _) = parts->Some_0;
    FeatureVersion { major, minor, patch }
}

/// What one recorded observation comes to: its row, or the first failure.
#[verifier::opaque]
pub open spec fn row_of_observation(
    manifest: FixtureManifest,
    wire: FixtureObservation,
    texts: FixtureTexts,
    own: ObservationTexts,
) -> Result<RowView, MaterializationError> {
    let normalization = version_parts(manifest.normalization_version@);
    let datum = recorded_datum(
        wire.value_type,
        text_view(wire.value),
        wire.missingness_reason,
        own.float_bits,
    );
    if own.feature_id is Err {
        Err(MaterializationError::Registry(own.feature_id->Err_0))
    } else if recorded_lineage_refusal(wire) is Some {
        Err(recorded_lineage_refusal(wire)->Some_0)
    } else if own.window_id is Err {
        Err(MaterializationError::Registry(own.window_id->Err_0))
    } else if datum is Err {
        Err(datum->Err_0)
    } else if own.revision is Err {
        Err(MaterializationError::Registry(own.revision->Err_0))
    } else if wire.quality_millionths > 1_000_000 {
        Err(MaterializationError::Registry(RegistryError::InvalidQualityScore))
    } else if recorded_lineage_digest(manifest, wire, texts, own) == zero_digest() {
        Err(MaterializationError::Registry(RegistryError::ZeroHash))
    } else if own.verdict is Err {
        Err(MaterializationError::Registry(own.verdict->Err_0))
    } else if wire.finality_state != FinalityState::Final && wire.finality_state
        != FinalityState::Corrected {
        Err(MaterializationError::UnfinalizedObservation)
    } else if !is_release(normalization) || !own.identities_accepted || !row_is_sound(
        recorded_row(manifest, wire, datum->Ok_0, texts, own),
    ) {
        Err(MaterializationError::InvalidRow)
    } else {
        Ok(recorded_row(manifest, wire, datum->Ok_0, texts, own))
    }
}

fn taken(verdict: Verdict) -> (result: Result<(), MaterializationError>)
    ensures
        match verdict {
            Ok(()) => result is Ok,
            Err(error) => result is Err && result->Err_0 == MaterializationError::Registry(error),
        },
{
    match verdict {
        Ok(()) => Ok(()),
        Err(error) => Err(MaterializationError::Registry(error)),
    }
}

fn copy_entity(manifest: &FixtureManifest) -> (entity: FeatureEntity)
    ensures
        match entity {
            FeatureEntity::Asset(asset) => {
                &&& asset.namespace == manifest.asset_namespace
                &&& asset.chain_id@ == manifest.asset_chain_id@
                &&& asset.contract_or_mint@ == manifest.asset_contract_or_mint@
                &&& asset.canonical_symbol@ == manifest.asset_symbol@
                &&& asset.generation == manifest.asset_generation
            },
            _ => false,
        },
{
    FeatureEntity::Asset(
        AssetId {
            namespace: manifest.asset_namespace,
            chain_id: manifest.asset_chain_id.clone(),
            contract_or_mint: manifest.asset_contract_or_mint.clone(),
            canonical_symbol: manifest.asset_symbol.clone(),
            generation: manifest.asset_generation,
        },
    )
}

impl FixtureManifest {
    fn row(
        &self,
        wire: &FixtureObservation,
        coverage: &SourceCoverage,
        normalization: &ParsedVersion,
        texts: &FixtureTexts,
        own: &ObservationTexts,
    ) -> (result: Result<MaterializedFeatureRow, MaterializationError>)
        requires
            version_parts(self.normalization_version@) == parsed_parts(Some(*normalization)),
        ensures
            match row_of_observation(*self, *wire, *texts, *own) {
                Err(error) => result is Err && result->Err_0 == error,
                Ok(row) => result is Ok && result->Ok_0@ == row,
            },
    {
        proof {
            reveal(row_of_observation);
        }
        taken(own.feature_id)?;
        let lineage = self.lineage(wire, texts)?;
        taken(own.window_id)?;
        let datum = datum_of(wire, own.float_bits)?;
        taken(own.revision)?;
        let quality_score = match QualityScore::from_millionths(wire.quality_millionths) {
            Err(error) => {
                return Err(MaterializationError::Registry(error));
            },
            Ok(score) => score,
        };
        let lineage_hash = lineage.digest(
            own.feature_id_json.as_slice(),
            own.formula_hash_json.as_slice(),
            texts.code_commit_json.as_slice(),
        );
        if is_zero_digest(&lineage_hash) {
            return Err(MaterializationError::Registry(RegistryError::ZeroHash));
        }
        taken(own.verdict)?;
        let sealed: bool = match wire.finality_state {
            FinalityState::Final => true,
            FinalityState::Corrected => true,
            _ => false,
        };
        if !sealed {
            return Err(MaterializationError::UnfinalizedObservation);
        }
        if normalization.release.major == 0 || !normalization.pre_release.as_str().is_empty()
            || !normalization.build.as_str().is_empty() {
            return Err(MaterializationError::InvalidRow);
        }
        let observation = FeatureObservation {
            feature_id: wire.feature_id.clone(),
            feature_version: lineage.feature_version(),
            entity: copy_entity(self),
            window_id: wire.window_id.clone(),
            resolution: DurationNanos::new(wire.resolution_ns),
            datum,
            value_type: wire.value_type,
            event_time_start: UnixNanos::new(wire.event_time_start_ns),
            event_time_end: UnixNanos::new(wire.event_time_end_ns),
            as_known_at: UnixNanos::new(wire.as_known_at_ns),
            computed_at: UnixNanos::new(wire.computed_at_ns),
            watermark: match wire.watermark_ns {
                Some(watermark) => Some(UnixNanos::new(watermark)),
                None => None,
            },
            finality_as_known_at: UnixNanos::new(wire.finality_as_known_at_ns),
            finality_state: wire.finality_state,
            revision: wire.revision,
            source_coverage: coverage.clone(),
            quality_score,
            normalization_version: normalization.release,
            formula_hash: lineage.formula_hash(),
            code_commit: self.code_commit.clone(),
            lineage_hash,
        };
        let row_texts = RowTexts {
            entity_json: texts.entity_json.clone(),
            source_coverage_json: texts.source_coverage_json.clone(),
            float_json: own.float_json.clone(),
        };
        let authority = RowAuthority {
            venue: self.venue.as_str(),
            instrument_generation: self.instrument_generation,
            connection_epoch: self.connection_epoch,
            subscription_epoch: self.subscription_epoch,
            wal_record_sequence: wire.wal_record_sequence,
        };
        MaterializedFeatureRow::try_from_observation(
            &observation,
            authority,
            &row_texts,
            own.identities_accepted,
        )
    }

    /// The rows of the fixture's observations, in order.
    pub fn rows(&self, texts: &FixtureTexts, own: &Vec<ObservationTexts>) -> (result: Result<
        Vec<MaterializedFeatureRow>,
        MaterializationError,
    >)
        requires
            own@.len() == self.observation@.len(),
        ensures
            match rows_of_fixture(*self, *texts, own@) {
                Err(error) => result is Err && result->Err_0 == error,
                Ok(rows) => result is Ok && row_views(result->Ok_0@) == rows,
            },
    {
        if !texts.asset_accepted || !texts.sources_accepted {
            return Err(MaterializationError::Domain);
        }
        let coverage = self.feature_source_coverage()?;
        taken(texts.code_revision)?;
        let normalization = match parse_version(self.normalization_version.as_str()) {
            None => {
                return Err(MaterializationError::InvalidManifest);
            },
            Some(version) => version,
        };
        let mut rows: Vec<MaterializedFeatureRow> = Vec::new();
        let mut i: usize = 0;
        proof {
            assert(row_views(rows@) =~= Seq::empty());
        }
        while i < self.observation.len()
            invariant
                i <= self.observation@.len() == own@.len(),
                version_parts(self.normalization_version@) == parsed_parts(Some(normalization)),
                texts.asset_accepted && texts.sources_accepted,
                texts.code_revision is Ok,
                coverage_refusal(
                    recorded_sources(self.source@),
                    recorded_sources(self.source@),
                ) is None,
                rows_of_observations(*self, *texts, own@, i as int) == Ok::<
                    Seq<RowView>,
                    MaterializationError,
                >(row_views(rows@)),
            decreases self.observation.len() - i,
        {
            proof {
                if rows_of_observations(*self, *texts, own@, i + 1) is Err {
                    lemma_observations_fail(*self, *texts, own@, i + 1);
                }
            }
            let row = self.row(&self.observation[i], &coverage, &normalization, texts, &own[i])?;
            let ghost before = rows@;
            rows.push(row);
            proof {
                assert(row_views(rows@) =~= row_views(before).push(row@));
            }
            i += 1;
        }
        Ok(rows)
    }
}

/// The rows of the first observations, or the first failure.
pub open spec fn rows_of_observations(
    manifest: FixtureManifest,
    texts: FixtureTexts,
    own: Seq<ObservationTexts>,
    count: int,
) -> Result<Seq<RowView>, MaterializationError>
    decreases count,
{
    if count <= 0 {
        Ok(Seq::empty())
    } else {
        match rows_of_observations(manifest, texts, own, count - 1) {
            Err(error) => Err(error),
            Ok(rows) => match row_of_observation(
                manifest,
                manifest.observation@[count - 1],
                texts,
                own[count - 1],
            ) {
                Err(error) => Err(error),
                Ok(row) => Ok(rows.push(row)),
            },
        }
    }
}

proof fn lemma_observations_fail(
    manifest: FixtureManifest,
    texts: FixtureTexts,
    own: Seq<ObservationTexts>,
    count: int,
)
    requires
        0 < count <= manifest.observation@.len(),
        rows_of_observations(manifest, texts, own, count) is Err,
    ensures
        rows_of_observations(manifest, texts, own, manifest.observation@.len() as int)
            == rows_of_observations(manifest, texts, own, count),
    decreases manifest.observation@.len() - count,
{
    if count < manifest.observation@.len() {
        lemma_observations_fail(manifest, texts, own, count + 1);
    }
}

/// The rows of a fixture, or the first failure.
pub open spec fn rows_of_fixture(
    manifest: FixtureManifest,
    texts: FixtureTexts,
    own: Seq<ObservationTexts>,
) -> Result<Seq<RowView>, MaterializationError> {
    let sources = recorded_sources(manifest.source@);
    if !texts.asset_accepted || !texts.sources_accepted {
        Err(MaterializationError::Domain)
    } else if coverage_refusal(sources, sources) is Some {
        Err(MaterializationError::Registry(coverage_refusal(sources, sources)->Some_0))
    } else if texts.code_revision is Err {
        Err(MaterializationError::Registry(texts.code_revision->Err_0))
    } else if version_parts(manifest.normalization_version@) is None {
        Err(MaterializationError::InvalidManifest)
    } else {
        rows_of_observations(manifest, texts, own, manifest.observation@.len() as int)
    }
}

/// A minus before digits negates the number that they stand for, a plus leaves it as it is, and
/// digits alone stand for themselves.
pub proof fn lemma_integers_follow_their_sign(digits: Seq<u8>)
    requires
        digits.len() > 0,
        crate::decimal::all_digits(digits),
        crate::decimal::digit_value(digits) <= i64::MAX,
    ensures
        integer_of_text(digits) == Some(crate::decimal::digit_value(digits) as int),
        integer_of_text(seq![43u8] + digits) == Some(crate::decimal::digit_value(digits) as int),
        integer_of_text(seq![45u8] + digits) == Some(-(crate::decimal::digit_value(digits) as int)),
        integer_of_text(seq![43u8]) is None,
        integer_of_text(seq![45u8]) is None,
        integer_of_text(Seq::empty()) is None,
{
    assert(48 <= digits[0] <= 57);
    assert((seq![43u8] + digits).skip(1) == digits);
    assert((seq![45u8] + digits).skip(1) == digits);
    assert(seq![43u8].skip(1) == Seq::<u8>::empty());
    assert(seq![45u8].skip(1) == Seq::<u8>::empty());
}

/// A recorded observation holds a value of its type, or a reason for its absence, and never both
/// or neither.
pub proof fn lemma_recorded_data_fit_their_type(
    value_type: FeatureValueType,
    value: Option<Seq<char>>,
    reason: Option<MissingnessReason>,
    float_bits: Option<u64>,
)
    ensures
        ({
            let datum = recorded_datum(value_type, value, reason, float_bits);
            &&& (value is Some) == (reason is Some) ==> datum is Err
            &&& datum is Ok && value is None ==> datum->Ok_0 == DatumView::Missing(reason->Some_0)
            &&& datum is Ok && value is Some ==> datum->Ok_0.value_type() == Some(value_type)
            &&& value == Some("true"@) && reason is None && value_type == FeatureValueType::Boolean
                ==> datum == Ok::<DatumView, MaterializationError>(DatumView::Boolean(true))
            &&& value == Some("false"@) && reason is None && value_type
                == FeatureValueType::Boolean ==> datum == Ok::<DatumView, MaterializationError>(
                DatumView::Boolean(false),
            )
        }),
{
    reveal_strlit("true");
    reveal_strlit("false");
    assert("true"@.len() == 4);
    assert("false"@.len() == 5);
}

/// Only the first dataset corrects nothing; every later one corrects the one just before it.
pub proof fn lemma_datasets_follow_one_another(
    dataset_version: u32,
    correction: Option<FixtureCorrection>,
)
    requires
        version_follows(dataset_version, correction),
    ensures
        dataset_version >= 1,
        dataset_version == 1 <==> correction is None,
        correction is Some ==> dataset_version - 1 == correction->Some_0.base_dataset_version
            && correction->Some_0.known_at_ns > 0,
{
}

proof fn lemma_observation_rows(
    manifest: FixtureManifest,
    texts: FixtureTexts,
    own: Seq<ObservationTexts>,
    count: int,
)
    requires
        0 <= count <= manifest.observation@.len(),
        rows_of_observations(manifest, texts, own, count) is Ok,
    ensures
        rows_of_observations(manifest, texts, own, count)->Ok_0.len() == count,
        forall|i: int|
            #![trigger manifest.observation@[i]]
            0 <= i < count ==> row_of_observation(
                manifest,
                manifest.observation@[i],
                texts,
                own[i],
            ) == Ok::<RowView, MaterializationError>(
                rows_of_observations(manifest, texts, own, count)->Ok_0[i],
            ),
    decreases count,
{
    if count > 0 {
        lemma_observation_rows(manifest, texts, own, count - 1);
    }
}

/// A fixture's rows are those of its observations, one for each and in their order. Each row has
/// its observation's times, number, revision and quality, is sound, and is final or corrected.
pub proof fn lemma_fixture_rows_follow_their_observations(
    manifest: FixtureManifest,
    texts: FixtureTexts,
    own: Seq<ObservationTexts>,
)
    requires
        rows_of_fixture(manifest, texts, own) is Ok,
    ensures
        ({
            let rows = rows_of_fixture(manifest, texts, own)->Ok_0;
            &&& rows.len() == manifest.observation@.len()
            &&& forall|i: int|
                #![trigger manifest.observation@[i]]
                0 <= i < rows.len() ==> {
                    let wire = manifest.observation@[i];
                    &&& row_is_sound(rows[i])
                    &&& rows[i].event_time_start_ns == wire.event_time_start_ns
                    &&& rows[i].event_time_end_ns == wire.event_time_end_ns
                    &&& rows[i].as_known_at_ns == wire.as_known_at_ns
                    &&& rows[i].computed_at_ns == wire.computed_at_ns
                    &&& rows[i].finality_as_known_at_ns == wire.finality_as_known_at_ns
                    &&& rows[i].watermark_ns == wire.watermark_ns
                    &&& rows[i].wal_record_sequence == wire.wal_record_sequence
                    &&& rows[i].revision == wire.revision
                    &&& rows[i].quality_millionths == wire.quality_millionths
                    &&& rows[i].resolution_ns == wire.resolution_ns
                    &&& rows[i].feature_id == wire.feature_id@
                    &&& rows[i].window_id == wire.window_id@
                    &&& rows[i].venue == manifest.venue@
                    &&& rows[i].connection_epoch == manifest.connection_epoch
                    &&& rows[i].subscription_epoch == manifest.subscription_epoch
                    &&& wire.finality_state == FinalityState::Final || wire.finality_state
                        == FinalityState::Corrected
                    &&& (wire.value is Some) != (wire.missingness_reason is Some)
                }
        }),
{
    lemma_observation_rows(manifest, texts, own, manifest.observation@.len() as int);
    reveal(row_of_observation);
}

} // verus!
