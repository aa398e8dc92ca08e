//! Emission of computed features under their registered definitions.

use vstd::prelude::*;

use super::admission::Candidate;
use super::computed::{ComputedAnalyticalFeature, ComputedView};
use super::AnalyticalFeature;
use crate::digest::{
    blake3_digest, blake3_hash, encoded_i64, encoded_u32, encoded_u64, framed, is_zero_digest,
    labelled, put_byte, put_bytes, put_framed, put_i64, put_u32, put_u64, same_digest, utf8,
    zero_digest,
};
use crate::domain::{
    entity_encoding, entry_views, source_encoding, source_views, CoverageView, FinalityState,
    MissingnessReason, RegistryError, SourceCoverage, SourceHealthState, SourceView, UnixNanos,
};
use crate::registry::{
    definition_position, find_definition, find_window, lemma_definitions_are_found, version_ascii, window_position, FeatureDatum,
    FeatureDefinition, FeatureObservation, FeatureValue, FeatureValueType, NormalizationKind,
};
use crate::watermark::{optional_time_encoding, put_optional_time};
use crate::window::{window_spec_of, TimeWindow, TimeWindowSpec, WindowKind};

verus! {

/// When, as which revision, and by which code a feature is emitted.
#[derive(Debug)]
pub struct FloatFeatureEmissionInput {
    pub computed_at: UnixNanos,
    pub revision: u32,
    pub code_commit: String,
}

/// Why a computed feature is not emitted.
#[derive(Clone, Copy, Debug, PartialEq, Eq, Structural)]
pub enum FeatureEmissionError {
    /// Feature definition is not registered.
    UnknownDefinition,
    /// Feature definition is not a float64 feature.
    WrongValueType,
    /// Computed formula does not match the registered formula.
    FormulaMismatch,
    /// Computed window does not match the registered window definition.
    WindowMismatch,
    /// The registry refuses the observation.
    Registry(RegistryError),
}

pub open spec fn finality_code(finality: FinalityState) -> u8 {
    match finality {
        FinalityState::Provisional => 1,
        FinalityState::Final => 2,
        FinalityState::Corrected => 3,
        FinalityState::Invalid => 4,
    }
}

pub fn finality_tag(finality: FinalityState) -> (tag: u8)
    ensures
        tag == finality_code(finality),
{
    match finality {
        FinalityState::Provisional => 1,
        FinalityState::Final => 2,
        FinalityState::Corrected => 3,
        FinalityState::Invalid => 4,
    }
}

pub open spec fn normalization_code(kind: NormalizationKind) -> u8 {
    match kind {
        NormalizationKind::Unnormalized => 1,
        NormalizationKind::RobustRolling => 2,
        NormalizationKind::ExpandingQuantile => 3,
        NormalizationKind::TrainingFoldZScore => 4,
        NormalizationKind::Log => 5,
        NormalizationKind::SignedLog => 6,
        NormalizationKind::VolatilityScaled => 7,
        NormalizationKind::AssetRelative => 8,
        NormalizationKind::CrossSectionalRank => 9,
        NormalizationKind::TimeOfWeekSeasonal => 10,
        NormalizationKind::LiquidityBucket => 11,
    }
}

pub fn normalization_kind_tag(kind: NormalizationKind) -> (tag: u8)
    ensures
        tag == normalization_code(kind),
{
    match kind {
        NormalizationKind::Unnormalized => 1,
        NormalizationKind::RobustRolling => 2,
        NormalizationKind::ExpandingQuantile => 3,
        NormalizationKind::TrainingFoldZScore => 4,
        NormalizationKind::Log => 5,
        NormalizationKind::SignedLog => 6,
        NormalizationKind::VolatilityScaled => 7,
        NormalizationKind::AssetRelative => 8,
        NormalizationKind::CrossSectionalRank => 9,
        NormalizationKind::TimeOfWeekSeasonal => 10,
        NormalizationKind::LiquidityBucket => 11,
    }
}

pub open spec fn missingness_code(reason: MissingnessReason) -> u8 {
    match reason {
        MissingnessReason::NotListed => 1,
        MissingnessReason::SourceNotSupported => 2,
        MissingnessReason::SourceDisconnected => 3,
        MissingnessReason::SequenceGap => 4,
        MissingnessReason::Stale => 5,
        MissingnessReason::InsufficientHistory => 6,
        MissingnessReason::WindowNotFinal => 7,
        MissingnessReason::BelowLiquidityThreshold => 8,
        MissingnessReason::VendorRevisionPending => 9,
        MissingnessReason::ModelNotApplicable => 10,
        MissingnessReason::PrivacyOrLicenseRestriction => 11,
        MissingnessReason::Unknown => 12,
    }
}

pub fn missingness_tag(reason: MissingnessReason) -> (tag: u8)
    ensures
        tag == missingness_code(reason),
{
    match reason {
        MissingnessReason::NotListed => 1,
        MissingnessReason::SourceNotSupported => 2,
        MissingnessReason::SourceDisconnected => 3,
        MissingnessReason::SequenceGap => 4,
        MissingnessReason::Stale => 5,
        MissingnessReason::InsufficientHistory => 6,
        MissingnessReason::WindowNotFinal => 7,
        MissingnessReason::BelowLiquidityThreshold => 8,
        MissingnessReason::VendorRevisionPending => 9,
        MissingnessReason::ModelNotApplicable => 10,
        MissingnessReason::PrivacyOrLicenseRestriction => 11,
        MissingnessReason::Unknown => 12,
    }
}

/// The expected sources, each behind a tag.
pub open spec fn expected_encoding(sources: Seq<SourceView>) -> Seq<u8>
    decreases sources.len(),
{
    if sources.len() == 0 {
        Seq::empty()
    } else {
        expected_encoding(sources.drop_last()) + seq![1u8] + source_encoding(sources.last())
    }
}

/// The observed sources and their health, each behind a tag.
pub open spec fn observed_encoding(entries: Seq<(SourceView, SourceHealthState)>) -> Seq<u8>
    decreases entries.len(),
{
    if entries.len() == 0 {
        Seq::empty()
    } else {
        observed_encoding(entries.drop_last()) + seq![2u8] + source_encoding(entries.last().0)
            + framed(utf8(entries.last().1.spec_as_str()))
    }
}

/// The bytes by which a coverage record enters a digest.
pub open spec fn coverage_encoding(coverage: CoverageView) -> Seq<u8> {
    expected_encoding(coverage.0) + observed_encoding(coverage.1)
}

pub(crate) fn put_coverage(buffer: &mut Vec<u8>, coverage: &SourceCoverage)
    ensures
        final(buffer)@ == old(buffer)@ + coverage_encoding(coverage@),
{
    let ghost head = buffer@;
    let ghost sources = source_views(coverage.expected@);
    let ghost entries = entry_views(coverage.entries@);
    let mut i: usize = 0;
    proof {
        assert(buffer@ =~= head + expected_encoding(sources.take(0)));
    }
    while i < coverage.expected.len()
        invariant
            i <= coverage.expected@.len(),
            sources == source_views(coverage.expected@),
            buffer@ == head + expected_encoding(sources.take(i as int)),
        decreases coverage.expected.len() - i,
    {
        buffer.push(1);
        coverage.expected[i].put(buffer);
        proof {
            assert(sources.take(i + 1).drop_last() =~= sources.take(i as int));
            assert(sources.take(i + 1).last() == coverage.expected@[i as int]@);
            assert(buffer@ =~= head + expected_encoding(sources.take(i + 1)));
        }
        i += 1;
    }
    proof {
        assert(sources.take(coverage.expected@.len() as int) =~= sources);
    }
    let ghost middle = buffer@;
    let mut k: usize = 0;
    proof {
        assert(buffer@ =~= middle + observed_encoding(entries.take(0)));
    }
    while k < coverage.entries.len()
        invariant
            k <= coverage.entries@.len(),
            entries == entry_views(coverage.entries@),
            buffer@ == middle + observed_encoding(entries.take(k as int)),
        decreases coverage.entries.len() - k,
    {
        buffer.push(2);
        coverage.entries[k].source.put(buffer);
        put_framed(buffer, coverage.entries[k].health.as_str().as_bytes());
        proof {
            assert(entries.take(k + 1).drop_last() =~= entries.take(k as int));
            assert(entries.take(k + 1).last() == coverage.entries@[k as int]@);
            assert(buffer@ =~= middle + observed_encoding(entries.take(k + 1)));
        }
        k += 1;
    }
    proof {
        assert(entries.take(coverage.entries@.len() as int) =~= entries);
        assert(buffer@ =~= head + coverage_encoding(coverage@));
    }
}

/// The bytes by which an analytical value, or its absence, enters a digest.
pub open spec fn analytical_encoding(analytical: AnalyticalFeature) -> Seq<u8> {
    match analytical {
        AnalyticalFeature::Present(value) => seq![1u8] + encoded_u64(value.pattern()),
        AnalyticalFeature::Missing(reason) => seq![2u8, missingness_code(reason)],
    }
}

fn put_analytical(buffer: &mut Vec<u8>, analytical: AnalyticalFeature)
    ensures
        final(buffer)@ == old(buffer)@ + analytical_encoding(analytical),
{
    match analytical {
        AnalyticalFeature::Present(value) => {
            buffer.push(1);
            put_u64(buffer, value.bits());
        },
        AnalyticalFeature::Missing(reason) => {
            buffer.push(2);
            buffer.push(missingness_tag(reason));
        },
    }
    proof {
        assert(buffer@ =~= old(buffer)@ + analytical_encoding(analytical));
    }
}

/// A value keeps the finality of its window; an absent value is invalid.
pub open spec fn emitted_finality(computed: ComputedView) -> FinalityState {
    match computed.analytical {
        AnalyticalFeature::Present(_) => computed.finality,
        AnalyticalFeature::Missing(_) => FinalityState::Invalid,
    }
}

/// Everything that the lineage of an emitted feature rests on, in order.
pub open spec fn feature_lineage_encoding(
    definition: FeatureDefinition,
    input: FloatFeatureEmissionInput,
    computed: ComputedView,
) -> Seq<u8> {
    utf8("crypto-intelligence/analytical-feature-lineage/v1"@) + framed(utf8(definition.id@))
        + framed(version_ascii(definition.version)) + definition.formula_hash@ + encoded_u64(
        definition.output_resolution.nanos,
    ) + seq![normalization_code(definition.normalization)] + framed(
        version_ascii(definition.normalization_version),
    ) + framed(utf8(computed.window_id)) + entity_encoding(computed.entity) + encoded_i64(
        computed.window.lower(),
    ) + encoded_i64(computed.window.upper()) + encoded_i64(computed.as_of.nanos) + encoded_i64(
        computed.finality_as_known_at.nanos,
    ) + encoded_i64(input.computed_at.nanos) + optional_time_encoding(computed.watermark)
        + encoded_u32(input.revision) + encoded_u32(computed.quality.millionths) + framed(
        utf8(input.code_commit@),
    ) + seq![finality_code(emitted_finality(computed))] + coverage_encoding(computed.coverage)
        + analytical_encoding(computed.analytical) + encoded_u64(computed.input_count as u64)
        + computed.lineage
}

/// A span of event time is an instance of a registered window.
pub open spec fn is_registered_window(
    definition: FeatureDefinition,
    window_id: Seq<char>,
    window: TimeWindow,
) -> bool {
    let position = window_position(definition.windows@, window_id);
    let registered = definition.windows@[position];
    let last = window.upper() - 1;
    &&& position < definition.windows@.len()
    &&& registered.kind == WindowKind::ExponentiallyWeighted || (window_spec_of(registered) is Ok && {
        let spec = window_spec_of(registered)->Ok_0;
        &&& spec.membership_refusal(last) is None
        &&& spec.opens_at(window.lower() as int, last)
        &&& window.upper() == window.lower() + spec.extent_of()
    })
}

/// Why a computed feature is not emitted, if it is not.
pub open spec fn emission_refusal(
    definitions: Seq<FeatureDefinition>,
    input: FloatFeatureEmissionInput,
    computed: ComputedView,
) -> Option<FeatureEmissionError> {
    let position = definition_position(
        definitions,
        computed.kind.spec_id(),
        computed.kind.spec_version(),
    );
    let definition = definitions[position];
    if position == definitions.len() {
        Some(FeatureEmissionError::UnknownDefinition)
    } else if definition.value_type != FeatureValueType::Float64 {
        Some(FeatureEmissionError::WrongValueType)
    } else if definition.formula_hash@ != computed.kind.spec_formula_hash() {
        Some(FeatureEmissionError::FormulaMismatch)
    } else if !is_registered_window(definition, computed.window_id, computed.window) {
        Some(FeatureEmissionError::WindowMismatch)
    } else if blake3_digest(feature_lineage_encoding(definition, input, computed))
        == zero_digest() {
        Some(FeatureEmissionError::Registry(RegistryError::ZeroHash))
    } else {
        None
    }
}

/// The observation says what was computed, under its definition.
pub open spec fn observes(
    observation: FeatureObservation,
    definition: FeatureDefinition,
    input: FloatFeatureEmissionInput,
    computed: ComputedView,
) -> bool {
    &&& observation.feature_id@ == computed.kind.spec_id()
    &&& observation.feature_version == computed.kind.spec_version()
    &&& observation.entity@ == computed.entity
    &&& observation.window_id@ == computed.window_id
    &&& observation.resolution == definition.output_resolution
    &&& match computed.analytical {
        AnalyticalFeature::Present(value) => observation.datum == FeatureDatum::Present(
            FeatureValue::Float64(value),
        ),
        AnalyticalFeature::Missing(reason) => observation.datum == FeatureDatum::Missing(reason),
    }
    &&& observation.value_type == FeatureValueType::Float64
    &&& observation.event_time_start.nanos == computed.window.lower()
    &&& observation.event_time_end.nanos == computed.window.upper()
    &&& observation.as_known_at == computed.as_of
    &&& observation.computed_at == input.computed_at
    &&& observation.watermark == computed.watermark
    &&& observation.finality_as_known_at == computed.finality_as_known_at
    &&& observation.finality_state == emitted_finality(computed)
    &&& observation.revision == input.revision
    &&& observation.source_coverage@ == computed.coverage
    &&& observation.quality_score == computed.quality
    &&& observation.normalization_version == definition.normalization_version
    &&& observation.formula_hash@ == definition.formula_hash@
    &&& observation.code_commit@ == input.code_commit@
    &&& observation.lineage_hash@ == blake3_digest(
        feature_lineage_encoding(definition, input, computed),
    )
}

/// Binds a computed feature to its registered definition.
pub fn emit_float_feature(
    definitions: &Vec<FeatureDefinition>,
    input: FloatFeatureEmissionInput,
    computed: ComputedAnalyticalFeature,
) -> (result: Result<Candidate, FeatureEmissionError>)
    ensures
        match emission_refusal(definitions@, input, computed@) {
            Some(error) => result is Err && result->Err_0 == error,
            None => result is Ok && observes(
                result->Ok_0@,
                definitions@[definition_position(
                    definitions@,
                    computed@.kind.spec_id(),
                    computed@.kind.spec_version(),
                )],
                input,
                computed@,
            ),
        },
{
    let kind = computed.kind();
    let position: usize = find_definition(definitions, kind.id(), kind.version());
    if position == definitions.len() {
        return Err(FeatureEmissionError::UnknownDefinition);
    }
    let definition = &definitions[position];
    if definition.value_type != FeatureValueType::Float64 {
        return Err(FeatureEmissionError::WrongValueType);
    }
    let formula_hash = kind.formula_hash();
    if !same_digest(&definition.formula_hash, &formula_hash) {
        return Err(FeatureEmissionError::FormulaMismatch);
    }
    if !registered_window_matches(definition, computed.window_id(), computed.time_window()) {
        return Err(FeatureEmissionError::WindowMismatch);
    }
    let (datum, finality_state) = match computed.analytical() {
        AnalyticalFeature::Present(value) => (
            FeatureDatum::Present(FeatureValue::Float64(value)),
            computed.finality_state(),
        ),
        AnalyticalFeature::Missing(reason) => (
            FeatureDatum::Missing(reason),
            FinalityState::Invalid,
        ),
    };
    let lineage_hash = feature_lineage_hash(definition, &input, &computed, finality_state);
    if is_zero_digest(&lineage_hash) {
        return Err(FeatureEmissionError::Registry(RegistryError::ZeroHash));
    }
    let window = computed.time_window();
    let observation = FeatureObservation {
        feature_id: kind.id().to_owned(),
        feature_version: kind.version(),
        entity: computed.entity().clone(),
        window_id: computed.window_id().to_owned(),
        resolution: definition.output_resolution,
        datum,
        value_type: FeatureValueType::Float64,
        event_time_start: window.start(),
        event_time_end: window.end(),
        as_known_at: computed.as_of(),
        computed_at: input.computed_at,
        watermark: computed.watermark(),
        finality_as_known_at: computed.finality_as_known_at(),
        finality_state,
        revision: input.revision,
        source_coverage: computed.source_coverage().clone(),
        quality_score: computed.quality_score(),
        normalization_version: definition.normalization_version,
        formula_hash: definition.formula_hash,
        code_commit: input.code_commit,
        lineage_hash,
    };
    Ok(Candidate::new(observation))
}

pub(crate) fn registered_window_matches(
    definition: &FeatureDefinition,
    window_id: &str,
    time_window: TimeWindow,
) -> (answer: bool)
    ensures
        answer == is_registered_window(*definition, window_id@, time_window),
{
    let position: usize = find_window(&definition.windows, window_id);
    if position == definition.windows.len() {
        return false;
    }
    let registered = &definition.windows[position];
    if registered.kind == WindowKind::ExponentiallyWeighted {
        return true;
    }
    let spec = match TimeWindowSpec::try_from_definition(registered) {
        Err(_) => {
            return false;
        },
        Ok(spec) => spec,
    };
    let end: i64 = time_window.end().value();
    let start: i64 = time_window.start().value();
    match spec.windows_for(UnixNanos::new(end - 1)) {
        Err(_) => false,
        Ok(windows) => {
            proof {
                assert forall|k: int|
                    0 <= k < windows@.len() && (#[trigger] windows@[k]).lower() == start
                        && end == start + spec.extent_of() implies windows@[k] == time_window by {
                    crate::window::lemma_window_bounds_identify(windows@[k], time_window);
                }
            }
            holds_window(&windows, time_window)
        },
    }
}

fn holds_window(windows: &Vec<TimeWindow>, wanted: TimeWindow) -> (answer: bool)
    ensures
        answer == exists|i: int| 0 <= i < windows@.len() && #[trigger] windows@[i] == wanted,
{
    let mut i: usize = 0;
    while i < windows.len()
        invariant
            i <= windows@.len(),
            forall|k: int| 0 <= k < i ==> windows@[k] != wanted,
        decreases windows.len() - i,
    {
        if windows[i] == wanted {
            proof {
                assert(windows@[i as int] == wanted);
            }
            return true;
        }
        i += 1;
    }
    false
}

fn feature_lineage_hash(
    definition: &FeatureDefinition,
    input: &FloatFeatureEmissionInput,
    computed: &ComputedAnalyticalFeature,
    finality_state: FinalityState,
) -> (digest: [u8; 32])
    requires
        finality_state == emitted_finality(computed@),
    ensures
        digest@ == blake3_digest(feature_lineage_encoding(*definition, *input, computed@)),
{
    let mut buffer = labelled("crypto-intelligence/analytical-feature-lineage/v1");
    put_framed(&mut buffer, definition.id.as_bytes());
    let version = definition.version.text();
    put_framed(&mut buffer, version.as_str().as_bytes());
    put_bytes(&mut buffer, definition.formula_hash.as_slice());
    put_u64(&mut buffer, definition.output_resolution.value());
    put_byte(&mut buffer, normalization_kind_tag(definition.normalization));
    let normalization_version = definition.normalization_version.text();
    put_framed(&mut buffer, normalization_version.as_str().as_bytes());
    put_framed(&mut buffer, computed.window_id().as_bytes());
    computed.entity().put(&mut buffer);
    let window = computed.time_window();
    put_i64(&mut buffer, window.start().value());
    put_i64(&mut buffer, window.end().value());
    put_i64(&mut buffer, computed.as_of().value());
    put_i64(&mut buffer, computed.finality_as_known_at().value());
    put_i64(&mut buffer, input.computed_at.value());
    put_optional_time(&mut buffer, computed.watermark());
    put_u32(&mut buffer, input.revision);
    put_u32(&mut buffer, computed.quality_score().millionths);
    put_framed(&mut buffer, input.code_commit.as_str().as_bytes());
    put_byte(&mut buffer, finality_tag(finality_state));
    put_coverage(&mut buffer, computed.source_coverage());
    put_analytical(&mut buffer, computed.analytical());
    put_u64(&mut buffer, computed.input_count() as u64);
    let lineage = computed.input_lineage_digest();
    put_bytes(&mut buffer, lineage.as_slice());
    blake3_hash(buffer.as_slice())
}

/// Tags tell states, normalizations and reasons apart, and none of them is zero.
pub proof fn lemma_tags_tell_apart(
    a: FinalityState,
    b: FinalityState,
    x: NormalizationKind,
    y: NormalizationKind,
    p: MissingnessReason,
    q: MissingnessReason,
)
    ensures
        finality_code(a) == finality_code(b) <==> a == b,
        normalization_code(x) == normalization_code(y) <==> x == y,
        missingness_code(p) == missingness_code(q) <==> p == q,
        1 <= finality_code(a) <= 4,
        1 <= normalization_code(x) <= 11,
        1 <= missingness_code(p) <= 12,
        a == FinalityState::Final || a == FinalityState::Corrected <==> 2 <= finality_code(a) <= 3,
        finality_code(FinalityState::Final) < finality_code(FinalityState::Corrected),
        finality_code(a) == 1 <==> a == FinalityState::Provisional,
        x == NormalizationKind::Unnormalized <==> normalization_code(x) == 1,
        p == MissingnessReason::Unknown <==> missingness_code(p) == 12,
{
}

/// An observation says when its window began and ended, when it was known and computed, and what
/// was computed: a value with the finality of its window, or an absence, which is invalid.
pub proof fn lemma_observations_say_what_was_computed(
    observation: FeatureObservation,
    definition: FeatureDefinition,
    input: FloatFeatureEmissionInput,
    computed: ComputedView,
)
    requires
        observes(observation, definition, input, computed),
    ensures
        computed.analytical is Missing <==> observation.datum is Missing,
        computed.analytical is Missing ==> observation.datum->Missing_0
            == computed.analytical->Missing_0 && observation.finality_state
            == FinalityState::Invalid,
        computed.analytical is Present ==> observation.datum->Present_0->Float64_0
            == computed.analytical->Present_0 && observation.finality_state == computed.finality,
        observation.event_time_start.nanos == computed.window.lower(),
        observation.event_time_end.nanos == computed.window.upper(),
        observation.as_known_at == computed.as_of,
        observation.finality_as_known_at == computed.finality_as_known_at,
        observation.computed_at == input.computed_at,
        observation.watermark == computed.watermark,
        observation.revision == input.revision,
        observation.quality_score == computed.quality,
        observation.source_coverage@ == computed.coverage,
        observation.entity@ == computed.entity,
        observation.resolution == definition.output_resolution,
{
}

/// A feature is emitted only under a registered definition of its own name, version and formula
/// that holds floating-point values, over a span that the definition's window allows.
pub proof fn lemma_emissions_are_registered(
    definitions: Seq<FeatureDefinition>,
    input: FloatFeatureEmissionInput,
    computed: ComputedView,
)
    requires
        emission_refusal(definitions, input, computed) is None,
    ensures
        exists|i: int|
            #![trigger definitions[i]]
            {
                &&& 0 <= i < definitions.len()
                &&& definitions[i].id@ == computed.kind.spec_id()
                &&& definitions[i].version == computed.kind.spec_version()
                &&& definitions[i].value_type == FeatureValueType::Float64
                &&& definitions[i].formula_hash@ == computed.kind.spec_formula_hash()
                &&& is_registered_window(definitions[i], computed.window_id, computed.window)
            },
{
    let position = definition_position(
        definitions,
        computed.kind.spec_id(),
        computed.kind.spec_version(),
    );
    lemma_definitions_are_found(
        definitions,
        computed.kind.spec_id(),
        computed.kind.spec_version(),
    );
    assert(definitions[position].id@ == computed.kind.spec_id());
}

} // verus!
