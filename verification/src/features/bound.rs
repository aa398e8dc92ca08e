//! Observations that are bound to a recipe, a finality decision and the evidence behind a value.

use vstd::prelude::*;

use super::emission::{is_registered_window, registered_window_matches};
use crate::decimal::FixedDecimal;
use crate::digest::{encoded_i64, encoded_u64, framed, put_framed, put_i64, put_u64};
use crate::domain::{
    CoverageView, EntityView, FeatureEntity, FinalityState, MissingnessReason, QualityScore,
    SourceCoverage, UnixNanos,
};
use crate::receipt::{flag_code, flag_tag};
use crate::registry::{
    definition_position, find_definition, lemma_definitions_are_found, DatumView, DefinitionView,
    FeatureDatum, FeatureDefinition, FeatureObservation, FeatureValue, FeatureVersion,
};
use crate::watermark::{DecisionView, FinalizationDecision};

verus! {

/// What a value was computed from, and for whom.
#[derive(Debug)]
pub struct BoundEvidence {
    pub entity: FeatureEntity,
    pub as_known_at: UnixNanos,
    pub domain: &'static str,
    pub input_digest: [u8; 32],
    pub quality_score: QualityScore,
}

/// The contents of [`BoundEvidence`].
pub struct BoundView {
    pub entity: EntityView,
    pub as_known_at: UnixNanos,
    pub domain: Seq<char>,
    pub input_digest: Seq<u8>,
    pub quality_score: QualityScore,
}

impl View for BoundEvidence {
    type V = BoundView;

    open spec fn view(&self) -> BoundView {
        BoundView {
            entity: self.entity@,
            as_known_at: self.as_known_at,
            domain: self.domain@,
            input_digest: self.input_digest@,
            quality_score: self.quality_score,
        }
    }
}

/// When, as which revision, and by which code an observation is emitted.
#[derive(Debug)]
pub struct EmissionStamp {
    pub computed_at: UnixNanos,
    pub revision: u32,
    pub code_commit: String,
}

/// A datum under the identifier of its recipe.
pub type NamedDatum = (&'static str, FeatureDatum);

/// The contents of a list of named data.
pub open spec fn named_views(inputs: Seq<NamedDatum>) -> Seq<(Seq<char>, DatumView)> {
    Seq::new(inputs.len(), |i: int| (inputs[i].0@, inputs[i].1@))
}

/// The name of a reason for absence.
pub open spec fn reason_name(reason: MissingnessReason) -> Seq<char> {
    match reason {
        MissingnessReason::NotListed => "NotListed"@,
        MissingnessReason::SourceNotSupported => "SourceNotSupported"@,
        MissingnessReason::SourceDisconnected => "SourceDisconnected"@,
        MissingnessReason::SequenceGap => "SequenceGap"@,
        MissingnessReason::Stale => "Stale"@,
        MissingnessReason::InsufficientHistory => "InsufficientHistory"@,
        MissingnessReason::WindowNotFinal => "WindowNotFinal"@,
        MissingnessReason::BelowLiquidityThreshold => "BelowLiquidityThreshold"@,
        MissingnessReason::VendorRevisionPending => "VendorRevisionPending"@,
        MissingnessReason::ModelNotApplicable => "ModelNotApplicable"@,
        MissingnessReason::PrivacyOrLicenseRestriction => "PrivacyOrLicenseRestriction"@,
        MissingnessReason::Unknown => "Unknown"@,
    }
}

pub fn name_of_reason(reason: MissingnessReason) -> (name: &'static str)
    ensures
        name@ == reason_name(reason),
{
    match reason {
        MissingnessReason::NotListed => "NotListed",
        MissingnessReason::SourceNotSupported => "SourceNotSupported",
        MissingnessReason::SourceDisconnected => "SourceDisconnected",
        MissingnessReason::SequenceGap => "SequenceGap",
        MissingnessReason::Stale => "Stale",
        MissingnessReason::InsufficientHistory => "InsufficientHistory",
        MissingnessReason::WindowNotFinal => "WindowNotFinal",
        MissingnessReason::BelowLiquidityThreshold => "BelowLiquidityThreshold",
        MissingnessReason::VendorRevisionPending => "VendorRevisionPending",
        MissingnessReason::ModelNotApplicable => "ModelNotApplicable",
        MissingnessReason::PrivacyOrLicenseRestriction => "PrivacyOrLicenseRestriction",
        MissingnessReason::Unknown => "Unknown",
    }
}

/// Pairs of decimals by their texts, each framed by its length.
pub open spec fn pairs_encoding(pairs: Seq<(FixedDecimal, FixedDecimal)>) -> Seq<u8>
    decreases pairs.len(),
{
    if pairs.len() == 0 {
        Seq::empty()
    } else {
        pairs_encoding(pairs.drop_last()) + framed(pairs.last().0.ascii()) + framed(
            pairs.last().1.ascii(),
        )
    }
}

/// The bytes by which a present value enters a digest: a tag, then the value.
pub open spec fn present_encoding(datum: DatumView) -> Seq<u8> {
    match datum {
        DatumView::FixedDecimal(value) => seq![1u8] + framed(value.ascii()),
        DatumView::FixedDecimalMap(pairs) => seq![2u8] + encoded_u64(pairs.len() as u64)
            + pairs_encoding(pairs),
        DatumView::Float64(value) => seq![3u8] + encoded_u64(value.pattern()),
        DatumView::Integer(value) => seq![4u8] + encoded_i64(value),
        DatumView::Boolean(value) => seq![5u8, flag_code(value)],
        DatumView::Missing(_) => Seq::empty(),
    }
}

pub(crate) fn put_present(buffer: &mut Vec<u8>, value: &FeatureValue)
    ensures
        final(buffer)@ == old(buffer)@ + present_encoding(FeatureDatum::Present(*value)@),
{
    let ghost head = buffer@;
    match value {
        FeatureValue::FixedDecimal(value) => {
            buffer.push(1);
            let text = value.to_ascii();
            put_framed(buffer, text.as_slice());
        },
        FeatureValue::FixedDecimalMap(pairs) => {
            buffer.push(2);
            put_u64(buffer, pairs.len() as u64);
            put_pairs(buffer, pairs);
        },
        FeatureValue::Float64(value) => {
            buffer.push(3);
            put_u64(buffer, value.bits());
        },
        FeatureValue::Integer(value) => {
            buffer.push(4);
            put_i64(buffer, *value);
        },
        FeatureValue::Boolean(value) => {
            buffer.push(5);
            buffer.push(flag_tag(*value));
        },
    }
    proof {
        assert(buffer@ =~= head + present_encoding(FeatureDatum::Present(*value)@));
    }
}

fn put_pairs(buffer: &mut Vec<u8>, pairs: &Vec<(FixedDecimal, FixedDecimal)>)
    ensures
        final(buffer)@ == old(buffer)@ + pairs_encoding(pairs@),
{
    let ghost head = buffer@;
    let mut i: usize = 0;
    proof {
        assert(pairs@.take(0) =~= Seq::empty());
        assert(buffer@ =~= head + pairs_encoding(pairs@.take(0)));
    }
    while i < pairs.len()
        invariant
            i <= pairs@.len(),
            buffer@ == head + pairs_encoding(pairs@.take(i as int)),
        decreases pairs.len() - i,
    {
        let key = pairs[i].0.to_ascii();
        let item = pairs[i].1.to_ascii();
        put_framed(buffer, key.as_slice());
        put_framed(buffer, item.as_slice());
        proof {
            assert(pairs@.take(i + 1).drop_last() =~= pairs@.take(i as int));
            assert(pairs@.take(i + 1).last() == pairs@[i as int]);
            assert(buffer@ =~= head + pairs_encoding(pairs@.take(i + 1)));
        }
        i += 1;
    }
    proof {
        assert(pairs@.take(pairs@.len() as int) =~= pairs@);
    }
}

/// The observation carries a datum under its definition, its evidence and its decision.
pub open spec fn is_bound(
    observation: FeatureObservation,
    definition: FeatureDefinition,
    window_id: Seq<char>,
    datum: DatumView,
    evidence: BoundView,
    stamp: EmissionStamp,
    decision: DecisionView,
    coverage: CoverageView,
    lineage: Seq<u8>,
) -> bool {
    &&& observation.feature_id@ == definition.id@
    &&& observation.feature_version == definition.version
    &&& observation.entity@ == evidence.entity
    &&& observation.window_id@ == window_id
    &&& observation.resolution == definition.output_resolution
    &&& observation.datum@ == datum
    &&& observation.value_type == definition.value_type
    &&& observation.event_time_start.nanos == decision.window.lower()
    &&& observation.event_time_end.nanos == decision.window.upper()
    &&& observation.as_known_at == evidence.as_known_at.later(decision.as_known_at)
    &&& observation.computed_at == stamp.computed_at
    &&& observation.watermark == decision.watermark
    &&& observation.finality_as_known_at == decision.as_known_at
    &&& observation.finality_state == FinalityState::Final
    &&& observation.revision == stamp.revision
    &&& observation.source_coverage@ == coverage
    &&& observation.quality_score == evidence.quality_score
    &&& observation.normalization_version == definition.normalization_version
    &&& observation.formula_hash@ == definition.formula_hash@
    &&& observation.code_commit@ == stamp.code_commit@
    &&& observation.lineage_hash@ == lineage
}

pub(crate) fn bind(
    definition: &FeatureDefinition,
    window_id: &'static str,
    datum: FeatureDatum,
    evidence: &BoundEvidence,
    stamp: &EmissionStamp,
    decision: FinalizationDecision,
    coverage: SourceCoverage,
    lineage_hash: [u8; 32],
) -> (observation: FeatureObservation)
    ensures
        is_bound(
            observation,
            *definition,
            window_id@,
            datum@,
            evidence@,
            *stamp,
            decision@,
            coverage@,
            lineage_hash@,
        ),
{
    let window = decision.window();
    FeatureObservation {
        feature_id: definition.id.to_owned(),
        feature_version: definition.version,
        entity: evidence.entity.clone(),
        window_id: window_id.to_owned(),
        resolution: definition.output_resolution,
        datum,
        value_type: definition.value_type,
        event_time_start: window.start(),
        event_time_end: window.end(),
        as_known_at: evidence.as_known_at.max_of(decision.as_known_at()),
        computed_at: stamp.computed_at,
        watermark: decision.watermark(),
        finality_as_known_at: decision.as_known_at(),
        finality_state: FinalityState::Final,
        revision: stamp.revision,
        source_coverage: coverage,
        quality_score: evidence.quality_score,
        normalization_version: definition.normalization_version,
        formula_hash: definition.formula_hash,
        code_commit: stamp.code_commit.clone(),
        lineage_hash,
    }
}

/// The registered definition of a recipe, if there is one.
pub open spec fn registered(definitions: Seq<FeatureDefinition>, id: Seq<char>) -> Option<
    FeatureDefinition,
> {
    let position = definition_position(
        definitions,
        id,
        FeatureVersion { major: 1, minor: 0, patch: 0 },
    );
    if position < definitions.len() {
        Some(definitions[position])
    } else {
        None
    }
}

pub(crate) fn find_registered<'a>(definitions: &'a Vec<FeatureDefinition>, id: &str) -> (found:
    Option<&'a FeatureDefinition>)
    ensures
        match found {
            Some(definition) => registered(definitions@, id@) == Some(*definition),
            None => registered(definitions@, id@) is None,
        },
{
    let position: usize = find_definition(definitions, id, FeatureVersion::new(1, 0, 0));
    if position < definitions.len() {
        Some(&definitions[position])
    } else {
        None
    }
}

/// The registered definition is the recipe's own, of the datum's type, and the decision's window
/// is one of its windows.
pub open spec fn definition_fits(
    definition: FeatureDefinition,
    expected: DefinitionView,
    datum: DatumView,
    window_id: Seq<char>,
    decision: DecisionView,
) -> bool {
    &&& definition@ == expected
    &&& datum.value_type() is Some ==> datum.value_type() == Some(definition.value_type)
    &&& is_registered_window(definition, window_id, decision.window)
}

pub(crate) fn fits_definition(
    definition: &FeatureDefinition,
    expected: &FeatureDefinition,
    datum: &FeatureDatum,
    window_id: &str,
    decision: FinalizationDecision,
) -> (answer: bool)
    ensures
        answer == definition_fits(*definition, expected@, datum@, window_id@, decision@),
{
    let typed: bool = match datum.value_type() {
        Some(value_type) => value_type == definition.value_type,
        None => true,
    };
    definition.same(expected) && typed && registered_window_matches(
        definition,
        window_id,
        decision.window(),
    )
}

/// A bound observation spans its decision's window, is final, is known once both its evidence and
/// its decision are, and is as good as its evidence.
pub proof fn lemma_bound_observations_follow_their_decision(
    observation: FeatureObservation,
    definition: FeatureDefinition,
    window_id: Seq<char>,
    datum: DatumView,
    evidence: BoundView,
    stamp: EmissionStamp,
    decision: DecisionView,
    coverage: CoverageView,
    lineage: Seq<u8>,
)
    requires
        is_bound(
            observation,
            definition,
            window_id,
            datum,
            evidence,
            stamp,
            decision,
            coverage,
            lineage,
        ),
    ensures
        observation.event_time_start.nanos == decision.window.lower(),
        observation.event_time_end.nanos == decision.window.upper(),
        observation.as_known_at.nanos >= evidence.as_known_at.nanos,
        observation.as_known_at.nanos >= decision.as_known_at.nanos,
        observation.as_known_at == evidence.as_known_at || observation.as_known_at
            == decision.as_known_at,
        observation.finality_as_known_at == decision.as_known_at,
        observation.watermark == decision.watermark,
        observation.finality_state == FinalityState::Final,
        observation.quality_score == evidence.quality_score,
        observation.entity@ == evidence.entity,
        observation.datum@ == datum,
        observation.computed_at == stamp.computed_at,
        observation.revision == stamp.revision,
        observation.source_coverage@ == coverage,
{
}

/// A recipe is registered where a definition has its name at the first version.
pub proof fn lemma_recipes_are_registered_by_name(
    definitions: Seq<FeatureDefinition>,
    id: Seq<char>,
)
    ensures
        registered(definitions, id) is Some ==> {
            let definition = registered(definitions, id)->Some_0;
            &&& definition.id@ == id
            &&& definition.version == FeatureVersion { major: 1, minor: 0, patch: 0 }
            &&& definitions.contains(definition)
        },
        registered(definitions, id) is None ==> forall|i: int|
            #![trigger definitions[i]]
            0 <= i < definitions.len() ==> !(definitions[i].id@ == id && definitions[i].version
                == FeatureVersion { major: 1, minor: 0, patch: 0 }),
{
    lemma_definitions_are_found(definitions, id, FeatureVersion { major: 1, minor: 0, patch: 0 });
}

} // verus!
