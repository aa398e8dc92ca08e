//! Definition- and finality-bound emission of cross-venue, quality and storage observations.

use vstd::prelude::*;

use super::admission::{emission, Candidate, Candidates, CandidatesView, Verdict};
use super::book_evidence::{elapsed, elapsed_ns};
use super::bound::{
    bind, definition_fits, find_registered, fits_definition, is_bound, named_views,
    present_encoding, put_present, registered, BoundEvidence, BoundView, EmissionStamp, NamedDatum,
};
use super::cross_venue::{
    cross_venue_refusal, cross_venue_terms, healthy_venues, is_cross_venue, is_snapshot,
    measures_refusal, CrossVenueMeasures, CrossVenueSnapshot, CrossVenueTerms, VenueDeviation,
};
use super::emission::{
    is_registered_window, missingness_code, missingness_tag, registered_window_matches,
};
use super::microstructure_emission::is_final_for;
use super::quality::{operational_quality_snapshot, quality_snapshot};
use super::task6_catalog::{
    health_code, health_tag, lemma_task_six_recipe_at, lemma_task_six_recipes_are_found,
    task_six_catalogue, task_six_named, task_six_recipe, Task6ComputationAvailability,
};
use super::FeatureComputationError;
use crate::digest::{
    blake3_digest, blake3_hash, encoded_i64, encoded_u32, encoded_u64, framed, is_zero_digest,
    labelled, put_byte, put_bytes, put_framed, put_i64, put_u32, put_u64, utf8, zero_digest,
};
use crate::domain::{
    entity_encoding, finite_bits, source_views, EntityView, FeatureEntity, FiniteF64,
    MissingnessReason, QualityScore, RegistryError, SourceHealthState, SourceId, SourceView,
    UnixNanos,
};
use crate::market::FairPrice;
use crate::receipt::{
    completeness_encoding, put_completeness, stream_code, stream_tag, OperationalQualityReceipt,
    StoragePressureReceipt,
};
use crate::registry::{
    version_ascii, DatumView, FeatureDatum, FeatureDefinition, FeatureObservation, FeatureValue,
};
use crate::watermark::{
    decision_coverage, decision_encoding, entity_fingerprint, sources_fingerprint, DecisionView,
    Finalization, FinalizationDecision, TrackerView, WatermarkTracker,
};

verus! {

/// How an observation is stamped.
pub type Task6FeatureEmissionInput = EmissionStamp;

/// How the absence of an observation is stamped.
pub type Task6MissingEmissionInput = EmissionStamp;

/// Why a cross-venue, derivatives or quality observation is not emitted.
#[derive(Clone, Copy, Debug, PartialEq, Eq, Structural)]
pub enum Task6EmissionError {
    /// The computation failed.
    Computation(FeatureComputationError),
    /// The recipe is absent.
    UnknownRecipe,
    /// The registry definition differs from the closed recipe.
    DefinitionMismatch,
    /// An implemented recipe cannot be reported as unavailable.
    ImplementedRecipe,
    /// The finality or entity evidence is untrusted.
    UntrustedFinality,
    /// The registry refuses the observation.
    Registry(RegistryError),
}

/// The bytes by which a datum enters a lineage: absence by the number of its reason.
pub open spec fn datum_encoding(datum: DatumView) -> Seq<u8> {
    match datum {
        DatumView::Missing(reason) => seq![6u8, missingness_code(reason)],
        _ => present_encoding(datum),
    }
}

fn put_datum(buffer: &mut Vec<u8>, datum: &FeatureDatum)
    ensures
        final(buffer)@ == old(buffer)@ + datum_encoding(datum@),
{
    let ghost head = buffer@;
    match datum {
        FeatureDatum::Present(value) => {
            put_present(buffer, value);
        },
        FeatureDatum::Missing(reason) => {
            buffer.push(6);
            buffer.push(missingness_tag(*reason));
        },
    }
    proof {
        assert(buffer@ =~= head + datum_encoding(datum@));
    }
}

/// Everything that the lineage of an observation rests on, in order.
pub open spec fn task_six_lineage_encoding(
    definition: FeatureDefinition,
    stamp: EmissionStamp,
    evidence: BoundView,
    decision: DecisionView,
    datum: DatumView,
) -> Seq<u8> {
    utf8("crypto-intelligence/task6-feature-lineage/v1"@) + framed(utf8(evidence.domain)) + framed(
        utf8(definition.id@),
    ) + framed(version_ascii(definition.version)) + definition.formula_hash@ + blake3_digest(
        decision_encoding(decision),
    ) + evidence.input_digest + entity_encoding(evidence.entity) + datum_encoding(datum)
        + encoded_u32(evidence.quality_score.millionths) + encoded_i64(stamp.computed_at.nanos)
        + encoded_u32(stamp.revision) + framed(utf8(stamp.code_commit@))
}

fn task_six_lineage_hash(
    definition: &FeatureDefinition,
    stamp: &EmissionStamp,
    evidence: &BoundEvidence,
    decision: FinalizationDecision,
    datum: &FeatureDatum,
) -> (digest: [u8; 32])
    ensures
        digest@ == blake3_digest(
            task_six_lineage_encoding(*definition, *stamp, evidence@, decision@, datum@),
        ),
{
    let mut buffer = labelled("crypto-intelligence/task6-feature-lineage/v1");
    put_framed(&mut buffer, evidence.domain.as_bytes());
    put_framed(&mut buffer, definition.id.as_bytes());
    let version = definition.version.text();
    put_framed(&mut buffer, version.as_str().as_bytes());
    put_bytes(&mut buffer, definition.formula_hash.as_slice());
    let finality = decision.evidence_digest();
    put_bytes(&mut buffer, finality.as_slice());
    put_bytes(&mut buffer, evidence.input_digest.as_slice());
    evidence.entity.put(&mut buffer);
    put_datum(&mut buffer, datum);
    put_u32(&mut buffer, evidence.quality_score.millionths);
    put_i64(&mut buffer, stamp.computed_at.value());
    put_u32(&mut buffer, stamp.revision);
    put_framed(&mut buffer, stamp.code_commit.as_str().as_bytes());
    blake3_hash(buffer.as_slice())
}

/// Why one datum is not emitted, if it is not.
pub open spec fn bound_refusal(
    definitions: Seq<FeatureDefinition>,
    stamp: EmissionStamp,
    recipe_id: Seq<char>,
    datum: DatumView,
    evidence: BoundView,
    tracker: TrackerView,
    decision: DecisionView,
) -> Option<Task6EmissionError> {
    match task_six_named(task_six_catalogue(), recipe_id) {
        None => Some(Task6EmissionError::UnknownRecipe),
        Some(recipe) => match registered(definitions, recipe.id@) {
            None => Some(Task6EmissionError::DefinitionMismatch),
            Some(definition) => if recipe.availability != Task6ComputationAvailability::Implemented
                || !definition_fits(
                definition,
                recipe.spec_definition(),
                datum,
                recipe.window.spec_identity(),
                decision,
            ) {
                Some(Task6EmissionError::DefinitionMismatch)
            } else if !is_final_for(tracker, decision, evidence.entity) || decision_coverage(
                tracker,
                decision,
            ) is None {
                Some(Task6EmissionError::UntrustedFinality)
            } else if evidence.as_known_at.later(decision.as_known_at).nanos
                > stamp.computed_at.nanos {
                Some(Task6EmissionError::Computation(FeatureComputationError::FutureKnowledge))
            } else if blake3_digest(
                task_six_lineage_encoding(definition, stamp, evidence, decision, datum),
            ) == zero_digest() {
                Some(Task6EmissionError::Registry(RegistryError::ZeroHash))
            } else {
                None
            },
        },
    }
}

/// The observation is the datum's own, under its recipe.
pub open spec fn is_emitted(
    observation: FeatureObservation,
    definitions: Seq<FeatureDefinition>,
    stamp: EmissionStamp,
    recipe_id: Seq<char>,
    datum: DatumView,
    evidence: BoundView,
    tracker: TrackerView,
    decision: DecisionView,
) -> bool {
    let recipe = task_six_named(task_six_catalogue(), recipe_id)->Some_0;
    let definition = registered(definitions, recipe.id@)->Some_0;
    is_bound(
        observation,
        definition,
        recipe.window.spec_identity(),
        datum,
        evidence,
        stamp,
        decision,
        decision_coverage(tracker, decision)->Some_0,
        blake3_digest(task_six_lineage_encoding(definition, stamp, evidence, decision, datum)),
    )
}

pub(crate) fn emit_bound_task_six_datum(
    definitions: &Vec<FeatureDefinition>,
    stamp: &EmissionStamp,
    recipe_id: &str,
    datum: FeatureDatum,
    evidence: &BoundEvidence,
    tracker: &WatermarkTracker,
    decision: FinalizationDecision,
) -> (result: Result<FeatureObservation, Task6EmissionError>)
    ensures
        match bound_refusal(
            definitions@,
            *stamp,
            recipe_id@,
            datum@,
            evidence@,
            tracker@,
            decision@,
        ) {
            Some(error) => result is Err && result->Err_0 == error,
            None => result is Ok && is_emitted(
                result->Ok_0,
                definitions@,
                *stamp,
                recipe_id@,
                datum@,
                evidence@,
                tracker@,
                decision@,
            ),
        },
{
    let recipe = match task_six_recipe(recipe_id) {
        None => {
            return Err(Task6EmissionError::UnknownRecipe);
        },
        Some(recipe) => recipe,
    };
    let definition = match find_registered(definitions, recipe.id) {
        None => {
            return Err(Task6EmissionError::DefinitionMismatch);
        },
        Some(definition) => definition,
    };
    let expected = recipe.definition();
    let window_id = recipe.window_id();
    if recipe.availability != Task6ComputationAvailability::Implemented || !fits_definition(
        definition,
        &expected,
        &datum,
        window_id,
        decision,
    ) {
        return Err(Task6EmissionError::DefinitionMismatch);
    }
    if decision.state() != Finalization::Final || !tracker.validates_decision(
        decision,
        &evidence.entity,
    ) {
        return Err(Task6EmissionError::UntrustedFinality);
    }
    let coverage = match tracker.coverage_for_decision(decision) {
        None => {
            return Err(Task6EmissionError::UntrustedFinality);
        },
        Some(coverage) => coverage,
    };
    let as_known_at = evidence.as_known_at.max_of(decision.as_known_at());
    if as_known_at.value() > stamp.computed_at.value() {
        return Err(Task6EmissionError::Computation(FeatureComputationError::FutureKnowledge));
    }
    let lineage_hash = task_six_lineage_hash(definition, stamp, evidence, decision, &datum);
    if is_zero_digest(&lineage_hash) {
        return Err(Task6EmissionError::Registry(RegistryError::ZeroHash));
    }
    Ok(bind(definition, window_id, datum, evidence, stamp, decision, coverage, lineage_hash))
}

/// No observation is known after it was computed, nor before its decision and its evidence.
pub proof fn lemma_emissions_never_know_the_future(
    observation: FeatureObservation,
    definitions: Seq<FeatureDefinition>,
    stamp: EmissionStamp,
    recipe_id: Seq<char>,
    datum: DatumView,
    evidence: BoundView,
    tracker: TrackerView,
    decision: DecisionView,
)
    requires
        bound_refusal(definitions, stamp, recipe_id, datum, evidence, tracker, decision) is None,
        is_emitted(
            observation,
            definitions,
            stamp,
            recipe_id,
            datum,
            evidence,
            tracker,
            decision,
        ),
    ensures
        observation.as_known_at.nanos <= observation.computed_at.nanos,
        observation.as_known_at.nanos >= decision.as_known_at.nanos,
        observation.as_known_at.nanos >= evidence.as_known_at.nanos,
        decision.state == Finalization::Final,
        decision.entity == Some(entity_fingerprint(observation.entity@)),
{
}

/// Each observation is the one of its datum.
pub open spec fn all_emitted(
    observations: Seq<FeatureObservation>,
    definitions: Seq<FeatureDefinition>,
    stamp: EmissionStamp,
    inputs: Seq<(Seq<char>, DatumView)>,
    evidence: BoundView,
    tracker: TrackerView,
    decision: DecisionView,
) -> bool {
    observations.len() == inputs.len() && forall|i: int|
        0 <= i < inputs.len() ==> is_emitted(
            #[trigger] observations[i],
            definitions,
            stamp,
            inputs[i].0,
            inputs[i].1,
            evidence,
            tracker,
            decision,
        )
}

/// The datum is bound without a failure, and the observation is its own.
#[verifier::opaque]
pub open spec fn is_candidate(
    observation: FeatureObservation,
    definitions: Seq<FeatureDefinition>,
    stamp: EmissionStamp,
    input: (Seq<char>, DatumView),
    evidence: BoundView,
    tracker: TrackerView,
    decision: DecisionView,
) -> bool {
    &&& bound_refusal(definitions, stamp, input.0, input.1, evidence, tracker, decision) is None
    &&& is_emitted(
        observation,
        definitions,
        stamp,
        input.0,
        input.1,
        evidence,
        tracker,
        decision,
    )
}

/// The candidates are the observations of the data, in order, up to the first datum that fails,
/// and that datum's failure where there is one.
pub open spec fn are_candidates(
    candidates: CandidatesView<Task6EmissionError>,
    definitions: Seq<FeatureDefinition>,
    stamp: EmissionStamp,
    inputs: Seq<(Seq<char>, DatumView)>,
    evidence: BoundView,
    tracker: TrackerView,
    decision: DecisionView,
) -> bool {
    let count = candidates.observations.len() as int;
    &&& count <= inputs.len()
    &&& forall|i: int|
        0 <= i < count ==> is_candidate(
            #[trigger] candidates.observations[i],
            definitions,
            stamp,
            inputs[i],
            evidence,
            tracker,
            decision,
        )
    &&& candidates.stopped == if count < inputs.len() {
        bound_refusal(
            definitions,
            stamp,
            inputs[count].0,
            inputs[count].1,
            evidence,
            tracker,
            decision,
        )
    } else {
        None
    }
    &&& count < inputs.len() ==> candidates.stopped is Some
}

pub(crate) fn emit_all(
    definitions: &Vec<FeatureDefinition>,
    stamp: &EmissionStamp,
    inputs: &Vec<NamedDatum>,
    evidence: &BoundEvidence,
    tracker: &WatermarkTracker,
    decision: FinalizationDecision,
) -> (candidates: Candidates<Task6EmissionError>)
    ensures
        are_candidates(
            candidates@,
            definitions@,
            *stamp,
            named_views(inputs@),
            evidence@,
            tracker@,
            decision@,
        ),
{
    let ghost views = named_views(inputs@);
    let mut observations: Vec<FeatureObservation> = Vec::new();
    let mut i: usize = 0;
    while i < inputs.len()
        invariant
            i <= inputs@.len(),
            views == named_views(inputs@),
            observations@.len() == i,
            forall|k: int|
                0 <= k < i ==> is_candidate(
                    #[trigger] observations@[k],
                    definitions@,
                    *stamp,
                    views[k],
                    evidence@,
                    tracker@,
                    decision@,
                ),
        decreases inputs.len() - i,
    {
        proof {
            assert(views[i as int] == (inputs@[i as int].0@, inputs@[i as int].1@));
        }
        match emit_bound_task_six_datum(
            definitions,
            stamp,
            inputs[i].0,
            inputs[i].1.clone(),
            evidence,
            tracker,
            decision,
        ) {
            Err(error) => {
                return Candidates::new(observations, Some(error));
            },
            Ok(observation) => {
                proof {
                    reveal(is_candidate);
                }
                observations.push(observation);
            },
        }
        i += 1;
    }
    Candidates::new(observations, None)
}

/// What is emitted in the end has one observation for each datum, each the datum's own.
pub proof fn lemma_task_six_emissions_are_complete(
    candidates: CandidatesView<Task6EmissionError>,
    verdicts: Seq<Verdict>,
    definitions: Seq<FeatureDefinition>,
    stamp: EmissionStamp,
    inputs: Seq<(Seq<char>, DatumView)>,
    evidence: BoundView,
    tracker: TrackerView,
    decision: DecisionView,
)
    requires
        are_candidates(candidates, definitions, stamp, inputs, evidence, tracker, decision),
        emission(candidates, verdicts) is Ok,
    ensures
        all_emitted(
            emission(candidates, verdicts)->Ok_0,
            definitions,
            stamp,
            inputs,
            evidence,
            tracker,
            decision,
        ),
{
    reveal(is_candidate);
}

/// A measured value.
pub open spec fn float_of(bits: u64) -> DatumView {
    DatumView::Float64(FiniteF64::of_pattern(bits))
}

fn float_datum(value: FiniteF64) -> (datum: FeatureDatum)
    ensures
        datum@ == DatumView::Float64(value),
{
    FeatureDatum::Present(FeatureValue::Float64(value))
}

/// The decision is final for the entity over the eligible sources, and the fair price falls into
/// its window and was known in time.
pub open spec fn cross_venue_authority(
    fair_price: FairPrice,
    entity: EntityView,
    tracker: TrackerView,
    decision: DecisionView,
    computed_at: UnixNanos,
) -> bool {
    let eligible = source_views(fair_price.eligible_sources->Some_0@);
    &&& is_final_for(tracker, decision, entity)
    &&& decision.required_count == eligible.len()
    &&& decision.required_digest == sources_fingerprint(eligible)
    &&& decision.window.lower() <= fair_price.event_time.nanos < decision.window.upper()
    &&& fair_price.as_of.nanos <= computed_at.nanos
}

fn validate_cross_venue_authority(
    fair_price: &FairPrice,
    eligible: &Vec<SourceId>,
    entity: &FeatureEntity,
    tracker: &WatermarkTracker,
    decision: FinalizationDecision,
    computed_at: UnixNanos,
) -> (result: Result<(), Task6EmissionError>)
    requires
        fair_price.eligible_sources == Some(*eligible),
    ensures
        result == if cross_venue_authority(
            *fair_price,
            entity@,
            tracker@,
            decision@,
            computed_at,
        ) {
            Ok::<(), Task6EmissionError>(())
        } else {
            Err(Task6EmissionError::UntrustedFinality)
        },
{
    let window = decision.window();
    let time: i64 = fair_price.event_time.value();
    if decision.state() != Finalization::Final || !tracker.validates_decision(decision, entity)
        || !decision.matches_required_sources(eligible) || time < window.start().value() || time
        >= window.end().value() || fair_price.as_of.value() > computed_at.value() {
        return Err(Task6EmissionError::UntrustedFinality);
    }
    Ok(())
}

/// The evidence of a fair price for an entity's data, or why it gives none.
pub open spec fn cross_venue_context(
    fair_price: FairPrice,
    entity: EntityView,
    domain: Seq<char>,
    tracker: TrackerView,
    decision: DecisionView,
    computed_at: UnixNanos,
) -> Result<BoundView, Task6EmissionError> {
    if !cross_venue_authority(fair_price, entity, tracker, decision, computed_at) {
        Err(Task6EmissionError::UntrustedFinality)
    } else if fair_price.minimum_included_quality > 1_000_000 {
        Err(Task6EmissionError::Registry(RegistryError::InvalidQualityScore))
    } else {
        Ok(
            BoundView {
                entity,
                as_known_at: fair_price.as_of,
                domain,
                input_digest: fair_price.lineage_digest@,
                quality_score: QualityScore { millionths: fair_price.minimum_included_quality },
            },
        )
    }
}

fn bind_cross_venue(
    fair_price: &FairPrice,
    entity: FeatureEntity,
    domain: &'static str,
    tracker: &WatermarkTracker,
    decision: FinalizationDecision,
    computed_at: UnixNanos,
) -> (result: Result<BoundEvidence, Task6EmissionError>)
    requires
        fair_price.eligible_sources is Some,
    ensures
        match cross_venue_context(
            *fair_price,
            entity@,
            domain@,
            tracker@,
            decision@,
            computed_at,
        ) {
            Err(error) => result is Err && result->Err_0 == error,
            Ok(context) => result is Ok && result->Ok_0@ == context,
        },
{
    match &fair_price.eligible_sources {
        Some(eligible) => {
            validate_cross_venue_authority(
                fair_price,
                eligible,
                &entity,
                tracker,
                decision,
                computed_at,
            )?;
        },
        None => {},
    }
    let quality_score = match QualityScore::from_millionths(fair_price.minimum_included_quality) {
        Err(error) => {
            return Err(Task6EmissionError::Registry(error));
        },
        Ok(score) => score,
    };
    Ok(
        BoundEvidence {
            entity,
            as_known_at: fair_price.as_of,
            domain,
            input_digest: fair_price.lineage_digest,
            quality_score,
        },
    )
}

/// Why a fair price with its measures has no snapshot, if it has none.
pub open spec fn snapshot_refusal(fair_price: FairPrice, measures: CrossVenueMeasures) -> Option<
    Task6EmissionError,
> {
    match (cross_venue_refusal(fair_price), measures_refusal(fair_price.included@.len(), measures)) {
        (Some(error), _) => Some(Task6EmissionError::Computation(error)),
        (None, Some(error)) => Some(Task6EmissionError::Computation(error)),
        (None, None) => None,
    }
}

/// The six data of an asset over its venues.
pub open spec fn aggregate_data(measures: CrossVenueMeasures, coverage_bits: u64) -> Seq<
    (Seq<char>, DatumView),
> {
    seq![
        ("cross_venue_median_absolute_dispersion"@, float_of(measures.relative_mad_bits)),
        ("indicative_cross_venue_price_range"@, float_of(measures.relative_range_bits)),
        ("venue_concentration_index"@, float_of(measures.depth_concentration_bits)),
        ("healthy_venue_fraction"@, float_of(measures.healthy_fraction_bits)),
        ("source_coverage_fraction"@, float_of(coverage_bits)),
        ("cross_source_disagreement"@, float_of(measures.relative_mad_bits)),
    ]
}

/// The evidence for the six data of an asset, or why they are not emitted.
pub open spec fn aggregate_context(
    fair_price: FairPrice,
    measures: CrossVenueMeasures,
    coverage_bits: u64,
    tracker: TrackerView,
    decision: DecisionView,
    computed_at: UnixNanos,
) -> Result<BoundView, Task6EmissionError> {
    match snapshot_refusal(fair_price, measures) {
        Some(error) => Err(error),
        None => match cross_venue_context(
            fair_price,
            EntityView::Asset(fair_price.base_asset@),
            "crypto-intelligence/task6-cross-venue-aggregate-evidence/v1"@,
            tracker,
            decision,
            computed_at,
        ) {
            Err(error) => Err(error),
            Ok(context) => if finite_bits(coverage_bits) {
                Ok(context)
            } else {
                Err(Task6EmissionError::Registry(RegistryError::NonFiniteValue))
            },
        },
    }
}

/// Emits the asset-scoped, descriptive cross-venue features. `source_coverage_bits` is the share
/// of the eligible sources that were included.
pub fn emit_cross_venue_aggregate_features(
    definitions: &Vec<FeatureDefinition>,
    stamp: &EmissionStamp,
    fair_price: &FairPrice,
    measures: &CrossVenueMeasures,
    source_coverage_bits: u64,
    tracker: &WatermarkTracker,
    decision: FinalizationDecision,
) -> (result: Result<Candidates<Task6EmissionError>, Task6EmissionError>)
    ensures
        ({
            let context = aggregate_context(
                *fair_price,
                *measures,
                source_coverage_bits,
                tracker@,
                decision@,
                stamp.computed_at,
            );
            let data = aggregate_data(*measures, source_coverage_bits);
            match context {
                Err(error) => result is Err && result->Err_0 == error,
                Ok(evidence) => result is Ok && are_candidates(
                    result->Ok_0@,
                    definitions@,
                    *stamp,
                    data,
                    evidence,
                    tracker@,
                    decision@,
                ),
            }
        }),
{
    let snapshot = match CrossVenueSnapshot::try_from_fair_price(fair_price, measures) {
        Err(error) => {
            return Err(Task6EmissionError::Computation(error));
        },
        Ok(snapshot) => snapshot,
    };
    let evidence = bind_cross_venue(
        fair_price,
        FeatureEntity::Asset(fair_price.base_asset.clone()),
        "crypto-intelligence/task6-cross-venue-aggregate-evidence/v1",
        tracker,
        decision,
        stamp.computed_at,
    )?;
    let source_coverage = match FiniteF64::from_bits(source_coverage_bits) {
        Err(error) => {
            return Err(Task6EmissionError::Registry(error));
        },
        Ok(value) => value,
    };
    let mut inputs: Vec<NamedDatum> = Vec::new();
    inputs.push(
        ("cross_venue_median_absolute_dispersion", float_datum(snapshot.relative_mad())),
    );
    inputs.push(("indicative_cross_venue_price_range", float_datum(snapshot.relative_range())));
    inputs.push(("venue_concentration_index", float_datum(snapshot.depth_concentration())));
    inputs.push(("healthy_venue_fraction", float_datum(snapshot.healthy_venue_fraction())));
    inputs.push(("source_coverage_fraction", float_datum(source_coverage)));
    inputs.push(("cross_source_disagreement", float_datum(snapshot.relative_mad())));
    proof {
        assert(named_views(inputs@) =~= aggregate_data(*measures, source_coverage_bits));
    }
    Ok(emit_all(definitions, stamp, &inputs, &evidence, tracker, decision))
}

/// Every eligible source was included, and every included one is healthy.
pub open spec fn cascade_is_eligible(fair_price: FairPrice) -> bool {
    let eligible = fair_price.eligible_sources->Some_0@.len();
    fair_price.included@.len() == eligible && healthy_venues(fair_price.included@) == eligible
}

/// The evidence for a cascade gate, or why it is not emitted.
pub open spec fn cascade_context(
    fair_price: FairPrice,
    tracker: TrackerView,
    decision: DecisionView,
    computed_at: UnixNanos,
) -> Result<BoundView, Task6EmissionError> {
    match cross_venue_refusal(fair_price) {
        Some(error) => Err(Task6EmissionError::Computation(error)),
        None => cross_venue_context(
            fair_price,
            EntityView::Asset(fair_price.base_asset@),
            "crypto-intelligence/task6-cascade-gate-evidence/v1"@,
            tracker,
            decision,
            computed_at,
        ),
    }
}

/// Emits the flow-window cascade gate.
pub fn emit_cascade_eligibility_gate(
    definitions: &Vec<FeatureDefinition>,
    stamp: &EmissionStamp,
    fair_price: &FairPrice,
    tracker: &WatermarkTracker,
    decision: FinalizationDecision,
) -> (result: Result<Candidate, Task6EmissionError>)
    ensures
        ({
            let context = cascade_context(*fair_price, tracker@, decision@, stamp.computed_at);
            let datum = DatumView::Boolean(cascade_is_eligible(*fair_price));
            match one_refusal(
                definitions@,
                *stamp,
                context,
                "cascade_eligibility_gate"@,
                datum,
                tracker@,
                decision@,
            ) {
                Some(error) => result is Err && result->Err_0 == error,
                None => result is Ok && is_emitted(
                    result->Ok_0@,
                    definitions@,
                    *stamp,
                    "cascade_eligibility_gate"@,
                    datum,
                    context->Ok_0,
                    tracker@,
                    decision@,
                ),
            }
        }),
{
    let terms = match cross_venue_terms(fair_price) {
        Err(error) => {
            return Err(Task6EmissionError::Computation(error));
        },
        Ok(terms) => terms,
    };
    let evidence = bind_cross_venue(
        fair_price,
        FeatureEntity::Asset(fair_price.base_asset.clone()),
        "crypto-intelligence/task6-cascade-gate-evidence/v1",
        tracker,
        decision,
        stamp.computed_at,
    )?;
    let eligible: bool = fair_price.included.len() == terms.eligible_count && terms.healthy_count
        == terms.eligible_count;
    let observation = emit_bound_task_six_datum(
        definitions,
        stamp,
        "cascade_eligibility_gate",
        FeatureDatum::Present(FeatureValue::Boolean(eligible)),
        &evidence,
        tracker,
        decision,
    )?;
    Ok(Candidate::new(observation))
}

/// Why one datum under given evidence is not emitted, if it is not.
pub open spec fn one_refusal(
    definitions: Seq<FeatureDefinition>,
    stamp: EmissionStamp,
    context: Result<BoundView, Task6EmissionError>,
    recipe_id: Seq<char>,
    datum: DatumView,
    tracker: TrackerView,
    decision: DecisionView,
) -> Option<Task6EmissionError> {
    match context {
        Err(error) => Some(error),
        Ok(evidence) => bound_refusal(
            definitions,
            stamp,
            recipe_id,
            datum,
            evidence,
            tracker,
            decision,
        ),
    }
}

/// The place of a source among venues, or their number where it has none.
pub open spec fn venue_place(venues: Seq<SourceView>, source: SourceView) -> int
    decreases venues.len(),
{
    if venues.len() == 0 || venues[0] == source {
        0
    } else {
        1 + venue_place(venues.drop_first(), source)
    }
}

/// The sources of a snapshot's venues.
pub open spec fn deviation_sources(venues: Seq<VenueDeviation>) -> Seq<SourceView> {
    Seq::new(venues.len(), |i: int| venues[i].source@)
}

fn find_venue(venues: &Vec<VenueDeviation>, source: &SourceId) -> (place: usize)
    ensures
        place == venue_place(deviation_sources(venues@), source@),
        place <= venues@.len(),
{
    let ghost names = deviation_sources(venues@);
    let mut i: usize = 0;
    proof {
        assert(names.skip(0) =~= names);
    }
    while i < venues.len()
        invariant
            i <= venues@.len(),
            names == deviation_sources(venues@),
            venue_place(names, source@) == i + venue_place(names.skip(i as int), source@),
        decreases venues.len() - i,
    {
        proof {
            assert(names.skip(i as int)[0] == venues@[i as int].source@);
            assert(names.skip(i as int).drop_first() =~= names.skip(i + 1));
        }
        if venues[i].source.same(source) {
            return i;
        }
        i += 1;
    }
    i
}

/// What a fair price with its measures says of one source: its two data, or why there are none.
pub open spec fn source_data(
    snapshot: CrossVenueSnapshot,
    source: SourceView,
) -> Result<Seq<(Seq<char>, DatumView)>, Task6EmissionError> {
    let place = venue_place(deviation_sources(snapshot.venues@), source);
    if place < snapshot.venues@.len() {
        Ok(
            seq![
                (
                    "venue_midprice_deviation"@,
                    DatumView::Float64(snapshot.venues@[place].relative_to_fair),
                ),
                (
                    "venue_depth_share"@,
                    DatumView::Float64(snapshot.venues@[place].reference_depth_share),
                ),
            ],
        )
    } else {
        Err(Task6EmissionError::Computation(FeatureComputationError::MixedEntity))
    }
}

/// The emission of one source's data from its snapshot.
pub open spec fn source_emission(
    result: Result<Candidates<Task6EmissionError>, Task6EmissionError>,
    definitions: Seq<FeatureDefinition>,
    stamp: EmissionStamp,
    fair_price: FairPrice,
    snapshot: CrossVenueSnapshot,
    source: SourceView,
    tracker: TrackerView,
    decision: DecisionView,
) -> bool {
    let context = cross_venue_context(
        fair_price,
        EntityView::AssetSource(fair_price.base_asset@, source),
        "crypto-intelligence/task6-cross-venue-source-evidence/v1"@,
        tracker,
        decision,
        stamp.computed_at,
    );
    match source_data(snapshot, source) {
        Err(error) => result is Err && result->Err_0 == error,
        Ok(data) => match context {
            Err(error) => result is Err && result->Err_0 == error,
            Ok(evidence) => result is Ok && are_candidates(
                result->Ok_0@,
                definitions,
                stamp,
                data,
                evidence,
                tracker,
                decision,
            ),
        },
    }
}

/// A snapshot of a fair price with its measures.
pub open spec fn snapshot_of(
    snapshot: CrossVenueSnapshot,
    fair_price: FairPrice,
    measures: CrossVenueMeasures,
) -> bool {
    exists|terms: CrossVenueTerms| #[trigger]
        is_cross_venue(terms, fair_price) && is_snapshot(snapshot, terms, measures)
}

/// Emits the deviation and depth share of one venue, under its own finality decision over the same
/// eligible sources.
pub fn emit_cross_venue_source_features(
    definitions: &Vec<FeatureDefinition>,
    stamp: &EmissionStamp,
    fair_price: &FairPrice,
    measures: &CrossVenueMeasures,
    source: &SourceId,
    tracker: &WatermarkTracker,
    decision: FinalizationDecision,
) -> (result: Result<Candidates<Task6EmissionError>, Task6EmissionError>)
    ensures
        match snapshot_refusal(*fair_price, *measures) {
            Some(error) => result is Err && result->Err_0 == error,
            None => exists|snapshot: CrossVenueSnapshot| #[trigger]
                snapshot_of(snapshot, *fair_price, *measures) && source_emission(
                    result,
                    definitions@,
                    *stamp,
                    *fair_price,
                    snapshot,
                    source@,
                    tracker@,
                    decision@,
                ),
        },
{
    let snapshot = match CrossVenueSnapshot::try_from_fair_price(fair_price, measures) {
        Err(error) => {
            return Err(Task6EmissionError::Computation(error));
        },
        Ok(snapshot) => snapshot,
    };
    proof {
        assert(snapshot_of(snapshot, *fair_price, *measures));
    }
    let place: usize = find_venue(&snapshot.venues, source);
    if place == snapshot.venues.len() {
        return Err(Task6EmissionError::Computation(FeatureComputationError::MixedEntity));
    }
    let venue = &snapshot.venues[place];
    let evidence = bind_cross_venue(
        fair_price,
        FeatureEntity::AssetSource(fair_price.base_asset.clone(), source.clone()),
        "crypto-intelligence/task6-cross-venue-source-evidence/v1",
        tracker,
        decision,
        stamp.computed_at,
    )?;
    let mut inputs: Vec<NamedDatum> = Vec::new();
    inputs.push(("venue_midprice_deviation", float_datum(venue.relative_to_fair())));
    inputs.push(("venue_depth_share", float_datum(venue.reference_depth_share())));
    proof {
        assert(named_views(inputs@) =~= source_data(snapshot, source@)->Ok_0);
    }
    Ok(emit_all(definitions, stamp, &inputs, &evidence, tracker, decision))
}

/// A count that fits a signed integer, or why it is none.
pub open spec fn integer_of(value: u64) -> Result<DatumView, FeatureComputationError> {
    if value > i64::MAX {
        Err(FeatureComputationError::CapacityExceeded)
    } else {
        Ok(DatumView::Integer(value as i64))
    }
}

/// A list of data, or the first failure among them.
pub type Listing = Result<Seq<(Seq<char>, DatumView)>, FeatureComputationError>;

/// A list with one more datum.
pub open spec fn listing_with(
    list: Listing,
    name: Seq<char>,
    datum: Result<DatumView, FeatureComputationError>,
) -> Listing {
    match (list, datum) {
        (Err(error), _) => Err(error),
        (Ok(_), Err(error)) => Err(error),
        (Ok(list), Ok(datum)) => Ok(list.push((name, datum))),
    }
}

fn add_integer(inputs: &mut Vec<NamedDatum>, name: &'static str, value: u64) -> (result: Result<
    (),
    Task6EmissionError,
>)
    ensures
        match integer_of(value) {
            Err(error) => result == Err::<(), Task6EmissionError>(
                Task6EmissionError::Computation(error),
            ),
            Ok(datum) => result is Ok && named_views(final(inputs)@) == named_views(
                old(inputs)@,
            ).push((name@, datum)),
        },
{
    if value > 9_223_372_036_854_775_807 {
        return Err(Task6EmissionError::Computation(FeatureComputationError::CapacityExceeded));
    }
    let datum = FeatureDatum::Present(FeatureValue::Integer(value as i64));
    inputs.push((name, datum));
    proof {
        assert(named_views(inputs@) =~= named_views(old(inputs)@).push((name@, datum@)));
    }
    Ok(())
}

fn add_datum(inputs: &mut Vec<NamedDatum>, name: &'static str, datum: FeatureDatum)
    ensures
        named_views(final(inputs)@) == named_views(old(inputs)@).push((name@, datum@)),
{
    inputs.push((name, datum));
    proof {
        assert(named_views(inputs@) =~= named_views(old(inputs)@).push((name@, datum@)));
    }
}

/// Nanoseconds from one time to another as an integer, or why there are none.
pub open spec fn span_of(start: UnixNanos, end: UnixNanos) -> Result<
    DatumView,
    FeatureComputationError,
> {
    match elapsed(start, end) {
        Ok(nanos) => integer_of(nanos),
        Err(_) => Err(FeatureComputationError::InvalidInput),
    }
}

fn add_span(inputs: &mut Vec<NamedDatum>, name: &'static str, start: UnixNanos, end: UnixNanos) -> (
result: Result<(), Task6EmissionError>)
    ensures
        match span_of(start, end) {
            Err(error) => result == Err::<(), Task6EmissionError>(
                Task6EmissionError::Computation(error),
            ),
            Ok(datum) => result is Ok && named_views(final(inputs)@) == named_views(
                old(inputs)@,
            ).push((name@, datum)),
        },
{
    match elapsed_ns(start, end) {
        Ok(nanos) => add_integer(inputs, name, nanos),
        Err(_) => Err(Task6EmissionError::Computation(FeatureComputationError::InvalidInput)),
    }
}

/// The data of a one-second snapshot of a source.
pub open spec fn source_snapshot_data(
    receipt: OperationalQualityReceipt,
    computed_at: UnixNanos,
) -> Listing {
    let sample = receipt.sample;
    let fields = quality_snapshot(receipt)->Ok_0.uncertainty_fields;
    let gates = quality_snapshot(receipt)->Ok_0.gating_fields;
    let outage = receipt.source_health == SourceHealthState::Unhealthy || receipt.source_health
        == SourceHealthState::Quarantined;
    let latency = listing_with(
        Ok(Seq::empty()),
        "source_latency_ns"@,
        integer_of(fields.source_latency_ns),
    );
    let skew = listing_with(
        latency,
        "clock_skew_estimate_ns"@,
        Ok(DatumView::Integer(fields.clock_skew_estimate_ns)),
    );
    let staleness = listing_with(
        skew,
        "stale_quote_duration_ns"@,
        integer_of(fields.stale_quote_duration_ns),
    );
    let age = listing_with(
        staleness,
        "feature_age_ns"@,
        span_of(sample.window_end, sample.as_known_at),
    );
    let lag = listing_with(
        age,
        "local_processing_lag_ns"@,
        span_of(sample.window_end, computed_at),
    );
    listing_with(
        listing_with(lag, "source_outage_indicator"@, Ok(DatumView::Boolean(outage))),
        "source_health_gate"@,
        Ok(DatumView::Boolean(gates.eligible)),
    )
}

/// The data of a one-minute flow of a source.
pub open spec fn source_flow_data(receipt: OperationalQualityReceipt) -> Listing {
    let gates = quality_snapshot(receipt)->Ok_0.gating_fields;
    let jitter = listing_with(
        Ok(Seq::empty()),
        "feed_jitter_ns"@,
        integer_of(receipt.sample.feed_jitter_ns),
    );
    let gaps = listing_with(
        jitter,
        "sequence_gap_count"@,
        integer_of(receipt.sequence_gap_count),
    );
    let failures = listing_with(
        gaps,
        "checksum_failure_count"@,
        integer_of(receipt.checksum_failure_count),
    );
    let reconnects = listing_with(
        failures,
        "reconnect_count"@,
        integer_of(receipt.reconnect_count),
    );
    let recoveries = listing_with(
        reconnects,
        "recovery_count"@,
        integer_of(receipt.recovery_count),
    );
    let corrections = listing_with(
        recoveries,
        "correction_count"@,
        integer_of(receipt.correction_count),
    );
    let revisions = listing_with(
        corrections,
        "revision_count"@,
        integer_of(receipt.revision_count),
    );
    let rejections = listing_with(
        revisions,
        "raw_to_normalized_rejection_count"@,
        integer_of(receipt.raw_to_normalized_rejection_count),
    );
    listing_with(
        rejections,
        "source_completeness_gate"@,
        Ok(DatumView::Boolean(gates.complete_for_cascade)),
    )
}

/// The data of a collector's receipt: of a snapshot or of a flow, by the length of its window.
pub open spec fn operational_data(
    receipt: OperationalQualityReceipt,
    computed_at: UnixNanos,
) -> Listing {
    match (
        quality_snapshot(receipt),
        elapsed(receipt.sample.window_start, receipt.sample.window_end),
    ) {
        (Err(error), _) => Err(error),
        (Ok(_), Err(_)) => Err(FeatureComputationError::InvalidInput),
        (Ok(_), Ok(extent)) => if extent == 1_000_000_000 {
            source_snapshot_data(receipt, computed_at)
        } else if extent == 60_000_000_000 {
            source_flow_data(receipt)
        } else {
            Err(FeatureComputationError::InvalidInput)
        },
    }
}

/// What a listing computation returned, by its contents.
pub open spec fn listing_outcome(result: Result<Vec<NamedDatum>, Task6EmissionError>) -> Result<
    Seq<(Seq<char>, DatumView)>,
    Task6EmissionError,
> {
    match result {
        Ok(inputs) => Ok(named_views(inputs@)),
        Err(error) => Err(error),
    }
}

/// The failure of a listing is a failed computation.
pub open spec fn computed(listing: Listing) -> Result<
    Seq<(Seq<char>, DatumView)>,
    Task6EmissionError,
> {
    match listing {
        Ok(data) => Ok(data),
        Err(error) => Err(Task6EmissionError::Computation(error)),
    }
}

fn collect_operational(receipt: &OperationalQualityReceipt, computed_at: UnixNanos) -> (result:
    Result<Vec<NamedDatum>, Task6EmissionError>)
    ensures
        listing_outcome(result) == computed(operational_data(*receipt, computed_at)),
{
    let snapshot = match operational_quality_snapshot(receipt) {
        Err(error) => {
            return Err(Task6EmissionError::Computation(error));
        },
        Ok(snapshot) => snapshot,
    };
    let sample = receipt.sample;
    let fields = snapshot.uncertainty_fields;
    let gates = snapshot.gating_fields;
    let extent: u64 = match elapsed_ns(sample.window_start, sample.window_end) {
        Err(_) => {
            return Err(Task6EmissionError::Computation(FeatureComputationError::InvalidInput));
        },
        Ok(extent) => extent,
    };
    let mut inputs: Vec<NamedDatum> = Vec::new();
    proof {
        assert(named_views(inputs@) =~= Seq::empty());
    }
    if extent == 1_000_000_000 {
        add_integer(&mut inputs, "source_latency_ns", fields.source_latency_ns)?;
        add_datum(
            &mut inputs,
            "clock_skew_estimate_ns",
            FeatureDatum::Present(FeatureValue::Integer(fields.clock_skew_estimate_ns)),
        );
        add_integer(&mut inputs, "stale_quote_duration_ns", fields.stale_quote_duration_ns)?;
        add_span(&mut inputs, "feature_age_ns", sample.window_end, sample.as_known_at)?;
        add_span(&mut inputs, "local_processing_lag_ns", sample.window_end, computed_at)?;
        let outage: bool = receipt.source_health == SourceHealthState::Unhealthy
            || receipt.source_health == SourceHealthState::Quarantined;
        add_datum(
            &mut inputs,
            "source_outage_indicator",
            FeatureDatum::Present(FeatureValue::Boolean(outage)),
        );
        add_datum(
            &mut inputs,
            "source_health_gate",
            FeatureDatum::Present(FeatureValue::Boolean(gates.eligible)),
        );
        Ok(inputs)
    } else if extent == 60_000_000_000 {
        add_integer(&mut inputs, "feed_jitter_ns", fields.feed_jitter_ns)?;
        add_integer(&mut inputs, "sequence_gap_count", fields.sequence_gap_count)?;
        add_integer(&mut inputs, "checksum_failure_count", fields.checksum_failure_count)?;
        add_integer(&mut inputs, "reconnect_count", fields.reconnect_count)?;
        add_integer(&mut inputs, "recovery_count", fields.recovery_count)?;
        add_integer(&mut inputs, "correction_count", fields.correction_count)?;
        add_integer(&mut inputs, "revision_count", fields.revision_count)?;
        add_integer(
            &mut inputs,
            "raw_to_normalized_rejection_count",
            fields.raw_to_normalized_rejection_count,
        )?;
        add_datum(
            &mut inputs,
            "source_completeness_gate",
            FeatureDatum::Present(FeatureValue::Boolean(gates.complete_for_cascade)),
        );
        Ok(inputs)
    } else {
        Err(Task6EmissionError::Computation(FeatureComputationError::InvalidInput))
    }
}

/// Everything that a collector's receipt says, in order.
pub open spec fn operational_encoding(receipt: OperationalQualityReceipt) -> Seq<u8> {
    let sample = receipt.sample;
    utf8("crypto-intelligence/task6-operational-quality-receipt/v1"@) + entity_encoding(
        EntityView::Source(receipt.source@),
    ) + encoded_u64(receipt.connection_epoch) + seq![health_code(receipt.source_health)] + seq![
        stream_code(receipt.stream),
    ] + encoded_i64(sample.window_start.nanos) + encoded_i64(sample.window_end.nanos) + encoded_i64(
        sample.last_trusted_event_time.nanos,
    ) + encoded_i64(sample.receive_wall_time.nanos) + encoded_i64(sample.as_known_at.nanos)
        + encoded_u64(sample.stale_after_ns) + encoded_u64(sample.feed_jitter_ns) + encoded_i64(
        sample.clock_skew_estimate_ns,
    ) + encoded_u64(receipt.sequence_gap_count) + encoded_u64(receipt.checksum_failure_count)
        + encoded_u64(receipt.reconnect_count) + encoded_u64(receipt.recovery_count) + encoded_u64(
        receipt.correction_count,
    ) + encoded_u64(receipt.revision_count) + encoded_u64(
        receipt.raw_to_normalized_rejection_count,
    ) + completeness_encoding(receipt.completeness)
}

fn operational_receipt_digest(receipt: &OperationalQualityReceipt) -> (digest: [u8; 32])
    ensures
        digest@ == blake3_digest(operational_encoding(*receipt)),
{
    let sample = receipt.sample;
    let mut buffer = labelled("crypto-intelligence/task6-operational-quality-receipt/v1");
    let entity = FeatureEntity::Source(receipt.source.clone());
    entity.put(&mut buffer);
    put_u64(&mut buffer, receipt.connection_epoch);
    put_byte(&mut buffer, health_tag(receipt.source_health));
    put_byte(&mut buffer, stream_tag(receipt.stream));
    put_i64(&mut buffer, sample.window_start.value());
    put_i64(&mut buffer, sample.window_end.value());
    put_i64(&mut buffer, sample.last_trusted_event_time.value());
    put_i64(&mut buffer, sample.receive_wall_time.value());
    put_i64(&mut buffer, sample.as_known_at.value());
    put_u64(&mut buffer, sample.stale_after_ns);
    put_u64(&mut buffer, sample.feed_jitter_ns);
    put_i64(&mut buffer, sample.clock_skew_estimate_ns);
    put_u64(&mut buffer, receipt.sequence_gap_count);
    put_u64(&mut buffer, receipt.checksum_failure_count);
    put_u64(&mut buffer, receipt.reconnect_count);
    put_u64(&mut buffer, receipt.recovery_count);
    put_u64(&mut buffer, receipt.correction_count);
    put_u64(&mut buffer, receipt.revision_count);
    put_u64(&mut buffer, receipt.raw_to_normalized_rejection_count);
    put_completeness(&mut buffer, receipt.completeness);
    blake3_hash(buffer.as_slice())
}

/// The decision is final for the receipt's one source over the receipt's own window, and its
/// coverage shows that source under the receipt's health.
pub open spec fn operational_authority(
    receipt: OperationalQualityReceipt,
    tracker: TrackerView,
    decision: DecisionView,
    computed_at: UnixNanos,
) -> bool {
    let source = receipt.source@;
    &&& is_final_for(tracker, decision, EntityView::Source(source))
    &&& decision.required_count == 1
    &&& decision.required_digest == sources_fingerprint(seq![source])
    &&& decision.window.lower() == receipt.sample.window_start.nanos
    &&& decision.window.upper() == receipt.sample.window_end.nanos
    &&& receipt.sample.as_known_at.nanos <= computed_at.nanos
    &&& match decision_coverage(tracker, decision) {
        None => false,
        Some(coverage) => coverage.1.len() == 1 && coverage.1[0] == (source, receipt.source_health),
    }
}

/// The evidence of a collector's receipt.
pub open spec fn operational_evidence(receipt: OperationalQualityReceipt) -> BoundView {
    BoundView {
        entity: EntityView::Source(receipt.source@),
        as_known_at: receipt.sample.as_known_at,
        domain: "crypto-intelligence/task6-operational-source-evidence/v1"@,
        input_digest: blake3_digest(operational_encoding(receipt)),
        quality_score: QualityScore { millionths: 1_000_000 },
    }
}

/// Why a collector's receipt has no candidates, if it has none.
pub open spec fn operational_refusal(
    receipt: OperationalQualityReceipt,
    computed_at: UnixNanos,
    tracker: TrackerView,
    decision: DecisionView,
) -> Option<Task6EmissionError> {
    if !operational_authority(receipt, tracker, decision, computed_at) {
        Some(Task6EmissionError::UntrustedFinality)
    } else {
        match operational_data(receipt, computed_at) {
            Err(error) => Some(Task6EmissionError::Computation(error)),
            Ok(_) => None,
        }
    }
}

fn is_operational_authority(
    receipt: &OperationalQualityReceipt,
    entity: &FeatureEntity,
    tracker: &WatermarkTracker,
    decision: FinalizationDecision,
    computed_at: UnixNanos,
) -> (answer: bool)
    requires
        entity@ == EntityView::Source(receipt.source@),
    ensures
        answer == operational_authority(*receipt, tracker@, decision@, computed_at),
{
    let mut required: Vec<SourceId> = Vec::new();
    required.push(receipt.source.clone());
    proof {
        assert(source_views(required@) =~= seq![receipt.source@]);
    }
    let window = decision.window();
    if decision.state() != Finalization::Final || !tracker.validates_decision(decision, entity)
        || !decision.matches_required_sources(&required) || window.start().value()
        != receipt.sample.window_start.value() || window.end().value()
        != receipt.sample.window_end.value() || receipt.sample.as_known_at.value()
        > computed_at.value() {
        return false;
    }
    match tracker.coverage_for_decision(decision) {
        None => false,
        Some(coverage) => {
            if coverage.entries.len() != 1 {
                return false;
            }
            proof {
                assert(coverage@.1[0] == coverage.entries@[0]@);
            }
            coverage.entries[0].source.same(&receipt.source) && coverage.entries[0].health
                == receipt.source_health
        },
    }
}

/// Emits the quality and gate family of a collector's source, for the receipt's exact one-second
/// snapshot or one-minute flow.
pub fn emit_operational_source_features(
    definitions: &Vec<FeatureDefinition>,
    stamp: &EmissionStamp,
    receipt: &OperationalQualityReceipt,
    tracker: &WatermarkTracker,
    decision: FinalizationDecision,
) -> (result: Result<Candidates<Task6EmissionError>, Task6EmissionError>)
    ensures
        match operational_refusal(*receipt, stamp.computed_at, tracker@, decision@) {
            Some(error) => result is Err && result->Err_0 == error,
            None => result is Ok && are_candidates(
                result->Ok_0@,
                definitions@,
                *stamp,
                operational_data(*receipt, stamp.computed_at)->Ok_0,
                operational_evidence(*receipt),
                tracker@,
                decision@,
            ),
        },
{
    let entity = FeatureEntity::Source(receipt.source.clone());
    if !is_operational_authority(receipt, &entity, tracker, decision, stamp.computed_at) {
        return Err(Task6EmissionError::UntrustedFinality);
    }
    let inputs = collect_operational(receipt, stamp.computed_at)?;
    let evidence = BoundEvidence {
        entity,
        as_known_at: receipt.sample.as_known_at,
        domain: "crypto-intelligence/task6-operational-source-evidence/v1",
        input_digest: operational_receipt_digest(receipt),
        quality_score: QualityScore { millionths: 1_000_000 },
    };
    Ok(emit_all(definitions, stamp, &inputs, &evidence, tracker, decision))
}

/// Everything that a supervisor's receipt says, in order.
pub open spec fn storage_encoding(receipt: StoragePressureReceipt) -> Seq<u8> {
    utf8("crypto-intelligence/task6-storage-pressure-receipt/v1"@) + encoded_u64(receipt.used_bytes)
        + encoded_u64(receipt.capacity_bytes) + encoded_i64(receipt.as_known_at.nanos)
}

/// The evidence of a supervisor's receipt, or why it is not emitted.
pub open spec fn storage_context(
    receipt: StoragePressureReceipt,
    ratio_bits: u64,
    decision: DecisionView,
    computed_at: UnixNanos,
) -> Result<BoundView, Task6EmissionError> {
    let known = receipt.as_known_at;
    if known.nanos > computed_at.nanos || known.nanos < decision.window.lower() || known.nanos
        >= decision.window.upper() {
        Err(Task6EmissionError::UntrustedFinality)
    } else if !finite_bits(ratio_bits) {
        Err(Task6EmissionError::Registry(RegistryError::NonFiniteValue))
    } else {
        Ok(
            BoundView {
                entity: EntityView::Global,
                as_known_at: known,
                domain: "crypto-intelligence/task6-storage-pressure-evidence/v1"@,
                input_digest: blake3_digest(storage_encoding(receipt)),
                quality_score: QualityScore { millionths: 1_000_000 },
            },
        )
    }
}

/// Emits the share of a physical volume that is used. `ratio_bits` is the used over the available
/// bytes.
pub fn emit_storage_pressure_feature(
    definitions: &Vec<FeatureDefinition>,
    stamp: &EmissionStamp,
    receipt: StoragePressureReceipt,
    ratio_bits: u64,
    tracker: &WatermarkTracker,
    decision: FinalizationDecision,
) -> (result: Result<Candidate, Task6EmissionError>)
    ensures
        ({
            let context = storage_context(receipt, ratio_bits, decision@, stamp.computed_at);
            match one_refusal(
                definitions@,
                *stamp,
                context,
                "disk_pressure_fraction"@,
                float_of(ratio_bits),
                tracker@,
                decision@,
            ) {
                Some(error) => result is Err && result->Err_0 == error,
                None => result is Ok && is_emitted(
                    result->Ok_0@,
                    definitions@,
                    *stamp,
                    "disk_pressure_fraction"@,
                    float_of(ratio_bits),
                    context->Ok_0,
                    tracker@,
                    decision@,
                ),
            }
        }),
{
    let window = decision.window();
    let known = receipt.as_known_at;
    if known.value() > stamp.computed_at.value() || known.value() < window.start().value()
        || known.value() >= window.end().value() {
        return Err(Task6EmissionError::UntrustedFinality);
    }
    let ratio = match FiniteF64::from_bits(ratio_bits) {
        Err(error) => {
            return Err(Task6EmissionError::Registry(error));
        },
        Ok(ratio) => ratio,
    };
    let mut buffer = labelled("crypto-intelligence/task6-storage-pressure-receipt/v1");
    put_u64(&mut buffer, receipt.used_bytes);
    put_u64(&mut buffer, receipt.capacity_bytes);
    put_i64(&mut buffer, known.value());
    let evidence = BoundEvidence {
        entity: FeatureEntity::Global,
        as_known_at: known,
        domain: "crypto-intelligence/task6-storage-pressure-evidence/v1",
        input_digest: blake3_hash(buffer.as_slice()),
        quality_score: QualityScore { millionths: 1_000_000 },
    };
    let observation = emit_bound_task_six_datum(
        definitions,
        stamp,
        "disk_pressure_fraction",
        float_datum(ratio),
        &evidence,
        tracker,
        decision,
    )?;
    Ok(Candidate::new(observation))
}

/// Everything that the lineage of an explicit absence rests on, in order.
pub open spec fn missing_lineage_encoding(
    definition: FeatureDefinition,
    stamp: EmissionStamp,
    entity: EntityView,
    decision: DecisionView,
    reason: MissingnessReason,
) -> Seq<u8> {
    utf8("crypto-intelligence/task6-unavailable-feature-lineage/v1"@) + framed(utf8(definition.id@))
        + framed(version_ascii(definition.version)) + definition.formula_hash@ + blake3_digest(
        decision_encoding(decision),
    ) + entity_encoding(entity) + seq![missingness_code(reason)] + encoded_i64(
        stamp.computed_at.nanos,
    ) + encoded_u32(stamp.revision) + framed(utf8(stamp.code_commit@))
}

fn missing_lineage_hash(
    definition: &FeatureDefinition,
    stamp: &EmissionStamp,
    entity: &FeatureEntity,
    decision: FinalizationDecision,
    reason: MissingnessReason,
) -> (digest: [u8; 32])
    ensures
        digest@ == blake3_digest(
            missing_lineage_encoding(*definition, *stamp, entity@, decision@, reason),
        ),
{
    let mut buffer = labelled("crypto-intelligence/task6-unavailable-feature-lineage/v1");
    put_framed(&mut buffer, definition.id.as_bytes());
    let version = definition.version.text();
    put_framed(&mut buffer, version.as_str().as_bytes());
    put_bytes(&mut buffer, definition.formula_hash.as_slice());
    let finality = decision.evidence_digest();
    put_bytes(&mut buffer, finality.as_slice());
    entity.put(&mut buffer);
    put_byte(&mut buffer, missingness_tag(reason));
    put_i64(&mut buffer, stamp.computed_at.value());
    put_u32(&mut buffer, stamp.revision);
    put_framed(&mut buffer, stamp.code_commit.as_str().as_bytes());
    blake3_hash(buffer.as_slice())
}

/// Why an explicit absence is not emitted, if it is not.
pub open spec fn unavailable_refusal(
    definitions: Seq<FeatureDefinition>,
    stamp: EmissionStamp,
    recipe_id: Seq<char>,
    entity: EntityView,
    tracker: TrackerView,
    decision: DecisionView,
) -> Option<Task6EmissionError> {
    match task_six_named(task_six_catalogue(), recipe_id) {
        None => Some(Task6EmissionError::UnknownRecipe),
        Some(recipe) => if recipe.availability
            != Task6ComputationAvailability::ExplicitlyUnavailable {
            Some(Task6EmissionError::ImplementedRecipe)
        } else {
            match registered(definitions, recipe.id@) {
                None => Some(Task6EmissionError::DefinitionMismatch),
                Some(definition) => if definition@ != recipe.spec_definition() {
                    Some(Task6EmissionError::DefinitionMismatch)
                } else if decision.state != Finalization::Final || decision.entity != Some(
                    entity_fingerprint(entity),
                ) || !is_registered_window(
                    definition,
                    recipe.window.spec_identity(),
                    decision.window,
                ) || decision_coverage(tracker, decision) is None {
                    Some(Task6EmissionError::UntrustedFinality)
                } else if blake3_digest(
                    missing_lineage_encoding(
                        definition,
                        stamp,
                        entity,
                        decision,
                        MissingnessReason::ModelNotApplicable,
                    ),
                ) == zero_digest() {
                    Some(Task6EmissionError::Registry(RegistryError::ZeroHash))
                } else {
                    None
                },
            }
        },
    }
}

/// The evidence of an explicit absence: there is none but the decision.
pub open spec fn unavailable_evidence(entity: EntityView, decision: DecisionView) -> BoundView {
    BoundView {
        entity,
        as_known_at: decision.as_known_at,
        domain: ""@,
        input_digest: zero_digest(),
        quality_score: QualityScore { millionths: 1_000_000 },
    }
}

/// Emits an explicit absence for a recipe that is not implemented. No other datum can be emitted
/// in this way.
pub fn emit_unavailable_task_six_feature(
    definitions: &Vec<FeatureDefinition>,
    stamp: &EmissionStamp,
    recipe_id: &str,
    entity: FeatureEntity,
    tracker: &WatermarkTracker,
    decision: FinalizationDecision,
) -> (result: Result<Candidate, Task6EmissionError>)
    ensures
        match unavailable_refusal(
            definitions@,
            *stamp,
            recipe_id@,
            entity@,
            tracker@,
            decision@,
        ) {
            Some(error) => result is Err && result->Err_0 == error,
            None => {
                let recipe = task_six_named(task_six_catalogue(), recipe_id@)->Some_0;
                let definition = registered(definitions@, recipe.id@)->Some_0;
                &&& result is Ok
                &&& is_bound(
                    result->Ok_0@,
                    definition,
                    recipe.window.spec_identity(),
                    DatumView::Missing(MissingnessReason::ModelNotApplicable),
                    unavailable_evidence(entity@, decision@),
                    *stamp,
                    decision@,
                    decision_coverage(tracker@, decision@)->Some_0,
                    blake3_digest(
                        missing_lineage_encoding(
                            definition,
                            *stamp,
                            entity@,
                            decision@,
                            MissingnessReason::ModelNotApplicable,
                        ),
                    ),
                )
            },
        },
{
    let recipe = match task_six_recipe(recipe_id) {
        None => {
            return Err(Task6EmissionError::UnknownRecipe);
        },
        Some(recipe) => recipe,
    };
    if recipe.availability != Task6ComputationAvailability::ExplicitlyUnavailable {
        return Err(Task6EmissionError::ImplementedRecipe);
    }
    let definition = match find_registered(definitions, recipe.id) {
        None => {
            return Err(Task6EmissionError::DefinitionMismatch);
        },
        Some(definition) => definition,
    };
    let expected = recipe.definition();
    if !definition.same(&expected) {
        return Err(Task6EmissionError::DefinitionMismatch);
    }
    let window_id = recipe.window_id();
    if decision.state() != Finalization::Final || !decision.matches_entity(&entity)
        || !registered_window_matches(definition, window_id, decision.window()) {
        return Err(Task6EmissionError::UntrustedFinality);
    }
    let coverage = match tracker.coverage_for_decision(decision) {
        None => {
            return Err(Task6EmissionError::UntrustedFinality);
        },
        Some(coverage) => coverage,
    };
    let reason = MissingnessReason::ModelNotApplicable;
    let lineage_hash = missing_lineage_hash(definition, stamp, &entity, decision, reason);
    if is_zero_digest(&lineage_hash) {
        return Err(Task6EmissionError::Registry(RegistryError::ZeroHash));
    }
    let no_input: [u8; 32] = [0;32];
    let evidence = BoundEvidence {
        entity,
        as_known_at: decision.as_known_at(),
        domain: "",
        input_digest: no_input,
        quality_score: QualityScore { millionths: 1_000_000 },
    };
    proof {
        assert(no_input@ =~= zero_digest());
    }
    Ok(
        Candidate::new(
            bind(
                definition,
                window_id,
                FeatureDatum::Missing(reason),
                &evidence,
                stamp,
                decision,
                coverage,
                lineage_hash,
            ),
        ),
    )
}

/// A recipe is emitted either as a value or as an explicit absence, never as both.
pub proof fn lemma_recipes_are_emitted_one_way(
    definitions: Seq<FeatureDefinition>,
    stamp: EmissionStamp,
    recipe_id: Seq<char>,
    datum: DatumView,
    evidence: BoundView,
    entity: EntityView,
    tracker: TrackerView,
    decision: DecisionView,
)
    ensures
        bound_refusal(definitions, stamp, recipe_id, datum, evidence, tracker, decision) is Some
            || unavailable_refusal(
            definitions,
            stamp,
            recipe_id,
            entity,
            tracker,
            decision,
        ) is Some,
{
}

/// The datum has an implemented recipe, of its own type.
pub open spec fn is_implemented(named: (Seq<char>, DatumView)) -> bool {
    match task_six_named(task_six_catalogue(), named.0) {
        None => false,
        Some(recipe) => recipe.availability == Task6ComputationAvailability::Implemented && (
        named.1.value_type() is Some ==> named.1.value_type() == Some(recipe.value_type)),
    }
}

pub open spec fn all_implemented(data: Seq<(Seq<char>, DatumView)>) -> bool {
    forall|i: int| 0 <= i < data.len() ==> is_implemented(#[trigger] data[i])
}

pub(crate) proof fn lemma_named_is_implemented(place: int, name: Seq<char>, datum: DatumView)
    requires
        0 <= place < 63,
        task_six_catalogue()[place].id@ == name,
        task_six_catalogue()[place].availability == Task6ComputationAvailability::Implemented,
        datum.value_type() is Some ==> datum.value_type() == Some(
            task_six_catalogue()[place].value_type,
        ),
    ensures
        is_implemented((name, datum)),
{
    lemma_task_six_recipe_at(place);
    lemma_task_six_recipes_are_found(place);
}

/// Every datum of an asset over its venues has an implemented recipe of its own type.
pub proof fn lemma_aggregate_data_are_implemented(measures: CrossVenueMeasures, coverage_bits: u64)
    ensures
        all_implemented(aggregate_data(measures, coverage_bits)),
{
    let data = aggregate_data(measures, coverage_bits);
    lemma_task_six_recipe_at(1);
    lemma_named_is_implemented(1, "cross_venue_median_absolute_dispersion"@, data[0].1);
    lemma_task_six_recipe_at(2);
    lemma_named_is_implemented(2, "indicative_cross_venue_price_range"@, data[1].1);
    lemma_task_six_recipe_at(8);
    lemma_named_is_implemented(8, "venue_concentration_index"@, data[2].1);
    lemma_task_six_recipe_at(12);
    lemma_named_is_implemented(12, "healthy_venue_fraction"@, data[3].1);
    lemma_task_six_recipe_at(51);
    lemma_named_is_implemented(51, "source_coverage_fraction"@, data[4].1);
    lemma_task_six_recipe_at(53);
    lemma_named_is_implemented(53, "cross_source_disagreement"@, data[5].1);
}

/// Every datum of one venue has an implemented recipe of its own type.
pub proof fn lemma_source_data_are_implemented(snapshot: CrossVenueSnapshot, source: SourceView)
    requires
        source_data(snapshot, source) is Ok,
    ensures
        all_implemented(source_data(snapshot, source)->Ok_0),
{
    let data = source_data(snapshot, source)->Ok_0;
    lemma_task_six_recipe_at(0);
    lemma_named_is_implemented(0, "venue_midprice_deviation"@, data[0].1);
    lemma_task_six_recipe_at(7);
    lemma_named_is_implemented(7, "venue_depth_share"@, data[1].1);
}

/// Every datum of a collector's receipt has an implemented recipe of its own type.
pub proof fn lemma_operational_data_are_implemented(
    receipt: OperationalQualityReceipt,
    computed_at: UnixNanos,
)
    requires
        operational_data(receipt, computed_at) is Ok,
    ensures
        all_implemented(operational_data(receipt, computed_at)->Ok_0),
{
    let data = operational_data(receipt, computed_at)->Ok_0;
    let extent = elapsed(receipt.sample.window_start, receipt.sample.window_end)->Ok_0;
    if extent == 1_000_000_000 {
        assert(data.len() == 7);
        lemma_task_six_recipe_at(43);
        lemma_named_is_implemented(43, "source_latency_ns"@, data[0].1);
        lemma_task_six_recipe_at(45);
        lemma_named_is_implemented(45, "clock_skew_estimate_ns"@, data[1].1);
        lemma_task_six_recipe_at(50);
        lemma_named_is_implemented(50, "stale_quote_duration_ns"@, data[2].1);
        lemma_task_six_recipe_at(52);
        lemma_named_is_implemented(52, "feature_age_ns"@, data[3].1);
        lemma_task_six_recipe_at(58);
        lemma_named_is_implemented(58, "local_processing_lag_ns"@, data[4].1);
        lemma_task_six_recipe_at(59);
        lemma_named_is_implemented(59, "source_outage_indicator"@, data[5].1);
        lemma_task_six_recipe_at(60);
        lemma_named_is_implemented(60, "source_health_gate"@, data[6].1);
    } else {
        assert(data.len() == 9);
        lemma_task_six_recipe_at(44);
        lemma_named_is_implemented(44, "feed_jitter_ns"@, data[0].1);
        lemma_task_six_recipe_at(46);
        lemma_named_is_implemented(46, "sequence_gap_count"@, data[1].1);
        lemma_task_six_recipe_at(47);
        lemma_named_is_implemented(47, "checksum_failure_count"@, data[2].1);
        lemma_task_six_recipe_at(48);
        lemma_named_is_implemented(48, "reconnect_count"@, data[3].1);
        lemma_task_six_recipe_at(49);
        lemma_named_is_implemented(49, "recovery_count"@, data[4].1);
        lemma_task_six_recipe_at(54);
        lemma_named_is_implemented(54, "correction_count"@, data[5].1);
        lemma_task_six_recipe_at(55);
        lemma_named_is_implemented(55, "revision_count"@, data[6].1);
        lemma_task_six_recipe_at(56);
        lemma_named_is_implemented(56, "raw_to_normalized_rejection_count"@, data[7].1);
        lemma_task_six_recipe_at(61);
        lemma_named_is_implemented(61, "source_completeness_gate"@, data[8].1);
    }
}

/// The cascade gate and the disk pressure have implemented recipes of their own types.
pub proof fn lemma_gate_and_pressure_are_implemented(eligible: bool, ratio_bits: u64)
    ensures
        is_implemented(("cascade_eligibility_gate"@, DatumView::Boolean(eligible))),
        is_implemented(("disk_pressure_fraction"@, float_of(ratio_bits))),
{
    lemma_task_six_recipe_at(62);
    lemma_named_is_implemented(62, "cascade_eligibility_gate"@, DatumView::Boolean(eligible));
    lemma_task_six_recipe_at(57);
    lemma_named_is_implemented(57, "disk_pressure_fraction"@, float_of(ratio_bits));
}

/// The cascade gate opens just where every eligible source was included and every included venue is
/// healthy.
pub proof fn lemma_the_cascade_gate_needs_every_venue(fair_price: FairPrice)
    requires
        fair_price.eligible_sources is Some,
    ensures
        cascade_is_eligible(fair_price) <==> fair_price.included@.len()
            == fair_price.eligible_sources->Some_0@.len() && forall|i: int|
            0 <= i < fair_price.included@.len() ==> (#[trigger] fair_price.included@[i]).health
                == SourceHealthState::Healthy,
{
    crate::features::cross_venue::lemma_healthy_venues_are_counted(fair_price.included@);
}

/// A second of a source reports how late and how stale it was and how far its clock is off, how
/// long after the window's end it was known and processed, whether it was down, and whether it
/// may be used.
pub proof fn lemma_source_seconds_report_their_sample(
    receipt: OperationalQualityReceipt,
    computed_at: UnixNanos,
)
    requires
        source_snapshot_data(receipt, computed_at) is Ok,
    ensures
        ({
            let data = source_snapshot_data(receipt, computed_at)->Ok_0;
            let fields = quality_snapshot(receipt)->Ok_0.uncertainty_fields;
            let gates = quality_snapshot(receipt)->Ok_0.gating_fields;
            let sample = receipt.sample;
            &&& data.len() == 7
            &&& data[0].0 == "source_latency_ns"@
            &&& data[0].1 is Integer && data[0].1->Integer_0 == fields.source_latency_ns
            &&& data[1].0 == "clock_skew_estimate_ns"@
            &&& data[1].1 is Integer && data[1].1->Integer_0 == fields.clock_skew_estimate_ns
            &&& data[2].0 == "stale_quote_duration_ns"@
            &&& data[2].1 is Integer && data[2].1->Integer_0 == fields.stale_quote_duration_ns
            &&& data[3].0 == "feature_age_ns"@
            &&& data[3].1 is Integer && data[3].1->Integer_0 + sample.window_end.nanos
                == sample.as_known_at.nanos
            &&& data[4].0 == "local_processing_lag_ns"@
            &&& data[4].1 is Integer && data[4].1->Integer_0 + sample.window_end.nanos
                == computed_at.nanos
            &&& data[5].0 == "source_outage_indicator"@
            &&& data[5].1 is Boolean && (data[5].1->Boolean_0 <==> receipt.source_health
                == SourceHealthState::Unhealthy || receipt.source_health
                == SourceHealthState::Quarantined)
            &&& data[6] == ("source_health_gate"@, DatumView::Boolean(gates.eligible))
        }),
{
}

/// A minute of a source reports each of the receipt's counts under its own name, and whether the
/// source is complete enough for a cascade.
pub proof fn lemma_source_minutes_report_their_counts(receipt: OperationalQualityReceipt)
    requires
        source_flow_data(receipt) is Ok,
    ensures
        ({
            let data = source_flow_data(receipt)->Ok_0;
            let gates = quality_snapshot(receipt)->Ok_0.gating_fields;
            &&& data.len() == 9
            &&& forall|i: int| #![trigger data[i]] 0 <= i < 8 ==> data[i].1 is Integer
            &&& data[0].0 == "feed_jitter_ns"@
            &&& data[0].1->Integer_0 == receipt.sample.feed_jitter_ns
            &&& data[1].0 == "sequence_gap_count"@
            &&& data[1].1->Integer_0 == receipt.sequence_gap_count
            &&& data[2].0 == "checksum_failure_count"@
            &&& data[2].1->Integer_0 == receipt.checksum_failure_count
            &&& data[3].0 == "reconnect_count"@
            &&& data[3].1->Integer_0 == receipt.reconnect_count
            &&& data[4].0 == "recovery_count"@
            &&& data[4].1->Integer_0 == receipt.recovery_count
            &&& data[5].0 == "correction_count"@
            &&& data[5].1->Integer_0 == receipt.correction_count
            &&& data[6].0 == "revision_count"@
            &&& data[6].1->Integer_0 == receipt.revision_count
            &&& data[7].0 == "raw_to_normalized_rejection_count"@
            &&& data[7].1->Integer_0 == receipt.raw_to_normalized_rejection_count
            &&& data[8] == (
                "source_completeness_gate"@,
                DatumView::Boolean(gates.complete_for_cascade),
            )
        }),
{
    let data = source_flow_data(receipt)->Ok_0;
    assert(data[0].1 is Integer && data[1].1 is Integer && data[2].1 is Integer);
    assert(data[3].1 is Integer && data[4].1 is Integer && data[5].1 is Integer);
    assert(data[6].1 is Integer && data[7].1 is Integer);
}

/// A receipt is reported as a second where its window lasts one, as a minute where it lasts one,
/// and not at all where it lasts anything else.
pub proof fn lemma_receipts_last_a_second_or_a_minute(
    receipt: OperationalQualityReceipt,
    computed_at: UnixNanos,
)
    ensures
        ({
            let span = receipt.sample.window_end.nanos - receipt.sample.window_start.nanos;
            let data = operational_data(receipt, computed_at);
            &&& data is Ok ==> span == 1_000_000_000 || span == 60_000_000_000
            &&& data is Ok && span == 1_000_000_000 ==> data == source_snapshot_data(
                receipt,
                computed_at,
            )
            &&& data is Ok && span == 60_000_000_000 ==> data == source_flow_data(receipt)
        }),
{
}

/// A venue reports its own deviation from the fair price and its own share of the depth; a source
/// that is no venue of the snapshot reports nothing.
pub proof fn lemma_venues_report_themselves(snapshot: CrossVenueSnapshot, source: SourceView)
    ensures
        ({
            let data = source_data(snapshot, source);
            let sources = deviation_sources(snapshot.venues@);
            &&& data is Ok <==> sources.contains(source)
            &&& data is Ok ==> exists|i: int|
                #![trigger snapshot.venues@[i]]
                {
                    &&& 0 <= i < snapshot.venues@.len()
                    &&& snapshot.venues@[i].source@ == source
                    &&& data->Ok_0.len() == 2
                    &&& data->Ok_0[0] == (
                        "venue_midprice_deviation"@,
                        DatumView::Float64(snapshot.venues@[i].relative_to_fair),
                    )
                    &&& data->Ok_0[1] == (
                        "venue_depth_share"@,
                        DatumView::Float64(snapshot.venues@[i].reference_depth_share),
                    )
                }
        }),
{
    lemma_venues_are_found(deviation_sources(snapshot.venues@), source);
    let place = venue_place(deviation_sources(snapshot.venues@), source);
    if place < snapshot.venues@.len() {
        assert(snapshot.venues@[place].source@ == source);
    }
}

proof fn lemma_venues_are_found(venues: Seq<SourceView>, source: SourceView)
    ensures
        0 <= venue_place(venues, source) <= venues.len(),
        venue_place(venues, source) < venues.len() <==> venues.contains(source),
        venue_place(venues, source) < venues.len() ==> venues[venue_place(venues, source)]
            == source,
    decreases venues.len(),
{
    if venues.len() > 0 && venues[0] != source {
        let rest = venues.drop_first();
        lemma_venues_are_found(rest, source);
        if rest.contains(source) {
            let i = choose|i: int| 0 <= i < rest.len() && rest[i] == source;
            assert(venues[i + 1] == source);
        }
        if venues.contains(source) {
            let i = choose|i: int| 0 <= i < venues.len() && venues[i] == source;
            assert(rest[i - 1] == source);
        }
    } else if venues.len() > 0 {
        assert(venues[0] == source);
    }
}

/// An asset's data over its venues are named after what was measured; the disagreement of sources
/// is the dispersion of their prices.
pub proof fn lemma_aggregates_name_their_measures(
    measures: CrossVenueMeasures,
    coverage_bits: u64,
)
    ensures
        ({
            let data = aggregate_data(measures, coverage_bits);
            &&& data.len() == 6
            &&& data[0].0 == "cross_venue_median_absolute_dispersion"@
            &&& data[0].1->Float64_0 == FiniteF64::of_pattern(measures.relative_mad_bits)
            &&& data[1].0 == "indicative_cross_venue_price_range"@
            &&& data[1].1->Float64_0 == FiniteF64::of_pattern(measures.relative_range_bits)
            &&& data[2].0 == "venue_concentration_index"@
            &&& data[2].1->Float64_0 == FiniteF64::of_pattern(measures.depth_concentration_bits)
            &&& data[3].0 == "healthy_venue_fraction"@
            &&& data[3].1->Float64_0 == FiniteF64::of_pattern(measures.healthy_fraction_bits)
            &&& data[4].0 == "source_coverage_fraction"@
            &&& data[4].1->Float64_0 == FiniteF64::of_pattern(coverage_bits)
            &&& data[5] == ("cross_source_disagreement"@, data[0].1)
        }),
{
}

/// A fair price is emitted only for the window that it falls into, over exactly the sources that
/// were eligible, once the window is final, and never before it was known.
pub proof fn lemma_fair_prices_are_emitted_in_their_window(
    fair_price: FairPrice,
    entity: EntityView,
    domain: Seq<char>,
    tracker: TrackerView,
    decision: DecisionView,
    computed_at: UnixNanos,
)
    requires
        cross_venue_context(fair_price, entity, domain, tracker, decision, computed_at) is Ok,
    ensures
        ({
            let context = cross_venue_context(
                fair_price,
                entity,
                domain,
                tracker,
                decision,
                computed_at,
            )->Ok_0;
            &&& decision.window.lower() <= fair_price.event_time.nanos < decision.window.upper()
            &&& fair_price.as_of.nanos <= computed_at.nanos
            &&& decision.state == Finalization::Final
            &&& decision.required_count == fair_price.eligible_sources->Some_0@.len()
            &&& context.as_known_at == fair_price.as_of
            &&& context.entity == entity
            &&& context.quality_score.millionths == fair_price.minimum_included_quality
                <= 1_000_000
        }),
{
}

/// A receipt speaks for its own window, whose one source the decision covers, and is never
/// emitted before it was known. A volume's pressure is emitted for the window in which it was
/// known.
pub proof fn lemma_receipts_are_emitted_in_their_window(
    receipt: OperationalQualityReceipt,
    storage: StoragePressureReceipt,
    ratio_bits: u64,
    tracker: TrackerView,
    decision: DecisionView,
    computed_at: UnixNanos,
)
    ensures
        operational_refusal(receipt, computed_at, tracker, decision) is None ==> {
            &&& decision.window.lower() == receipt.sample.window_start.nanos
            &&& decision.window.upper() == receipt.sample.window_end.nanos
            &&& receipt.sample.as_known_at.nanos <= computed_at.nanos
            &&& decision.required_count == 1
            &&& decision.state == Finalization::Final
            &&& operational_evidence(receipt).as_known_at == receipt.sample.as_known_at
            &&& operational_evidence(receipt).entity == EntityView::Source(receipt.source@)
        },
        storage_context(storage, ratio_bits, decision, computed_at) is Ok <==> {
            &&& decision.window.lower() <= storage.as_known_at.nanos < decision.window.upper()
            &&& storage.as_known_at.nanos <= computed_at.nanos
            &&& finite_bits(ratio_bits)
        },
        storage_context(storage, ratio_bits, decision, computed_at) is Ok ==> storage_context(
            storage,
            ratio_bits,
            decision,
            computed_at,
        )->Ok_0.as_known_at == storage.as_known_at,
{
}

} // verus!
