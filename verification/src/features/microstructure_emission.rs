//! Evidence-derived typed observation emission for microstructure recipes.

use vstd::prelude::*;

use super::admission::{emission, Candidates, CandidatesView, Verdict};
use super::book_evidence::{
    elapsed, vouches_for_book, BookEvidenceView, BookStateEvidence,
};
use super::bound::{
    bind, definition_fits, find_registered, fits_definition, is_bound, name_of_reason, named_views,
    present_encoding, put_present, reason_name, registered, BoundEvidence, BoundView, EmissionStamp,
    NamedDatum,
};
use super::microstructure_catalog::{
    lemma_task_five_recipe_at, lemma_task_five_recipes_are_found, task_five_catalogue,
    task_five_named, task_five_recipe,
};
use super::orderbook::{
    active_level_counts, ask_book_shape_quadratic, ask_level_gap_density, bid_book_shape_quadratic,
    bid_level_gap_density, book_distribution, book_refusal, depth_in_band, distribution_refusal,
    fully_observed_depth_within_band, imbalance_of, microprice, microprice_of, normalized_imbalance,
    outer_prices, side_curve, side_gaps, spread, spread_terms, weighted_midpoint,
    weighted_midpoint_of,
};
use super::orderflow::{
    all_authenticated, flow_evidence, flows_from, latest_flow_knowledge, lowest_flow_quality,
    rests_on, FlowTradeView, FlowWindowView, TradeFlowWindow,
};
use super::trade_flow::{
    aggressive_trade_imbalances, aggressive_trade_sums, imbalance_terms, interarrival_intervals,
    interarrival_coefficient_of_variation, interval_overflows, signed_volume,
    signed_volume_at_price, trade_intensity_per_second, window_sums, AggressiveTradeSums,
};
use super::{sum_exact, FeatureComputationError};
use crate::book::BookSnapshotView;
use crate::decimal::{
    decimal_of_units, lemma_exact_arithmetic, lemma_over_units, lemma_whole_units, unit,
    FixedDecimal, Price, Quantity,
};
use crate::digest::{
    blake3_digest, blake3_hash, encoded_i64, encoded_u32, framed, is_zero_digest, labelled,
    put_bytes, put_framed, put_i64, put_u32, utf8, zero_digest,
};
use crate::domain::{
    finite_bits, holds_source, source_label, source_views, EntityView, FeatureEntity, FiniteF64,
    MissingnessReason, QualityScore, RegistryError, SourceId, SourceView,
};
use crate::ordering::{lemma_rank_irreflexive, rank_precedes, Ranked};
use crate::registry::{
    version_ascii, DatumView, FeatureDatum, FeatureDefinition, FeatureObservation, FeatureValue,
    FeatureValueType,
};
use crate::watermark::{
    decision_coverage, decision_encoding, entity_fingerprint, DecisionView, Finalization,
    FinalizationDecision, TrackerView, WatermarkTracker,
};

verus! {

/// The levels that a registered book shape is fitted to.
pub const BOOK_SHAPE_LEVEL_COUNT_V1: usize = 3;

/// How a microstructure observation is stamped.
pub type Task5FeatureEmissionInput = EmissionStamp;

/// Why a microstructure observation is not emitted.
#[derive(Clone, Copy, Debug, PartialEq, Eq, Structural)]
pub enum Task5EmissionError {
    /// The computation failed.
    Computation(FeatureComputationError),
    /// The recipe is absent from the registry.
    UnknownDefinition,
    /// The registry definition differs from the closed recipe.
    DefinitionMismatch,
    /// The registry refuses the observation.
    Registry(RegistryError),
}

/// What a measurement gave, or the failure before it.
pub type Measure = Result<u64, FeatureComputationError>;

/// The bytes by which a datum enters a lineage: absence by the name of its reason.
pub open spec fn datum_encoding(datum: DatumView) -> Seq<u8> {
    match datum {
        DatumView::Missing(reason) => seq![6u8] + framed(utf8(reason_name(reason))),
        _ => present_encoding(datum),
    }
}

fn put_datum(buffer: &mut Vec<u8>, datum: &FeatureDatum)
    ensures
        final(buffer)@ == old(buffer)@ + datum_encoding(datum@),
{
    let ghost head = buffer@;
    match datum {
        FeatureDatum::Present(value) => {
            put_present(buffer, value);
        },
        FeatureDatum::Missing(reason) => {
            buffer.push(6);
            put_framed(buffer, name_of_reason(*reason).as_bytes());
        },
    }
    proof {
        assert(buffer@ =~= head + datum_encoding(datum@));
    }
}

/// Everything that the lineage of a microstructure observation rests on, in order.
pub open spec fn task_five_lineage_encoding(
    definition: FeatureDefinition,
    stamp: EmissionStamp,
    evidence: BoundView,
    decision: DecisionView,
    datum: DatumView,
) -> Seq<u8> {
    utf8("crypto-intelligence/task5-feature-lineage/v2"@) + framed(utf8(evidence.domain)) + framed(
        utf8(definition.id@),
    ) + framed(version_ascii(definition.version)) + definition.formula_hash@ + blake3_digest(
        decision_encoding(decision),
    ) + evidence.input_digest + encoded_i64(stamp.computed_at.nanos) + encoded_u32(stamp.revision)
        + framed(utf8(stamp.code_commit@)) + datum_encoding(datum)
}

fn task_five_lineage_hash(
    definition: &FeatureDefinition,
    stamp: &EmissionStamp,
    evidence: &BoundEvidence,
    decision: FinalizationDecision,
    datum: &FeatureDatum,
) -> (digest: [u8; 32])
    ensures
        digest@ == blake3_digest(
            task_five_lineage_encoding(*definition, *stamp, evidence@, decision@, datum@),
        ),
{
    let mut buffer = labelled("crypto-intelligence/task5-feature-lineage/v2");
    put_framed(&mut buffer, evidence.domain.as_bytes());
    put_framed(&mut buffer, definition.id.as_bytes());
    let version = definition.version.text();
    put_framed(&mut buffer, version.as_str().as_bytes());
    put_bytes(&mut buffer, definition.formula_hash.as_slice());
    let finality = decision.evidence_digest();
    put_bytes(&mut buffer, finality.as_slice());
    put_bytes(&mut buffer, evidence.input_digest.as_slice());
    put_i64(&mut buffer, stamp.computed_at.value());
    put_u32(&mut buffer, stamp.revision);
    put_framed(&mut buffer, stamp.code_commit.as_str().as_bytes());
    put_datum(&mut buffer, datum);
    blake3_hash(buffer.as_slice())
}

/// Why one datum is not emitted, if it is not.
pub open spec fn bound_refusal(
    definitions: Seq<FeatureDefinition>,
    stamp: EmissionStamp,
    recipe_id: Seq<char>,
    datum: DatumView,
    evidence: BoundView,
    tracker: TrackerView,
    decision: DecisionView,
) -> Option<Task5EmissionError> {
    match task_five_named(task_five_catalogue(), recipe_id) {
        None => Some(Task5EmissionError::UnknownDefinition),
        Some(recipe) => match registered(definitions, recipe.id@) {
            None => Some(Task5EmissionError::UnknownDefinition),
            Some(definition) => if !definition_fits(
                definition,
                recipe.spec_definition(),
                datum,
                recipe.window.spec_identity(),
                decision,
            ) {
                Some(Task5EmissionError::DefinitionMismatch)
            } else if decision_coverage(tracker, decision) is None {
                Some(Task5EmissionError::Computation(FeatureComputationError::UntrustedInput))
            } else if blake3_digest(
                task_five_lineage_encoding(definition, stamp, evidence, decision, datum),
            ) == zero_digest() {
                Some(Task5EmissionError::Registry(RegistryError::ZeroHash))
            } else {
                None
            },
        },
    }
}

/// The observation is the datum's own, under its recipe.
pub open spec fn is_emitted(
    observation: FeatureObservation,
    definitions: Seq<FeatureDefinition>,
    stamp: EmissionStamp,
    recipe_id: Seq<char>,
    datum: DatumView,
    evidence: BoundView,
    tracker: TrackerView,
    decision: DecisionView,
) -> bool {
    let recipe = task_five_named(task_five_catalogue(), recipe_id)->Some_0;
    let definition = registered(definitions, recipe.id@)->Some_0;
    is_bound(
        observation,
        definition,
        recipe.window.spec_identity(),
        datum,
        evidence,
        stamp,
        decision,
        decision_coverage(tracker, decision)->Some_0,
        blake3_digest(task_five_lineage_encoding(definition, stamp, evidence, decision, datum)),
    )
}

fn emit_bound_datum(
    definitions: &Vec<FeatureDefinition>,
    stamp: &EmissionStamp,
    recipe_id: &str,
    datum: FeatureDatum,
    evidence: &BoundEvidence,
    tracker: &WatermarkTracker,
    decision: FinalizationDecision,
) -> (result: Result<FeatureObservation, Task5EmissionError>)
    ensures
        match bound_refusal(
            definitions@,
            *stamp,
            recipe_id@,
            datum@,
            evidence@,
            tracker@,
            decision@,
        ) {
            Some(error) => result is Err && result->Err_0 == error,
            None => result is Ok && is_emitted(
                result->Ok_0,
                definitions@,
                *stamp,
                recipe_id@,
                datum@,
                evidence@,
                tracker@,
                decision@,
            ),
        },
{
    let recipe = match task_five_recipe(recipe_id) {
        None => {
            return Err(Task5EmissionError::UnknownDefinition);
        },
        Some(recipe) => recipe,
    };
    let definition = match find_registered(definitions, recipe.id) {
        None => {
            return Err(Task5EmissionError::UnknownDefinition);
        },
        Some(definition) => definition,
    };
    let expected = recipe.definition();
    let window_id = recipe.window_id();
    if !fits_definition(definition, &expected, &datum, window_id, decision) {
        return Err(Task5EmissionError::DefinitionMismatch);
    }
    let coverage = match tracker.coverage_for_decision(decision) {
        None => {
            return Err(Task5EmissionError::Computation(FeatureComputationError::UntrustedInput));
        },
        Some(coverage) => coverage,
    };
    let lineage_hash = task_five_lineage_hash(definition, stamp, evidence, decision, &datum);
    if is_zero_digest(&lineage_hash) {
        return Err(Task5EmissionError::Registry(RegistryError::ZeroHash));
    }
    Ok(bind(definition, window_id, datum, evidence, stamp, decision, coverage, lineage_hash))
}

/// Each observation is the one of its datum.
pub open spec fn all_emitted(
    observations: Seq<FeatureObservation>,
    definitions: Seq<FeatureDefinition>,
    stamp: EmissionStamp,
    inputs: Seq<(Seq<char>, DatumView)>,
    evidence: BoundView,
    tracker: TrackerView,
    decision: DecisionView,
) -> bool {
    observations.len() == inputs.len() && forall|i: int|
        0 <= i < inputs.len() ==> is_emitted(
            #[trigger] observations[i],
            definitions,
            stamp,
            inputs[i].0,
            inputs[i].1,
            evidence,
            tracker,
            decision,
        )
}

/// The datum is bound without a failure, and the observation is its own.
#[verifier::opaque]
pub open spec fn is_candidate(
    observation: FeatureObservation,
    definitions: Seq<FeatureDefinition>,
    stamp: EmissionStamp,
    input: (Seq<char>, DatumView),
    evidence: BoundView,
    tracker: TrackerView,
    decision: DecisionView,
) -> bool {
    &&& bound_refusal(definitions, stamp, input.0, input.1, evidence, tracker, decision) is None
    &&& is_emitted(
        observation,
        definitions,
        stamp,
        input.0,
        input.1,
        evidence,
        tracker,
        decision,
    )
}

/// The candidates are the observations of the data, in order, up to the first datum that fails,
/// and that datum's failure where there is one.
pub open spec fn are_candidates(
    candidates: CandidatesView<Task5EmissionError>,
    definitions: Seq<FeatureDefinition>,
    stamp: EmissionStamp,
    inputs: Seq<(Seq<char>, DatumView)>,
    evidence: BoundView,
    tracker: TrackerView,
    decision: DecisionView,
) -> bool {
    let count = candidates.observations.len() as int;
    &&& count <= inputs.len()
    &&& forall|i: int|
        0 <= i < count ==> is_candidate(
            #[trigger] candidates.observations[i],
            definitions,
            stamp,
            inputs[i],
            evidence,
            tracker,
            decision,
        )
    &&& candidates.stopped == if count < inputs.len() {
        bound_refusal(
            definitions,
            stamp,
            inputs[count].0,
            inputs[count].1,
            evidence,
            tracker,
            decision,
        )
    } else {
        None
    }
    &&& count < inputs.len() ==> candidates.stopped is Some
}

fn emit_all(
    definitions: &Vec<FeatureDefinition>,
    stamp: &EmissionStamp,
    inputs: &Vec<NamedDatum>,
    evidence: &BoundEvidence,
    tracker: &WatermarkTracker,
    decision: FinalizationDecision,
) -> (candidates: Candidates<Task5EmissionError>)
    ensures
        are_candidates(
            candidates@,
            definitions@,
            *stamp,
            named_views(inputs@),
            evidence@,
            tracker@,
            decision@,
        ),
{
    let ghost views = named_views(inputs@);
    let mut observations: Vec<FeatureObservation> = Vec::new();
    let mut i: usize = 0;
    while i < inputs.len()
        invariant
            i <= inputs@.len(),
            views == named_views(inputs@),
            observations@.len() == i,
            forall|k: int|
                0 <= k < i ==> is_candidate(
                    #[trigger] observations@[k],
                    definitions@,
                    *stamp,
                    views[k],
                    evidence@,
                    tracker@,
                    decision@,
                ),
        decreases inputs.len() - i,
    {
        proof {
            assert(views[i as int] == (inputs@[i as int].0@, inputs@[i as int].1@));
        }
        match emit_bound_datum(
            definitions,
            stamp,
            inputs[i].0,
            inputs[i].1.clone(),
            evidence,
            tracker,
            decision,
        ) {
            Err(error) => {
                return Candidates::new(observations, Some(error));
            },
            Ok(observation) => {
                proof {
                    reveal(is_candidate);
                }
                observations.push(observation);
            },
        }
        i += 1;
    }
    Candidates::new(observations, None)
}

/// What is emitted in the end has one observation for each datum, each the datum's own.
pub proof fn lemma_emissions_are_complete(
    candidates: CandidatesView<Task5EmissionError>,
    verdicts: Seq<Verdict>,
    definitions: Seq<FeatureDefinition>,
    stamp: EmissionStamp,
    inputs: Seq<(Seq<char>, DatumView)>,
    evidence: BoundView,
    tracker: TrackerView,
    decision: DecisionView,
)
    requires
        are_candidates(candidates, definitions, stamp, inputs, evidence, tracker, decision),
        emission(candidates, verdicts) is Ok,
    ensures
        all_emitted(
            emission(candidates, verdicts)->Ok_0,
            definitions,
            stamp,
            inputs,
            evidence,
            tracker,
            decision,
        ),
{
    reveal(is_candidate);
}

/// A list of data, or why there is none.
pub type DataOutcome = Result<Seq<(Seq<char>, DatumView)>, Task5EmissionError>;

/// One list of data behind another, or the first failure.
pub open spec fn joined(first: DataOutcome, second: DataOutcome) -> DataOutcome {
    match (first, second) {
        (Err(error), _) => Err(error),
        (Ok(_), Err(error)) => Err(error),
        (Ok(left), Ok(right)) => Ok(left + right),
    }
}

/// What a list computation returned, by its contents.
pub open spec fn data_outcome(result: Result<Vec<NamedDatum>, Task5EmissionError>) -> DataOutcome {
    match result {
        Ok(inputs) => Ok(named_views(inputs@)),
        Err(error) => Err(error),
    }
}

/// One datum, or why there is none.
pub type DatumOutcome = Result<DatumView, Task5EmissionError>;

/// What a datum computation returned, by its contents.
pub open spec fn datum_outcome(result: Result<FeatureDatum, Task5EmissionError>) -> DatumOutcome {
    match result {
        Ok(datum) => Ok(datum@),
        Err(error) => Err(error),
    }
}

/// A value by its bit pattern.
pub open spec fn finite_datum_of(bits: u64) -> DatumOutcome {
    if finite_bits(bits) {
        Ok(DatumView::Float64(FiniteF64::of_pattern(bits)))
    } else {
        Err(Task5EmissionError::Registry(RegistryError::NonFiniteValue))
    }
}

fn finite_datum(bits: u64) -> (result: Result<FeatureDatum, Task5EmissionError>)
    ensures
        datum_outcome(result) == finite_datum_of(bits),
{
    match FiniteF64::from_bits(bits) {
        Ok(value) => Ok(FeatureDatum::Present(FeatureValue::Float64(value))),
        Err(error) => Err(Task5EmissionError::Registry(error)),
    }
}

/// The absence that a failure stands for, or the failure itself.
pub open spec fn absent_datum_of(error: FeatureComputationError) -> DatumOutcome {
    match error.absence() {
        Some(reason) => Ok(DatumView::Missing(reason)),
        None => Err(Task5EmissionError::Computation(error)),
    }
}

fn computation_missing(error: FeatureComputationError) -> (result: Result<
    FeatureDatum,
    Task5EmissionError,
>)
    ensures
        datum_outcome(result) == absent_datum_of(error),
{
    match error.missingness_reason() {
        Some(reason) => Ok(FeatureDatum::Missing(reason)),
        None => Err(Task5EmissionError::Computation(error)),
    }
}

/// A measured value, or the absence that its failure stands for.
pub open spec fn analytical_datum_of(measure: Measure) -> DatumOutcome {
    match measure {
        Ok(bits) => finite_datum_of(bits),
        Err(error) => absent_datum_of(error),
    }
}

fn analytical_datum(measure: Measure) -> (result: Result<FeatureDatum, Task5EmissionError>)
    ensures
        datum_outcome(result) == analytical_datum_of(measure),
{
    match measure {
        Ok(bits) => finite_datum(bits),
        Err(error) => computation_missing(error),
    }
}

/// The measure of terms that were computed, or the failure to compute them.
pub open spec fn after<T>(terms: Result<T, FeatureComputationError>, measure: Measure) -> Measure {
    match terms {
        Err(error) => Err(error),
        Ok(_) => measure,
    }
}

fn measured_after<T>(terms: Result<T, FeatureComputationError>, measure: Measure) -> (result:
    Measure)
    ensures
        result == after(terms, measure),
{
    match terms {
        Err(error) => Err(error),
        Ok(_) => measure,
    }
}

/// One datum under its name, or why there is none.
pub open spec fn one(name: Seq<char>, datum: DatumOutcome) -> DataOutcome {
    match datum {
        Err(error) => Err(error),
        Ok(datum) => Ok(seq![(name, datum)]),
    }
}

/// Adds a datum under its name to a list.
fn put_one(
    inputs: &mut Vec<NamedDatum>,
    name: &'static str,
    datum: Result<FeatureDatum, Task5EmissionError>,
) -> (result: Result<(), Task5EmissionError>)
    ensures
        match datum_outcome(datum) {
            Err(error) => result == Err::<(), Task5EmissionError>(error),
            Ok(view) => result is Ok && named_views(final(inputs)@) == named_views(old(inputs)@)
                + seq![(name@, view)],
        },
{
    let datum = datum?;
    inputs.push((name, datum));
    proof {
        assert(named_views(inputs@) =~= named_views(old(inputs)@) + seq![(name@, datum@)]);
    }
    Ok(())
}

/// What was measured on a book whose exact terms exist.
#[derive(Clone, Copy, Debug)]
pub struct BookMeasures {
    pub relative_spread: Measure,
    /// The imbalance of each registered band, from the narrowest.
    pub imbalances: [Measure; 7],
    pub weighted_midpoint: Measure,
    pub microprice: Measure,
    /// Slope at the inside and convexity, where the fit has a solution.
    pub bid_shape: Result<(u64, u64), FeatureComputationError>,
    pub ask_shape: Result<(u64, u64), FeatureComputationError>,
    pub bid_gap_density: Measure,
    pub ask_gap_density: Measure,
    /// Normalized entropy and concentration.
    pub distribution: Result<(u64, u64), FeatureComputationError>,
}

/// Two data for a pair of measures, or twice the absence that their failure stands for.
pub open spec fn pair_data(
    first: Seq<char>,
    second: Seq<char>,
    measures: Result<(u64, u64), FeatureComputationError>,
) -> DataOutcome {
    match measures {
        Ok((left, right)) => joined(
            one(first, finite_datum_of(left)),
            one(second, finite_datum_of(right)),
        ),
        Err(error) => joined(
            one(first, absent_datum_of(error)),
            one(second, absent_datum_of(error)),
        ),
    }
}

fn put_pair(
    inputs: &mut Vec<NamedDatum>,
    first: &'static str,
    second: &'static str,
    measures: Result<(u64, u64), FeatureComputationError>,
) -> (result: Result<(), Task5EmissionError>)
    ensures
        match pair_data(first@, second@, measures) {
            Err(error) => result == Err::<(), Task5EmissionError>(error),
            Ok(data) => result is Ok && named_views(final(inputs)@) == named_views(old(inputs)@)
                + data,
        },
{
    let ghost head = named_views(inputs@);
    match measures {
        Ok((left, right)) => {
            put_one(inputs, first, finite_datum(left))?;
            put_one(inputs, second, finite_datum(right))?;
        },
        Err(error) => {
            put_one(inputs, first, computation_missing(error))?;
            put_one(inputs, second, computation_missing(error))?;
        },
    }
    proof {
        let data = pair_data(first@, second@, measures)->Ok_0;
        assert(named_views(inputs@) =~= head + data);
    }
    Ok(())
}

/// The two spread data of a book.
pub open spec fn spread_data(book: BookSnapshotView, relative: Measure) -> DataOutcome {
    match spread_terms(book) {
        Err(error) => Err(Task5EmissionError::Computation(error)),
        Ok(terms) => match relative {
            Err(error) => Err(Task5EmissionError::Computation(error)),
            Ok(bits) => joined(
                one("absolute_spread"@, Ok(DatumView::FixedDecimal(terms.absolute))),
                one("relative_spread"@, finite_datum_of(bits)),
            ),
        },
    }
}

fn put_spread(inputs: &mut Vec<NamedDatum>, book: &BookSnapshotView, relative: Measure) -> (result:
    Result<(), Task5EmissionError>)
    ensures
        match spread_data(*book, relative) {
            Err(error) => result == Err::<(), Task5EmissionError>(error),
            Ok(data) => result is Ok && named_views(final(inputs)@) == named_views(old(inputs)@)
                + data,
        },
{
    let ghost head = named_views(inputs@);
    let terms = match spread(book) {
        Err(error) => {
            return Err(Task5EmissionError::Computation(error));
        },
        Ok(terms) => terms,
    };
    let bits: u64 = match relative {
        Err(error) => {
            return Err(Task5EmissionError::Computation(error));
        },
        Ok(bits) => bits,
    };
    put_one(
        inputs,
        "absolute_spread",
        Ok(FeatureDatum::Present(FeatureValue::FixedDecimal(terms.absolute))),
    )?;
    put_one(inputs, "relative_spread", finite_datum(bits))?;
    proof {
        assert(named_views(inputs@) =~= head + spread_data(*book, relative)->Ok_0);
    }
    Ok(())
}

/// The names of a registered band's data, and its width in basis points.
pub open spec fn band_of(i: int) -> (Seq<char>, Seq<char>, Seq<char>, u32) {
    if i == 0 {
        ("bid_depth_1bps"@, "ask_depth_1bps"@, "book_imbalance_1bps"@, 1)
    } else if i == 1 {
        ("bid_depth_2bps"@, "ask_depth_2bps"@, "book_imbalance_2bps"@, 2)
    } else if i == 2 {
        ("bid_depth_5bps"@, "ask_depth_5bps"@, "book_imbalance_5bps"@, 5)
    } else if i == 3 {
        ("bid_depth_10bps"@, "ask_depth_10bps"@, "book_imbalance_10bps"@, 10)
    } else if i == 4 {
        ("bid_depth_25bps"@, "ask_depth_25bps"@, "book_imbalance_25bps"@, 25)
    } else if i == 5 {
        ("bid_depth_50bps"@, "ask_depth_50bps"@, "book_imbalance_50bps"@, 50)
    } else {
        ("bid_depth_100bps"@, "ask_depth_100bps"@, "book_imbalance_100bps"@, 100)
    }
}

pub fn band(i: usize) -> (band: (&'static str, &'static str, &'static str, u32))
    ensures
        (band.0@, band.1@, band.2@, band.3) == band_of(i as int),
{
    if i == 0 {
        ("bid_depth_1bps", "ask_depth_1bps", "book_imbalance_1bps", 1)
    } else if i == 1 {
        ("bid_depth_2bps", "ask_depth_2bps", "book_imbalance_2bps", 2)
    } else if i == 2 {
        ("bid_depth_5bps", "ask_depth_5bps", "book_imbalance_5bps", 5)
    } else if i == 3 {
        ("bid_depth_10bps", "ask_depth_10bps", "book_imbalance_10bps", 10)
    } else if i == 4 {
        ("bid_depth_25bps", "ask_depth_25bps", "book_imbalance_25bps", 25)
    } else if i == 5 {
        ("bid_depth_50bps", "ask_depth_50bps", "book_imbalance_50bps", 50)
    } else {
        ("bid_depth_100bps", "ask_depth_100bps", "book_imbalance_100bps", 100)
    }
}

/// The quantity of one side in a band, or its absence where the book does not reach through it.
pub open spec fn side_depth(reached: bool, quantity: FixedDecimal) -> DatumView {
    if reached {
        DatumView::FixedDecimal(quantity)
    } else {
        DatumView::Missing(MissingnessReason::InsufficientHistory)
    }
}

/// The imbalance of a band that the book reaches through on both sides.
pub open spec fn band_imbalance(bid: FixedDecimal, ask: FixedDecimal, measure: Measure) -> DatumOutcome {
    match after(imbalance_of(bid, ask), measure) {
        Ok(bits) => finite_datum_of(bits),
        Err(FeatureComputationError::ZeroDenominator) => Ok(
            DatumView::Missing(MissingnessReason::BelowLiquidityThreshold),
        ),
        Err(error) => absent_datum_of(error),
    }
}

/// The three data of a band.
pub open spec fn band_data(
    book: BookSnapshotView,
    reference: Price,
    i: int,
    measure: Measure,
) -> DataOutcome {
    let (bid_name, ask_name, imbalance_name, width) = band_of(i);
    match outer_prices(book, reference, width) {
        Err(error) => joined(
            joined(one(bid_name, absent_datum_of(error)), one(ask_name, absent_datum_of(error))),
            one(imbalance_name, absent_datum_of(error)),
        ),
        Ok((bid, ask, lower, upper)) => {
            let totals = depth_in_band(book, reference, width)->Ok_0;
            let bid_reached = bid.units() <= lower.units();
            let ask_reached = ask.units() >= upper.units();
            joined(
                joined(
                    one(bid_name, Ok(side_depth(bid_reached, totals.0))),
                    one(ask_name, Ok(side_depth(ask_reached, totals.2))),
                ),
                one(
                    imbalance_name,
                    if bid_reached && ask_reached {
                        band_imbalance(totals.0, totals.2, measure)
                    } else {
                        Ok(DatumView::Missing(MissingnessReason::InsufficientHistory))
                    },
                ),
            )
        },
    }
}

fn depth_datum(quantity: Result<Quantity, FeatureComputationError>) -> (result: Result<
    FeatureDatum,
    Task5EmissionError,
>)
    ensures
        datum_outcome(result) == match quantity {
            Ok(quantity) => Ok(DatumView::FixedDecimal(quantity.amount())),
            Err(error) => absent_datum_of(error),
        },
{
    match quantity {
        Ok(quantity) => Ok(FeatureDatum::Present(FeatureValue::FixedDecimal(quantity.value()))),
        Err(error) => computation_missing(error),
    }
}

fn put_band(
    inputs: &mut Vec<NamedDatum>,
    book: &BookSnapshotView,
    reference: Price,
    i: usize,
    measure: Measure,
) -> (result: Result<(), Task5EmissionError>)
    requires
        i < 7,
    ensures
        match band_data(*book, reference, i as int, measure) {
            Err(error) => result == Err::<(), Task5EmissionError>(error),
            Ok(data) => result is Ok && named_views(final(inputs)@) == named_views(old(inputs)@)
                + data,
        },
{
    let ghost head = named_views(inputs@);
    let (bid_name, ask_name, imbalance_name, width) = band(i);
    match fully_observed_depth_within_band(book, reference, width) {
        Ok(depth) => {
            let bid = depth.bid_quantity();
            let ask = depth.ask_quantity();
            let bid_datum = depth_datum(bid);
            let ask_datum = depth_datum(ask);
            let imbalance = match (bid, ask) {
                (Ok(_), Ok(_)) => match measured_after(
                    normalized_imbalance(book, reference, width),
                    measure,
                ) {
                    Ok(bits) => finite_datum(bits),
                    Err(FeatureComputationError::ZeroDenominator) => Ok(
                        FeatureDatum::Missing(MissingnessReason::BelowLiquidityThreshold),
                    ),
                    Err(error) => computation_missing(error),
                },
                _ => Ok(FeatureDatum::Missing(MissingnessReason::InsufficientHistory)),
            };
            put_one(inputs, bid_name, bid_datum)?;
            put_one(inputs, ask_name, ask_datum)?;
            put_one(inputs, imbalance_name, imbalance)?;
        },
        Err(error) => {
            put_one(inputs, bid_name, computation_missing(error))?;
            put_one(inputs, ask_name, computation_missing(error))?;
            put_one(inputs, imbalance_name, computation_missing(error))?;
        },
    }
    proof {
        let data = band_data(*book, reference, i as int, measure)->Ok_0;
        assert(named_views(inputs@) =~= head + data);
    }
    Ok(())
}

/// The data of the first bands.
pub open spec fn bands_data(
    book: BookSnapshotView,
    reference: Price,
    count: int,
    measures: Seq<Measure>,
) -> DataOutcome
    decreases count,
{
    if count <= 0 {
        Ok(Seq::empty())
    } else {
        joined(
            bands_data(book, reference, count - 1, measures),
            band_data(book, reference, count - 1, measures[count - 1]),
        )
    }
}

proof fn lemma_bands_fail(
    book: BookSnapshotView,
    reference: Price,
    count: int,
    all: int,
    measures: Seq<Measure>,
)
    requires
        count <= all,
        bands_data(book, reference, count, measures) is Err,
    ensures
        bands_data(book, reference, all, measures) == bands_data(book, reference, count, measures),
    decreases all - count,
{
    if count < all {
        if count <= 0 {
            assert(false);
        }
        lemma_bands_fail(book, reference, count + 1, all, measures);
    }
}

/// The exact midpoint of a book as a price, or why it has none.
pub open spec fn midpoint_of(book: BookSnapshotView) -> Result<
    FixedDecimal,
    FeatureComputationError,
> {
    if book.bids@.len() == 0 || book.asks@.len() == 0 {
        Err(FeatureComputationError::UntrustedInput)
    } else {
        match book.bids@[0].price.amount().plus(book.asks@[0].price.amount()) {
            None => Err(FeatureComputationError::InvalidInput),
            Some(sum) => match sum.over(decimal_of_units(2 * unit())) {
                None => Err(FeatureComputationError::InvalidInput),
                Some(midpoint) => if midpoint.units() <= 0 {
                    Err(FeatureComputationError::InvalidInput)
                } else {
                    Ok(midpoint)
                },
            },
        }
    }
}

pub fn exact_midpoint(book: &BookSnapshotView) -> (result: Result<Price, FeatureComputationError>)
    ensures
        match midpoint_of(*book) {
            Err(error) => result is Err && result->Err_0 == error,
            Ok(midpoint) => result is Ok && result->Ok_0 == Price::of_amount(midpoint),
        },
{
    if book.bids.len() == 0 || book.asks.len() == 0 {
        return Err(FeatureComputationError::UntrustedInput);
    }
    let sum = sum_exact(book.bids[0].price.value(), book.asks[0].price.value())?;
    let midpoint = match sum.checked_div_exact(FixedDecimal::whole(2)) {
        Err(_) => {
            return Err(FeatureComputationError::InvalidInput);
        },
        Ok(midpoint) => midpoint,
    };
    match Price::new(midpoint) {
        Err(_) => Err(FeatureComputationError::InvalidInput),
        Ok(price) => Ok(price),
    }
}

/// Every datum of a book snapshot whose formula leaves nothing open. The two sweep costs stay
/// absent as long as no conversion to dollars is evidenced.
pub open spec fn snapshot_data(book: BookSnapshotView, measures: BookMeasures) -> DataOutcome {
    match midpoint_of(book) {
        Err(error) => Err(Task5EmissionError::Computation(error)),
        Ok(midpoint) => {
            let tick = book.price_tick;
            let unsupported = DatumView::Missing(MissingnessReason::SourceNotSupported);
            let first = joined(
                spread_data(book, measures.relative_spread),
                bands_data(book, Price::of_amount(midpoint), 7, measures.imbalances@),
            );
            let second = joined(
                joined(
                    first,
                    one(
                        "weighted_midpoint"@,
                        analytical_datum_of(
                            after(weighted_midpoint_terms(book), measures.weighted_midpoint),
                        ),
                    ),
                ),
                one(
                    "microprice"@,
                    analytical_datum_of(after(microprice_terms(book), measures.microprice)),
                ),
            );
            let third = joined(
                joined(
                    second,
                    pair_data(
                        "bid_book_slope"@,
                        "bid_book_convexity"@,
                        after_pair(
                            side_curve(book, book.bids@, tick, BOOK_SHAPE_LEVEL_COUNT_V1, true),
                            measures.bid_shape,
                        ),
                    ),
                ),
                pair_data(
                    "ask_book_slope"@,
                    "ask_book_convexity"@,
                    after_pair(
                        side_curve(book, book.asks@, tick, BOOK_SHAPE_LEVEL_COUNT_V1, false),
                        measures.ask_shape,
                    ),
                ),
            );
            let fourth = joined(
                joined(
                    third,
                    one(
                        "bid_price_level_gap_density"@,
                        analytical_datum_of(
                            after(side_gaps(book, book.bids@, tick, true), measures.bid_gap_density),
                        ),
                    ),
                ),
                one(
                    "ask_price_level_gap_density"@,
                    analytical_datum_of(
                        after(side_gaps(book, book.asks@, tick, false), measures.ask_gap_density),
                    ),
                ),
            );
            let fifth = joined(
                joined(fourth, one("expected_buy_sweep_cost_usd_10000"@, Ok(unsupported))),
                one("expected_sell_sweep_cost_usd_10000"@, Ok(unsupported)),
            );
            let sixth = joined(fifth, level_data(book));
            joined(
                sixth,
                pair_data(
                    "local_book_entropy"@,
                    "depth_concentration_by_level"@,
                    match distribution_refusal(book) {
                        Some(error) => Err(error),
                        None => measures.distribution,
                    },
                ),
            )
        },
    }
}

/// The exact terms of a book's weighted midpoint.
pub open spec fn weighted_midpoint_terms(book: BookSnapshotView) -> Result<
    super::ExactRatio,
    FeatureComputationError,
> {
    weighted_midpoint_of(book)
}

/// The exact terms of a book's microprice.
pub open spec fn microprice_terms(book: BookSnapshotView) -> Result<
    super::ExactRatio,
    FeatureComputationError,
> {
    microprice_of(book)
}

/// The pair of measures of terms that were computed, or the failure to compute them.
pub open spec fn after_pair<T>(
    terms: Result<T, FeatureComputationError>,
    measures: Result<(u64, u64), FeatureComputationError>,
) -> Result<(u64, u64), FeatureComputationError> {
    match terms {
        Err(error) => Err(error),
        Ok(_) => measures,
    }
}

fn measured_pair_after<T>(
    terms: Result<T, FeatureComputationError>,
    measures: Result<(u64, u64), FeatureComputationError>,
) -> (result: Result<(u64, u64), FeatureComputationError>)
    ensures
        result == after_pair(terms, measures),
{
    match terms {
        Err(error) => Err(error),
        Ok(_) => measures,
    }
}

/// A count as an integer, or why it is none.
pub open spec fn count_datum_of(count: nat) -> DatumOutcome {
    if count > i64::MAX {
        Err(Task5EmissionError::Computation(FeatureComputationError::CapacityExceeded))
    } else {
        Ok(DatumView::Integer(count as i64))
    }
}

fn count_datum(count: usize) -> (result: Result<FeatureDatum, Task5EmissionError>)
    ensures
        datum_outcome(result) == count_datum_of(count as nat),
{
    if count as u128 > 9_223_372_036_854_775_807 {
        return Err(Task5EmissionError::Computation(FeatureComputationError::CapacityExceeded));
    }
    Ok(FeatureDatum::Present(FeatureValue::Integer(count as i64)))
}

/// The numbers of levels of both sides.
pub open spec fn level_data(book: BookSnapshotView) -> DataOutcome {
    let bid_name = "bid_active_price_levels"@;
    let ask_name = "ask_active_price_levels"@;
    match book_refusal(book) {
        Some(error) => joined(
            one(bid_name, absent_datum_of(error)),
            one(ask_name, absent_datum_of(error)),
        ),
        None => joined(
            one(bid_name, count_datum_of(book.bids@.len())),
            one(ask_name, count_datum_of(book.asks@.len())),
        ),
    }
}

fn put_levels(inputs: &mut Vec<NamedDatum>, book: &BookSnapshotView) -> (result: Result<
    (),
    Task5EmissionError,
>)
    ensures
        match level_data(*book) {
            Err(error) => result == Err::<(), Task5EmissionError>(error),
            Ok(data) => result is Ok && named_views(final(inputs)@) == named_views(old(inputs)@)
                + data,
        },
{
    let ghost head = named_views(inputs@);
    match active_level_counts(book) {
        Ok(_) => {
            put_one(inputs, "bid_active_price_levels", count_datum(book.bids.len()))?;
            put_one(inputs, "ask_active_price_levels", count_datum(book.asks.len()))?;
        },
        Err(error) => {
            put_one(inputs, "bid_active_price_levels", computation_missing(error))?;
            put_one(inputs, "ask_active_price_levels", computation_missing(error))?;
        },
    }
    proof {
        assert(named_views(inputs@) =~= head + level_data(*book)->Ok_0);
    }
    Ok(())
}

fn put_bands(
    inputs: &mut Vec<NamedDatum>,
    book: &BookSnapshotView,
    reference: Price,
    measures: &[Measure; 7],
) -> (result: Result<(), Task5EmissionError>)
    ensures
        match bands_data(*book, reference, 7, measures@) {
            Err(error) => result == Err::<(), Task5EmissionError>(error),
            Ok(data) => result is Ok && named_views(final(inputs)@) == named_views(old(inputs)@)
                + data,
        },
{
    let ghost head = named_views(inputs@);
    let mut i: usize = 0;
    proof {
        assert(named_views(inputs@) =~= head + bands_data(*book, reference, 0, measures@)->Ok_0);
    }
    while i < 7
        invariant
            i <= 7,
            bands_data(*book, reference, i as int, measures@) is Ok,
            named_views(inputs@) == head + bands_data(
                *book,
                reference,
                i as int,
                measures@,
            )->Ok_0,
        decreases 7 - i,
    {
        proof {
            if bands_data(*book, reference, i + 1, measures@) is Err {
                lemma_bands_fail(*book, reference, i + 1, 7, measures@);
            }
        }
        let ghost before = named_views(inputs@);
        put_band(inputs, book, reference, i, measures[i])?;
        proof {
            let earlier = bands_data(*book, reference, i as int, measures@)->Ok_0;
            let data = band_data(*book, reference, i as int, measures@[i as int])->Ok_0;
            assert(head + earlier + data =~= head + (earlier + data));
        }
        i += 1;
    }
    Ok(())
}

/// Collects every datum of a book snapshot.
fn collect_snapshot(book: &BookSnapshotView, measures: &BookMeasures) -> (result: Result<
    Vec<NamedDatum>,
    Task5EmissionError,
>)
    ensures
        data_outcome(result) == snapshot_data(*book, *measures),
{
    let reference = match exact_midpoint(book) {
        Err(error) => {
            return Err(Task5EmissionError::Computation(error));
        },
        Ok(reference) => reference,
    };
    let tick = book.price_tick;
    let mut inputs: Vec<NamedDatum> = Vec::new();
    proof {
        assert(named_views(inputs@) =~= Seq::empty());
    }
    put_spread(&mut inputs, book, measures.relative_spread)?;
    proof {
        assert(named_views(inputs@) =~= spread_data(*book, measures.relative_spread)->Ok_0);
    }
    put_bands(&mut inputs, book, reference, &measures.imbalances)?;
    put_one(
        &mut inputs,
        "weighted_midpoint",
        analytical_datum(measured_after(weighted_midpoint(book), measures.weighted_midpoint)),
    )?;
    put_one(
        &mut inputs,
        "microprice",
        analytical_datum(measured_after(microprice(book), measures.microprice)),
    )?;
    let bid_curve = bid_book_shape_quadratic(book, tick, BOOK_SHAPE_LEVEL_COUNT_V1);
    put_pair(
        &mut inputs,
        "bid_book_slope",
        "bid_book_convexity",
        measured_pair_after(bid_curve, measures.bid_shape),
    )?;
    let ask_curve = ask_book_shape_quadratic(book, tick, BOOK_SHAPE_LEVEL_COUNT_V1);
    put_pair(
        &mut inputs,
        "ask_book_slope",
        "ask_book_convexity",
        measured_pair_after(ask_curve, measures.ask_shape),
    )?;
    let bid_gaps = bid_level_gap_density(book, tick);
    put_one(
        &mut inputs,
        "bid_price_level_gap_density",
        analytical_datum(measured_after(bid_gaps, measures.bid_gap_density)),
    )?;
    let ask_gaps = ask_level_gap_density(book, tick);
    put_one(
        &mut inputs,
        "ask_price_level_gap_density",
        analytical_datum(measured_after(ask_gaps, measures.ask_gap_density)),
    )?;
    put_one(
        &mut inputs,
        "expected_buy_sweep_cost_usd_10000",
        Ok(FeatureDatum::Missing(MissingnessReason::SourceNotSupported)),
    )?;
    put_one(
        &mut inputs,
        "expected_sell_sweep_cost_usd_10000",
        Ok(FeatureDatum::Missing(MissingnessReason::SourceNotSupported)),
    )?;
    put_levels(&mut inputs, book)?;
    let distribution = book_distribution(book);
    put_pair(
        &mut inputs,
        "local_book_entropy",
        "depth_concentration_by_level",
        measured_pair_after(distribution, measures.distribution),
    )?;
    Ok(inputs)
}

/// The bytes that a book's input evidence is a digest of.
pub open spec fn book_input_encoding(evidence: BookEvidenceView, definition_lineage: Seq<u8>) -> Seq<
    u8,
> {
    utf8("crypto-intelligence/task5-book-input-evidence/v2"@) + evidence.lineage
        + definition_lineage + evidence.state_digest + framed(source_label(evidence.source))
}

fn book_input_digest(evidence: &BookStateEvidence, definition_lineage: [u8; 32]) -> (digest: [u8;
    32])
    ensures
        digest@ == blake3_digest(book_input_encoding(evidence@, definition_lineage@)),
{
    let mut buffer = labelled("crypto-intelligence/task5-book-input-evidence/v2");
    let lineage = evidence.lineage();
    put_bytes(&mut buffer, lineage.as_slice());
    put_bytes(&mut buffer, definition_lineage.as_slice());
    let state = evidence.state_digest();
    put_bytes(&mut buffer, state.as_slice());
    let label = evidence.source().label();
    put_framed(&mut buffer, label.as_bytes());
    blake3_hash(buffer.as_slice())
}

/// The decision was made by the tracker as it stands, for the entity, and is final.
pub open spec fn is_final_for(
    tracker: TrackerView,
    decision: DecisionView,
    entity: EntityView,
) -> bool {
    tracker.vouches_for(decision) && decision.entity == Some(entity_fingerprint(entity))
        && decision.state == Finalization::Final
}

/// The evidence of a book for its data, or why the book may not be emitted.
pub open spec fn book_context(
    book: BookSnapshotView,
    evidence: BookEvidenceView,
    tracker: TrackerView,
    decision: DecisionView,
) -> Result<BoundView, Task5EmissionError> {
    let entity = EntityView::Instrument(book.instrument@);
    if !vouches_for_book(evidence, book) || evidence.definition_lineage is None {
        Err(Task5EmissionError::Computation(FeatureComputationError::UntrustedInput))
    } else if !is_final_for(tracker, decision, entity) || evidence.event_time.nanos
        < decision.window.lower() || evidence.event_time.nanos >= decision.window.upper() {
        Err(Task5EmissionError::Computation(FeatureComputationError::WindowNotFinal))
    } else {
        match decision_coverage(tracker, decision) {
            None => Err(Task5EmissionError::Computation(FeatureComputationError::UntrustedInput)),
            Some(coverage) => if coverage.0.len() != 1 || !coverage.0.contains(evidence.source) {
                Err(
                    Task5EmissionError::Computation(
                        FeatureComputationError::EligibleUniverseChanged,
                    ),
                )
            } else if evidence.quality_score_ppm > 1_000_000 {
                Err(Task5EmissionError::Registry(RegistryError::InvalidQualityScore))
            } else {
                Ok(
                    BoundView {
                        entity,
                        as_known_at: evidence.as_known_at,
                        domain: "crypto-intelligence/task5-book-core-evidence/v1"@,
                        input_digest: blake3_digest(
                            book_input_encoding(evidence, evidence.definition_lineage->Some_0),
                        ),
                        quality_score: QualityScore { millionths: evidence.quality_score_ppm },
                    },
                )
            },
        }
    }
}

fn validate_book_snapshot_emission(
    book: &BookSnapshotView,
    evidence: &BookStateEvidence,
    tracker: &WatermarkTracker,
    decision: FinalizationDecision,
) -> (result: Result<BoundEvidence, Task5EmissionError>)
    ensures
        match book_context(*book, evidence@, tracker@, decision@) {
            Err(error) => result is Err && result->Err_0 == error,
            Ok(context) => result is Ok && result->Ok_0@ == context,
        },
{
    if !evidence.matches(book) {
        return Err(Task5EmissionError::Computation(FeatureComputationError::UntrustedInput));
    }
    let definition_lineage = match evidence.instrument_definition_lineage() {
        None => {
            return Err(Task5EmissionError::Computation(FeatureComputationError::UntrustedInput));
        },
        Some(lineage) => lineage,
    };
    let entity = FeatureEntity::Instrument(book.instrument.clone());
    let window = decision.window();
    let time = evidence.event_time();
    if !tracker.validates_decision(decision, &entity) || decision.state() != Finalization::Final
        || time.value() < window.start().value() || time.value() >= window.end().value() {
        return Err(Task5EmissionError::Computation(FeatureComputationError::WindowNotFinal));
    }
    let coverage = match tracker.coverage_for_decision(decision) {
        None => {
            return Err(Task5EmissionError::Computation(FeatureComputationError::UntrustedInput));
        },
        Some(coverage) => coverage,
    };
    if coverage.expected.len() != 1 || !holds_source(&coverage.expected, evidence.source()) {
        return Err(
            Task5EmissionError::Computation(FeatureComputationError::EligibleUniverseChanged),
        );
    }
    let quality_score = match QualityScore::from_millionths(evidence.quality_score_ppm()) {
        Err(error) => {
            return Err(Task5EmissionError::Registry(error));
        },
        Ok(score) => score,
    };
    Ok(
        BoundEvidence {
            entity,
            as_known_at: evidence.as_known_at(),
            domain: "crypto-intelligence/task5-book-core-evidence/v1",
            input_digest: book_input_digest(evidence, definition_lineage),
            quality_score,
        },
    )
}

/// Why there are no candidates, if there are none: the evidence or the data fail.
pub open spec fn data_refusal(
    context: Result<BoundView, Task5EmissionError>,
    data: DataOutcome,
) -> Option<Task5EmissionError> {
    match (context, data) {
        (Err(error), _) => Some(error),
        (Ok(_), Err(error)) => Some(error),
        (Ok(_), Ok(_)) => None,
    }
}

/// Emits the exact and relative spread of one authenticated book.
pub fn emit_book_spread_features(
    definitions: &Vec<FeatureDefinition>,
    stamp: &EmissionStamp,
    book: &BookSnapshotView,
    evidence: &BookStateEvidence,
    relative_spread: Measure,
    tracker: &WatermarkTracker,
    decision: FinalizationDecision,
) -> (result: Result<Candidates<Task5EmissionError>, Task5EmissionError>)
    ensures
        ({
            let context = book_context(*book, evidence@, tracker@, decision@);
            let data = spread_data(*book, relative_spread);
            match data_refusal(context, data) {
                Some(error) => result is Err && result->Err_0 == error,
                None => result is Ok && are_candidates(
                    result->Ok_0@,
                    definitions@,
                    *stamp,
                    data->Ok_0,
                    context->Ok_0,
                    tracker@,
                    decision@,
                ),
            }
        }),
{
    let context = validate_book_snapshot_emission(book, evidence, tracker, decision)?;
    let mut inputs: Vec<NamedDatum> = Vec::new();
    proof {
        assert(named_views(inputs@) =~= Seq::empty());
    }
    put_spread(&mut inputs, book, relative_spread)?;
    proof {
        assert(named_views(inputs@) =~= spread_data(*book, relative_spread)->Ok_0);
    }
    Ok(emit_all(definitions, stamp, &inputs, &context, tracker, decision))
}

/// Emits the one-second snapshot recipes of one authenticated book whose formulas leave nothing
/// open.
pub fn emit_book_snapshot_core_features(
    definitions: &Vec<FeatureDefinition>,
    stamp: &EmissionStamp,
    book: &BookSnapshotView,
    evidence: &BookStateEvidence,
    measures: &BookMeasures,
    tracker: &WatermarkTracker,
    decision: FinalizationDecision,
) -> (result: Result<Candidates<Task5EmissionError>, Task5EmissionError>)
    ensures
        ({
            let context = book_context(*book, evidence@, tracker@, decision@);
            let data = snapshot_data(*book, *measures);
            match data_refusal(context, data) {
                Some(error) => result is Err && result->Err_0 == error,
                None => result is Ok && are_candidates(
                    result->Ok_0@,
                    definitions@,
                    *stamp,
                    data->Ok_0,
                    context->Ok_0,
                    tracker@,
                    decision@,
                ),
            }
        }),
{
    let context = validate_book_snapshot_emission(book, evidence, tracker, decision)?;
    let inputs = collect_snapshot(book, measures)?;
    Ok(emit_all(definitions, stamp, &inputs, &context, tracker, decision))
}

/// A complete book snapshot has thirty-seven data.
pub proof fn lemma_snapshots_are_complete(book: BookSnapshotView, measures: BookMeasures)
    requires
        snapshot_data(book, measures) is Ok,
    ensures
        snapshot_data(book, measures)->Ok_0.len() == 37,
{
    lemma_bands_length(book, Price::of_amount(midpoint_of(book)->Ok_0), 7, measures.imbalances@);
}

proof fn lemma_bands_length(
    book: BookSnapshotView,
    reference: Price,
    count: int,
    measures: Seq<Measure>,
)
    requires
        0 <= count,
        bands_data(book, reference, count, measures) is Ok,
    ensures
        bands_data(book, reference, count, measures)->Ok_0.len() == 3 * count,
    decreases count,
{
    if count > 0 {
        lemma_bands_length(book, reference, count - 1, measures);
    }
}

/// No observation is known before its finality decision or before its evidence.
pub proof fn lemma_emissions_respect_knowledge(
    observations: Seq<FeatureObservation>,
    definitions: Seq<FeatureDefinition>,
    stamp: EmissionStamp,
    inputs: Seq<(Seq<char>, DatumView)>,
    evidence: BoundView,
    tracker: TrackerView,
    decision: DecisionView,
    i: int,
)
    requires
        all_emitted(observations, definitions, stamp, inputs, evidence, tracker, decision),
        0 <= i < observations.len(),
    ensures
        observations[i].as_known_at.nanos >= decision.as_known_at.nanos,
        observations[i].as_known_at.nanos >= evidence.as_known_at.nanos,
        observations[i].finality_as_known_at == decision.as_known_at,
{
}

/// What was measured on a window of trades whose exact terms exist.
#[derive(Clone, Copy, Debug)]
pub struct FlowMeasures {
    /// The imbalances of counts, quantities and notionals.
    pub imbalances: Result<(u64, u64, u64), FeatureComputationError>,
    pub intensity: Measure,
    pub interarrival_variation: Measure,
}

/// One of the three imbalances, absent where nothing was traded.
pub open spec fn imbalance_datum_of(measure: Measure) -> DatumOutcome {
    match measure {
        Ok(bits) => finite_datum_of(bits),
        Err(FeatureComputationError::ZeroDenominator) => Ok(
            DatumView::Missing(MissingnessReason::InsufficientHistory),
        ),
        Err(error) => Err(Task5EmissionError::Computation(error)),
    }
}

fn imbalance_datum(measure: Measure) -> (result: Result<FeatureDatum, Task5EmissionError>)
    ensures
        datum_outcome(result) == imbalance_datum_of(measure),
{
    match measure {
        Ok(bits) => finite_datum(bits),
        Err(FeatureComputationError::ZeroDenominator) => Ok(
            FeatureDatum::Missing(MissingnessReason::InsufficientHistory),
        ),
        Err(error) => Err(Task5EmissionError::Computation(error)),
    }
}

/// The three imbalances of a window, or the failure that stands for each.
pub open spec fn three_imbalances(
    window: FlowWindowView,
    measures: Result<(u64, u64, u64), FeatureComputationError>,
) -> (Measure, Measure, Measure) {
    let terms = match window_sums(window.instrument, window.trades) {
        Err(error) => Err(error),
        Ok(sums) => imbalance_terms(sums),
    };
    match (terms, measures) {
        (Err(error), _) => (Err(error), Err(error), Err(error)),
        (Ok(_), Err(error)) => (Err(error), Err(error), Err(error)),
        (Ok(_), Ok((count, quantity, notional))) => (Ok(count), Ok(quantity), Ok(notional)),
    }
}

/// The terms of the variation between trades, or why there are none.
pub open spec fn interarrival_terms(trades: Seq<FlowTradeView>) -> Result<
    Seq<i64>,
    FeatureComputationError,
> {
    if trades.len() < 3 {
        Err(FeatureComputationError::InsufficientHistory)
    } else if exists|i: int| 0 <= i < trades.len() - 1 && #[trigger] interval_overflows(trades, i) {
        Err(FeatureComputationError::InvalidInput)
    } else {
        Ok(interarrival_intervals(trades))
    }
}

/// The failure of a measured value is a failure of the whole.
pub open spec fn required_datum_of(measure: Measure) -> DatumOutcome {
    match measure {
        Ok(bits) => finite_datum_of(bits),
        Err(error) => Err(Task5EmissionError::Computation(error)),
    }
}

fn required_datum(measure: Measure) -> (result: Result<FeatureDatum, Task5EmissionError>)
    ensures
        datum_outcome(result) == required_datum_of(measure),
{
    match measure {
        Ok(bits) => finite_datum(bits),
        Err(error) => Err(Task5EmissionError::Computation(error)),
    }
}

/// The signed volume at each price, by amounts.
pub open spec fn volume_pairs(levels: Seq<(Price, FixedDecimal)>) -> Seq<
    (FixedDecimal, FixedDecimal),
> {
    Seq::new(levels.len(), |i: int| (levels[i].0.amount(), levels[i].1))
}

/// The exact data of a window of trades: counts, quantities and notionals.
pub open spec fn sums_data(sums: AggressiveTradeSums) -> DataOutcome {
    let counts = joined(
        one("aggressive_buy_count"@, count_datum_of(sums.buy_count as nat)),
        one("aggressive_sell_count"@, count_datum_of(sums.sell_count as nat)),
    );
    let buy_quantity = joined(
        counts,
        one(
            "aggressive_buy_quantity"@,
            Ok(DatumView::FixedDecimal(sums.buy_quantity.amount())),
        ),
    );
    let quantities = joined(
        buy_quantity,
        one(
            "aggressive_sell_quantity"@,
            Ok(DatumView::FixedDecimal(sums.sell_quantity.amount())),
        ),
    );
    joined(
        joined(
            quantities,
            one("aggressive_buy_notional"@, Ok(DatumView::FixedDecimal(sums.buy_notional))),
        ),
        one("aggressive_sell_notional"@, Ok(DatumView::FixedDecimal(sums.sell_notional))),
    )
}

/// The measured data of a window of trades.
pub open spec fn measured_flow_data(window: FlowWindowView, measures: FlowMeasures) -> DataOutcome {
    let imbalances = three_imbalances(window, measures.imbalances);
    let intensity = match elapsed(window.start, window.end) {
        Ok(duration) => if duration == 0 {
            Err(FeatureComputationError::InvalidParameter)
        } else {
            measures.intensity
        },
        Err(_) => Err(FeatureComputationError::InvalidParameter),
    };
    let balances = joined(
        joined(
            one("signed_trade_count_imbalance"@, imbalance_datum_of(imbalances.0)),
            one("signed_trade_quantity_imbalance"@, imbalance_datum_of(imbalances.1)),
        ),
        one("signed_trade_notional_imbalance"@, imbalance_datum_of(imbalances.2)),
    );
    joined(
        joined(balances, one("trade_intensity_per_second"@, required_datum_of(intensity))),
        one(
            "trade_interarrival_coefficient_of_variation"@,
            analytical_datum_of(
                after(interarrival_terms(window.trades), measures.interarrival_variation),
            ),
        ),
    )
}

/// Every datum of a window of trades.
pub open spec fn flow_data(window: FlowWindowView, measures: FlowMeasures) -> DataOutcome {
    match window_sums(window.instrument, window.trades) {
        Err(error) => Err(Task5EmissionError::Computation(error)),
        Ok(sums) => match signed_volume(window.trades) {
            Err(error) => Err(Task5EmissionError::Computation(error)),
            Ok(levels) => joined(
                joined(sums_data(sums), measured_flow_data(window, measures)),
                one(
                    "signed_volume_at_price"@,
                    Ok(DatumView::FixedDecimalMap(volume_pairs(levels))),
                ),
            ),
        },
    }
}

fn put_sums(inputs: &mut Vec<NamedDatum>, sums: AggressiveTradeSums) -> (result: Result<
    (),
    Task5EmissionError,
>)
    ensures
        match sums_data(sums) {
            Err(error) => result == Err::<(), Task5EmissionError>(error),
            Ok(data) => result is Ok && named_views(final(inputs)@) == named_views(old(inputs)@)
                + data,
        },
{
    let ghost head = named_views(inputs@);
    put_one(inputs, "aggressive_buy_count", count_datum(sums.buy_count))?;
    put_one(inputs, "aggressive_sell_count", count_datum(sums.sell_count))?;
    put_one(
        inputs,
        "aggressive_buy_quantity",
        Ok(FeatureDatum::Present(FeatureValue::FixedDecimal(sums.buy_quantity.value()))),
    )?;
    put_one(
        inputs,
        "aggressive_sell_quantity",
        Ok(FeatureDatum::Present(FeatureValue::FixedDecimal(sums.sell_quantity.value()))),
    )?;
    put_one(
        inputs,
        "aggressive_buy_notional",
        Ok(FeatureDatum::Present(FeatureValue::FixedDecimal(sums.buy_notional))),
    )?;
    put_one(
        inputs,
        "aggressive_sell_notional",
        Ok(FeatureDatum::Present(FeatureValue::FixedDecimal(sums.sell_notional))),
    )?;
    proof {
        assert(named_views(inputs@) =~= head + sums_data(sums)->Ok_0);
    }
    Ok(())
}

fn put_measured_flow(
    inputs: &mut Vec<NamedDatum>,
    window: &TradeFlowWindow,
    measures: &FlowMeasures,
) -> (result: Result<(), Task5EmissionError>)
    ensures
        match measured_flow_data(window@, *measures) {
            Err(error) => result == Err::<(), Task5EmissionError>(error),
            Ok(data) => result is Ok && named_views(final(inputs)@) == named_views(old(inputs)@)
                + data,
        },
{
    let ghost head = named_views(inputs@);
    let (count, quantity, notional): (Measure, Measure, Measure) = match (
        aggressive_trade_imbalances(window),
        measures.imbalances,
    ) {
        (Err(error), _) => (Err(error), Err(error), Err(error)),
        (Ok(_), Err(error)) => (Err(error), Err(error), Err(error)),
        (Ok(_), Ok((count, quantity, notional))) => (Ok(count), Ok(quantity), Ok(notional)),
    };
    put_one(inputs, "signed_trade_count_imbalance", imbalance_datum(count))?;
    put_one(inputs, "signed_trade_quantity_imbalance", imbalance_datum(quantity))?;
    put_one(inputs, "signed_trade_notional_imbalance", imbalance_datum(notional))?;
    let intensity = measured_after(trade_intensity_per_second(window), measures.intensity);
    put_one(inputs, "trade_intensity_per_second", required_datum(intensity))?;
    let intervals = interarrival_coefficient_of_variation(window);
    let variation = measured_after(intervals, measures.interarrival_variation);
    put_one(
        inputs,
        "trade_interarrival_coefficient_of_variation",
        analytical_datum(variation),
    )?;
    proof {
        assert(named_views(inputs@) =~= head + measured_flow_data(window@, *measures)->Ok_0);
    }
    Ok(())
}

/// Collects every datum of a window of trades.
fn collect_flow(window: &TradeFlowWindow, measures: &FlowMeasures) -> (result: Result<
    Vec<NamedDatum>,
    Task5EmissionError,
>)
    ensures
        data_outcome(result) == flow_data(window@, *measures),
{
    let sums = match aggressive_trade_sums(window) {
        Err(error) => {
            return Err(Task5EmissionError::Computation(error));
        },
        Ok(sums) => sums,
    };
    let levels = match signed_volume_at_price(window) {
        Err(error) => {
            return Err(Task5EmissionError::Computation(error));
        },
        Ok(levels) => levels,
    };
    let mut pairs: Vec<(FixedDecimal, FixedDecimal)> = Vec::new();
    let mut i: usize = 0;
    while i < levels.len()
        invariant
            i <= levels@.len(),
            pairs@ == volume_pairs(levels@).take(i as int),
        decreases levels.len() - i,
    {
        pairs.push((levels[i].0.value(), levels[i].1));
        proof {
            assert(pairs@ =~= volume_pairs(levels@).take(i + 1));
        }
        i += 1;
    }
    proof {
        assert(volume_pairs(levels@).take(i as int) =~= volume_pairs(levels@));
    }
    let mut inputs: Vec<NamedDatum> = Vec::new();
    proof {
        assert(named_views(inputs@) =~= Seq::empty());
    }
    put_sums(&mut inputs, sums)?;
    proof {
        assert(named_views(inputs@) =~= sums_data(sums)->Ok_0);
    }
    put_measured_flow(&mut inputs, window, measures)?;
    put_one(
        &mut inputs,
        "signed_volume_at_price",
        Ok(FeatureDatum::Present(FeatureValue::FixedDecimalMap(pairs))),
    )?;
    Ok(inputs)
}

/// The sources of trades.
pub open spec fn flow_sources(trades: Seq<FlowTradeView>) -> Set<SourceView>
    decreases trades.len(),
{
    if trades.len() == 0 {
        Set::empty()
    } else {
        match trades.last().source {
            Some(source) => flow_sources(trades.drop_last()).insert(source),
            None => flow_sources(trades.drop_last()),
        }
    }
}

proof fn lemma_flow_sources(trades: Seq<FlowTradeView>)
    ensures
        flow_sources(trades).finite(),
        forall|source: SourceView| #[trigger]
            flow_sources(trades).contains(source) <==> flows_from(trades, source),
    decreases trades.len(),
{
    if trades.len() > 0 {
        let rest = trades.drop_last();
        lemma_flow_sources(rest);
        assert forall|source: SourceView| #[trigger]
            flow_sources(trades).contains(source) <==> flows_from(trades, source) by {
            if flows_from(rest, source) {
                let i = choose|i: int|
                    0 <= i < rest.len() && (#[trigger] rest[i]).source == Some(source);
                assert(trades[i].source == Some(source));
            }
            if trades.last().source == Some(source) {
                assert(trades[trades.len() - 1].source == Some(source));
            }
            if flows_from(trades, source) {
                let i = choose|i: int|
                    0 <= i < trades.len() && (#[trigger] trades[i]).source == Some(source);
                if i < rest.len() {
                    assert(rest[i].source == Some(source));
                }
            }
        }
    }
}

/// The trades come from exactly as many sources as are expected, and only from those.
pub open spec fn sources_match(trades: Seq<FlowTradeView>, expected: Seq<SourceView>) -> bool {
    flow_sources(trades).len() == expected.len() && forall|source: SourceView| #[trigger]
        flow_sources(trades).contains(source) ==> expected.contains(source)
}

/// Some trade's side is inferred.
pub open spec fn some_inferred(trades: Seq<FlowTradeView>) -> bool {
    exists|i: int| 0 <= i < trades.len() && (#[trigger] trades[i]).authority.2
}

/// The evidence of a window of trades for its data, or why the window may not be emitted.
pub open spec fn flow_context(
    window: FlowWindowView,
    tracker: TrackerView,
    decision: DecisionView,
) -> Result<BoundView, Task5EmissionError> {
    let entity = EntityView::Instrument(window.instrument);
    if !all_authenticated(window.trades) {
        Err(Task5EmissionError::Computation(FeatureComputationError::UntrustedInput))
    } else if !is_final_for(tracker, decision, entity) || decision.window.lower()
        != window.start.nanos || decision.window.upper() != window.end.nanos {
        Err(Task5EmissionError::Computation(FeatureComputationError::WindowNotFinal))
    } else {
        match decision_coverage(tracker, decision) {
            None => Err(Task5EmissionError::Computation(FeatureComputationError::UntrustedInput)),
            Some(coverage) => if !sources_match(window.trades, coverage.0) {
                Err(
                    Task5EmissionError::Computation(
                        FeatureComputationError::EligibleUniverseChanged,
                    ),
                )
            } else if some_inferred(window.trades) {
                Err(Task5EmissionError::Computation(FeatureComputationError::SourceNotSupported))
            } else if lowest_flow_quality(window.trades)->Some_0 > 1_000_000 {
                Err(Task5EmissionError::Registry(RegistryError::InvalidQualityScore))
            } else {
                match flow_evidence(window) {
                    Err(error) => Err(Task5EmissionError::Computation(error)),
                    Ok(input_digest) => Ok(
                        BoundView {
                            entity,
                            as_known_at: latest_flow_knowledge(window.trades)->Some_0,
                            domain: "crypto-intelligence/task5-trade-flow-evidence/v1"@,
                            input_digest,
                            quality_score: QualityScore {
                                millionths: lowest_flow_quality(window.trades)->Some_0,
                            },
                        },
                    ),
                }
            },
        }
    }
}

fn flow_sources_match(window: &TradeFlowWindow, expected: &Vec<SourceId>) -> (answer: bool)
    ensures
        answer == sources_match(window@.trades, source_views(expected@)),
{
    let sources = window.sources();
    let ghost names = source_views(sources@);
    let ghost trades = window@.trades;
    proof {
        lemma_flow_sources(trades);
        assert forall|i: int, j: int| 0 <= i < j < names.len() implies names[i] != names[j] by {
            lemma_rank_irreflexive(sources@[i].rank());
            assert(rank_precedes(sources@[i].rank(), sources@[j].rank()));
        }
        assert(names.no_duplicates());
        names.unique_seq_to_set();
        assert(names.to_set() =~= flow_sources(trades)) by {
            assert forall|source: SourceView| names.to_set().contains(source) implies flow_sources(
                trades,
            ).contains(source) by {
                let at = names.index_of(source);
                assert(flows_from(trades, sources@[at]@));
            }
        }
    }
    if sources.len() != expected.len() {
        return false;
    }
    let mut i: usize = 0;
    while i < sources.len()
        invariant
            i <= sources@.len(),
            names == source_views(sources@),
            names.to_set() == flow_sources(trades),
            forall|k: int|
                0 <= k < i ==> source_views(expected@).contains(#[trigger] names[k]),
            trades == window@.trades,
        decreases sources.len() - i,
    {
        proof {
            assert(names[i as int] == sources@[i as int]@);
        }
        if !holds_source(expected, &sources[i]) {
            proof {
                assert(names.contains(names[i as int]));
                assert(flow_sources(trades).contains(names[i as int]));
            }
            return false;
        }
        i += 1;
    }
    proof {
        assert forall|source: SourceView| #[trigger]
            flow_sources(trades).contains(source) implies source_views(expected@).contains(
            source,
        ) by {
            assert(names.to_set().contains(source));
            let at = names.index_of(source);
            assert(names[at] == source);
        }
    }
    true
}

fn has_inferred(window: &TradeFlowWindow) -> (answer: bool)
    ensures
        answer == some_inferred(window@.trades),
{
    let authorities = window.authorities();
    let ghost trades = window@.trades;
    let mut i: usize = 0;
    while i < authorities.len()
        invariant
            i <= authorities@.len(),
            trades == window@.trades,
            forall|k: int| 0 <= k < i ==> !(#[trigger] authorities@[k])@.2,
            forall|k: int|
                0 <= k < authorities@.len() ==> rests_on(trades, (#[trigger] authorities@[k])@),
        decreases authorities.len() - i,
    {
        if authorities[i].is_inferred() {
            proof {
                let k = choose|k: int|
                    0 <= k < trades.len() && (#[trigger] trades[k]).authority
                        == authorities@[i as int]@;
                assert(trades[k].authority.2);
            }
            return true;
        }
        i += 1;
    }
    proof {
        if some_inferred(trades) {
            let k = choose|k: int| 0 <= k < trades.len() && (#[trigger] trades[k]).authority.2;
            assert(super::orderflow::names_authority(authorities@, trades[k].authority));
        }
    }
    false
}

proof fn lemma_some_trade(trades: Seq<FlowTradeView>)
    requires
        trades.len() > 0,
    ensures
        lowest_flow_quality(trades) is Some,
        latest_flow_knowledge(trades) is Some,
{
}

fn validate_flow_emission(
    window: &TradeFlowWindow,
    tracker: &WatermarkTracker,
    decision: FinalizationDecision,
) -> (result: Result<BoundEvidence, Task5EmissionError>)
    ensures
        match flow_context(window@, tracker@, decision@) {
            Err(error) => result is Err && result->Err_0 == error,
            Ok(context) => result is Ok && result->Ok_0@ == context,
        },
{
    if !window.is_authenticated() {
        return Err(Task5EmissionError::Computation(FeatureComputationError::UntrustedInput));
    }
    let entity = FeatureEntity::Instrument(window.instrument().clone());
    let span = decision.window();
    if !tracker.validates_decision(decision, &entity) || decision.state() != Finalization::Final
        || span.start().value() != window.start().value() || span.end().value()
        != window.end().value() {
        return Err(Task5EmissionError::Computation(FeatureComputationError::WindowNotFinal));
    }
    let coverage = match tracker.coverage_for_decision(decision) {
        None => {
            return Err(Task5EmissionError::Computation(FeatureComputationError::UntrustedInput));
        },
        Some(coverage) => coverage,
    };
    if !flow_sources_match(window, &coverage.expected) {
        return Err(
            Task5EmissionError::Computation(FeatureComputationError::EligibleUniverseChanged),
        );
    }
    if has_inferred(window) {
        return Err(Task5EmissionError::Computation(FeatureComputationError::SourceNotSupported));
    }
    proof {
        lemma_some_trade(window@.trades);
    }
    match (window.minimum_quality_score_ppm(), window.maximum_as_known_at()) {
        (Some(lowest), Some(as_known_at)) => {
            let quality_score = match QualityScore::from_millionths(lowest) {
                Err(error) => {
                    return Err(Task5EmissionError::Registry(error));
                },
                Ok(score) => score,
            };
            match window.canonical_evidence_digest() {
                Err(error) => Err(Task5EmissionError::Computation(error)),
                Ok(input_digest) => Ok(
                    BoundEvidence {
                        entity,
                        as_known_at,
                        domain: "crypto-intelligence/task5-trade-flow-evidence/v1",
                        input_digest,
                        quality_score,
                    },
                ),
            }
        },
        _ => Err(Task5EmissionError::Computation(FeatureComputationError::UntrustedInput)),
    }
}

/// Emits the core trade-flow recipes of authenticated trades in one final window.
pub fn emit_trade_flow_core_features(
    definitions: &Vec<FeatureDefinition>,
    stamp: &EmissionStamp,
    window: &TradeFlowWindow,
    measures: &FlowMeasures,
    tracker: &WatermarkTracker,
    decision: FinalizationDecision,
) -> (result: Result<Candidates<Task5EmissionError>, Task5EmissionError>)
    ensures
        ({
            let context = flow_context(window@, tracker@, decision@);
            let data = flow_data(window@, *measures);
            match data_refusal(context, data) {
                Some(error) => result is Err && result->Err_0 == error,
                None => result is Ok && are_candidates(
                    result->Ok_0@,
                    definitions@,
                    *stamp,
                    data->Ok_0,
                    context->Ok_0,
                    tracker@,
                    decision@,
                ),
            }
        }),
{
    let context = validate_flow_emission(window, tracker, decision)?;
    let inputs = collect_flow(window, measures)?;
    Ok(emit_all(definitions, stamp, &inputs, &context, tracker, decision))
}

/// The datum has a recipe, of its own type where it is present.
pub open spec fn is_catalogued(named: (Seq<char>, DatumView)) -> bool {
    match task_five_named(task_five_catalogue(), named.0) {
        None => false,
        Some(recipe) => named.1.value_type() is Some ==> named.1.value_type() == Some(
            recipe.value_type,
        ),
    }
}

pub open spec fn all_catalogued(data: Seq<(Seq<char>, DatumView)>) -> bool {
    forall|i: int| 0 <= i < data.len() ==> is_catalogued(#[trigger] data[i])
}

/// Where there are data, each has a recipe.
pub open spec fn catalogued(data: DataOutcome) -> bool {
    data is Ok ==> all_catalogued(data->Ok_0)
}

proof fn lemma_joined_is_catalogued(first: DataOutcome, second: DataOutcome)
    requires
        catalogued(first),
        catalogued(second),
    ensures
        catalogued(joined(first, second)),
{
    if joined(first, second) is Ok {
        let data = joined(first, second)->Ok_0;
        let left = first->Ok_0;
        assert forall|i: int| 0 <= i < data.len() implies is_catalogued(#[trigger] data[i]) by {
            if i < left.len() {
                assert(data[i] == left[i]);
            } else {
                assert(data[i] == second->Ok_0[i - left.len()]);
            }
        }
    }
}

proof fn lemma_one_is_catalogued(place: int, name: Seq<char>, datum: DatumOutcome)
    requires
        0 <= place < 77,
        task_five_catalogue()[place].id@ == name,
        datum is Ok && datum->Ok_0.value_type() is Some ==> datum->Ok_0.value_type() == Some(
            task_five_catalogue()[place].value_type,
        ),
    ensures
        catalogued(one(name, datum)),
{
    lemma_task_five_recipe_at(place);
    lemma_task_five_recipes_are_found(place);
}

proof fn lemma_pair_is_catalogued(
    first_place: int,
    second_place: int,
    first: Seq<char>,
    second: Seq<char>,
    measures: Result<(u64, u64), FeatureComputationError>,
)
    requires
        0 <= first_place < 77,
        0 <= second_place < 77,
        task_five_catalogue()[first_place].id@ == first,
        task_five_catalogue()[second_place].id@ == second,
        task_five_catalogue()[first_place].value_type == FeatureValueType::Float64,
        task_five_catalogue()[second_place].value_type == FeatureValueType::Float64,
    ensures
        catalogued(pair_data(first, second, measures)),
{
    match measures {
        Ok((left, right)) => {
            lemma_one_is_catalogued(first_place, first, finite_datum_of(left));
            lemma_one_is_catalogued(second_place, second, finite_datum_of(right));
            lemma_joined_is_catalogued(
                one(first, finite_datum_of(left)),
                one(second, finite_datum_of(right)),
            );
        },
        Err(error) => {
            lemma_one_is_catalogued(first_place, first, absent_datum_of(error));
            lemma_one_is_catalogued(second_place, second, absent_datum_of(error));
            lemma_joined_is_catalogued(
                one(first, absent_datum_of(error)),
                one(second, absent_datum_of(error)),
            );
        },
    }
}

proof fn lemma_band_is_catalogued(
    book: BookSnapshotView,
    reference: Price,
    i: int,
    measure: Measure,
)
    requires
        0 <= i < 7,
    ensures
        catalogued(band_data(book, reference, i, measure)),
{
    let (bid_name, ask_name, imbalance_name, width) = band_of(i);
    lemma_task_five_recipe_at(2 + i);
    lemma_task_five_recipe_at(9 + i);
    lemma_task_five_recipe_at(16 + i);
    match outer_prices(book, reference, width) {
        Err(error) => {
            let absent = absent_datum_of(error);
            lemma_one_is_catalogued(2 + i, bid_name, absent);
            lemma_one_is_catalogued(9 + i, ask_name, absent);
            lemma_one_is_catalogued(16 + i, imbalance_name, absent);
            lemma_joined_is_catalogued(one(bid_name, absent), one(ask_name, absent));
            lemma_joined_is_catalogued(
                joined(one(bid_name, absent), one(ask_name, absent)),
                one(imbalance_name, absent),
            );
        },
        Ok((bid, ask, lower, upper)) => {
            let totals = depth_in_band(book, reference, width)->Ok_0;
            let bid_reached = bid.units() <= lower.units();
            let ask_reached = ask.units() >= upper.units();
            let bid_datum = Ok(side_depth(bid_reached, totals.0));
            let ask_datum = Ok(side_depth(ask_reached, totals.2));
            let imbalance = if bid_reached && ask_reached {
                band_imbalance(totals.0, totals.2, measure)
            } else {
                Ok(DatumView::Missing(MissingnessReason::InsufficientHistory))
            };
            lemma_one_is_catalogued(2 + i, bid_name, bid_datum);
            lemma_one_is_catalogued(9 + i, ask_name, ask_datum);
            lemma_one_is_catalogued(16 + i, imbalance_name, imbalance);
            lemma_joined_is_catalogued(one(bid_name, bid_datum), one(ask_name, ask_datum));
            lemma_joined_is_catalogued(
                joined(one(bid_name, bid_datum), one(ask_name, ask_datum)),
                one(imbalance_name, imbalance),
            );
        },
    }
}

proof fn lemma_bands_are_catalogued(
    book: BookSnapshotView,
    reference: Price,
    count: int,
    measures: Seq<Measure>,
)
    requires
        0 <= count <= 7,
    ensures
        catalogued(bands_data(book, reference, count, measures)),
    decreases count,
{
    if count > 0 {
        lemma_bands_are_catalogued(book, reference, count - 1, measures);
        lemma_band_is_catalogued(book, reference, count - 1, measures[count - 1]);
        lemma_joined_is_catalogued(
            bands_data(book, reference, count - 1, measures),
            band_data(book, reference, count - 1, measures[count - 1]),
        );
    }
}

proof fn lemma_spread_is_catalogued(book: BookSnapshotView, relative: Measure)
    ensures
        catalogued(spread_data(book, relative)),
{
    lemma_task_five_recipe_at(0);
    lemma_task_five_recipe_at(1);
    if spread_terms(book) is Ok && relative is Ok {
        let absolute = Ok(DatumView::FixedDecimal(spread_terms(book)->Ok_0.absolute));
        let measured = finite_datum_of(relative->Ok_0);
        lemma_one_is_catalogued(0, "absolute_spread"@, absolute);
        lemma_one_is_catalogued(1, "relative_spread"@, measured);
        lemma_joined_is_catalogued(
            one("absolute_spread"@, absolute),
            one("relative_spread"@, measured),
        );
    }
}

proof fn lemma_levels_are_catalogued(book: BookSnapshotView)
    ensures
        catalogued(level_data(book)),
{
    let bid_name = "bid_active_price_levels"@;
    let ask_name = "ask_active_price_levels"@;
    let (bid, ask) = match book_refusal(book) {
        Some(error) => (absent_datum_of(error), absent_datum_of(error)),
        None => (count_datum_of(book.bids@.len()), count_datum_of(book.asks@.len())),
    };
    lemma_task_five_recipe_at(40);
    lemma_task_five_recipe_at(41);
    lemma_one_is_catalogued(40, bid_name, bid);
    lemma_one_is_catalogued(41, ask_name, ask);
    lemma_joined_is_catalogued(one(bid_name, bid), one(ask_name, ask));
}

/// Every datum of a book snapshot has a recipe of its own type, so that a registry of the
/// catalogue's definitions knows each of them.
pub proof fn lemma_snapshot_data_are_catalogued(book: BookSnapshotView, measures: BookMeasures)
    requires
        snapshot_data(book, measures) is Ok,
    ensures
        all_catalogued(snapshot_data(book, measures)->Ok_0),
{
    let reference = Price::of_amount(midpoint_of(book)->Ok_0);
    let tick = book.price_tick;
    let unsupported: DatumOutcome = Ok(DatumView::Missing(MissingnessReason::SourceNotSupported));
    let spreads = spread_data(book, measures.relative_spread);
    let bands = bands_data(book, reference, 7, measures.imbalances@);
    let weighted = one(
        "weighted_midpoint"@,
        analytical_datum_of(after(weighted_midpoint_terms(book), measures.weighted_midpoint)),
    );
    let micro = one(
        "microprice"@,
        analytical_datum_of(after(microprice_terms(book), measures.microprice)),
    );
    let bid_measures = after_pair(
        side_curve(book, book.bids@, tick, BOOK_SHAPE_LEVEL_COUNT_V1, true),
        measures.bid_shape,
    );
    let ask_measures = after_pair(
        side_curve(book, book.asks@, tick, BOOK_SHAPE_LEVEL_COUNT_V1, false),
        measures.ask_shape,
    );
    let bid_shape = pair_data("bid_book_slope"@, "bid_book_convexity"@, bid_measures);
    let ask_shape = pair_data("ask_book_slope"@, "ask_book_convexity"@, ask_measures);
    let bid_gap = one(
        "bid_price_level_gap_density"@,
        analytical_datum_of(
            after(side_gaps(book, book.bids@, tick, true), measures.bid_gap_density),
        ),
    );
    let ask_gap = one(
        "ask_price_level_gap_density"@,
        analytical_datum_of(
            after(side_gaps(book, book.asks@, tick, false), measures.ask_gap_density),
        ),
    );
    let buy_sweep = one("expected_buy_sweep_cost_usd_10000"@, unsupported);
    let sell_sweep = one("expected_sell_sweep_cost_usd_10000"@, unsupported);
    let distributed = match distribution_refusal(book) {
        Some(error) => Err(error),
        None => measures.distribution,
    };
    let distribution = pair_data(
        "local_book_entropy"@,
        "depth_concentration_by_level"@,
        distributed,
    );
    lemma_spread_is_catalogued(book, measures.relative_spread);
    lemma_bands_are_catalogued(book, reference, 7, measures.imbalances@);
    lemma_task_five_recipe_at(23);
    lemma_one_is_catalogued(
        23,
        "weighted_midpoint"@,
        analytical_datum_of(after(weighted_midpoint_terms(book), measures.weighted_midpoint)),
    );
    lemma_task_five_recipe_at(24);
    lemma_one_is_catalogued(
        24,
        "microprice"@,
        analytical_datum_of(after(microprice_terms(book), measures.microprice)),
    );
    lemma_task_five_recipe_at(31);
    lemma_one_is_catalogued(
        31,
        "bid_price_level_gap_density"@,
        analytical_datum_of(
            after(side_gaps(book, book.bids@, tick, true), measures.bid_gap_density),
        ),
    );
    lemma_task_five_recipe_at(32);
    lemma_one_is_catalogued(
        32,
        "ask_price_level_gap_density"@,
        analytical_datum_of(
            after(side_gaps(book, book.asks@, tick, false), measures.ask_gap_density),
        ),
    );
    lemma_task_five_recipe_at(33);
    lemma_one_is_catalogued(
        33,
        "expected_buy_sweep_cost_usd_10000"@,
        unsupported,
    );
    lemma_task_five_recipe_at(34);
    lemma_one_is_catalogued(
        34,
        "expected_sell_sweep_cost_usd_10000"@,
        unsupported,
    );
    lemma_task_five_recipe_at(25);
    lemma_task_five_recipe_at(27);
    lemma_pair_is_catalogued(
        25,
        27,
        "bid_book_slope"@,
        "bid_book_convexity"@,
        bid_measures,
    );
    lemma_task_five_recipe_at(26);
    lemma_task_five_recipe_at(28);
    lemma_pair_is_catalogued(
        26,
        28,
        "ask_book_slope"@,
        "ask_book_convexity"@,
        ask_measures,
    );
    lemma_task_five_recipe_at(42);
    lemma_task_five_recipe_at(43);
    lemma_pair_is_catalogued(
        42,
        43,
        "local_book_entropy"@,
        "depth_concentration_by_level"@,
        distributed,
    );
    lemma_levels_are_catalogued(book);
    lemma_joined_is_catalogued(spreads, bands);
    let joined_1 = joined(spreads, bands);
    lemma_joined_is_catalogued(joined_1, weighted);
    let joined_2 = joined(joined_1, weighted);
    lemma_joined_is_catalogued(joined_2, micro);
    let joined_3 = joined(joined_2, micro);
    lemma_joined_is_catalogued(joined_3, bid_shape);
    let joined_4 = joined(joined_3, bid_shape);
    lemma_joined_is_catalogued(joined_4, ask_shape);
    let joined_5 = joined(joined_4, ask_shape);
    lemma_joined_is_catalogued(joined_5, bid_gap);
    let joined_6 = joined(joined_5, bid_gap);
    lemma_joined_is_catalogued(joined_6, ask_gap);
    let joined_7 = joined(joined_6, ask_gap);
    lemma_joined_is_catalogued(joined_7, buy_sweep);
    let joined_8 = joined(joined_7, buy_sweep);
    lemma_joined_is_catalogued(joined_8, sell_sweep);
    let joined_9 = joined(joined_8, sell_sweep);
    lemma_joined_is_catalogued(joined_9, level_data(book));
    let joined_10 = joined(joined_9, level_data(book));
    lemma_joined_is_catalogued(joined_10, distribution);
    let joined_11 = joined(joined_10, distribution);
}

/// Every datum of a window of trades has a recipe of its own type.
pub proof fn lemma_flow_data_are_catalogued(window: FlowWindowView, measures: FlowMeasures)
    requires
        flow_data(window, measures) is Ok,
    ensures
        all_catalogued(flow_data(window, measures)->Ok_0),
{
    let sums = window_sums(window.instrument, window.trades)->Ok_0;
    let levels = signed_volume(window.trades)->Ok_0;
    let volume: DatumOutcome = Ok(DatumView::FixedDecimalMap(volume_pairs(levels)));
    lemma_sums_are_catalogued(sums);
    lemma_measured_flow_is_catalogued(window, measures);
    lemma_task_five_recipe_at(67);
    lemma_one_is_catalogued(67, "signed_volume_at_price"@, volume);
    let first = joined(sums_data(sums), measured_flow_data(window, measures));
    lemma_joined_is_catalogued(sums_data(sums), measured_flow_data(window, measures));
    lemma_joined_is_catalogued(first, one("signed_volume_at_price"@, volume));
}

proof fn lemma_sums_are_catalogued(sums: AggressiveTradeSums)
    ensures
        catalogued(sums_data(sums)),
{
    let datum_0: DatumOutcome = count_datum_of(sums.buy_count as nat);
    lemma_task_five_recipe_at(50);
    lemma_one_is_catalogued(50, "aggressive_buy_count"@, datum_0);
    let datum_1: DatumOutcome = count_datum_of(sums.sell_count as nat);
    lemma_task_five_recipe_at(51);
    lemma_one_is_catalogued(51, "aggressive_sell_count"@, datum_1);
    let datum_2: DatumOutcome = Ok(DatumView::FixedDecimal(sums.buy_quantity.amount()));
    lemma_task_five_recipe_at(52);
    lemma_one_is_catalogued(52, "aggressive_buy_quantity"@, datum_2);
    let datum_3: DatumOutcome = Ok(DatumView::FixedDecimal(sums.sell_quantity.amount()));
    lemma_task_five_recipe_at(53);
    lemma_one_is_catalogued(53, "aggressive_sell_quantity"@, datum_3);
    let datum_4: DatumOutcome = Ok(DatumView::FixedDecimal(sums.buy_notional));
    lemma_task_five_recipe_at(54);
    lemma_one_is_catalogued(54, "aggressive_buy_notional"@, datum_4);
    let datum_5: DatumOutcome = Ok(DatumView::FixedDecimal(sums.sell_notional));
    lemma_task_five_recipe_at(55);
    lemma_one_is_catalogued(55, "aggressive_sell_notional"@, datum_5);
    lemma_joined_is_catalogued(one("aggressive_buy_count"@, datum_0), one("aggressive_sell_count"@, datum_1));
    let joined_1 = joined(one("aggressive_buy_count"@, datum_0), one("aggressive_sell_count"@, datum_1));
    lemma_joined_is_catalogued(joined_1, one("aggressive_buy_quantity"@, datum_2));
    let joined_2 = joined(joined_1, one("aggressive_buy_quantity"@, datum_2));
    lemma_joined_is_catalogued(joined_2, one("aggressive_sell_quantity"@, datum_3));
    let joined_3 = joined(joined_2, one("aggressive_sell_quantity"@, datum_3));
    lemma_joined_is_catalogued(joined_3, one("aggressive_buy_notional"@, datum_4));
    let joined_4 = joined(joined_3, one("aggressive_buy_notional"@, datum_4));
    lemma_joined_is_catalogued(joined_4, one("aggressive_sell_notional"@, datum_5));
    let joined_5 = joined(joined_4, one("aggressive_sell_notional"@, datum_5));
}

proof fn lemma_measured_flow_is_catalogued(window: FlowWindowView, measures: FlowMeasures)
    ensures
        catalogued(measured_flow_data(window, measures)),
{
    let imbalances = three_imbalances(window, measures.imbalances);
    let intensity = match elapsed(window.start, window.end) {
        Ok(duration) => if duration == 0 {
            Err(FeatureComputationError::InvalidParameter)
        } else {
            measures.intensity
        },
        Err(_) => Err(FeatureComputationError::InvalidParameter),
    };
    let datum_0: DatumOutcome = imbalance_datum_of(imbalances.0);
    lemma_task_five_recipe_at(56);
    lemma_one_is_catalogued(56, "signed_trade_count_imbalance"@, datum_0);
    let datum_1: DatumOutcome = imbalance_datum_of(imbalances.1);
    lemma_task_five_recipe_at(57);
    lemma_one_is_catalogued(57, "signed_trade_quantity_imbalance"@, datum_1);
    let datum_2: DatumOutcome = imbalance_datum_of(imbalances.2);
    lemma_task_five_recipe_at(58);
    lemma_one_is_catalogued(58, "signed_trade_notional_imbalance"@, datum_2);
    let datum_3: DatumOutcome = required_datum_of(intensity);
    lemma_task_five_recipe_at(65);
    lemma_one_is_catalogued(65, "trade_intensity_per_second"@, datum_3);
    let datum_4: DatumOutcome = analytical_datum_of(
        after(interarrival_terms(window.trades), measures.interarrival_variation),
    );
    lemma_task_five_recipe_at(66);
    lemma_one_is_catalogued(66, "trade_interarrival_coefficient_of_variation"@, datum_4);
    lemma_joined_is_catalogued(one("signed_trade_count_imbalance"@, datum_0), one("signed_trade_quantity_imbalance"@, datum_1));
    let joined_1 = joined(one("signed_trade_count_imbalance"@, datum_0), one("signed_trade_quantity_imbalance"@, datum_1));
    lemma_joined_is_catalogued(joined_1, one("signed_trade_notional_imbalance"@, datum_2));
    let joined_2 = joined(joined_1, one("signed_trade_notional_imbalance"@, datum_2));
    lemma_joined_is_catalogued(joined_2, one("trade_intensity_per_second"@, datum_3));
    let joined_3 = joined(joined_2, one("trade_intensity_per_second"@, datum_3));
    lemma_joined_is_catalogued(joined_3, one("trade_interarrival_coefficient_of_variation"@, datum_4));
    let joined_4 = joined(joined_3, one("trade_interarrival_coefficient_of_variation"@, datum_4));
}

/// A midpoint lies halfway between the best bid and the best ask.
pub proof fn lemma_midpoints_lie_halfway(book: BookSnapshotView)
    requires
        midpoint_of(book) is Ok,
        book.bids@[0].price.amount().in_scale(),
        book.asks@[0].price.amount().in_scale(),
    ensures
        2 * midpoint_of(book)->Ok_0.units() == book.bids@[0].price.units()
            + book.asks@[0].price.units(),
        midpoint_of(book)->Ok_0.units() > 0,
{
    let bid = book.bids@[0].price.amount();
    let ask = book.asks@[0].price.amount();
    let sum = bid.plus(ask)->Some_0;
    let two = decimal_of_units(2 * unit());
    lemma_exact_arithmetic(bid, ask);
    lemma_whole_units(2);
    lemma_over_units(sum, two);
    let middle = sum.over(two)->Some_0;
    assert(2 * middle.units() == sum.units()) by (nonlinear_arith)
        requires
            middle.units() * (2 * unit()) == sum.units() * unit(),
            unit() > 0,
    ;
}

/// A measured value is emitted as it was measured. A failure that stands for an expected absence
/// is emitted as that absence, and any other failure is not emitted.
pub proof fn lemma_measures_are_emitted_as_measured(measure: Measure)
    ensures
        ({
            let datum = analytical_datum_of(measure);
            &&& datum is Ok && measure is Ok ==> datum->Ok_0 is Float64 && finite_bits(
                measure->Ok_0,
            ) && datum->Ok_0->Float64_0 == FiniteF64::of_pattern(measure->Ok_0)
            &&& measure is Ok ==> (datum is Ok <==> finite_bits(measure->Ok_0))
            &&& measure is Err && measure->Err_0.absence() is Some ==> datum == Ok::<
                DatumView,
                Task5EmissionError,
            >(DatumView::Missing(measure->Err_0.absence()->Some_0))
            &&& measure is Err && measure->Err_0.absence() is None ==> datum == Err::<
                DatumView,
                Task5EmissionError,
            >(Task5EmissionError::Computation(measure->Err_0))
        }),
{
}

/// The absolute spread is what the best ask exceeds the best bid by, and the numbers of levels
/// are those of the sides that they are named after.
pub proof fn lemma_books_report_their_sides(book: BookSnapshotView, relative: Measure)
    ensures
        spread_data(book, relative) is Ok ==> {
            let data = spread_data(book, relative)->Ok_0;
            let terms = spread_terms(book)->Ok_0;
            &&& data.len() == 2
            &&& data[0] == ("absolute_spread"@, DatumView::FixedDecimal(terms.absolute))
            &&& data[1] == (
                "relative_spread"@,
                DatumView::Float64(FiniteF64::of_pattern(relative->Ok_0)),
            )
            &&& book.bids@[0].price.amount().in_scale() && book.asks@[0].price.amount().in_scale()
                ==> data[0].1->FixedDecimal_0.units() == book.asks@[0].price.units()
                - book.bids@[0].price.units()
        },
        level_data(book) is Ok && book_refusal(book) is None ==> {
            let data = level_data(book)->Ok_0;
            &&& data.len() == 2
            &&& data[0] == (
                "bid_active_price_levels"@,
                DatumView::Integer(book.bids@.len() as i64),
            )
            &&& data[1] == (
                "ask_active_price_levels"@,
                DatumView::Integer(book.asks@.len() as i64),
            )
        },
{
    if spread_data(book, relative) is Ok && book.bids@[0].price.amount().in_scale()
        && book.asks@[0].price.amount().in_scale() {
        lemma_exact_arithmetic(book.asks@[0].price.amount(), book.bids@[0].price.amount());
    }
}

/// The registered bands widen from one basis point to a hundred.
pub proof fn lemma_bands_widen(i: int, j: int)
    requires
        0 <= i < j < 7,
    ensures
        1 <= band_of(i).3 < band_of(j).3 <= 100,
        band_of(j).3 >= 2 * band_of(i).3,
        (band_of(0).3, band_of(1).3, band_of(2).3, band_of(3).3, band_of(4).3, band_of(5).3,
            band_of(6).3) == (1u32, 2u32, 5u32, 10u32, 25u32, 50u32, 100u32),
{
}

/// A band's data are its bid depth, its ask depth and their imbalance, in that order. A side's
/// depth is reported exactly where the book reaches through the band on that side, and the
/// imbalance exactly where it does on both.
pub proof fn lemma_bands_report_the_sides_that_they_reach(
    book: BookSnapshotView,
    reference: Price,
    i: int,
    measure: Measure,
)
    requires
        band_data(book, reference, i, measure) is Ok,
        outer_prices(book, reference, band_of(i).3) is Ok,
    ensures
        ({
            let data = band_data(book, reference, i, measure)->Ok_0;
            let (bid, ask, lower, upper) = outer_prices(book, reference, band_of(i).3)->Ok_0;
            let totals = depth_in_band(book, reference, band_of(i).3)->Ok_0;
            let bid_reached = bid.units() <= lower.units();
            let ask_reached = ask.units() >= upper.units();
            &&& data.len() == 3
            &&& data[0].0 == band_of(i).0 && data[1].0 == band_of(i).1 && data[2].0 == band_of(i).2
            &&& bid_reached ==> data[0].1 == DatumView::FixedDecimal(totals.0)
            &&& ask_reached ==> data[1].1 == DatumView::FixedDecimal(totals.2)
            &&& !bid_reached ==> data[0].1 is Missing && data[2].1 is Missing
            &&& !ask_reached ==> data[1].1 is Missing && data[2].1 is Missing
            &&& data[2].1 is Float64 ==> measure is Ok && data[2].1->Float64_0
                == FiniteF64::of_pattern(measure->Ok_0)
        }),
{
}

/// A window of trades reports what buyers and sellers took under their own names, then what was
/// measured of the window, and last the volume at each price.
pub proof fn lemma_flows_report_both_sides(window: FlowWindowView, measures: FlowMeasures)
    requires
        flow_data(window, measures) is Ok,
    ensures
        ({
            let data = flow_data(window, measures)->Ok_0;
            let sums = window_sums(window.instrument, window.trades)->Ok_0;
            let imbalances = measures.imbalances->Ok_0;
            &&& data.len() == 12
            &&& data[0] == ("aggressive_buy_count"@, DatumView::Integer(sums.buy_count as i64))
            &&& data[1] == ("aggressive_sell_count"@, DatumView::Integer(sums.sell_count as i64))
            &&& data[2] == (
                "aggressive_buy_quantity"@,
                DatumView::FixedDecimal(sums.buy_quantity.amount()),
            )
            &&& data[3] == (
                "aggressive_sell_quantity"@,
                DatumView::FixedDecimal(sums.sell_quantity.amount()),
            )
            &&& data[4] == (
                "aggressive_buy_notional"@,
                DatumView::FixedDecimal(sums.buy_notional),
            )
            &&& data[5] == (
                "aggressive_sell_notional"@,
                DatumView::FixedDecimal(sums.sell_notional),
            )
            &&& data[6].0 == "signed_trade_count_imbalance"@
            &&& data[6].1 is Float64 ==> data[6].1->Float64_0 == FiniteF64::of_pattern(
                imbalances.0,
            )
            &&& data[7].0 == "signed_trade_quantity_imbalance"@
            &&& data[7].1 is Float64 ==> data[7].1->Float64_0 == FiniteF64::of_pattern(
                imbalances.1,
            )
            &&& data[8].0 == "signed_trade_notional_imbalance"@
            &&& data[8].1 is Float64 ==> data[8].1->Float64_0 == FiniteF64::of_pattern(
                imbalances.2,
            )
            &&& data[9] == (
                "trade_intensity_per_second"@,
                DatumView::Float64(FiniteF64::of_pattern(measures.intensity->Ok_0)),
            )
            &&& window.start.nanos < window.end.nanos
            &&& data[10].0 == "trade_interarrival_coefficient_of_variation"@
            &&& window.trades.len() < 3 ==> data[10].1 is Missing
            &&& data[10].1 is Float64 ==> data[10].1->Float64_0 == FiniteF64::of_pattern(
                measures.interarrival_variation->Ok_0,
            )
            &&& data[11].0 == "signed_volume_at_price"@
            &&& data[11].1 is FixedDecimalMap
            &&& data[11].1->FixedDecimalMap_0.len() == signed_volume(window.trades)->Ok_0.len()
            &&& forall|i: int|
                #![trigger signed_volume(window.trades)->Ok_0[i]]
                0 <= i < signed_volume(window.trades)->Ok_0.len() ==> {
                    let level = signed_volume(window.trades)->Ok_0[i];
                    data[11].1->FixedDecimalMap_0[i] == (level.0.amount(), level.1)
                }
        }),
{
    let sums = window_sums(window.instrument, window.trades)->Ok_0;
    let exact = sums_data(sums)->Ok_0;
    let measured = measured_flow_data(window, measures)->Ok_0;
    assert(exact.len() == 6);
    assert(measured.len() == 5);
    let data = flow_data(window, measures)->Ok_0;
    assert forall|i: int| #![trigger data[i]] 0 <= i < 6 implies data[i] == exact[i] by {}
    assert forall|i: int| #![trigger data[i]] 6 <= i < 11 implies data[i] == measured[i - 6] by {}
}

/// A book is emitted for the window that its event falls into, under its own instrument, as known
/// and as good as its evidence says, and only where the window is final.
pub proof fn lemma_books_are_emitted_in_their_window(
    book: BookSnapshotView,
    evidence: BookEvidenceView,
    tracker: TrackerView,
    decision: DecisionView,
)
    requires
        book_context(book, evidence, tracker, decision) is Ok,
    ensures
        ({
            let context = book_context(book, evidence, tracker, decision)->Ok_0;
            &&& decision.window.lower() <= evidence.event_time.nanos < decision.window.upper()
            &&& decision.state == Finalization::Final
            &&& decision.entity == Some(
                entity_fingerprint(EntityView::Instrument(book.instrument@)),
            )
            &&& context.entity == EntityView::Instrument(book.instrument@)
            &&& context.as_known_at == evidence.as_known_at
            &&& context.quality_score.millionths == evidence.quality_score_ppm <= 1_000_000
            &&& evidence.definition_lineage is Some
        }),
{
}

/// A window of trades is emitted for exactly its own span, with no side inferred and every source
/// that was expected and no other, and only where the window is final.
pub proof fn lemma_flows_are_emitted_for_their_span(
    window: FlowWindowView,
    tracker: TrackerView,
    decision: DecisionView,
)
    requires
        flow_context(window, tracker, decision) is Ok,
    ensures
        ({
            let context = flow_context(window, tracker, decision)->Ok_0;
            &&& decision.window.lower() == window.start.nanos
            &&& decision.window.upper() == window.end.nanos
            &&& decision.state == Finalization::Final
            &&& context.entity == EntityView::Instrument(window.instrument)
            &&& Some(context.quality_score.millionths) == lowest_flow_quality(window.trades)
            &&& Some(context.as_known_at) == latest_flow_knowledge(window.trades)
            &&& context.quality_score.millionths <= 1_000_000
            &&& forall|i: int|
                #![trigger window.trades[i]]
                0 <= i < window.trades.len() ==> !window.trades[i].authority.2
        }),
{
    lemma_some_trade(window.trades);
}

/// What is measured of a book snapshot is emitted under the name of what was measured, each side
/// under its own name, and the two sweep costs stay absent.
#[verifier::spinoff_prover]
#[verifier::rlimit(60)]
pub proof fn lemma_snapshots_name_their_measures(book: BookSnapshotView, measures: BookMeasures)
    requires
        snapshot_data(book, measures) is Ok,
    ensures
        ({
            let data = snapshot_data(book, measures)->Ok_0;
            &&& data.len() == 37
            &&& data[0].0 == "absolute_spread"@
            &&& data[1].0 == "relative_spread"@
            &&& data[23].0 == "weighted_midpoint"@
            &&& data[23].1 is Float64 ==> measures.weighted_midpoint is Ok
                && data[23].1->Float64_0 == FiniteF64::of_pattern(
                measures.weighted_midpoint->Ok_0,
            )
            &&& data[24].0 == "microprice"@
            &&& data[24].1 is Float64 ==> measures.microprice is Ok && data[24].1->Float64_0
                == FiniteF64::of_pattern(measures.microprice->Ok_0)
            &&& data[25].0 == "bid_book_slope"@
            &&& data[25].1 is Float64 ==> data[25].1->Float64_0 == FiniteF64::of_pattern(
                measures.bid_shape->Ok_0.0,
            )
            &&& data[26].0 == "bid_book_convexity"@
            &&& data[26].1 is Float64 ==> data[26].1->Float64_0 == FiniteF64::of_pattern(
                measures.bid_shape->Ok_0.1,
            )
            &&& data[27].0 == "ask_book_slope"@
            &&& data[27].1 is Float64 ==> data[27].1->Float64_0 == FiniteF64::of_pattern(
                measures.ask_shape->Ok_0.0,
            )
            &&& data[28].0 == "ask_book_convexity"@
            &&& data[28].1 is Float64 ==> data[28].1->Float64_0 == FiniteF64::of_pattern(
                measures.ask_shape->Ok_0.1,
            )
            &&& data[29].0 == "bid_price_level_gap_density"@
            &&& data[29].1 is Float64 ==> data[29].1->Float64_0 == FiniteF64::of_pattern(
                measures.bid_gap_density->Ok_0,
            )
            &&& data[30].0 == "ask_price_level_gap_density"@
            &&& data[30].1 is Float64 ==> data[30].1->Float64_0 == FiniteF64::of_pattern(
                measures.ask_gap_density->Ok_0,
            )
            &&& data[31] == (
                "expected_buy_sweep_cost_usd_10000"@,
                DatumView::Missing(MissingnessReason::SourceNotSupported),
            )
            &&& data[32] == (
                "expected_sell_sweep_cost_usd_10000"@,
                DatumView::Missing(MissingnessReason::SourceNotSupported),
            )
            &&& data[33].0 == "bid_active_price_levels"@
            &&& data[34].0 == "ask_active_price_levels"@
            &&& data[35].0 == "local_book_entropy"@
            &&& data[35].1 is Float64 ==> data[35].1->Float64_0 == FiniteF64::of_pattern(
                measures.distribution->Ok_0.0,
            )
            &&& data[36].0 == "depth_concentration_by_level"@
            &&& data[36].1 is Float64 ==> data[36].1->Float64_0 == FiniteF64::of_pattern(
                measures.distribution->Ok_0.1,
            )
        }),
{
    lemma_bands_length(book, Price::of_amount(midpoint_of(book)->Ok_0), 7, measures.imbalances@);
}

} // verus!
