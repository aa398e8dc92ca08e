//! Definition- and finality-bound emission of derivatives observations.

use vstd::prelude::*;

use super::admission::{Candidate, Candidates};
use super::bound::{named_views, BoundEvidence, BoundView, EmissionStamp, NamedDatum};
use super::cross_venue::{finite_measure, measured};
use super::derivatives::{
    funding_change, funding_difference, lemma_funding_changes_lead_to_the_current_rate,
    lemma_liquidations_are_lower_bounds, liquidation_terms, liquidation_velocity,
    mark_index_divergence, mark_index_terms, open_interest_change, open_interest_of,
    open_interest_terms, predicted_funding, predicted_funding_rate, read_open_interest,
    receipt_digests, receipt_ids, MAX_DERIVATIVE_WINDOW_OBSERVATIONS,
};
use super::microstructure_emission::is_final_for;
use super::task6_catalog::lemma_task_six_recipe_at;
use super::task6_emission::{
    all_implemented, are_candidates, emit_all, emit_bound_task_six_datum, is_emitted,
    is_implemented, lemma_named_is_implemented, one_refusal, Task6EmissionError,
};
use super::FeatureComputationError;
use crate::digest::{
    blake3_digest, blake3_hash, encoded_u32, encoded_u64, framed, labelled, put_byte, put_bytes,
    put_framed, put_u32, put_u64, utf8,
};
use crate::domain::{
    source_views, EntityView, FeatureEntity, FiniteF64, QualityScore, RegistryError, SourceId,
    SourceView, UnixNanos,
};
use crate::event::{
    same_instrument_definition, EventPayload, InstrumentDefinition, QUALITY_PARTIAL,
};
use crate::ordering::{
    byte_rank, bytes_precede, distinct_ranks, first_repeated_digest, lemma_repeats,
    lemma_sorted_arrangement_is_unique, lemma_sorted_distinct, lemma_stably_sorted, sort_stably,
    stably_sorted, Ranked,
};
use crate::receipt::{
    completeness_class, completeness_code, completeness_encoding, derivative_stream_code,
    derivative_stream_tag, put_completeness, Completeness, DerivativeNormalizationReceipt,
    DerivativeStream,
};
use crate::registry::{DatumView, FeatureDatum, FeatureDefinition, FeatureObservation, FeatureValue};
use crate::watermark::{
    sources_fingerprint, DecisionView, Finalization, FinalizationDecision, TrackerView,
    WatermarkTracker,
};

verus! {

/// Receipts are put in the order of their event identities.
impl<'a> Ranked for &'a DerivativeNormalizationReceipt {
    open spec fn rank(&self) -> Seq<int> {
        byte_rank(self.event.id@)
    }

    fn precedes(&self, other: &Self) -> (before: bool) {
        bytes_precede(self.event.id.as_slice(), other.event.id.as_slice())
    }
}

/// The receipt is about the instrument and the source, was known in time, and falls into the
/// decision's window; or why not.
pub open spec fn receipt_refusal(
    receipt: DerivativeNormalizationReceipt,
    instrument: InstrumentDefinition,
    source: SourceView,
    decision: DecisionView,
    computed_at: UnixNanos,
) -> Option<FeatureComputationError> {
    let metadata = receipt.event.metadata;
    match metadata.event_time_of() {
        None => Some(FeatureComputationError::InvalidInput),
        Some(time) => if !same_instrument_definition(receipt.instrument_definition, instrument)
            || !metadata.concerns(instrument.id) || metadata.source@ != source
            || metadata.normalization_timestamp.nanos > computed_at.nanos || time.nanos
            < decision.window.lower() || time.nanos >= decision.window.upper() {
            Some(FeatureComputationError::UntrustedInput)
        } else {
            None
        },
    }
}

/// The first failure among receipts from a place on, if there is one.
pub open spec fn receipts_refusal(
    receipts: Seq<&DerivativeNormalizationReceipt>,
    from: int,
    instrument: InstrumentDefinition,
    source: SourceView,
    decision: DecisionView,
    computed_at: UnixNanos,
) -> Option<FeatureComputationError>
    decreases receipts.len() - from,
{
    if from >= receipts.len() {
        None
    } else {
        match receipt_refusal(*receipts[from], instrument, source, decision, computed_at) {
            Some(error) => Some(error),
            None => receipts_refusal(
                receipts,
                from + 1,
                instrument,
                source,
                decision,
                computed_at,
            ),
        }
    }
}

/// The decision is final for the entity over one source.
pub open spec fn one_source_authority(
    entity: EntityView,
    source: SourceView,
    tracker: TrackerView,
    decision: DecisionView,
) -> bool {
    &&& is_final_for(tracker, decision, entity)
    &&& decision.required_count == 1
    &&& decision.required_digest == sources_fingerprint(seq![source])
}

fn is_one_source_authority(
    entity: &FeatureEntity,
    source: &SourceId,
    tracker: &WatermarkTracker,
    decision: FinalizationDecision,
) -> (answer: bool)
    ensures
        answer == one_source_authority(entity@, source@, tracker@, decision@),
{
    let mut required: Vec<SourceId> = Vec::new();
    required.push(source.clone());
    proof {
        assert(source_views(required@) =~= seq![source@]);
    }
    decision.state() == Finalization::Final && tracker.validates_decision(decision, entity)
        && decision.matches_required_sources(&required)
}

/// Why receipts may not be emitted for an instrument, if they may not.
pub open spec fn derivative_refusal(
    receipts: Seq<&DerivativeNormalizationReceipt>,
    instrument: InstrumentDefinition,
    tracker: TrackerView,
    decision: DecisionView,
    computed_at: UnixNanos,
) -> Option<Task6EmissionError> {
    if receipts.len() == 0 {
        Some(Task6EmissionError::Computation(FeatureComputationError::InsufficientHistory))
    } else {
        let source = receipts[0].event.metadata.source@;
        if !one_source_authority(
            EntityView::Instrument(instrument.id@),
            source,
            tracker,
            decision,
        ) {
            Some(Task6EmissionError::UntrustedFinality)
        } else {
            match receipts_refusal(receipts, 0, instrument, source, decision, computed_at) {
                Some(error) => Some(Task6EmissionError::Computation(error)),
                None => None,
            }
        }
    }
}

fn check_receipt(
    receipt: &DerivativeNormalizationReceipt,
    instrument: &InstrumentDefinition,
    source: &SourceId,
    decision: FinalizationDecision,
    computed_at: UnixNanos,
) -> (result: Result<(), FeatureComputationError>)
    ensures
        match receipt_refusal(*receipt, *instrument, source@, decision@, computed_at) {
            Some(error) => result == Err::<(), FeatureComputationError>(error),
            None => result == Ok::<(), FeatureComputationError>(()),
        },
{
    let metadata = &receipt.event.metadata;
    let time = match metadata.event_time() {
        None => {
            return Err(FeatureComputationError::InvalidInput);
        },
        Some(time) => time,
    };
    let window = decision.window();
    if !receipt.instrument_definition.same(instrument) || !metadata.is_about(&instrument.id)
        || !metadata.source.same(source) || metadata.normalization_timestamp.value()
        > computed_at.value() || time.value() < window.start().value() || time.value()
        >= window.end().value() {
        return Err(FeatureComputationError::UntrustedInput);
    }
    Ok(())
}

fn validate_derivative_authority(
    receipts: &Vec<&DerivativeNormalizationReceipt>,
    instrument: &InstrumentDefinition,
    tracker: &WatermarkTracker,
    decision: FinalizationDecision,
    computed_at: UnixNanos,
) -> (result: Result<(), Task6EmissionError>)
    ensures
        match derivative_refusal(receipts@, *instrument, tracker@, decision@, computed_at) {
            Some(error) => result == Err::<(), Task6EmissionError>(error),
            None => result == Ok::<(), Task6EmissionError>(()),
        },
{
    if receipts.len() == 0 {
        return Err(Task6EmissionError::Computation(FeatureComputationError::InsufficientHistory));
    }
    let source = &receipts[0].event.metadata.source;
    let entity = FeatureEntity::Instrument(instrument.id.clone());
    if !is_one_source_authority(&entity, source, tracker, decision) {
        return Err(Task6EmissionError::UntrustedFinality);
    }
    let mut i: usize = 0;
    while i < receipts.len()
        invariant
            i <= receipts@.len(),
            receipts@.len() > 0,
            source@ == receipts@[0].event.metadata.source@,
            one_source_authority(
                EntityView::Instrument(instrument.id@),
                source@,
                tracker@,
                decision@,
            ),
            receipts_refusal(
                receipts@,
                0,
                *instrument,
                source@,
                decision@,
                computed_at,
            ) == receipts_refusal(
                receipts@,
                i as int,
                *instrument,
                source@,
                decision@,
                computed_at,
            ),
        decreases receipts.len() - i,
    {
        match check_receipt(receipts[i], instrument, source, decision, computed_at) {
            Err(error) => {
                return Err(Task6EmissionError::Computation(error));
            },
            Ok(()) => {},
        }
        i += 1;
    }
    Ok(())
}

/// The bytes by which a receipt enters a digest.
pub open spec fn receipt_encoding(receipt: DerivativeNormalizationReceipt) -> Seq<u8> {
    receipt.event.id@ + seq![derivative_stream_code(receipt.stream)] + receipt.catalog_digest@
        + receipt.definition_hash@ + encoded_u32(receipt.event.metadata.quality_score_ppm)
        + encoded_u32(receipt.event.metadata.quality_flags) + completeness_encoding(
        receipt.completeness,
    ) + encoded_u64(receipt.catalog_authority.catalog_revision) + encoded_u64(
        receipt.catalog_authority.definition_revision,
    ) + framed(utf8(receipt.connector_version@))
}

pub open spec fn receipts_encoding(receipts: Seq<&DerivativeNormalizationReceipt>) -> Seq<u8>
    decreases receipts.len(),
{
    if receipts.len() == 0 {
        Seq::empty()
    } else {
        receipts_encoding(receipts.drop_last()) + receipt_encoding(*receipts.last())
    }
}

/// A digest of receipts, in order.
pub open spec fn input_digest_of(receipts: Seq<&DerivativeNormalizationReceipt>) -> Seq<u8> {
    blake3_digest(
        utf8("crypto-intelligence/task6-derivative-receipts/v1"@) + receipts_encoding(receipts),
    )
}

fn receipt_bytes(receipt: &DerivativeNormalizationReceipt) -> (bytes: Vec<u8>)
    ensures
        bytes@ == receipt_encoding(*receipt),
{
    let mut buffer: Vec<u8> = Vec::new();
    put_bytes(&mut buffer, receipt.event.id.as_slice());
    proof {
        assert(buffer@ =~= receipt.event.id@);
    }
    put_byte(&mut buffer, derivative_stream_tag(receipt.stream));
    put_bytes(&mut buffer, receipt.catalog_digest.as_slice());
    put_bytes(&mut buffer, receipt.definition_hash.as_slice());
    put_u32(&mut buffer, receipt.event.metadata.quality_score_ppm);
    put_u32(&mut buffer, receipt.event.metadata.quality_flags);
    put_completeness(&mut buffer, receipt.completeness);
    put_u64(&mut buffer, receipt.catalog_authority.catalog_revision);
    put_u64(&mut buffer, receipt.catalog_authority.definition_revision);
    put_framed(&mut buffer, receipt.connector_version.as_str().as_bytes());
    buffer
}

fn receipt_input_digest(receipts: &Vec<&DerivativeNormalizationReceipt>) -> (digest: [u8; 32])
    ensures
        digest@ == input_digest_of(receipts@),
{
    let mut buffer = labelled("crypto-intelligence/task6-derivative-receipts/v1");
    let ghost head = buffer@;
    let mut i: usize = 0;
    proof {
        assert(receipts@.take(0) =~= Seq::empty());
        assert(buffer@ =~= head + receipts_encoding(receipts@.take(0)));
    }
    while i < receipts.len()
        invariant
            i <= receipts@.len(),
            buffer@ == head + receipts_encoding(receipts@.take(i as int)),
        decreases receipts.len() - i,
    {
        let bytes = receipt_bytes(receipts[i]);
        put_bytes(&mut buffer, bytes.as_slice());
        proof {
            assert(receipts@.take(i + 1).drop_last() =~= receipts@.take(i as int));
            assert(receipts@.take(i + 1).last() == receipts@[i as int]);
            assert(buffer@ =~= head + receipts_encoding(receipts@.take(i + 1)));
        }
        i += 1;
    }
    proof {
        assert(receipts@.take(i as int) =~= receipts@);
    }
    blake3_hash(buffer.as_slice())
}

/// The quality flags that a receipt may carry: none, but for a sampled liquidation, which is a
/// part by nature.
pub open spec fn permitted_flags(receipt: DerivativeNormalizationReceipt) -> u32 {
    if receipt.stream == DerivativeStream::Liquidation && receipt.completeness
        is SampledLargestPerSymbolWindow {
        QUALITY_PARTIAL
    } else {
        0
    }
}

/// The lowest quality of receipts that carry only permitted flags.
pub open spec fn lowest_quality(receipts: Seq<&DerivativeNormalizationReceipt>) -> Option<u32>
    decreases receipts.len(),
{
    if receipts.len() == 0 {
        Some(u32::MAX)
    } else {
        match lowest_quality(receipts.drop_last()) {
            None => None,
            Some(lowest) => if receipts.last().event.metadata.quality_flags != permitted_flags(
                *receipts.last(),
            ) {
                None
            } else if receipts.last().event.metadata.quality_score_ppm < lowest {
                Some(receipts.last().event.metadata.quality_score_ppm)
            } else {
                Some(lowest)
            },
        }
    }
}

/// The quality score of receipts, or why they have none.
pub open spec fn quality_of(receipts: Seq<&DerivativeNormalizationReceipt>) -> Result<
    QualityScore,
    Task6EmissionError,
> {
    match lowest_quality(receipts) {
        None => Err(Task6EmissionError::Computation(FeatureComputationError::UntrustedInput)),
        Some(lowest) => if lowest == u32::MAX {
            Err(Task6EmissionError::Computation(FeatureComputationError::InsufficientHistory))
        } else if lowest > 1_000_000 {
            Err(Task6EmissionError::Registry(RegistryError::InvalidQualityScore))
        } else {
            Ok(QualityScore { millionths: lowest })
        },
    }
}

proof fn lemma_quality_fails(receipts: Seq<&DerivativeNormalizationReceipt>, count: int)
    requires
        0 <= count <= receipts.len(),
        lowest_quality(receipts.take(count)) is None,
    ensures
        lowest_quality(receipts) is None,
    decreases receipts.len() - count,
{
    if count < receipts.len() {
        assert(receipts.take(count + 1).drop_last() =~= receipts.take(count));
        lemma_quality_fails(receipts, count + 1);
    } else {
        assert(receipts.take(count) =~= receipts);
    }
}

fn receipt_quality_score(receipts: &Vec<&DerivativeNormalizationReceipt>) -> (result: Result<
    QualityScore,
    Task6EmissionError,
>)
    ensures
        result == quality_of(receipts@),
{
    let mut lowest: u32 = u32::MAX;
    let mut i: usize = 0;
    proof {
        assert(receipts@.take(0) =~= Seq::empty());
    }
    while i < receipts.len()
        invariant
            i <= receipts@.len(),
            lowest_quality(receipts@.take(i as int)) == Some(lowest),
        decreases receipts.len() - i,
    {
        let receipt = receipts[i];
        proof {
            assert(receipts@.take(i + 1).drop_last() =~= receipts@.take(i as int));
            assert(receipts@.take(i + 1).last() == receipts@[i as int]);
            if lowest_quality(receipts@.take(i + 1)) is None {
                lemma_quality_fails(receipts@, i + 1);
            }
        }
        let sampled: bool = match receipt.completeness {
            Completeness::SampledLargestPerSymbolWindow { .. } => true,
            _ => false,
        };
        let permitted: u32 = if receipt.stream == DerivativeStream::Liquidation && sampled {
            QUALITY_PARTIAL
        } else {
            0
        };
        if receipt.event.metadata.quality_flags != permitted {
            return Err(Task6EmissionError::Computation(FeatureComputationError::UntrustedInput));
        }
        let own: u32 = receipt.event.metadata.quality_score_ppm;
        if own < lowest {
            lowest = own;
        }
        i += 1;
    }
    proof {
        assert(receipts@.take(i as int) =~= receipts@);
    }
    if lowest == u32::MAX {
        return Err(Task6EmissionError::Computation(FeatureComputationError::InsufficientHistory));
    }
    match QualityScore::from_millionths(lowest) {
        Ok(score) => Ok(score),
        Err(error) => Err(Task6EmissionError::Registry(error)),
    }
}

/// When the last of receipts was known.
pub open spec fn latest_receipt(receipts: Seq<&DerivativeNormalizationReceipt>) -> UnixNanos
    decreases receipts.len(),
{
    if receipts.len() <= 1 {
        receipts[0].event.metadata.normalization_timestamp
    } else {
        latest_receipt(receipts.drop_last()).later(
            receipts.last().event.metadata.normalization_timestamp,
        )
    }
}

fn last_known(receipts: &Vec<&DerivativeNormalizationReceipt>) -> (time: UnixNanos)
    requires
        receipts@.len() > 0,
    ensures
        time == latest_receipt(receipts@),
{
    let mut latest = receipts[0].event.metadata.normalization_timestamp;
    let mut i: usize = 1;
    while i < receipts.len()
        invariant
            1 <= i <= receipts@.len(),
            latest == latest_receipt(receipts@.take(i as int)),
        decreases receipts.len() - i,
    {
        proof {
            assert(receipts@.take(i + 1).drop_last() =~= receipts@.take(i as int));
            assert(receipts@.take(i + 1).last() == receipts@[i as int]);
        }
        latest = latest.max_of(receipts[i].event.metadata.normalization_timestamp);
        i += 1;
    }
    proof {
        assert(receipts@.take(i as int) =~= receipts@);
    }
    latest
}

/// The evidence of receipts for an entity, or why there is none.
pub open spec fn receipt_evidence(
    entity: EntityView,
    receipts: Seq<&DerivativeNormalizationReceipt>,
    domain: Seq<char>,
) -> Result<BoundView, Task6EmissionError> {
    match quality_of(receipts) {
        Err(error) => Err(error),
        Ok(quality_score) => Ok(
            BoundView {
                entity,
                as_known_at: latest_receipt(receipts),
                domain,
                input_digest: input_digest_of(receipts),
                quality_score,
            },
        ),
    }
}

fn bind_receipts(
    entity: FeatureEntity,
    receipts: &Vec<&DerivativeNormalizationReceipt>,
    domain: &'static str,
) -> (result: Result<BoundEvidence, Task6EmissionError>)
    requires
        receipts@.len() > 0,
    ensures
        match receipt_evidence(entity@, receipts@, domain@) {
            Err(error) => result is Err && result->Err_0 == error,
            Ok(evidence) => result is Ok && result->Ok_0@ == evidence,
        },
{
    let quality_score = receipt_quality_score(receipts)?;
    Ok(
        BoundEvidence {
            entity,
            as_known_at: last_known(receipts),
            domain,
            input_digest: receipt_input_digest(receipts),
            quality_score,
        },
    )
}

/// A datum under its name, or why there is none.
pub type NamedOutcome = Result<(Seq<char>, DatumView), FeatureComputationError>;

/// The one datum of a receipt. `divergence_bits` is the relative divergence of mark and index.
pub open spec fn snapshot_datum(
    receipt: DerivativeNormalizationReceipt,
    divergence_bits: u64,
) -> NamedOutcome {
    match receipt.stream {
        DerivativeStream::MarkIndex => match mark_index_terms(receipt) {
            Err(error) => Err(error),
            Ok(_) => match finite_measure(divergence_bits) {
                Err(error) => Err(error),
                Ok(value) => Ok(("mark_index_divergence"@, DatumView::Float64(value))),
            },
        },
        DerivativeStream::Funding => match predicted_funding(receipt) {
            Err(error) => Err(error),
            Ok(funding) => Ok(
                ("predicted_funding_rate"@, DatumView::FixedDecimal(funding.rate)),
            ),
        },
        DerivativeStream::OpenInterest => match open_interest_of(receipt.event.payload) {
            None => Err(FeatureComputationError::UntrustedInput),
            Some((quantity, _, _)) => Ok(
                ("open_interest_native"@, DatumView::FixedDecimal(quantity)),
            ),
        },
        DerivativeStream::Liquidation => Err(FeatureComputationError::InvalidInput),
    }
}

/// What a datum computation returned, by its contents.
pub open spec fn named_outcome(result: Result<NamedDatum, FeatureComputationError>) -> NamedOutcome {
    match result {
        Ok(named) => Ok((named.0@, named.1@)),
        Err(error) => Err(error),
    }
}

fn compute_snapshot_datum(receipt: &DerivativeNormalizationReceipt, divergence_bits: u64) -> (result:
    Result<NamedDatum, FeatureComputationError>)
    ensures
        named_outcome(result) == snapshot_datum(*receipt, divergence_bits),
{
    match receipt.stream {
        DerivativeStream::MarkIndex => {
            mark_index_divergence(receipt)?;
            let value = measured(divergence_bits)?;
            Ok(
                (
                    "mark_index_divergence",
                    FeatureDatum::Present(FeatureValue::Float64(value)),
                ),
            )
        },
        DerivativeStream::Funding => {
            let funding = predicted_funding_rate(receipt)?;
            Ok(
                (
                    "predicted_funding_rate",
                    FeatureDatum::Present(FeatureValue::FixedDecimal(funding.rate)),
                ),
            )
        },
        DerivativeStream::OpenInterest => match read_open_interest(&receipt.event.payload) {
            None => Err(FeatureComputationError::UntrustedInput),
            Some((quantity, _, _)) => Ok(
                (
                    "open_interest_native",
                    FeatureDatum::Present(FeatureValue::FixedDecimal(quantity)),
                ),
            ),
        },
        DerivativeStream::Liquidation => Err(FeatureComputationError::InvalidInput),
    }
}

/// The one datum of a pair of receipts. `relative_bits` is the relative change of open interest.
pub open spec fn change_datum(
    previous: DerivativeNormalizationReceipt,
    current: DerivativeNormalizationReceipt,
    relative_bits: u64,
) -> NamedOutcome {
    match (previous.stream, current.stream) {
        (DerivativeStream::Funding, DerivativeStream::Funding) => match funding_difference(
            previous,
            current,
        ) {
            Err(error) => Err(error),
            Ok(change) => Ok(("funding_rate_change"@, DatumView::FixedDecimal(change))),
        },
        (DerivativeStream::OpenInterest, DerivativeStream::OpenInterest) => {
            match open_interest_terms(previous, current, current.instrument_definition) {
                Err(error) => Err(error),
                Ok(_) => match finite_measure(relative_bits) {
                    Err(error) => Err(error),
                    Ok(value) => Ok(
                        ("open_interest_relative_change"@, DatumView::Float64(value)),
                    ),
                },
            }
        },
        _ => Err(FeatureComputationError::InvalidInput),
    }
}

fn compute_change_datum(
    previous: &DerivativeNormalizationReceipt,
    current: &DerivativeNormalizationReceipt,
    relative_bits: u64,
) -> (result: Result<NamedDatum, FeatureComputationError>)
    ensures
        named_outcome(result) == change_datum(*previous, *current, relative_bits),
{
    match (previous.stream, current.stream) {
        (DerivativeStream::Funding, DerivativeStream::Funding) => {
            let change = funding_change(previous, current)?;
            Ok(
                (
                    "funding_rate_change",
                    FeatureDatum::Present(FeatureValue::FixedDecimal(change)),
                ),
            )
        },
        (DerivativeStream::OpenInterest, DerivativeStream::OpenInterest) => {
            open_interest_change(previous, current, &current.instrument_definition)?;
            let value = measured(relative_bits)?;
            Ok(
                (
                    "open_interest_relative_change",
                    FeatureDatum::Present(FeatureValue::Float64(value)),
                ),
            )
        },
        _ => Err(FeatureComputationError::InvalidInput),
    }
}

/// The evidence of receipts that an instrument's data rest on, once the receipts and the data are
/// sound; or the first failure.
pub open spec fn derivative_context(
    receipts: Seq<&DerivativeNormalizationReceipt>,
    instrument: InstrumentDefinition,
    datum: NamedOutcome,
    domain: Seq<char>,
    tracker: TrackerView,
    decision: DecisionView,
    computed_at: UnixNanos,
) -> Result<BoundView, Task6EmissionError> {
    match (derivative_refusal(receipts, instrument, tracker, decision, computed_at), datum) {
        (Some(error), _) => Err(error),
        (None, Err(error)) => Err(Task6EmissionError::Computation(error)),
        (None, Ok(_)) => receipt_evidence(
            EntityView::Instrument(instrument.id@),
            receipts,
            domain,
        ),
    }
}

/// What one datum under its evidence comes to: a single candidate, or why there is none.
pub open spec fn single_emission(
    result: Result<Candidates<Task6EmissionError>, Task6EmissionError>,
    definitions: Seq<FeatureDefinition>,
    stamp: EmissionStamp,
    context: Result<BoundView, Task6EmissionError>,
    datum: NamedOutcome,
    tracker: TrackerView,
    decision: DecisionView,
) -> bool {
    let (name, value) = datum->Ok_0;
    match one_refusal(definitions, stamp, context, name, value, tracker, decision) {
        Some(error) => result is Err && result->Err_0 == error,
        None => result is Ok && result->Ok_0@.stopped is None && result->Ok_0@.observations.len() == 1
            && is_emitted(
            result->Ok_0@.observations[0],
            definitions,
            stamp,
            name,
            value,
            context->Ok_0,
            tracker,
            decision,
        ),
    }
}

/// Emits the one feature of a receipt's own stream. Liquidations are emitted by windows.
pub fn emit_derivative_snapshot_features(
    definitions: &Vec<FeatureDefinition>,
    stamp: &EmissionStamp,
    receipt: &DerivativeNormalizationReceipt,
    divergence_bits: u64,
    tracker: &WatermarkTracker,
    decision: FinalizationDecision,
) -> (result: Result<Candidates<Task6EmissionError>, Task6EmissionError>)
    ensures
        ({
            let datum = snapshot_datum(*receipt, divergence_bits);
            let context = derivative_context(
                seq![receipt],
                receipt.instrument_definition,
                datum,
                "crypto-intelligence/task6-derivative-snapshot-evidence/v1"@,
                tracker@,
                decision@,
                stamp.computed_at,
            );
            single_emission(result, definitions@, *stamp, context, datum, tracker@, decision@)
        }),
{
    let mut receipts: Vec<&DerivativeNormalizationReceipt> = Vec::new();
    receipts.push(receipt);
    proof {
        assert(receipts@ =~= seq![receipt]);
    }
    let instrument = &receipt.instrument_definition;
    validate_derivative_authority(&receipts, instrument, tracker, decision, stamp.computed_at)?;
    let (name, datum) = match compute_snapshot_datum(receipt, divergence_bits) {
        Err(error) => {
            return Err(Task6EmissionError::Computation(error));
        },
        Ok(named) => named,
    };
    let evidence = bind_receipts(
        FeatureEntity::Instrument(instrument.id.clone()),
        &receipts,
        "crypto-intelligence/task6-derivative-snapshot-evidence/v1",
    )?;
    let observation = emit_bound_task_six_datum(
        definitions,
        stamp,
        name,
        datum,
        &evidence,
        tracker,
        decision,
    )?;
    let mut observations: Vec<FeatureObservation> = Vec::new();
    observations.push(observation);
    Ok(Candidates::new(observations, None))
}

/// Emits the change between two receipts of one stream inside one final window.
pub fn emit_derivative_change_features(
    definitions: &Vec<FeatureDefinition>,
    stamp: &EmissionStamp,
    previous: &DerivativeNormalizationReceipt,
    current: &DerivativeNormalizationReceipt,
    relative_bits: u64,
    tracker: &WatermarkTracker,
    decision: FinalizationDecision,
) -> (result: Result<Candidates<Task6EmissionError>, Task6EmissionError>)
    ensures
        ({
            let datum = change_datum(*previous, *current, relative_bits);
            let context = derivative_context(
                seq![previous, current],
                current.instrument_definition,
                datum,
                "crypto-intelligence/task6-derivative-change-evidence/v1"@,
                tracker@,
                decision@,
                stamp.computed_at,
            );
            single_emission(result, definitions@, *stamp, context, datum, tracker@, decision@)
        }),
{
    let mut receipts: Vec<&DerivativeNormalizationReceipt> = Vec::new();
    receipts.push(previous);
    receipts.push(current);
    proof {
        assert(receipts@ =~= seq![previous, current]);
    }
    let instrument = &current.instrument_definition;
    validate_derivative_authority(&receipts, instrument, tracker, decision, stamp.computed_at)?;
    let (name, datum) = match compute_change_datum(previous, current, relative_bits) {
        Err(error) => {
            return Err(Task6EmissionError::Computation(error));
        },
        Ok(named) => named,
    };
    let evidence = bind_receipts(
        FeatureEntity::Instrument(instrument.id.clone()),
        &receipts,
        "crypto-intelligence/task6-derivative-change-evidence/v1",
    )?;
    let observation = emit_bound_task_six_datum(
        definitions,
        stamp,
        name,
        datum,
        &evidence,
        tracker,
        decision,
    )?;
    let mut observations: Vec<FeatureObservation> = Vec::new();
    observations.push(observation);
    Ok(Candidates::new(observations, None))
}

/// References to receipts, in the order of the list.
pub open spec fn listed<'a>(receipts: Seq<DerivativeNormalizationReceipt>) -> Seq<
    &'a DerivativeNormalizationReceipt,
> {
    Seq::new(receipts.len(), |i: int| &receipts[i])
}

fn in_canonical_order(receipts: &Vec<DerivativeNormalizationReceipt>) -> (sorted: Vec<
    &DerivativeNormalizationReceipt,
>)
    ensures
        sorted@ == stably_sorted(listed(receipts@)),
        sorted@.len() == receipts@.len(),
{
    let mut refs: Vec<&DerivativeNormalizationReceipt> = Vec::new();
    let mut i: usize = 0;
    while i < receipts.len()
        invariant
            i <= receipts@.len(),
            refs@ == listed(receipts@).take(i as int),
        decreases receipts.len() - i,
    {
        refs.push(&receipts[i]);
        proof {
            assert(refs@ =~= listed(receipts@).take(i + 1));
        }
        i += 1;
    }
    proof {
        assert(listed(receipts@).take(i as int) =~= listed(receipts@));
        lemma_stably_sorted(listed(receipts@));
    }
    sort_stably(refs)
}

/// The order in which receipts of different events are listed does not matter: in canonical order
/// they are the same, and so is every digest of them.
pub proof fn lemma_receipt_order_does_not_matter(
    a: Seq<&DerivativeNormalizationReceipt>,
    b: Seq<&DerivativeNormalizationReceipt>,
)
    requires
        a.to_multiset() == b.to_multiset(),
        distinct_ranks(a),
    ensures
        stably_sorted(a) == stably_sorted(b),
        input_digest_of(stably_sorted(a)) == input_digest_of(stably_sorted(b)),
{
    lemma_stably_sorted(a);
    lemma_stably_sorted(b);
    lemma_sorted_distinct(a, stably_sorted(a));
    lemma_sorted_arrangement_is_unique(stably_sorted(a), stably_sorted(b));
}

/// The three data of a window of liquidations. `rate_bits` is their number per second.
pub open spec fn liquidation_data(
    receipts: Seq<DerivativeNormalizationReceipt>,
    instrument: InstrumentDefinition,
    rate_bits: u64,
    tracker: TrackerView,
    decision: DecisionView,
) -> Result<Seq<(Seq<char>, DatumView)>, FeatureComputationError> {
    match liquidation_terms(receipts, instrument, tracker, decision) {
        Err(error) => Err(error),
        Ok(terms) => match finite_measure(rate_bits) {
            Err(error) => Err(error),
            Ok(rate) => Ok(
                seq![
                    (
                        "liquidation_observed_count"@,
                        DatumView::Integer(terms.observed_count as i64),
                    ),
                    (
                        "liquidation_observed_notional"@,
                        DatumView::FixedDecimal(terms.observed_quote_notional),
                    ),
                    ("liquidation_observed_velocity"@, DatumView::Float64(rate)),
                ],
            ),
        },
    }
}

/// The evidence of a window of liquidations, or the first failure.
pub open spec fn liquidation_context(
    receipts: Seq<DerivativeNormalizationReceipt>,
    instrument: InstrumentDefinition,
    rate_bits: u64,
    tracker: TrackerView,
    decision: DecisionView,
    computed_at: UnixNanos,
) -> Result<BoundView, Task6EmissionError> {
    let sorted = stably_sorted(listed(receipts));
    match liquidation_data(receipts, instrument, rate_bits, tracker, decision) {
        Err(error) => Err(Task6EmissionError::Computation(error)),
        Ok(_) => match derivative_refusal(sorted, instrument, tracker, decision, computed_at) {
            Some(error) => Err(error),
            None => receipt_evidence(
                EntityView::Instrument(instrument.id@),
                sorted,
                "crypto-intelligence/task6-liquidation-window-evidence/v1"@,
            ),
        },
    }
}

/// Emits count, quote notional and velocity of a window of liquidations.
pub fn emit_liquidation_features(
    definitions: &Vec<FeatureDefinition>,
    stamp: &EmissionStamp,
    receipts: &Vec<DerivativeNormalizationReceipt>,
    instrument: &InstrumentDefinition,
    rate_bits: u64,
    tracker: &WatermarkTracker,
    decision: FinalizationDecision,
) -> (result: Result<Candidates<Task6EmissionError>, Task6EmissionError>)
    ensures
        ({
            let data = liquidation_data(
                receipts@,
                *instrument,
                rate_bits,
                tracker@,
                decision@,
            );
            let context = liquidation_context(
                receipts@,
                *instrument,
                rate_bits,
                tracker@,
                decision@,
                stamp.computed_at,
            );
            match context {
                Err(error) => result is Err && result->Err_0 == error,
                Ok(evidence) => result is Ok && are_candidates(
                    result->Ok_0@,
                    definitions@,
                    *stamp,
                    data->Ok_0,
                    evidence,
                    tracker@,
                    decision@,
                ),
            }
        }),
{
    let terms = match liquidation_velocity(receipts, instrument, tracker, decision) {
        Err(error) => {
            return Err(Task6EmissionError::Computation(error));
        },
        Ok(terms) => terms,
    };
    let rate = match measured(rate_bits) {
        Err(error) => {
            return Err(Task6EmissionError::Computation(error));
        },
        Ok(rate) => rate,
    };
    let sorted = in_canonical_order(receipts);
    validate_derivative_authority(&sorted, instrument, tracker, decision, stamp.computed_at)?;
    let evidence = bind_receipts(
        FeatureEntity::Instrument(instrument.id.clone()),
        &sorted,
        "crypto-intelligence/task6-liquidation-window-evidence/v1",
    )?;
    let mut inputs: Vec<NamedDatum> = Vec::new();
    inputs.push(
        (
            "liquidation_observed_count",
            FeatureDatum::Present(FeatureValue::Integer(terms.observed_count as i64)),
        ),
    );
    inputs.push(
        (
            "liquidation_observed_notional",
            FeatureDatum::Present(FeatureValue::FixedDecimal(terms.observed_quote_notional)),
        ),
    );
    inputs.push(
        (
            "liquidation_observed_velocity",
            FeatureDatum::Present(FeatureValue::Float64(rate)),
        ),
    );
    proof {
        assert(named_views(inputs@) =~= liquidation_data(
            receipts@,
            *instrument,
            rate_bits,
            tracker@,
            decision@,
        )->Ok_0);
    }
    Ok(emit_all(definitions, stamp, &inputs, &evidence, tracker, decision))
}

/// Why a receipt does not go with the first of its source's window, if it does not.
pub open spec fn completeness_step_refusal(
    receipts: Seq<DerivativeNormalizationReceipt>,
    i: int,
    decision: DecisionView,
) -> Option<FeatureComputationError> {
    let receipt = receipts[i];
    let first = receipts[0];
    match receipt.event.metadata.event_time_of() {
        None => Some(FeatureComputationError::InvalidInput),
        Some(time) => if receipt.stream != DerivativeStream::Liquidation
            || receipt.event.metadata.source@ != first.event.metadata.source@
            || receipt.completeness != first.completeness || time.nanos < decision.window.lower()
            || time.nanos >= decision.window.upper() {
            Some(FeatureComputationError::UntrustedInput)
        } else if receipt_ids(receipts).take(i).contains(receipt.event.id@) {
            Some(FeatureComputationError::DuplicateLineage)
        } else {
            None
        },
    }
}

/// The first failure among receipts from a place on, if there is one.
pub open spec fn completeness_scan(
    receipts: Seq<DerivativeNormalizationReceipt>,
    from: int,
    decision: DecisionView,
) -> Option<FeatureComputationError>
    decreases receipts.len() - from,
{
    if from >= receipts.len() {
        None
    } else {
        match completeness_step_refusal(receipts, from, decision) {
            Some(error) => Some(error),
            None => completeness_scan(receipts, from + 1, decision),
        }
    }
}

/// The evidence of a source's liquidation completeness, or the first failure.
pub open spec fn completeness_context(
    receipts: Seq<DerivativeNormalizationReceipt>,
    tracker: TrackerView,
    decision: DecisionView,
) -> Result<BoundView, Task6EmissionError> {
    let source = receipts[0].event.metadata.source@;
    if receipts.len() > MAX_DERIVATIVE_WINDOW_OBSERVATIONS {
        Err(Task6EmissionError::Computation(FeatureComputationError::CapacityExceeded))
    } else if receipts.len() == 0 {
        Err(Task6EmissionError::Computation(FeatureComputationError::InsufficientHistory))
    } else if !one_source_authority(EntityView::Source(source), source, tracker, decision) {
        Err(Task6EmissionError::UntrustedFinality)
    } else {
        match completeness_scan(receipts, 0, decision) {
            Some(error) => Err(Task6EmissionError::Computation(error)),
            None => receipt_evidence(
                EntityView::Source(source),
                stably_sorted(listed(receipts)),
                "crypto-intelligence/task6-liquidation-completeness-evidence/v1"@,
            ),
        }
    }
}

fn scan_completeness(
    receipts: &Vec<DerivativeNormalizationReceipt>,
    decision: FinalizationDecision,
) -> (result: Result<(), FeatureComputationError>)
    requires
        receipts@.len() > 0,
    ensures
        match completeness_scan(receipts@, 0, decision@) {
            Some(error) => result == Err::<(), FeatureComputationError>(error),
            None => result == Ok::<(), FeatureComputationError>(()),
        },
{
    let ghost names = receipt_ids(receipts@);
    let ids = receipt_digests(receipts);
    let repeated: Option<usize> = first_repeated_digest(&ids);
    proof {
        if let Some(place) = repeated {
            assert(names[place as int] == ids@[place as int]@);
        }
    }
    let first = &receipts[0];
    let window = decision.window();
    let mut i: usize = 0;
    while i < receipts.len()
        invariant
            receipts@.len() > 0,
            i <= receipts@.len(),
            *first == receipts@[0],
            window == decision@.window,
            names == receipt_ids(receipts@),
            match repeated {
                None => names.no_duplicates(),
                Some(place) => i <= place < names.len() && names.take(place as int).no_duplicates()
                    && names.take(place as int).contains(names[place as int]),
            },
            completeness_scan(receipts@, 0, decision@) == completeness_scan(
                receipts@,
                i as int,
                decision@,
            ),
        decreases receipts.len() - i,
    {
        let receipt = &receipts[i];
        let again: bool = match repeated {
            None => false,
            Some(place) => place == i,
        };
        proof {
            lemma_repeats(names, repeated, i as int);
        }
        let time = match receipt.event.metadata.event_time() {
            None => {
                return Err(FeatureComputationError::InvalidInput);
            },
            Some(time) => time,
        };
        if receipt.stream != DerivativeStream::Liquidation || !receipt.event.metadata.source.same(
            &first.event.metadata.source,
        ) || receipt.completeness != first.completeness || time.value() < window.start().value()
            || time.value() >= window.end().value() {
            return Err(FeatureComputationError::UntrustedInput);
        }
        if again {
            return Err(FeatureComputationError::DuplicateLineage);
        }
        i += 1;
    }
    Ok(())
}

/// Emits the class of completeness of a source's liquidations in one final window.
pub fn emit_liquidation_completeness_feature(
    definitions: &Vec<FeatureDefinition>,
    stamp: &EmissionStamp,
    receipts: &Vec<DerivativeNormalizationReceipt>,
    tracker: &WatermarkTracker,
    decision: FinalizationDecision,
) -> (result: Result<Candidate, Task6EmissionError>)
    ensures
        ({
            let context = completeness_context(receipts@, tracker@, decision@);
            let datum = DatumView::Integer(completeness_code(receipts@[0].completeness) as i64);
            match one_refusal(
                definitions@,
                *stamp,
                context,
                "liquidation_source_completeness_flag"@,
                datum,
                tracker@,
                decision@,
            ) {
                Some(error) => result is Err && result->Err_0 == error,
                None => result is Ok && is_emitted(
                    result->Ok_0@,
                    definitions@,
                    *stamp,
                    "liquidation_source_completeness_flag"@,
                    datum,
                    context->Ok_0,
                    tracker@,
                    decision@,
                ),
            }
        }),
{
    if receipts.len() > MAX_DERIVATIVE_WINDOW_OBSERVATIONS {
        return Err(Task6EmissionError::Computation(FeatureComputationError::CapacityExceeded));
    }
    if receipts.len() == 0 {
        return Err(Task6EmissionError::Computation(FeatureComputationError::InsufficientHistory));
    }
    let source = &receipts[0].event.metadata.source;
    let entity = FeatureEntity::Source(source.clone());
    if !is_one_source_authority(&entity, source, tracker, decision) {
        return Err(Task6EmissionError::UntrustedFinality);
    }
    match scan_completeness(receipts, decision) {
        Err(error) => {
            return Err(Task6EmissionError::Computation(error));
        },
        Ok(()) => {},
    }
    let sorted = in_canonical_order(receipts);
    let evidence = bind_receipts(
        entity,
        &sorted,
        "crypto-intelligence/task6-liquidation-completeness-evidence/v1",
    )?;
    let class: u8 = completeness_class(receipts[0].completeness);
    let observation = emit_bound_task_six_datum(
        definitions,
        stamp,
        "liquidation_source_completeness_flag",
        FeatureDatum::Present(FeatureValue::Integer(class as i64)),
        &evidence,
        tracker,
        decision,
    )?;
    Ok(Candidate::new(observation))
}

/// Every datum of derivative receipts has an implemented recipe of its own type.
pub proof fn lemma_derivative_data_are_implemented(
    previous: DerivativeNormalizationReceipt,
    receipt: DerivativeNormalizationReceipt,
    bits: u64,
)
    ensures
        snapshot_datum(receipt, bits) is Ok ==> is_implemented(snapshot_datum(receipt, bits)->Ok_0),
        change_datum(previous, receipt, bits) is Ok ==> is_implemented(
            change_datum(previous, receipt, bits)->Ok_0,
        ),
        is_implemented(
            (
                "liquidation_source_completeness_flag"@,
                DatumView::Integer(completeness_code(receipt.completeness) as i64),
            ),
        ),
{
    let class = DatumView::Integer(completeness_code(receipt.completeness) as i64);
    lemma_task_six_recipe_at(42);
    lemma_named_is_implemented(42, "liquidation_source_completeness_flag"@, class);
    if snapshot_datum(receipt, bits) is Ok {
        let datum = snapshot_datum(receipt, bits)->Ok_0.1;
        match receipt.stream {
            DerivativeStream::MarkIndex => {
                lemma_task_six_recipe_at(27);
                lemma_named_is_implemented(27, "mark_index_divergence"@, datum);
            },
            DerivativeStream::Funding => {
                lemma_task_six_recipe_at(16);
                lemma_named_is_implemented(16, "predicted_funding_rate"@, datum);
            },
            DerivativeStream::OpenInterest => {
                lemma_task_six_recipe_at(23);
                lemma_named_is_implemented(23, "open_interest_native"@, datum);
            },
            DerivativeStream::Liquidation => {},
        }
    }
    if change_datum(previous, receipt, bits) is Ok {
        let datum = change_datum(previous, receipt, bits)->Ok_0.1;
        if receipt.stream == DerivativeStream::Funding {
            lemma_task_six_recipe_at(18);
            lemma_named_is_implemented(18, "funding_rate_change"@, datum);
        } else {
            lemma_task_six_recipe_at(25);
            lemma_named_is_implemented(25, "open_interest_relative_change"@, datum);
        }
    }
}

/// Every datum of a window of liquidations has an implemented recipe of its own type.
pub proof fn lemma_liquidation_data_are_implemented(
    receipts: Seq<DerivativeNormalizationReceipt>,
    instrument: InstrumentDefinition,
    rate_bits: u64,
    tracker: TrackerView,
    decision: DecisionView,
)
    requires
        liquidation_data(receipts, instrument, rate_bits, tracker, decision) is Ok,
    ensures
        all_implemented(
            liquidation_data(receipts, instrument, rate_bits, tracker, decision)->Ok_0,
        ),
{
    let data = liquidation_data(receipts, instrument, rate_bits, tracker, decision)->Ok_0;
    lemma_task_six_recipe_at(33);
    lemma_named_is_implemented(33, "liquidation_observed_count"@, data[0].1);
    lemma_task_six_recipe_at(34);
    lemma_named_is_implemented(34, "liquidation_observed_notional"@, data[1].1);
    lemma_task_six_recipe_at(35);
    lemma_named_is_implemented(35, "liquidation_observed_velocity"@, data[2].1);
}

/// Receipts are as good as the worst of them and known when the last of them was; each carries
/// just the flags that it may, which are none but for a sampled liquidation.
pub proof fn lemma_receipt_evidence_bounds_its_receipts(
    entity: EntityView,
    receipts: Seq<&DerivativeNormalizationReceipt>,
    domain: Seq<char>,
)
    requires
        receipts.len() > 0,
        receipt_evidence(entity, receipts, domain) is Ok,
    ensures
        ({
            let evidence = receipt_evidence(entity, receipts, domain)->Ok_0;
            &&& evidence.entity == entity
            &&& evidence.quality_score.millionths <= 1_000_000
            &&& forall|i: int|
                #![trigger receipts[i]]
                0 <= i < receipts.len() ==> {
                    let metadata = receipts[i].event.metadata;
                    let sampled = receipts[i].stream == DerivativeStream::Liquidation
                        && receipts[i].completeness is SampledLargestPerSymbolWindow;
                    &&& evidence.quality_score.millionths <= metadata.quality_score_ppm
                    &&& evidence.as_known_at.nanos >= metadata.normalization_timestamp.nanos
                    &&& metadata.quality_flags == 0 <==> !sampled
                    &&& sampled ==> metadata.quality_flags == QUALITY_PARTIAL
                }
            &&& exists|i: int|
                #![trigger receipts[i]]
                0 <= i < receipts.len() && receipts[i].event.metadata.quality_score_ppm
                    == evidence.quality_score.millionths
            &&& exists|i: int|
                #![trigger receipts[i]]
                0 <= i < receipts.len() && receipts[i].event.metadata.normalization_timestamp
                    == evidence.as_known_at
        }),
{
    lemma_lowest_quality(receipts);
    lemma_latest_receipt(receipts);
}

proof fn lemma_lowest_quality(receipts: Seq<&DerivativeNormalizationReceipt>)
    requires
        lowest_quality(receipts) is Some,
    ensures
        forall|i: int|
            #![trigger receipts[i]]
            0 <= i < receipts.len() ==> lowest_quality(receipts)->Some_0
                <= receipts[i].event.metadata.quality_score_ppm
                && receipts[i].event.metadata.quality_flags == permitted_flags(*receipts[i]),
        lowest_quality(receipts)->Some_0 == u32::MAX || exists|i: int|
            #![trigger receipts[i]]
            0 <= i < receipts.len() && receipts[i].event.metadata.quality_score_ppm
                == lowest_quality(receipts)->Some_0,
    decreases receipts.len(),
{
    if receipts.len() > 0 {
        let rest = receipts.drop_last();
        lemma_lowest_quality(rest);
        let before = lowest_quality(rest)->Some_0;
        assert(receipts[receipts.len() - 1] == receipts.last());
        assert forall|i: int| #![trigger receipts[i]] 0 <= i < rest.len() implies receipts[i]
            == rest[i] by {}
        if before != u32::MAX {
            let i = choose|i: int|
                #![trigger rest[i]]
                0 <= i < rest.len() && rest[i].event.metadata.quality_score_ppm == before;
            assert(receipts[i].event.metadata.quality_score_ppm == before);
        }
    }
}

proof fn lemma_latest_receipt(receipts: Seq<&DerivativeNormalizationReceipt>)
    requires
        receipts.len() > 0,
    ensures
        forall|i: int|
            #![trigger receipts[i]]
            0 <= i < receipts.len() ==> latest_receipt(receipts).nanos
                >= receipts[i].event.metadata.normalization_timestamp.nanos,
        exists|i: int|
            #![trigger receipts[i]]
            0 <= i < receipts.len() && receipts[i].event.metadata.normalization_timestamp
                == latest_receipt(receipts),
    decreases receipts.len(),
{
    assert(receipts[receipts.len() - 1] == receipts.last());
    if receipts.len() > 1 {
        let rest = receipts.drop_last();
        lemma_latest_receipt(rest);
        assert forall|i: int| #![trigger receipts[i]] 0 <= i < rest.len() implies receipts[i]
            == rest[i] by {}
        let i = choose|i: int|
            #![trigger rest[i]]
            0 <= i < rest.len() && rest[i].event.metadata.normalization_timestamp
                == latest_receipt(rest);
        assert(receipts[i].event.metadata.normalization_timestamp == latest_receipt(rest));
    } else {
        assert(receipts[0].event.metadata.normalization_timestamp == latest_receipt(receipts));
    }
}

proof fn lemma_refused_receipts_are_found(
    receipts: Seq<&DerivativeNormalizationReceipt>,
    from: int,
    instrument: InstrumentDefinition,
    source: SourceView,
    decision: DecisionView,
    computed_at: UnixNanos,
    i: int,
)
    requires
        0 <= from <= i < receipts.len(),
        receipts_refusal(receipts, from, instrument, source, decision, computed_at) is None,
    ensures
        receipt_refusal(*receipts[i], instrument, source, decision, computed_at) is None,
    decreases receipts.len() - from,
{
    if from < i {
        lemma_refused_receipts_are_found(
            receipts,
            from + 1,
            instrument,
            source,
            decision,
            computed_at,
            i,
        );
    }
}

/// Receipts are emitted only for a final window that each of their events falls into, all of one
/// source and about one instrument, and never before they were known.
pub proof fn lemma_receipts_fall_into_their_window(
    receipts: Seq<&DerivativeNormalizationReceipt>,
    instrument: InstrumentDefinition,
    tracker: TrackerView,
    decision: DecisionView,
    computed_at: UnixNanos,
)
    requires
        derivative_refusal(receipts, instrument, tracker, decision, computed_at) is None,
    ensures
        receipts.len() > 0,
        decision.state == Finalization::Final,
        decision.required_count == 1,
        forall|i: int|
            #![trigger receipts[i]]
            0 <= i < receipts.len() ==> {
                let metadata = receipts[i].event.metadata;
                &&& metadata.event_time_of() is Some
                &&& decision.window.lower() <= metadata.event_time_of()->Some_0.nanos
                    < decision.window.upper()
                &&& metadata.normalization_timestamp.nanos <= computed_at.nanos
                &&& metadata.source@ == receipts[0].event.metadata.source@
                &&& metadata.concerns(instrument.id)
                &&& same_instrument_definition(receipts[i].instrument_definition, instrument)
            },
{
    let source = receipts[0].event.metadata.source@;
    assert forall|i: int|
        #![trigger receipts[i]]
        0 <= i < receipts.len() implies receipt_refusal(
        *receipts[i],
        instrument,
        source,
        decision,
        computed_at,
    ) is None by {
        lemma_refused_receipts_are_found(
            receipts,
            0,
            instrument,
            source,
            decision,
            computed_at,
            i,
        );
    }
}

/// A receipt's datum is named after its stream and is what the stream says.
pub proof fn lemma_snapshots_say_what_their_stream_says(
    receipt: DerivativeNormalizationReceipt,
    bits: u64,
)
    requires
        snapshot_datum(receipt, bits) is Ok,
    ensures
        ({
            let (name, datum) = snapshot_datum(receipt, bits)->Ok_0;
            match receipt.stream {
                DerivativeStream::MarkIndex => name == "mark_index_divergence"@ && datum is Float64
                    && finite_measure(bits) == Ok::<FiniteF64, FeatureComputationError>(
                    datum->Float64_0,
                ),
                DerivativeStream::Funding => name == "predicted_funding_rate"@
                    && predicted_funding(receipt) is Ok && datum == DatumView::FixedDecimal(
                    predicted_funding(receipt)->Ok_0.rate,
                ),
                DerivativeStream::OpenInterest => name == "open_interest_native"@
                    && open_interest_of(receipt.event.payload) is Some && datum
                    == DatumView::FixedDecimal(open_interest_of(receipt.event.payload)->Some_0.0),
                DerivativeStream::Liquidation => false,
            }
        }),
{
}

/// A change is between two receipts of one stream, and a change of funding leads from the earlier
/// rate to the later one.
pub proof fn lemma_changes_lead_to_the_current_receipt(
    previous: DerivativeNormalizationReceipt,
    current: DerivativeNormalizationReceipt,
    bits: u64,
)
    requires
        change_datum(previous, current, bits) is Ok,
    ensures
        previous.stream == current.stream,
        current.stream == DerivativeStream::Funding || current.stream
            == DerivativeStream::OpenInterest,
        current.stream == DerivativeStream::Funding ==> match (
            previous.event.payload,
            current.event.payload,
        ) {
            (
                EventPayload::FundingObservation { funding_rate: before, .. },
                EventPayload::FundingObservation { funding_rate: after, .. },
            ) => {
                let (name, datum) = change_datum(previous, current, bits)->Ok_0;
                &&& name == "funding_rate_change"@
                &&& datum is FixedDecimal
                &&& before.in_scale() && after.in_scale() ==> before.units()
                    + datum->FixedDecimal_0.units() == after.units()
            },
            _ => false,
        },
        current.stream == DerivativeStream::OpenInterest ==> {
            let (name, datum) = change_datum(previous, current, bits)->Ok_0;
            &&& name == "open_interest_relative_change"@
            &&& datum is Float64
            &&& finite_measure(bits) == Ok::<FiniteF64, FeatureComputationError>(datum->Float64_0)
        },
{
    if current.stream == DerivativeStream::Funding {
        lemma_funding_changes_lead_to_the_current_rate(previous, current);
    }
}

/// A window of liquidations reports how many there were, what they came to, and how fast they
/// came.
pub proof fn lemma_liquidations_report_their_number(
    receipts: Seq<DerivativeNormalizationReceipt>,
    instrument: InstrumentDefinition,
    rate_bits: u64,
    tracker: TrackerView,
    decision: DecisionView,
)
    requires
        liquidation_data(receipts, instrument, rate_bits, tracker, decision) is Ok,
    ensures
        ({
            let data = liquidation_data(receipts, instrument, rate_bits, tracker, decision)->Ok_0;
            let terms = liquidation_terms(receipts, instrument, tracker, decision)->Ok_0;
            &&& data.len() == 3
            &&& data[0].0 == "liquidation_observed_count"@
            &&& data[0].1 == DatumView::Integer(receipts.len() as i64)
            &&& data[1].0 == "liquidation_observed_notional"@
            &&& data[1].1 == DatumView::FixedDecimal(terms.observed_quote_notional)
            &&& data[2].0 == "liquidation_observed_velocity"@
            &&& data[2].1 is Float64 && finite_measure(rate_bits) == Ok::<
                FiniteF64,
                FeatureComputationError,
            >(data[2].1->Float64_0)
        }),
{
    lemma_liquidations_are_lower_bounds(receipts, instrument, tracker, decision);
}

proof fn lemma_incomplete_receipts_are_found(
    receipts: Seq<DerivativeNormalizationReceipt>,
    from: int,
    decision: DecisionView,
    i: int,
)
    requires
        0 <= from <= i < receipts.len(),
        completeness_scan(receipts, from, decision) is None,
    ensures
        completeness_step_refusal(receipts, i, decision) is None,
    decreases receipts.len() - from,
{
    if from < i {
        lemma_incomplete_receipts_are_found(receipts, from + 1, decision, i);
    }
}

/// A source's completeness is emitted only where every receipt of the window is a liquidation of
/// that source with that completeness, and no event occurs twice.
pub proof fn lemma_completeness_is_unanimous(
    receipts: Seq<DerivativeNormalizationReceipt>,
    tracker: TrackerView,
    decision: DecisionView,
)
    requires
        completeness_context(receipts, tracker, decision) is Ok,
    ensures
        0 < receipts.len() <= MAX_DERIVATIVE_WINDOW_OBSERVATIONS,
        decision.state == Finalization::Final,
        forall|i: int|
            #![trigger receipts[i]]
            0 <= i < receipts.len() ==> {
                let time = receipts[i].event.metadata.event_time_of();
                &&& receipts[i].stream == DerivativeStream::Liquidation
                &&& receipts[i].completeness == receipts[0].completeness
                &&& receipts[i].event.metadata.source@ == receipts[0].event.metadata.source@
                &&& time is Some
                &&& decision.window.lower() <= time->Some_0.nanos < decision.window.upper()
            },
        forall|i: int, j: int|
            #![trigger receipts[i], receipts[j]]
            0 <= i < j < receipts.len() ==> receipts[i].event.id@ != receipts[j].event.id@,
{
    assert forall|i: int|
        #![trigger receipts[i]]
        0 <= i < receipts.len() implies completeness_step_refusal(receipts, i, decision)
        is None by {
        lemma_incomplete_receipts_are_found(receipts, 0, decision, i);
    }
    assert forall|i: int, j: int|
        #![trigger receipts[i], receipts[j]]
        0 <= i < j < receipts.len() implies receipts[i].event.id@ != receipts[j].event.id@ by {
        assert(completeness_step_refusal(receipts, j, decision) is None);
        assert(receipt_ids(receipts).take(j)[i] == receipts[i].event.id@);
    }
}

} // verus!
