//! Bounded point-in-time price and trade evidence.

use vstd::prelude::*;

use super::catalog::Task4FeatureKind;
use super::computed::{
    check_pair_side, closing_view, paired_refusal, priced_feature, ComputedAnalyticalFeature,
    ComputedView, PairSide, SecondaryEvidence, SecondaryView,
};
use super::{lemma_sum_last, present_value, sum_of, AnalyticalFeature, FeatureComputationError};
use crate::decimal::{Price, Quantity};
use crate::digest::{
    blake3_digest, blake3_hash, encoded_i64, encoded_u64, framed, is_zero_digest, put_bytes,
    put_framed, put_i64, put_u64, utf8, zero_digest,
};
use crate::domain::{
    copy_sources, coverage_refusal, entity_encoding, entry_sources, entry_views, holds_source,
    source_views, AssetId, AssetView, CoverageView, EntityView, FeatureEntity, QualityScore,
    SourceCoverage, SourceCoverageEntry, SourceHealthState, SourceId, SourceView, UnixNanos,
};
use crate::event::{EventPayload, InstrumentDefinition, NormalizedEvent};
use crate::market::{included_views, FairPrice};
use crate::ordering::{digest_views, distinct_digests};
use crate::watermark::{
    decision_encoding, entity_fingerprint, reported_sources, required_sources, sources_fingerprint,
    DecisionView, Finalization, FinalizationDecision, TrackerView, WatermarkTracker,
};
use crate::window::TimeWindow;

verus! {

pub const MAX_PRICE_OBSERVATIONS: usize = 65_536;

pub const MAX_HORIZONS: usize = 64;

/// What a price observation is made of.
#[derive(Debug)]
pub struct PriceObservationInput {
    pub entity: FeatureEntity,
    pub price: Price,
    pub event_time: UnixNanos,
    pub as_known_at: UnixNanos,
    pub finalized: bool,
    pub lineage_hash: [u8; 32],
}

/// The contents of a [`PriceObservation`].
pub struct PriceObservationView {
    pub entity: EntityView,
    pub price: Price,
    pub event_time: UnixNanos,
    pub as_known_at: UnixNanos,
    pub finalized: bool,
    pub lineage: Seq<u8>,
    pub evidence: Option<(CoverageView, QualityScore)>,
}

#[derive(Debug)]
struct ConsolidatedPriceEvidence {
    source_coverage: SourceCoverage,
    quality_score: QualityScore,
}

/// A price at a point in event time. Only a consolidated fair price gives it source evidence.
#[derive(Debug)]
pub struct PriceObservation {
    entity: FeatureEntity,
    price: Price,
    event_time: UnixNanos,
    as_known_at: UnixNanos,
    finalized: bool,
    lineage_hash: [u8; 32],
    consolidated_evidence: Option<ConsolidatedPriceEvidence>,
}

closed spec fn evidence_view(evidence: Option<ConsolidatedPriceEvidence>) -> Option<
    (CoverageView, QualityScore),
> {
    match evidence {
        Some(evidence) => Some((evidence.source_coverage@, evidence.quality_score)),
        None => None,
    }
}

impl View for PriceObservation {
    type V = PriceObservationView;

    closed spec fn view(&self) -> PriceObservationView {
        PriceObservationView {
            entity: self.entity@,
            price: self.price,
            event_time: self.event_time,
            as_known_at: self.as_known_at,
            finalized: self.finalized,
            lineage: self.lineage_hash@,
            evidence: evidence_view(self.consolidated_evidence),
        }
    }
}

/// The coverage that a fair price attests, or why it attests none.
pub open spec fn fair_price_coverage(fair: FairPrice) -> Result<
    CoverageView,
    FeatureComputationError,
> {
    match fair.eligible_sources {
        None => Err(FeatureComputationError::UntrustedInput),
        Some(eligible) => {
            let observed = included_views(fair.included@);
            match coverage_refusal(
                source_views(eligible@),
                Seq::new(observed.len(), |i: int| observed[i].0),
            ) {
                Some(_) => Err(FeatureComputationError::InvalidInput),
                None => Ok((source_views(eligible@), observed)),
            }
        },
    }
}

/// The price observation that a fair price gives, or why it gives none.
pub open spec fn consolidated_observation(fair: FairPrice) -> Result<
    PriceObservationView,
    FeatureComputationError,
> {
    if fair.event_time.nanos <= 0 || fair.as_of.nanos < fair.event_time.nanos {
        Err(FeatureComputationError::FutureKnowledge)
    } else {
        match fair_price_coverage(fair) {
            Err(error) => Err(error),
            Ok(coverage) => if fair.minimum_included_quality > 1_000_000 {
                Err(FeatureComputationError::InvalidInput)
            } else {
                Ok(
                    PriceObservationView {
                        entity: EntityView::Asset(fair.base_asset@),
                        price: fair.price,
                        event_time: fair.event_time,
                        as_known_at: fair.as_of,
                        finalized: false,
                        lineage: fair.lineage_digest@,
                        evidence: Some(
                            (coverage, QualityScore { millionths: fair.minimum_included_quality }),
                        ),
                    },
                )
            },
        }
    }
}

impl PriceObservation {
    pub fn try_new(input: PriceObservationInput) -> (result: Result<
        Self,
        FeatureComputationError,
    >)
        ensures
            result is Ok <==> input.event_time.nanos > 0 && input.as_known_at.nanos
                >= input.event_time.nanos && input.lineage_hash@ != zero_digest(),
            result is Err ==> result->Err_0 == FeatureComputationError::InvalidInput,
            result is Ok ==> result->Ok_0@ == (PriceObservationView {
                entity: input.entity@,
                price: input.price,
                event_time: input.event_time,
                as_known_at: input.as_known_at,
                finalized: input.finalized,
                lineage: input.lineage_hash@,
                evidence: None,
            }),
    {
        if input.event_time.value() <= 0 || input.as_known_at.value() < input.event_time.value()
            || is_zero_digest(&input.lineage_hash) {
            return Err(FeatureComputationError::InvalidInput);
        }
        Ok(
            PriceObservation {
                entity: input.entity,
                price: input.price,
                event_time: input.event_time,
                as_known_at: input.as_known_at,
                finalized: input.finalized,
                lineage_hash: input.lineage_hash,
                consolidated_evidence: None,
            },
        )
    }

    pub fn from_consolidated(fair_price: &FairPrice) -> (result: Result<
        Self,
        FeatureComputationError,
    >)
        ensures
            match consolidated_observation(*fair_price) {
                Err(error) => result is Err && result->Err_0 == error,
                Ok(observation) => result is Ok && result->Ok_0@ == observation,
            },
    {
        if fair_price.event_time.value() <= 0 || fair_price.as_of.value()
            < fair_price.event_time.value() {
            return Err(FeatureComputationError::FutureKnowledge);
        }
        let source_coverage = match source_coverage_from_fair_price(fair_price) {
            Err(error) => {
                return Err(error);
            },
            Ok(coverage) => coverage,
        };
        match QualityScore::from_millionths(fair_price.minimum_included_quality) {
            Err(_) => Err(FeatureComputationError::InvalidInput),
            Ok(quality_score) => Ok(
                PriceObservation {
                    entity: FeatureEntity::Asset(fair_price.base_asset.clone()),
                    price: fair_price.price,
                    event_time: fair_price.event_time,
                    as_known_at: fair_price.as_of,
                    finalized: false,
                    lineage_hash: fair_price.lineage_digest,
                    consolidated_evidence: Some(
                        ConsolidatedPriceEvidence { source_coverage, quality_score },
                    ),
                },
            ),
        }
    }

    pub fn price(&self) -> (price: Price)
        ensures
            price == self@.price,
    {
        self.price
    }

    pub fn entity(&self) -> (entity: &FeatureEntity)
        ensures
            entity@ == self@.entity,
    {
        &self.entity
    }

    pub fn event_time(&self) -> (time: UnixNanos)
        ensures
            time == self@.event_time,
    {
        self.event_time
    }

    pub fn as_known_at(&self) -> (time: UnixNanos)
        ensures
            time == self@.as_known_at,
    {
        self.as_known_at
    }

    pub fn is_finalized(&self) -> (finalized: bool)
        ensures
            finalized == self@.finalized,
    {
        self.finalized
    }

    pub fn lineage_hash(&self) -> (lineage: &[u8; 32])
        ensures
            lineage@ == self@.lineage,
    {
        &self.lineage_hash
    }
}

impl Clone for PriceObservation {
    fn clone(&self) -> (copy: Self)
        ensures
            copy@ == self@,
    {
        PriceObservation {
            entity: self.entity.clone(),
            price: self.price,
            event_time: self.event_time,
            as_known_at: self.as_known_at,
            finalized: self.finalized,
            lineage_hash: self.lineage_hash,
            consolidated_evidence: match &self.consolidated_evidence {
                None => None,
                Some(evidence) => Some(
                    ConsolidatedPriceEvidence {
                        source_coverage: evidence.source_coverage.clone(),
                        quality_score: evidence.quality_score,
                    },
                ),
            },
        }
    }
}

fn source_coverage_from_fair_price(fair_price: &FairPrice) -> (result: Result<
    SourceCoverage,
    FeatureComputationError,
>)
    ensures
        match fair_price_coverage(*fair_price) {
            Err(error) => result is Err && result->Err_0 == error,
            Ok(coverage) => result is Ok && result->Ok_0@ == coverage,
        },
{
    let expected = match &fair_price.eligible_sources {
        None => {
            return Err(FeatureComputationError::UntrustedInput);
        },
        Some(eligible) => copy_sources(eligible),
    };
    let mut observed: Vec<SourceCoverageEntry> = Vec::new();
    let mut i: usize = 0;
    while i < fair_price.included.len()
        invariant
            i <= fair_price.included@.len(),
            entry_views(observed@) =~= included_views(fair_price.included@).take(i as int),
        decreases fair_price.included.len() - i,
    {
        let ghost before = observed@;
        observed.push(
            SourceCoverageEntry::new(
                fair_price.included[i].source.clone(),
                fair_price.included[i].health,
            ),
        );
        proof {
            assert(entry_views(observed@) =~= entry_views(before).push(
                (fair_price.included@[i as int].source@, fair_price.included@[i as int].health),
            ));
        }
        i += 1;
    }
    proof {
        let views = included_views(fair_price.included@);
        assert(entry_views(observed@) =~= views);
        assert(entry_sources(observed@) =~= Seq::new(views.len(), |k: int| views[k].0)) by {
            assert forall|k: int| 0 <= k < observed@.len() implies entry_sources(observed@)[k]
                == views[k].0 by {
                assert(entry_views(observed@)[k] == observed@[k]@);
            }
        }
    }
    match SourceCoverage::try_new_partial(expected, observed) {
        Ok(coverage) => Ok(coverage),
        Err(_) => Err(FeatureComputationError::InvalidInput),
    }
}

/// The contents of a list of price observations.
pub open spec fn price_views(observations: Seq<PriceObservation>) -> Seq<PriceObservationView> {
    Seq::new(observations.len(), |i: int| observations[i]@)
}

pub open spec fn price_lineages(observations: Seq<PriceObservationView>) -> Seq<Seq<u8>> {
    Seq::new(observations.len(), |i: int| observations[i].lineage)
}

/// Some observation lies outside the window.
pub open spec fn some_price_outside(
    observations: Seq<PriceObservationView>,
    window: TimeWindow,
) -> bool {
    exists|i: int|
        0 <= i < observations.len() && !window.contains(
            (#[trigger] observations[i]).event_time.nanos,
        )
}

pub open spec fn some_price_of_another(
    observations: Seq<PriceObservationView>,
    entity: EntityView,
) -> bool {
    exists|i: int| 0 <= i < observations.len() && (#[trigger] observations[i]).entity != entity
}

pub open spec fn some_price_unknown_at(
    observations: Seq<PriceObservationView>,
    as_of: UnixNanos,
) -> bool {
    exists|i: int|
        0 <= i < observations.len() && (#[trigger] observations[i]).as_known_at.nanos
            > as_of.nanos
}

/// Event times strictly increase.
pub open spec fn prices_in_time_order(observations: Seq<PriceObservationView>) -> bool {
    forall|i: int, j: int|
        0 <= i < j < observations.len() ==> (#[trigger] observations[i]).event_time.nanos < (
        #[trigger] observations[j]).event_time.nanos
}

/// Why observations do not make a price window, if they do not.
pub open spec fn price_window_refusal(
    window: TimeWindow,
    entity: EntityView,
    as_of: UnixNanos,
    observations: Seq<PriceObservationView>,
) -> Option<FeatureComputationError> {
    if observations.len() > MAX_PRICE_OBSERVATIONS {
        Some(FeatureComputationError::CapacityExceeded)
    } else if observations.len() == 0 {
        Some(FeatureComputationError::InsufficientHistory)
    } else if as_of.nanos <= 0 {
        Some(FeatureComputationError::InvalidInput)
    } else if some_price_outside(observations, window) {
        Some(FeatureComputationError::OutsideWindow)
    } else if some_price_of_another(observations, entity) {
        Some(FeatureComputationError::MixedEntity)
    } else if some_price_unknown_at(observations, as_of) {
        Some(FeatureComputationError::FutureKnowledge)
    } else if !prices_in_time_order(observations) {
        Some(FeatureComputationError::NonMonotonicTime)
    } else if !price_lineages(observations).no_duplicates() {
        Some(FeatureComputationError::DuplicateLineage)
    } else {
        None
    }
}

/// The bytes by which a price observation enters a window's lineage.
pub open spec fn price_encoding(observation: PriceObservationView) -> Seq<u8> {
    encoded_i64(observation.event_time.nanos) + encoded_i64(observation.as_known_at.nanos) + seq![
        if observation.finalized {
            1u8
        } else {
            0u8
        },
    ] + framed(observation.price.amount().ascii()) + observation.lineage
}

pub open spec fn prices_encoding(observations: Seq<PriceObservationView>) -> Seq<u8>
    decreases observations.len(),
{
    if observations.len() == 0 {
        Seq::empty()
    } else {
        prices_encoding(observations.drop_last()) + price_encoding(observations.last())
    }
}

/// The lineage of a price window.
pub open spec fn price_window_lineage(
    window: TimeWindow,
    entity: EntityView,
    as_of: UnixNanos,
    observations: Seq<PriceObservationView>,
) -> Seq<u8> {
    blake3_digest(
        utf8("crypto-intelligence/price-window-input/v1"@) + encoded_i64(window.lower())
            + encoded_i64(window.upper()) + encoded_i64(as_of.nanos) + entity_encoding(entity)
            + encoded_u64(observations.len() as u64) + prices_encoding(observations),
    )
}

/// The contents of a [`PriceWindow`].
pub struct PriceWindowView {
    pub window: TimeWindow,
    pub entity: EntityView,
    pub as_of: UnixNanos,
    pub observations: Seq<PriceObservationView>,
    pub lineage: Seq<u8>,
    pub finalization: Option<DecisionView>,
    pub coverage: Option<CoverageView>,
    pub quality: Option<QualityScore>,
}

/// Prices of one entity inside one window, as known at one time.
#[derive(Debug)]
pub struct PriceWindow {
    time_window: TimeWindow,
    entity: FeatureEntity,
    as_of: UnixNanos,
    observations: Vec<PriceObservation>,
    input_lineage_digest: [u8; 32],
    finalization: Option<FinalizationDecision>,
    source_coverage: Option<SourceCoverage>,
    quality_score: Option<QualityScore>,
}

pub open spec fn decision_view(decision: Option<FinalizationDecision>) -> Option<DecisionView> {
    match decision {
        Some(decision) => Some(decision@),
        None => None,
    }
}

pub open spec fn coverage_view(coverage: Option<SourceCoverage>) -> Option<CoverageView> {
    match coverage {
        Some(coverage) => Some(coverage@),
        None => None,
    }
}

impl View for PriceWindow {
    type V = PriceWindowView;

    closed spec fn view(&self) -> PriceWindowView {
        PriceWindowView {
            window: self.time_window,
            entity: self.entity@,
            as_of: self.as_of,
            observations: price_views(self.observations@),
            lineage: self.input_lineage_digest@,
            finalization: decision_view(self.finalization),
            coverage: coverage_view(self.source_coverage),
            quality: self.quality_score,
        }
    }
}

/// The latest time at which an observation of the list was known.
pub open spec fn latest_price_knowledge(observations: Seq<PriceObservationView>) -> UnixNanos
    decreases observations.len(),
{
    if observations.len() <= 1 {
        observations[0].as_known_at
    } else {
        latest_price_knowledge(observations.drop_last()).later(observations.last().as_known_at)
    }
}

/// The evidence that all observations of a list share, with the lowest of their scores.
pub open spec fn shared_evidence(observations: Seq<PriceObservationView>) -> Result<
    (CoverageView, QualityScore),
    FeatureComputationError,
>
    decreases observations.len(),
{
    if observations.len() == 0 {
        Err(FeatureComputationError::UntrustedInput)
    } else if observations.len() == 1 {
        match observations[0].evidence {
            None => Err(FeatureComputationError::UntrustedInput),
            Some(evidence) => Ok(evidence),
        }
    } else {
        match shared_evidence(observations.drop_last()) {
            Err(error) => Err(error),
            Ok((coverage, quality)) => match observations.last().evidence {
                None => Err(FeatureComputationError::UntrustedInput),
                Some(evidence) => if evidence.0 != coverage {
                    Err(FeatureComputationError::EligibleUniverseChanged)
                } else {
                    Ok((coverage, quality.lower(evidence.1)))
                },
            },
        }
    }
}

/// A current decision of a tracker that is scoped to an entity.
pub open spec fn validated(
    tracker: TrackerView,
    decision: DecisionView,
    entity: EntityView,
) -> bool {
    tracker.vouches_for(decision) && decision.entity == Some(entity_fingerprint(entity))
}

/// The window that a decision gives over observations, or why it gives none.
pub open spec fn finalized_price_window(
    entity: EntityView,
    tracker: TrackerView,
    decision: DecisionView,
    observations: Seq<PriceObservationView>,
) -> Result<PriceWindowView, FeatureComputationError> {
    let as_of = latest_price_knowledge(observations);
    if observations.len() > MAX_PRICE_OBSERVATIONS {
        Err(FeatureComputationError::CapacityExceeded)
    } else if observations.len() == 0 {
        Err(FeatureComputationError::InsufficientHistory)
    } else if !validated(tracker, decision, entity) {
        Err(FeatureComputationError::UntrustedInput)
    } else {
        match price_window_refusal(decision.window, entity, as_of, observations) {
            Some(error) => Err(error),
            None => match shared_evidence(observations) {
                Err(error) => Err(error),
                Ok((coverage, quality)) => if decision.required_count != coverage.0.len()
                    || decision.required_digest != sources_fingerprint(coverage.0) {
                    Err(FeatureComputationError::UntrustedInput)
                } else {
                    Ok(
                        PriceWindowView {
                            window: decision.window,
                            entity,
                            as_of,
                            observations,
                            lineage: price_window_lineage(
                                decision.window,
                                entity,
                                as_of,
                                observations,
                            ),
                            finalization: Some(decision),
                            coverage: Some(coverage),
                            quality: Some(quality),
                        },
                    )
                },
            },
        }
    }
}

impl PriceWindowView {
    /// Why an observation does not close the window, if it does not.
    pub open spec fn closing_refusal(self, closing: PriceObservationView) -> Option<
        FeatureComputationError,
    > {
        if closing.entity != self.entity || closing.event_time.nanos != self.window.upper()
            || closing.as_known_at.nanos < self.as_of.nanos {
            Some(FeatureComputationError::InvalidInput)
        } else if closing.evidence is None {
            Some(FeatureComputationError::UntrustedInput)
        } else if Some(closing.evidence->Some_0.0) != self.coverage {
            Some(FeatureComputationError::EligibleUniverseChanged)
        } else {
            None
        }
    }

    /// The lineage of the window together with its closing observation.
    pub open spec fn closing_lineage(self, closing: PriceObservationView) -> Result<
        Seq<u8>,
        FeatureComputationError,
    > {
        match (self.closing_refusal(closing), self.finalization) {
            (Some(error), _) => Err(error),
            (None, None) => Err(FeatureComputationError::UntrustedInput),
            (None, Some(decision)) => Ok(
                blake3_digest(
                    utf8("crypto-intelligence/price-window-with-close/v1"@) + self.lineage
                        + blake3_digest(decision_encoding(decision)) + closing.lineage
                        + encoded_i64(closing.event_time.nanos) + framed(
                        closing.price.amount().ascii(),
                    ),
                ),
            ),
        }
    }

    /// The lineage of the window together with its decision.
    pub open spec fn finalized_lineage(self) -> Result<Seq<u8>, FeatureComputationError> {
        match self.finalization {
            None => Err(FeatureComputationError::UntrustedInput),
            Some(decision) => Ok(
                blake3_digest(
                    utf8("crypto-intelligence/finalized-price-window/v1"@) + self.lineage
                        + blake3_digest(decision_encoding(decision)),
                ),
            ),
        }
    }

    /// The lower score of the window and of its closing observation.
    pub open spec fn closing_quality(self, closing: PriceObservationView) -> Result<
        QualityScore,
        FeatureComputationError,
    > {
        match (self.closing_refusal(closing), self.quality) {
            (Some(error), _) => Err(error),
            (None, None) => Err(FeatureComputationError::UntrustedInput),
            (None, Some(quality)) => Ok(quality.lower(closing.evidence->Some_0.1)),
        }
    }
}

fn check_price_window(
    time_window: TimeWindow,
    entity: &FeatureEntity,
    as_of: UnixNanos,
    observations: &Vec<PriceObservation>,
) -> (result: Result<(), FeatureComputationError>)
    ensures
        match price_window_refusal(time_window, entity@, as_of, price_views(observations@)) {
            Some(error) => result == Err::<(), FeatureComputationError>(error),
            None => result == Ok::<(), FeatureComputationError>(()),
        },
{
    let ghost views = price_views(observations@);
    if observations.len() > MAX_PRICE_OBSERVATIONS {
        return Err(FeatureComputationError::CapacityExceeded);
    }
    if observations.len() == 0 {
        return Err(FeatureComputationError::InsufficientHistory);
    }
    if as_of.value() <= 0 {
        return Err(FeatureComputationError::InvalidInput);
    }
    let start: i64 = time_window.start().value();
    let end: i64 = time_window.end().value();
    let mut inside: bool = true;
    let mut one_entity: bool = true;
    let mut known: bool = true;
    let mut ordered: bool = true;
    let mut lineages: Vec<[u8; 32]> = Vec::new();
    let mut i: usize = 0;
    while i < observations.len()
        invariant
            i <= observations@.len(),
            views == price_views(observations@),
            start == time_window.lower(),
            end == time_window.upper(),
            inside == forall|k: int|
                0 <= k < i ==> time_window.contains((#[trigger] views[k]).event_time.nanos),
            one_entity == forall|k: int| 0 <= k < i ==> (#[trigger] views[k]).entity == entity@,
            known == forall|k: int|
                0 <= k < i ==> (#[trigger] views[k]).as_known_at.nanos <= as_of.nanos,
            ordered == prices_in_time_order(views.take(i as int)),
            lineages@.len() == i,
            forall|k: int| 0 <= k < i ==> (#[trigger] lineages@[k])@ == views[k].lineage,
        decreases observations.len() - i,
    {
        let observation = &observations[i];
        let time: i64 = observation.event_time.value();
        proof {
            assert(views[i as int] == observations@[i as int]@);
            lemma_time_order_extends(views, i as int);
        }
        if time < start || time >= end {
            inside = false;
        }
        if !observation.entity.same(entity) {
            one_entity = false;
        }
        if observation.as_known_at.value() > as_of.value() {
            known = false;
        }
        if i > 0 && observations[i - 1].event_time.value() >= time {
            ordered = false;
        }
        lineages.push(observation.lineage_hash);
        i += 1;
    }
    proof {
        assert(views.take(observations@.len() as int) =~= views);
        assert(digest_views(lineages@) =~= price_lineages(views));
    }
    if !inside {
        return Err(FeatureComputationError::OutsideWindow);
    }
    if !one_entity {
        return Err(FeatureComputationError::MixedEntity);
    }
    if !known {
        return Err(FeatureComputationError::FutureKnowledge);
    }
    if !ordered {
        return Err(FeatureComputationError::NonMonotonicTime);
    }
    if !distinct_digests(lineages) {
        return Err(FeatureComputationError::DuplicateLineage);
    }
    Ok(())
}

/// A longer list is in time order where its head is, and its last item is later than the one
/// before.
proof fn lemma_time_order_extends(views: Seq<PriceObservationView>, i: int)
    requires
        0 <= i < views.len(),
    ensures
        prices_in_time_order(views.take(i + 1)) <==> prices_in_time_order(views.take(i)) && (i > 0
            ==> views[i - 1].event_time.nanos < views[i].event_time.nanos),
{
    let shorter = views.take(i);
    let longer = views.take(i + 1);
    if prices_in_time_order(longer) {
        assert forall|a: int, b: int| 0 <= a < b < shorter.len() implies (
        #[trigger] shorter[a]).event_time.nanos < (#[trigger] shorter[b]).event_time.nanos by {
            assert(longer[a] == shorter[a] && longer[b] == shorter[b]);
        }
        if i > 0 {
            assert(longer[i - 1] == views[i - 1] && longer[i] == views[i]);
        }
    }
    if prices_in_time_order(shorter) && (i > 0 ==> views[i - 1].event_time.nanos
        < views[i].event_time.nanos) {
        assert forall|a: int, b: int| 0 <= a < b < longer.len() implies (
        #[trigger] longer[a]).event_time.nanos < (#[trigger] longer[b]).event_time.nanos by {
            assert(longer[a] == shorter[a]);
            if b < i {
                assert(longer[b] == shorter[b]);
            } else if a < i - 1 {
                assert(shorter[a].event_time.nanos < shorter[i - 1].event_time.nanos);
            }
        }
    }
}

fn price_window_lineage_digest(
    time_window: TimeWindow,
    entity: &FeatureEntity,
    as_of: UnixNanos,
    observations: &Vec<PriceObservation>,
) -> (digest: [u8; 32])
    ensures
        digest@ == price_window_lineage(time_window, entity@, as_of, price_views(observations@)),
{
    let ghost views = price_views(observations@);
    let mut buffer: Vec<u8> = Vec::new();
    put_bytes(&mut buffer, "crypto-intelligence/price-window-input/v1".as_bytes());
    put_i64(&mut buffer, time_window.start().value());
    put_i64(&mut buffer, time_window.end().value());
    put_i64(&mut buffer, as_of.value());
    entity.put(&mut buffer);
    put_u64(&mut buffer, observations.len() as u64);
    let ghost head = utf8("crypto-intelligence/price-window-input/v1"@) + encoded_i64(
        time_window.lower(),
    ) + encoded_i64(time_window.upper()) + encoded_i64(as_of.nanos) + entity_encoding(entity@)
        + encoded_u64(observations@.len() as u64);
    let mut i: usize = 0;
    proof {
        assert(views.take(0) =~= Seq::empty());
        assert(buffer@ =~= head + prices_encoding(views.take(0)));
    }
    while i < observations.len()
        invariant
            i <= observations@.len(),
            views == price_views(observations@),
            buffer@ == head + prices_encoding(views.take(i as int)),
        decreases observations.len() - i,
    {
        let observation = &observations[i];
        put_i64(&mut buffer, observation.event_time.value());
        put_i64(&mut buffer, observation.as_known_at.value());
        buffer.push(
            if observation.finalized {
                1
            } else {
                0
            },
        );
        let text = observation.price.value().to_ascii();
        put_framed(&mut buffer, text.as_slice());
        put_bytes(&mut buffer, observation.lineage_hash.as_slice());
        proof {
            assert(views.take(i + 1).drop_last() =~= views.take(i as int));
            assert(views.take(i + 1).last() == observations@[i as int]@);
            assert(buffer@ =~= head + prices_encoding(views.take(i + 1)));
        }
        i += 1;
    }
    proof {
        assert(views.take(observations@.len() as int) =~= views);
    }
    blake3_hash(buffer.as_slice())
}

/// The evidence that all observations share.
fn aggregate_consolidated_evidence(observations: &Vec<PriceObservation>) -> (result: Result<
    (SourceCoverage, QualityScore),
    FeatureComputationError,
>)
    ensures
        match shared_evidence(price_views(observations@)) {
            Err(error) => result is Err && result->Err_0 == error,
            Ok((coverage, quality)) => result is Ok && result->Ok_0.0@ == coverage
                && result->Ok_0.1 == quality,
        },
{
    let ghost views = price_views(observations@);
    if observations.len() == 0 {
        return Err(FeatureComputationError::UntrustedInput);
    }
    proof {
        assert(views[0] == observations@[0]@);
    }
    let (coverage, first_quality) = match &observations[0].consolidated_evidence {
        None => {
            proof {
                lemma_shared_evidence_error(views, 1, FeatureComputationError::UntrustedInput);
            }
            return Err(FeatureComputationError::UntrustedInput);
        },
        Some(evidence) => (evidence.source_coverage.clone(), evidence.quality_score),
    };
    let mut quality = first_quality;
    let mut i: usize = 1;
    proof {
        assert(views.take(1)[0] == views[0]);
    }
    while i < observations.len()
        invariant
            1 <= i <= observations@.len(),
            views == price_views(observations@),
            shared_evidence(views.take(i as int)) == Ok::<
                (CoverageView, QualityScore),
                FeatureComputationError,
            >((coverage@, quality)),
        decreases observations.len() - i,
    {
        proof {
            assert(views.take(i + 1).drop_last() =~= views.take(i as int));
            assert(views.take(i + 1).last() == observations@[i as int]@);
        }
        match &observations[i].consolidated_evidence {
            None => {
                proof {
                    lemma_shared_evidence_error(
                        views,
                        i + 1,
                        FeatureComputationError::UntrustedInput,
                    );
                }
                return Err(FeatureComputationError::UntrustedInput);
            },
            Some(evidence) => {
                if !evidence.source_coverage.same(&coverage) {
                    proof {
                        lemma_shared_evidence_error(
                            views,
                            i + 1,
                            FeatureComputationError::EligibleUniverseChanged,
                        );
                    }
                    return Err(FeatureComputationError::EligibleUniverseChanged);
                }
                quality = quality.min_of(evidence.quality_score);
            },
        }
        i += 1;
    }
    proof {
        assert(views.take(observations@.len() as int) =~= views);
    }
    Ok((coverage, quality))
}

/// The first failure decides.
proof fn lemma_shared_evidence_error(
    views: Seq<PriceObservationView>,
    count: int,
    error: FeatureComputationError,
)
    requires
        1 <= count <= views.len(),
        shared_evidence(views.take(count)) == Err::<
            (CoverageView, QualityScore),
            FeatureComputationError,
        >(error) || (count == 1 && views[0].evidence is None && error
            == FeatureComputationError::UntrustedInput),
    ensures
        shared_evidence(views) == Err::<(CoverageView, QualityScore), FeatureComputationError>(
            error,
        ),
    decreases views.len() - count,
{
    assert(views.take(1)[0] == views[0]);
    if count < views.len() {
        assert(views.take(count + 1).drop_last() =~= views.take(count));
        lemma_shared_evidence_error(views, count + 1, error);
    } else {
        assert(views.take(count) =~= views);
    }
}

fn latest_knowledge(observations: &Vec<PriceObservation>) -> (time: UnixNanos)
    requires
        observations@.len() > 0,
    ensures
        time == latest_price_knowledge(price_views(observations@)),
{
    let ghost views = price_views(observations@);
    let mut latest = observations[0].as_known_at;
    let mut i: usize = 1;
    proof {
        assert(views.take(1)[0] == observations@[0]@);
    }
    while i < observations.len()
        invariant
            1 <= i <= observations@.len(),
            views == price_views(observations@),
            latest == latest_price_knowledge(views.take(i as int)),
        decreases observations.len() - i,
    {
        proof {
            assert(views.take(i + 1).drop_last() =~= views.take(i as int));
            assert(views.take(i + 1).last() == observations@[i as int]@);
        }
        latest = latest.max_of(observations[i].as_known_at);
        i += 1;
    }
    proof {
        assert(views.take(observations@.len() as int) =~= views);
    }
    latest
}

impl Clone for PriceWindow {
    fn clone(&self) -> (copy: Self)
        ensures
            copy@ == self@,
    {
        proof {
            use_type_invariant(self);
        }
        let mut observations: Vec<PriceObservation> = Vec::new();
        let mut i: usize = 0;
        while i < self.observations.len()
            invariant
                i <= self.observations@.len(),
                observations@.len() == i,
                forall|k: int| 0 <= k < i ==> (#[trigger] observations@[k])@ == self.observations@[k]@,
            decreases self.observations.len() - i,
        {
            observations.push(self.observations[i].clone());
            i += 1;
        }
        proof {
            assert(price_views(observations@) =~= price_views(self.observations@));
        }
        PriceWindow {
            time_window: self.time_window,
            entity: self.entity.clone(),
            as_of: self.as_of,
            observations,
            input_lineage_digest: self.input_lineage_digest,
            finalization: self.finalization,
            source_coverage: match &self.source_coverage {
                None => None,
                Some(coverage) => Some(coverage.clone()),
            },
            quality_score: self.quality_score,
        }
    }
}

impl PriceWindow {
    /// The observations are such as a window is made of.
    #[verifier::type_invariant]
    spec fn valid(self) -> bool {
        price_window_refusal(
            self.time_window,
            self.entity@,
            self.as_of,
            price_views(self.observations@),
        ) is None
    }

    pub fn try_new(
        time_window: TimeWindow,
        entity: FeatureEntity,
        as_of: UnixNanos,
        observations: Vec<PriceObservation>,
    ) -> (result: Result<Self, FeatureComputationError>)
        ensures
            match price_window_refusal(time_window, entity@, as_of, price_views(observations@)) {
                Some(error) => result is Err && result->Err_0 == error,
                None => result is Ok && result->Ok_0@ == PriceWindowView {
                    window: time_window,
                    entity: entity@,
                    as_of,
                    observations: price_views(observations@),
                    lineage: price_window_lineage(
                        time_window,
                        entity@,
                        as_of,
                        price_views(observations@),
                    ),
                    finalization: None,
                    coverage: None,
                    quality: None,
                },
            },
    {
        if let Err(error) = check_price_window(time_window, &entity, as_of, &observations) {
            return Err(error);
        }
        let input_lineage_digest = price_window_lineage_digest(
            time_window,
            &entity,
            as_of,
            &observations,
        );
        Ok(
            PriceWindow {
                time_window,
                entity,
                as_of,
                observations,
                input_lineage_digest,
                finalization: None,
                source_coverage: None,
                quality_score: None,
            },
        )
    }

    /// A window bound to a current decision, whose observations share the sources that the
    /// decision required.
    pub fn try_from_finalization(
        entity: FeatureEntity,
        tracker: &WatermarkTracker,
        finalization: FinalizationDecision,
        observations: Vec<PriceObservation>,
    ) -> (result: Result<Self, FeatureComputationError>)
        ensures
            match finalized_price_window(
                entity@,
                tracker@,
                finalization@,
                price_views(observations@),
            ) {
                Err(error) => result is Err && result->Err_0 == error,
                Ok(window) => result is Ok && result->Ok_0@ == window,
            },
    {
        if observations.len() > MAX_PRICE_OBSERVATIONS {
            return Err(FeatureComputationError::CapacityExceeded);
        }
        if observations.len() == 0 {
            return Err(FeatureComputationError::InsufficientHistory);
        }
        let as_of = latest_knowledge(&observations);
        let time_window = finalization.window();
        if !tracker.validates_decision(finalization, &entity) {
            return Err(FeatureComputationError::UntrustedInput);
        }
        if let Err(error) = check_price_window(time_window, &entity, as_of, &observations) {
            return Err(error);
        }
        let (source_coverage, quality_score) = match aggregate_consolidated_evidence(
            &observations,
        ) {
            Err(error) => {
                return Err(error);
            },
            Ok(evidence) => evidence,
        };
        if !finalization.matches_required_sources(&source_coverage.expected) {
            return Err(FeatureComputationError::UntrustedInput);
        }
        let input_lineage_digest = price_window_lineage_digest(
            time_window,
            &entity,
            as_of,
            &observations,
        );
        Ok(
            PriceWindow {
                time_window,
                entity,
                as_of,
                observations,
                input_lineage_digest,
                finalization: Some(finalization),
                source_coverage: Some(source_coverage),
                quality_score: Some(quality_score),
            },
        )
    }

    pub fn time_window(&self) -> (window: TimeWindow)
        ensures
            window == self@.window,
    {
        self.time_window
    }

    pub fn entity(&self) -> (entity: &FeatureEntity)
        ensures
            entity@ == self@.entity,
    {
        &self.entity
    }

    pub fn as_of(&self) -> (time: UnixNanos)
        ensures
            time == self@.as_of,
    {
        self.as_of
    }

    pub fn observations(&self) -> (observations: &Vec<PriceObservation>)
        ensures
            price_views(observations@) == self@.observations,
    {
        &self.observations
    }

    /// The number of observations, never more than a window holds.
    pub fn observation_count(&self) -> (count: usize)
        ensures
            count == self@.observations.len(),
            count <= MAX_PRICE_OBSERVATIONS,
    {
        proof {
            use_type_invariant(self);
        }
        self.observations.len()
    }

    pub fn input_lineage_digest(&self) -> (digest: [u8; 32])
        ensures
            digest@ == self@.lineage,
    {
        self.input_lineage_digest
    }

    pub fn finalization(&self) -> (decision: Option<FinalizationDecision>)
        ensures
            decision_view(decision) == self@.finalization,
    {
        self.finalization
    }

    pub fn source_coverage(&self) -> (coverage: Option<&SourceCoverage>)
        ensures
            match coverage {
                Some(coverage) => self@.coverage == Some(coverage@),
                None => self@.coverage is None,
            },
    {
        match &self.source_coverage {
            Some(coverage) => Some(coverage),
            None => None,
        }
    }

    pub fn quality_score(&self) -> (quality: Option<QualityScore>)
        ensures
            quality == self@.quality,
    {
        self.quality_score
    }

    /// Whether an observation closes the window: it lies on the window's end and rests on the
    /// same sources.
    pub fn validates_consolidated_closing_observation(&self, closing: &PriceObservation) -> (result:
        Result<(), FeatureComputationError>)
        ensures
            match self@.closing_refusal(closing@) {
                Some(error) => result == Err::<(), FeatureComputationError>(error),
                None => result == Ok::<(), FeatureComputationError>(()),
            },
    {
        if !closing.entity.same(&self.entity) || closing.event_time.value()
            != self.time_window.end().value() || closing.as_known_at.value() < self.as_of.value() {
            return Err(FeatureComputationError::InvalidInput);
        }
        match &closing.consolidated_evidence {
            None => Err(FeatureComputationError::UntrustedInput),
            Some(evidence) => match &self.source_coverage {
                None => Err(FeatureComputationError::EligibleUniverseChanged),
                Some(coverage) => if evidence.source_coverage.same(coverage) {
                    Ok(())
                } else {
                    Err(FeatureComputationError::EligibleUniverseChanged)
                },
            },
        }
    }

    pub fn closing_lineage_digest(&self, closing: &PriceObservation) -> (result: Result<
        [u8; 32],
        FeatureComputationError,
    >)
        ensures
            match self@.closing_lineage(closing@) {
                Err(error) => result is Err && result->Err_0 == error,
                Ok(digest) => result is Ok && result->Ok_0@ == digest,
            },
    {
        if let Err(error) = self.validates_consolidated_closing_observation(closing) {
            return Err(error);
        }
        let decision = match self.finalization {
            None => {
                return Err(FeatureComputationError::UntrustedInput);
            },
            Some(decision) => decision,
        };
        let mut buffer: Vec<u8> = Vec::new();
        put_bytes(&mut buffer, "crypto-intelligence/price-window-with-close/v1".as_bytes());
        put_bytes(&mut buffer, self.input_lineage_digest.as_slice());
        let evidence = decision.evidence_digest();
        put_bytes(&mut buffer, evidence.as_slice());
        put_bytes(&mut buffer, closing.lineage_hash.as_slice());
        put_i64(&mut buffer, closing.event_time.value());
        let text = closing.price.value().to_ascii();
        put_framed(&mut buffer, text.as_slice());
        proof {
            assert(buffer@ =~= utf8("crypto-intelligence/price-window-with-close/v1"@)
                + self@.lineage + blake3_digest(decision_encoding(decision@)) + closing@.lineage
                + encoded_i64(closing@.event_time.nanos) + framed(
                closing@.price.amount().ascii(),
            ));
        }
        Ok(blake3_hash(buffer.as_slice()))
    }

    pub fn finalized_lineage_digest(&self) -> (result: Result<[u8; 32], FeatureComputationError>)
        ensures
            match self@.finalized_lineage() {
                Err(error) => result is Err && result->Err_0 == error,
                Ok(digest) => result is Ok && result->Ok_0@ == digest,
            },
    {
        let decision = match self.finalization {
            None => {
                return Err(FeatureComputationError::UntrustedInput);
            },
            Some(decision) => decision,
        };
        let mut buffer: Vec<u8> = Vec::new();
        put_bytes(&mut buffer, "crypto-intelligence/finalized-price-window/v1".as_bytes());
        put_bytes(&mut buffer, self.input_lineage_digest.as_slice());
        let evidence = decision.evidence_digest();
        put_bytes(&mut buffer, evidence.as_slice());
        proof {
            assert(buffer@ =~= utf8("crypto-intelligence/finalized-price-window/v1"@)
                + self@.lineage + blake3_digest(decision_encoding(decision@)));
        }
        Ok(blake3_hash(buffer.as_slice()))
    }

    pub fn quality_with_closing(&self, closing: &PriceObservation) -> (result: Result<
        QualityScore,
        FeatureComputationError,
    >)
        ensures
            result == self@.closing_quality(closing@),
    {
        if let Err(error) = self.validates_consolidated_closing_observation(closing) {
            return Err(error);
        }
        match (self.quality_score, &closing.consolidated_evidence) {
            (Some(quality), Some(evidence)) => Ok(quality.min_of(evidence.quality_score)),
            _ => Err(FeatureComputationError::UntrustedInput),
        }
    }
}

/// The contents of a [`TradeObservation`].
pub struct TradeObservationView {
    pub asset: AssetView,
    pub price: Price,
    pub quantity: Quantity,
    pub event_time: UnixNanos,
    pub as_known_at: UnixNanos,
    pub source: SourceView,
    pub quality: QualityScore,
    pub lineage: Seq<u8>,
}

/// A trade, interpreted by the definition of its instrument.
#[derive(Debug)]
pub struct TradeObservation {
    asset: AssetId,
    price: Price,
    quantity: Quantity,
    event_time: UnixNanos,
    as_known_at: UnixNanos,
    source: SourceId,
    quality_score: QualityScore,
    lineage_hash: [u8; 32],
}

impl View for TradeObservation {
    type V = TradeObservationView;

    closed spec fn view(&self) -> TradeObservationView {
        TradeObservationView {
            asset: self.asset@,
            price: self.price,
            quantity: self.quantity,
            event_time: self.event_time,
            as_known_at: self.as_known_at,
            source: self.source@,
            quality: self.quality_score,
            lineage: self.lineage_hash@,
        }
    }
}

/// The trade that an event reports of an instrument, or why it reports none.
pub open spec fn trade_of_event(
    event: NormalizedEvent,
    instrument: InstrumentDefinition,
) -> Result<TradeObservationView, FeatureComputationError> {
    if !event.verified {
        Err(FeatureComputationError::UntrustedInput)
    } else if !event.metadata.concerns(instrument.id) {
        Err(FeatureComputationError::MixedEntity)
    } else if !event.metadata.published_by_venue_of(instrument.id) {
        Err(FeatureComputationError::UntrustedInput)
    } else {
        match (event.payload, event.metadata.event_time_of()) {
            (EventPayload::Trade { price, quantity, side }, Some(event_time)) => {
                if !instrument.listed_at(event_time) || event.metadata.normalization_timestamp.nanos
                    < event_time.nanos {
                    Err(FeatureComputationError::FutureKnowledge)
                } else if event.metadata.quality_score_ppm > 1_000_000 {
                    Err(FeatureComputationError::InvalidInput)
                } else {
                    Ok(
                        TradeObservationView {
                            asset: instrument.base_asset@,
                            price,
                            quantity,
                            event_time,
                            as_known_at: event.metadata.normalization_timestamp,
                            source: event.metadata.source@,
                            quality: QualityScore { millionths: event.metadata.quality_score_ppm },
                            lineage: event.id@,
                        },
                    )
                }
            },
            _ => Err(FeatureComputationError::InvalidInput),
        }
    }
}

impl TradeObservation {
    /// Derives a feature-safe trade from a fully validated normalized event and the exact
    /// instrument definition used to interpret it.
    pub fn try_from_event(event: &NormalizedEvent, instrument: &InstrumentDefinition) -> (result:
        Result<Self, FeatureComputationError>)
        ensures
            match trade_of_event(*event, *instrument) {
                Err(error) => result is Err && result->Err_0 == error,
                Ok(trade) => result is Ok && result->Ok_0@ == trade,
            },
    {
        if !event.verified {
            return Err(FeatureComputationError::UntrustedInput);
        }
        let metadata = &event.metadata;
        if !metadata.is_about(&instrument.id) {
            return Err(FeatureComputationError::MixedEntity);
        }
        if !metadata.is_published_by_venue_of(&instrument.id) {
            return Err(FeatureComputationError::UntrustedInput);
        }
        let (price, quantity) = match &event.payload {
            EventPayload::Trade { price, quantity, .. } => (*price, *quantity),
            _ => {
                return Err(FeatureComputationError::InvalidInput);
            },
        };
        let event_time = match metadata.event_time() {
            None => {
                return Err(FeatureComputationError::InvalidInput);
            },
            Some(event_time) => event_time,
        };
        if !instrument.is_listed_at(event_time) || metadata.normalization_timestamp.value()
            < event_time.value() {
            return Err(FeatureComputationError::FutureKnowledge);
        }
        match QualityScore::from_millionths(metadata.quality_score_ppm) {
            Err(_) => Err(FeatureComputationError::InvalidInput),
            Ok(quality_score) => Ok(
                TradeObservation {
                    asset: instrument.base_asset.clone(),
                    price,
                    quantity,
                    event_time,
                    as_known_at: metadata.normalization_timestamp,
                    source: metadata.source.clone(),
                    quality_score,
                    lineage_hash: event.id,
                },
            ),
        }
    }

    pub fn event_time(&self) -> (time: UnixNanos)
        ensures
            time == self@.event_time,
    {
        self.event_time
    }
}

/// The contents of a list of trades.
pub open spec fn trade_views(observations: Seq<TradeObservation>) -> Seq<TradeObservationView> {
    Seq::new(observations.len(), |i: int| observations[i]@)
}

pub open spec fn trade_lineages(trades: Seq<TradeObservationView>) -> Seq<Seq<u8>> {
    Seq::new(trades.len(), |i: int| trades[i].lineage)
}

pub open spec fn some_trade_of_another(
    trades: Seq<TradeObservationView>,
    asset: AssetView,
) -> bool {
    exists|i: int| 0 <= i < trades.len() && (#[trigger] trades[i]).asset != asset
}

pub open spec fn some_trade_outside(
    trades: Seq<TradeObservationView>,
    window: TimeWindow,
) -> bool {
    exists|i: int|
        0 <= i < trades.len() && !window.contains((#[trigger] trades[i]).event_time.nanos)
}

/// Event times strictly increase.
pub open spec fn trades_in_time_order(trades: Seq<TradeObservationView>) -> bool {
    forall|i: int, j: int|
        0 <= i < j < trades.len() ==> (#[trigger] trades[i]).event_time.nanos < (
        #[trigger] trades[j]).event_time.nanos
}

/// Some trade comes from the source.
pub open spec fn contributes(trades: Seq<TradeObservationView>, source: SourceView) -> bool {
    exists|i: int| 0 <= i < trades.len() && (#[trigger] trades[i]).source == source
}

/// The entries of the sources that some trade comes from.
pub open spec fn contributing_entries(
    entries: Seq<(SourceView, SourceHealthState)>,
    trades: Seq<TradeObservationView>,
) -> Seq<(SourceView, SourceHealthState)>
    decreases entries.len(),
{
    if entries.len() == 0 {
        Seq::empty()
    } else {
        let before = contributing_entries(entries.drop_last(), trades);
        if contributes(trades, entries.last().0) {
            before.push(entries.last())
        } else {
            before
        }
    }
}

/// Some trade comes from a source that is not expected.
pub open spec fn some_trade_unexpected(
    trades: Seq<TradeObservationView>,
    expected: Seq<SourceView>,
) -> bool {
    exists|i: int| 0 <= i < trades.len() && !expected.contains((#[trigger] trades[i]).source)
}

pub open spec fn latest_trade_knowledge(trades: Seq<TradeObservationView>) -> UnixNanos
    decreases trades.len(),
{
    if trades.len() <= 1 {
        trades[0].as_known_at
    } else {
        latest_trade_knowledge(trades.drop_last()).later(trades.last().as_known_at)
    }
}

pub open spec fn lowest_trade_quality(trades: Seq<TradeObservationView>) -> QualityScore
    decreases trades.len(),
{
    if trades.len() <= 1 {
        trades[0].quality
    } else {
        lowest_trade_quality(trades.drop_last()).lower(trades.last().quality)
    }
}

/// The bytes by which a trade enters a window's lineage.
pub open spec fn trade_encoding(trade: TradeObservationView) -> Seq<u8> {
    encoded_i64(trade.event_time.nanos) + encoded_i64(trade.as_known_at.nanos) + trade.lineage
        + framed(trade.price.amount().ascii()) + framed(trade.quantity.amount().ascii())
}

pub open spec fn trades_encoding(trades: Seq<TradeObservationView>) -> Seq<u8>
    decreases trades.len(),
{
    if trades.len() == 0 {
        Seq::empty()
    } else {
        trades_encoding(trades.drop_last()) + trade_encoding(trades.last())
    }
}

/// The lineage of a trade window.
pub open spec fn trade_window_lineage(
    decision: DecisionView,
    asset: AssetView,
    trades: Seq<TradeObservationView>,
) -> Seq<u8> {
    blake3_digest(
        utf8("crypto-intelligence/finalized-trade-window/v1"@) + blake3_digest(
            decision_encoding(decision),
        ) + encoded_i64(decision.window.lower()) + encoded_i64(decision.window.upper())
            + entity_encoding(EntityView::Asset(asset)) + encoded_u64(trades.len() as u64)
            + trades_encoding(trades),
    )
}

/// The contents of a [`FinalizedTradeWindow`].
pub struct TradeWindowView {
    pub window: TimeWindow,
    pub asset: AssetView,
    pub trades: Seq<TradeObservationView>,
    pub as_known_at: UnixNanos,
    pub coverage: CoverageView,
    pub quality: QualityScore,
    pub lineage: Seq<u8>,
}

/// Why trades are not fit for a window, before their sources are looked at.
pub open spec fn trade_window_refusal(
    asset: AssetView,
    tracker: TrackerView,
    decision: DecisionView,
    trades: Seq<TradeObservationView>,
) -> Option<FeatureComputationError> {
    if trades.len() == 0 {
        Some(FeatureComputationError::InsufficientHistory)
    } else if trades.len() > MAX_PRICE_OBSERVATIONS {
        Some(FeatureComputationError::CapacityExceeded)
    } else if !validated(tracker, decision, EntityView::Asset(asset)) || decision.state
        != Finalization::Final {
        Some(FeatureComputationError::UntrustedInput)
    } else if some_trade_of_another(trades, asset) {
        Some(FeatureComputationError::MixedEntity)
    } else if some_trade_outside(trades, decision.window) {
        Some(FeatureComputationError::OutsideWindow)
    } else if !trades_in_time_order(trades) {
        Some(FeatureComputationError::NonMonotonicTime)
    } else if !trade_lineages(trades).no_duplicates() {
        Some(FeatureComputationError::DuplicateLineage)
    } else {
        None
    }
}

/// The coverage of a tracker's own current decision, or nothing.
pub open spec fn decided_coverage(tracker: TrackerView, decision: DecisionView) -> Option<
    CoverageView,
> {
    let expected = required_sources(tracker.slots);
    let reported = reported_sources(tracker.slots, expected);
    if tracker.vouches_for(decision) && decision.required_count == expected.len()
        && decision.required_digest == sources_fingerprint(expected) && coverage_refusal(
        expected,
        Seq::new(reported.len(), |i: int| reported[i].0),
    ) is None {
        Some((expected, reported))
    } else {
        None
    }
}

/// The trade window that a decision gives, or why it gives none.
pub open spec fn finalized_trade_window(
    asset: AssetView,
    tracker: TrackerView,
    decision: DecisionView,
    trades: Seq<TradeObservationView>,
) -> Result<TradeWindowView, FeatureComputationError> {
    match (
        trade_window_refusal(asset, tracker, decision, trades),
        decided_coverage(tracker, decision),
    ) {
        (Some(error), _) => Err(error),
        (None, None) => Err(FeatureComputationError::UntrustedInput),
        (None, Some(coverage)) => {
            let entries = contributing_entries(coverage.1, trades);
            if coverage_refusal(coverage.0, Seq::new(entries.len(), |i: int| entries[i].0)) is Some
                || some_trade_unexpected(trades, coverage.0) {
                Err(FeatureComputationError::UntrustedInput)
            } else {
                Ok(
                    TradeWindowView {
                        window: decision.window,
                        asset,
                        trades,
                        as_known_at: latest_trade_knowledge(trades),
                        coverage: (coverage.0, entries),
                        quality: lowest_trade_quality(trades),
                        lineage: trade_window_lineage(decision, asset, trades),
                    },
                )
            }
        },
    }
}

/// Finalized, bounded normalized-trade evidence for a VWAP recipe.
#[derive(Debug)]
pub struct FinalizedTradeWindow {
    time_window: TimeWindow,
    asset: AssetId,
    observations: Vec<TradeObservation>,
    as_known_at: UnixNanos,
    source_coverage: SourceCoverage,
    quality_score: QualityScore,
    lineage_digest: [u8; 32],
}

impl View for FinalizedTradeWindow {
    type V = TradeWindowView;

    closed spec fn view(&self) -> TradeWindowView {
        TradeWindowView {
            window: self.time_window,
            asset: self.asset@,
            trades: trade_views(self.observations@),
            as_known_at: self.as_known_at,
            coverage: self.source_coverage@,
            quality: self.quality_score,
            lineage: self.lineage_digest@,
        }
    }
}

fn check_trade_window(
    asset: &AssetId,
    entity: &FeatureEntity,
    tracker: &WatermarkTracker,
    decision: FinalizationDecision,
    observations: &Vec<TradeObservation>,
) -> (result: Result<(), FeatureComputationError>)
    requires
        entity@ == EntityView::Asset(asset@),
    ensures
        match trade_window_refusal(asset@, tracker@, decision@, trade_views(observations@)) {
            Some(error) => result == Err::<(), FeatureComputationError>(error),
            None => result == Ok::<(), FeatureComputationError>(()),
        },
{
    let ghost views = trade_views(observations@);
    if observations.len() == 0 {
        return Err(FeatureComputationError::InsufficientHistory);
    }
    if observations.len() > MAX_PRICE_OBSERVATIONS {
        return Err(FeatureComputationError::CapacityExceeded);
    }
    if !tracker.validates_decision(decision, entity) || decision.state() != Finalization::Final {
        return Err(FeatureComputationError::UntrustedInput);
    }
    let window = decision.window();
    let start: i64 = window.start().value();
    let end: i64 = window.end().value();
    let mut one_asset: bool = true;
    let mut inside: bool = true;
    let mut ordered: bool = true;
    let mut lineages: Vec<[u8; 32]> = Vec::new();
    let mut i: usize = 0;
    while i < observations.len()
        invariant
            i <= observations@.len(),
            views == trade_views(observations@),
            start == window.lower(),
            end == window.upper(),
            one_asset == forall|k: int| 0 <= k < i ==> (#[trigger] views[k]).asset == asset@,
            inside == forall|k: int|
                0 <= k < i ==> window.contains((#[trigger] views[k]).event_time.nanos),
            ordered == trades_in_time_order(views.take(i as int)),
            lineages@.len() == i,
            forall|k: int| 0 <= k < i ==> (#[trigger] lineages@[k])@ == views[k].lineage,
        decreases observations.len() - i,
    {
        let observation = &observations[i];
        let time: i64 = observation.event_time.value();
        proof {
            assert(views[i as int] == observations@[i as int]@);
            lemma_trade_order_extends(views, i as int);
        }
        if !observation.asset.same(asset) {
            one_asset = false;
        }
        if time < start || time >= end {
            inside = false;
        }
        if i > 0 && observations[i - 1].event_time.value() >= time {
            ordered = false;
        }
        lineages.push(observation.lineage_hash);
        i += 1;
    }
    proof {
        assert(views.take(observations@.len() as int) =~= views);
        assert(digest_views(lineages@) =~= trade_lineages(views));
    }
    if !one_asset {
        return Err(FeatureComputationError::MixedEntity);
    }
    if !inside {
        return Err(FeatureComputationError::OutsideWindow);
    }
    if !ordered {
        return Err(FeatureComputationError::NonMonotonicTime);
    }
    if !distinct_digests(lineages) {
        return Err(FeatureComputationError::DuplicateLineage);
    }
    Ok(())
}

proof fn lemma_trade_order_extends(views: Seq<TradeObservationView>, i: int)
    requires
        0 <= i < views.len(),
    ensures
        trades_in_time_order(views.take(i + 1)) <==> trades_in_time_order(views.take(i)) && (i > 0
            ==> views[i - 1].event_time.nanos < views[i].event_time.nanos),
{
    let shorter = views.take(i);
    let longer = views.take(i + 1);
    if trades_in_time_order(longer) {
        assert forall|a: int, b: int| 0 <= a < b < shorter.len() implies (
        #[trigger] shorter[a]).event_time.nanos < (#[trigger] shorter[b]).event_time.nanos by {
            assert(longer[a] == shorter[a] && longer[b] == shorter[b]);
        }
        if i > 0 {
            assert(longer[i - 1] == views[i - 1] && longer[i] == views[i]);
        }
    }
    if trades_in_time_order(shorter) && (i > 0 ==> views[i - 1].event_time.nanos
        < views[i].event_time.nanos) {
        assert forall|a: int, b: int| 0 <= a < b < longer.len() implies (
        #[trigger] longer[a]).event_time.nanos < (#[trigger] longer[b]).event_time.nanos by {
            assert(longer[a] == shorter[a]);
            if b < i {
                assert(longer[b] == shorter[b]);
            } else if a < i - 1 {
                assert(shorter[a].event_time.nanos < shorter[i - 1].event_time.nanos);
            }
        }
    }
}

/// Whether some trade comes from the source.
fn has_contribution(observations: &Vec<TradeObservation>, source: &SourceId) -> (answer: bool)
    ensures
        answer == contributes(trade_views(observations@), source@),
{
    let ghost views = trade_views(observations@);
    let mut i: usize = 0;
    while i < observations.len()
        invariant
            i <= observations@.len(),
            views == trade_views(observations@),
            forall|k: int| 0 <= k < i ==> (#[trigger] views[k]).source != source@,
        decreases observations.len() - i,
    {
        proof {
            assert(views[i as int] == observations@[i as int]@);
        }
        if observations[i].source.same(source) {
            return true;
        }
        i += 1;
    }
    false
}

fn has_unexpected_source(observations: &Vec<TradeObservation>, expected: &Vec<SourceId>) -> (answer:
    bool)
    ensures
        answer == some_trade_unexpected(trade_views(observations@), source_views(expected@)),
{
    let ghost views = trade_views(observations@);
    let mut i: usize = 0;
    while i < observations.len()
        invariant
            i <= observations@.len(),
            views == trade_views(observations@),
            forall|k: int|
                0 <= k < i ==> source_views(expected@).contains((#[trigger] views[k]).source),
        decreases observations.len() - i,
    {
        proof {
            assert(views[i as int] == observations@[i as int]@);
        }
        if !holds_source(expected, &observations[i].source) {
            return true;
        }
        i += 1;
    }
    false
}

fn contributing_coverage(coverage: &SourceCoverage, observations: &Vec<TradeObservation>) -> (entries:
    Vec<SourceCoverageEntry>)
    ensures
        entry_views(entries@) == contributing_entries(coverage@.1, trade_views(observations@)),
{
    let ghost views = trade_views(observations@);
    let ghost all = entry_views(coverage.entries@);
    let mut entries: Vec<SourceCoverageEntry> = Vec::new();
    let mut i: usize = 0;
    proof {
        assert(entry_views(entries@) =~= contributing_entries(all.take(0), views));
    }
    while i < coverage.entries.len()
        invariant
            i <= coverage.entries@.len(),
            views == trade_views(observations@),
            all == entry_views(coverage.entries@),
            entry_views(entries@) == contributing_entries(all.take(i as int), views),
        decreases coverage.entries.len() - i,
    {
        let ghost before = entries@;
        proof {
            assert(all.take(i + 1).drop_last() =~= all.take(i as int));
            assert(all.take(i + 1).last() == coverage.entries@[i as int]@);
        }
        if has_contribution(observations, &coverage.entries[i].source) {
            entries.push(coverage.entries[i].clone());
            proof {
                assert(entry_views(entries@) =~= entry_views(before).push(
                    coverage.entries@[i as int]@,
                ));
            }
        }
        i += 1;
    }
    proof {
        assert(all.take(coverage.entries@.len() as int) =~= all);
    }
    entries
}

fn trade_window_lineage_digest(
    decision: FinalizationDecision,
    entity: &FeatureEntity,
    observations: &Vec<TradeObservation>,
) -> (digest: [u8; 32])
    requires
        entity@ is Asset,
    ensures
        digest@ == trade_window_lineage(
            decision@,
            entity@->Asset_0,
            trade_views(observations@),
        ),
{
    let ghost views = trade_views(observations@);
    let mut buffer: Vec<u8> = Vec::new();
    put_bytes(&mut buffer, "crypto-intelligence/finalized-trade-window/v1".as_bytes());
    let evidence = decision.evidence_digest();
    put_bytes(&mut buffer, evidence.as_slice());
    let window = decision.window();
    put_i64(&mut buffer, window.start().value());
    put_i64(&mut buffer, window.end().value());
    entity.put(&mut buffer);
    put_u64(&mut buffer, observations.len() as u64);
    let ghost head = utf8("crypto-intelligence/finalized-trade-window/v1"@) + blake3_digest(
        decision_encoding(decision@),
    ) + encoded_i64(decision@.window.lower()) + encoded_i64(decision@.window.upper())
        + entity_encoding(entity@) + encoded_u64(observations@.len() as u64);
    let mut i: usize = 0;
    proof {
        assert(views.take(0) =~= Seq::empty());
        assert(buffer@ =~= head + trades_encoding(views.take(0)));
    }
    while i < observations.len()
        invariant
            i <= observations@.len(),
            views == trade_views(observations@),
            buffer@ == head + trades_encoding(views.take(i as int)),
        decreases observations.len() - i,
    {
        let observation = &observations[i];
        put_i64(&mut buffer, observation.event_time.value());
        put_i64(&mut buffer, observation.as_known_at.value());
        put_bytes(&mut buffer, observation.lineage_hash.as_slice());
        let price = observation.price.value().to_ascii();
        put_framed(&mut buffer, price.as_slice());
        let quantity = observation.quantity.value().to_ascii();
        put_framed(&mut buffer, quantity.as_slice());
        proof {
            assert(views.take(i + 1).drop_last() =~= views.take(i as int));
            assert(views.take(i + 1).last() == observations@[i as int]@);
            assert(buffer@ =~= head + trades_encoding(views.take(i + 1)));
        }
        i += 1;
    }
    proof {
        assert(views.take(observations@.len() as int) =~= views);
    }
    blake3_hash(buffer.as_slice())
}

impl FinalizedTradeWindow {
    pub fn try_from_finalization(
        asset: AssetId,
        tracker: &WatermarkTracker,
        decision: FinalizationDecision,
        observations: Vec<TradeObservation>,
    ) -> (result: Result<Self, FeatureComputationError>)
        ensures
            match finalized_trade_window(
                asset@,
                tracker@,
                decision@,
                trade_views(observations@),
            ) {
                Err(error) => result is Err && result->Err_0 == error,
                Ok(window) => result is Ok && result->Ok_0@ == window,
            },
    {
        let ghost views = trade_views(observations@);
        let entity = FeatureEntity::Asset(asset.clone());
        if let Err(error) = check_trade_window(&asset, &entity, tracker, decision, &observations) {
            return Err(error);
        }
        let tracker_coverage = match tracker.coverage_for_decision(decision) {
            None => {
                return Err(FeatureComputationError::UntrustedInput);
            },
            Some(coverage) => coverage,
        };
        let observed = contributing_coverage(&tracker_coverage, &observations);
        proof {
            let entries = contributing_entries(tracker_coverage@.1, views);
            assert(entry_sources(observed@) =~= Seq::new(entries.len(), |k: int| entries[k].0)) by {
                assert forall|k: int| 0 <= k < observed@.len() implies entry_sources(observed@)[k]
                    == entries[k].0 by {
                    assert(entry_views(observed@)[k] == observed@[k]@);
                }
            }
        }
        let source_coverage = match SourceCoverage::try_new_partial(
            copy_sources(&tracker_coverage.expected),
            observed,
        ) {
            Err(_) => {
                return Err(FeatureComputationError::UntrustedInput);
            },
            Ok(coverage) => coverage,
        };
        if has_unexpected_source(&observations, &source_coverage.expected) {
            return Err(FeatureComputationError::UntrustedInput);
        }
        let mut as_known_at = observations[0].as_known_at;
        let mut quality_score = observations[0].quality_score;
        let mut i: usize = 1;
        proof {
            assert(views.take(1)[0] == observations@[0]@);
        }
        while i < observations.len()
            invariant
                1 <= i <= observations@.len(),
                views == trade_views(observations@),
                as_known_at == latest_trade_knowledge(views.take(i as int)),
                quality_score == lowest_trade_quality(views.take(i as int)),
            decreases observations.len() - i,
        {
            proof {
                assert(views.take(i + 1).drop_last() =~= views.take(i as int));
                assert(views.take(i + 1).last() == observations@[i as int]@);
            }
            as_known_at = as_known_at.max_of(observations[i].as_known_at);
            quality_score = quality_score.min_of(observations[i].quality_score);
            i += 1;
        }
        proof {
            assert(views.take(observations@.len() as int) =~= views);
        }
        let lineage_digest = trade_window_lineage_digest(decision, &entity, &observations);
        Ok(
            FinalizedTradeWindow {
                time_window: decision.window(),
                asset,
                observations,
                as_known_at,
                source_coverage,
                quality_score,
                lineage_digest,
            },
        )
    }

    pub fn time_window(&self) -> (window: TimeWindow)
        ensures
            window == self@.window,
    {
        self.time_window
    }
}

impl FinalizedTradeWindow {
    /// The window as evidence beside a price window.
    pub fn secondary_evidence(&self) -> (evidence: SecondaryEvidence)
        ensures
            evidence@ == trade_evidence(self@),
    {
        SecondaryEvidence {
            as_known_at: self.as_known_at,
            lineage_digest: self.lineage_digest,
            input_count: self.observations.len(),
            quality_score: self.quality_score,
            source_coverage: Some(self.source_coverage.clone()),
        }
    }
}

/// A trade window as evidence beside a price window.
pub open spec fn trade_evidence(trades: TradeWindowView) -> SecondaryView {
    SecondaryView {
        as_known_at: trades.as_known_at,
        lineage: trades.lineage,
        input_count: trades.trades.len(),
        quality: trades.quality,
        coverage: Some(trades.coverage),
    }
}

/// The prices and sizes of the trades that have a size.
pub open spec fn sized_trades(trades: Seq<TradeObservationView>) -> Seq<(Price, Quantity)>
    decreases trades.len(),
{
    if trades.len() == 0 {
        Seq::empty()
    } else {
        let before = sized_trades(trades.drop_last());
        if trades.last().quantity.units() == 0 {
            before
        } else {
            before.push((trades.last().price, trades.last().quantity))
        }
    }
}

/// The trades that a volume-weighted average price is taken over, or why there is none.
pub open spec fn vwap_terms(
    kind: Task4FeatureKind,
    trades: TradeWindowView,
    prices: PriceWindowView,
    closing: PriceObservationView,
) -> Result<Seq<(Price, Quantity)>, FeatureComputationError> {
    if !(kind == Task4FeatureKind::RollingVwapDistance || kind
        == Task4FeatureKind::AnchoredVwapDistance) || trades.window != prices.window
        || prices.entity != EntityView::Asset(trades.asset) {
        Err(FeatureComputationError::MixedEntity)
    } else {
        match prices.closing_refusal(closing) {
            Some(error) => Err(error),
            None => if sized_trades(trades.trades).len() == 0 {
                Err(FeatureComputationError::ZeroDenominator)
            } else {
                Ok(sized_trades(trades.trades))
            },
        }
    }
}

/// The measured value of a recipe whose inputs are fit for it, or the first failure.
pub open spec fn measured_over<T>(
    inputs: Result<T, FeatureComputationError>,
    measured: Result<u64, FeatureComputationError>,
) -> Result<u64, FeatureComputationError> {
    match inputs {
        Err(error) => Err(error),
        Ok(_) => measured,
    }
}

/// The feature with a measured value, or why there is none. Every failure is an error.
pub open spec fn value_feature(
    kind: Task4FeatureKind,
    window: PriceWindowView,
    closing: Option<PriceObservationView>,
    tracker: TrackerView,
    result: Result<u64, FeatureComputationError>,
    secondary: SecondaryView,
) -> Result<ComputedView, FeatureComputationError> {
    match result {
        Err(error) => Err(error),
        Ok(bits) => match present_value(bits) {
            Err(error) => Err(error),
            Ok(analytical) => priced_feature(
                kind,
                window,
                closing,
                tracker,
                analytical,
                Some(secondary),
            ),
        },
    }
}

/// What a computation returned, by its contents.
pub open spec fn outcome(
    result: Result<ComputedAnalyticalFeature, FeatureComputationError>,
) -> Result<ComputedView, FeatureComputationError> {
    match result {
        Ok(feature) => Ok(feature@),
        Err(error) => Err(error),
    }
}

/// Binds a measured value to a price window and the evidence beside it.
pub(crate) fn bind_value(
    kind: Task4FeatureKind,
    window: &PriceWindow,
    closing: Option<&PriceObservation>,
    tracker: &WatermarkTracker,
    measured: Result<u64, FeatureComputationError>,
    secondary: SecondaryEvidence,
) -> (result: Result<ComputedAnalyticalFeature, FeatureComputationError>)
    ensures
        outcome(result) == value_feature(
            kind,
            window@,
            closing_view(closing),
            tracker@,
            measured,
            secondary@,
        ),
{
    let bits: u64 = match measured {
        Err(error) => {
            return Err(error);
        },
        Ok(bits) => bits,
    };
    match AnalyticalFeature::present(bits) {
        Err(error) => Err(error),
        Ok(analytical) => {
            ComputedAnalyticalFeature::from_price_window_analytical_with_secondary(
                kind,
                window,
                closing,
                tracker,
                analytical,
                Some(secondary),
            )
        },
    }
}

/// The trades that enter a volume-weighted average price: normalized trades and consolidated
/// fair prices share the same finalized window and asset.
pub fn plan_vwap_distance(
    kind: Task4FeatureKind,
    trades: &FinalizedTradeWindow,
    fair_prices: &PriceWindow,
    closing: &PriceObservation,
) -> (result: Result<Vec<(Price, Quantity)>, FeatureComputationError>)
    ensures
        match vwap_terms(kind, trades@, fair_prices@, closing@) {
            Err(error) => result is Err && result->Err_0 == error,
            Ok(terms) => result is Ok && result->Ok_0@ == terms,
        },
{
    let same_asset: bool = match &fair_prices.entity {
        FeatureEntity::Asset(asset) => asset.same(&trades.asset),
        _ => false,
    };
    if !(kind == Task4FeatureKind::RollingVwapDistance || kind
        == Task4FeatureKind::AnchoredVwapDistance) || trades.time_window != fair_prices.time_window
        || !same_asset {
        return Err(FeatureComputationError::MixedEntity);
    }
    if let Err(error) = fair_prices.validates_consolidated_closing_observation(closing) {
        return Err(error);
    }
    let ghost views = trade_views(trades.observations@);
    let mut terms: Vec<(Price, Quantity)> = Vec::new();
    let mut i: usize = 0;
    proof {
        assert(terms@ =~= sized_trades(views.take(0)));
    }
    while i < trades.observations.len()
        invariant
            i <= trades.observations@.len(),
            views == trade_views(trades.observations@),
            terms@ == sized_trades(views.take(i as int)),
        decreases trades.observations.len() - i,
    {
        let trade = &trades.observations[i];
        proof {
            assert(views.take(i + 1).drop_last() =~= views.take(i as int));
            assert(views.take(i + 1).last() == trades.observations@[i as int]@);
        }
        if !trade.quantity.value().is_zero() {
            terms.push((trade.price, trade.quantity));
        }
        i += 1;
    }
    proof {
        assert(views.take(trades.observations@.len() as int) =~= views);
    }
    if terms.len() == 0 {
        return Err(FeatureComputationError::ZeroDenominator);
    }
    Ok(terms)
}

/// Emits rolling or UTC-session VWAP distance, measured over the planned trades.
pub fn compute_vwap_distance_feature(
    kind: Task4FeatureKind,
    trades: &FinalizedTradeWindow,
    fair_prices: &PriceWindow,
    closing: &PriceObservation,
    fair_price_tracker: &WatermarkTracker,
    measured: Result<u64, FeatureComputationError>,
) -> (result: Result<ComputedAnalyticalFeature, FeatureComputationError>)
    ensures
        outcome(result) == value_feature(
            kind,
            fair_prices@,
            Some(closing@),
            fair_price_tracker@,
            measured_over(vwap_terms(kind, trades@, fair_prices@, closing@), measured),
            trade_evidence(trades@),
        ),
{
    let planned = match plan_vwap_distance(kind, trades, fair_prices, closing) {
        Err(error) => Err(error),
        Ok(_) => measured,
    };
    bind_value(
        kind,
        fair_prices,
        Some(closing),
        fair_price_tracker,
        planned,
        trades.secondary_evidence(),
    )
}

/// The price of the latest trade and the fair price that it is compared with, or why there is no
/// such pair.
pub open spec fn fair_price_pair(
    trades: TradeWindowView,
    prices: PriceWindowView,
    closing: PriceObservationView,
) -> Result<(Price, Price), FeatureComputationError> {
    if trades.window != prices.window || prices.entity != EntityView::Asset(trades.asset) {
        Err(FeatureComputationError::MixedEntity)
    } else if trades.trades.len() == 0 {
        Err(FeatureComputationError::InsufficientHistory)
    } else {
        Ok((trades.trades.last().price, closing.price))
    }
}

/// The latest normalized trade in the finalized window, and the consolidated fair price at the
/// same window boundary.
pub fn plan_consolidated_fair_price_distance(
    trades: &FinalizedTradeWindow,
    fair_prices: &PriceWindow,
    closing: &PriceObservation,
) -> (result: Result<(Price, Price), FeatureComputationError>)
    ensures
        result == fair_price_pair(trades@, fair_prices@, closing@),
{
    let same_asset: bool = match &fair_prices.entity {
        FeatureEntity::Asset(asset) => asset.same(&trades.asset),
        _ => false,
    };
    if trades.time_window != fair_prices.time_window || !same_asset {
        return Err(FeatureComputationError::MixedEntity);
    }
    let count: usize = trades.observations.len();
    if count == 0 {
        return Err(FeatureComputationError::InsufficientHistory);
    }
    proof {
        assert(trade_views(trades.observations@).last() == trades.observations@.last()@);
    }
    Ok((trades.observations[count - 1].price, closing.price))
}

/// Compares the latest normalized trade in the finalized window with the robust consolidated fair
/// price at the same window boundary.
pub fn compute_consolidated_fair_price_distance(
    trades: &FinalizedTradeWindow,
    fair_prices: &PriceWindow,
    closing: &PriceObservation,
    fair_price_tracker: &WatermarkTracker,
    measured: Result<u64, FeatureComputationError>,
) -> (result: Result<ComputedAnalyticalFeature, FeatureComputationError>)
    ensures
        outcome(result) == value_feature(
            Task4FeatureKind::ConsolidatedFairPriceDistance,
            fair_prices@,
            Some(closing@),
            fair_price_tracker@,
            measured_over(fair_price_pair(trades@, fair_prices@, closing@), measured),
            trade_evidence(trades@),
        ),
{
    let planned = match plan_consolidated_fair_price_distance(trades, fair_prices, closing) {
        Err(error) => Err(error),
        Ok(_) => measured,
    };
    bind_value(
        Task4FeatureKind::ConsolidatedFairPriceDistance,
        fair_prices,
        Some(closing),
        fair_price_tracker,
        planned,
        trades.secondary_evidence(),
    )
}

/// The opening price of an interval and the closing price of the one right before it, or why
/// there is no such pair.
pub open spec fn interval_gap_pair(
    previous: (PriceWindowView, PriceObservationView, TrackerView),
    current: PriceWindowView,
) -> Result<(Price, Price), FeatureComputationError> {
    if previous.0.entity != current.entity || previous.0.window.upper() != current.window.lower() {
        Err(FeatureComputationError::NonMonotonicTime)
    } else {
        match paired_refusal(previous.0, previous.1, previous.2) {
            Some(error) => Err(error),
            None => if current.observations.len() == 0 {
                Err(FeatureComputationError::InsufficientHistory)
            } else {
                Ok((current.observations[0].price, previous.1.price))
            },
        }
    }
}

/// The preceding interval as evidence beside the current one, or why it is none.
pub open spec fn interval_evidence(
    previous: PriceWindowView,
    closing: PriceObservationView,
) -> Result<SecondaryView, FeatureComputationError> {
    match (
        previous.closing_lineage(closing),
        previous.closing_quality(closing),
        previous.coverage,
    ) {
        (Err(error), _, _) => Err(error),
        (Ok(_), Err(error), _) => Err(error),
        (Ok(_), Ok(_), None) => Err(FeatureComputationError::UntrustedInput),
        (Ok(lineage), Ok(quality), Some(coverage)) => Ok(
            SecondaryView {
                as_known_at: closing.as_known_at.later(previous.as_of),
                lineage,
                input_count: previous.observations.len() + 1,
                quality,
                coverage: Some(coverage),
            },
        ),
    }
}

/// The opening price of a finalized interval and the closing price of the immediately preceding
/// one.
pub fn plan_finalized_interval_gap(previous: &PairSide, current: &PriceWindow) -> (result: Result<
    (Price, Price),
    FeatureComputationError,
>)
    ensures
        result == interval_gap_pair(previous.parts(), current@),
{
    if !previous.window.entity.same(&current.entity) || previous.window.time_window.end()
        != current.time_window.start() {
        return Err(FeatureComputationError::NonMonotonicTime);
    }
    if let Err(error) = check_pair_side(previous) {
        return Err(error);
    }
    if current.observations.len() == 0 {
        return Err(FeatureComputationError::InsufficientHistory);
    }
    proof {
        assert(price_views(current.observations@)[0] == current.observations@[0]@);
    }
    Ok((current.observations[0].price, previous.closing.price))
}

/// Computes the opening gap of a finalized interval against the immediately preceding finalized
/// interval while binding both decisions into lineage.
pub fn compute_finalized_interval_gap_feature(
    previous: PairSide,
    current: &PriceWindow,
    tracker: &WatermarkTracker,
    measured: Result<u64, FeatureComputationError>,
) -> (result: Result<ComputedAnalyticalFeature, FeatureComputationError>)
    ensures
        ({
            let inputs = measured_over(interval_gap_pair(previous.parts(), current@), measured);
            let evidence = interval_evidence(previous.parts().0, previous.parts().1);
            match (inputs, evidence) {
                (Err(error), _) => result is Err && result->Err_0 == error,
                (Ok(_), Err(error)) => result is Err && result->Err_0 == error,
                (Ok(_), Ok(evidence)) => outcome(result) == value_feature(
                    Task4FeatureKind::FinalizedIntervalGap,
                    current@,
                    None,
                    tracker@,
                    inputs,
                    evidence,
                ),
            }
        }),
{
    if let Err(error) = plan_finalized_interval_gap(&previous, current) {
        return Err(error);
    }
    if let Err(error) = measured {
        return Err(error);
    }
    let lineage_digest = match previous.window.closing_lineage_digest(previous.closing) {
        Err(error) => {
            return Err(error);
        },
        Ok(lineage) => lineage,
    };
    let quality_score = match previous.window.quality_with_closing(previous.closing) {
        Err(error) => {
            return Err(error);
        },
        Ok(quality) => quality,
    };
    let source_coverage = match previous.window.source_coverage() {
        None => {
            return Err(FeatureComputationError::UntrustedInput);
        },
        Some(coverage) => coverage.clone(),
    };
    let count: usize = previous.window.observation_count();
    bind_value(
        Task4FeatureKind::FinalizedIntervalGap,
        current,
        None,
        tracker,
        measured,
        SecondaryEvidence {
            as_known_at: previous.closing.as_known_at.max_of(previous.window.as_of),
            lineage_digest,
            input_count: count + 1,
            quality_score,
            source_coverage: Some(source_coverage),
        },
    )
}

/// The highest price of a list.
pub open spec fn highest_price(observations: Seq<PriceObservationView>) -> Price
    decreases observations.len(),
{
    if observations.len() <= 1 {
        observations[0].price
    } else {
        highest_price(observations.drop_last()).higher(observations.last().price)
    }
}

/// The lowest price of a list.
pub open spec fn lowest_price(observations: Seq<PriceObservationView>) -> Price
    decreases observations.len(),
{
    if observations.len() <= 1 {
        observations[0].price
    } else {
        lowest_price(observations.drop_last()).lower(observations.last().price)
    }
}

fn require_price_history(window: &PriceWindow, minimum: usize) -> (result: Result<
    (),
    FeatureComputationError,
>)
    ensures
        result == if window@.observations.len() < minimum {
            Err::<(), FeatureComputationError>(FeatureComputationError::InsufficientHistory)
        } else {
            Ok::<(), FeatureComputationError>(())
        },
{
    if window.observations.len() < minimum {
        Err(FeatureComputationError::InsufficientHistory)
    } else {
        Ok(())
    }
}

/// The last and the first price of a list, or why there is no such pair.
pub open spec fn return_pair(observations: Seq<PriceObservationView>) -> Result<
    (Price, Price),
    FeatureComputationError,
> {
    if observations.len() < 2 {
        Err(FeatureComputationError::InsufficientHistory)
    } else {
        Ok((observations.last().price, observations[0].price))
    }
}

/// The highest and the lowest price of a list, or why there is no such pair.
pub open spec fn range_pair(observations: Seq<PriceObservationView>) -> Result<
    (Price, Price),
    FeatureComputationError,
> {
    if observations.len() < 2 {
        Err(FeatureComputationError::InsufficientHistory)
    } else {
        Ok((highest_price(observations), lowest_price(observations)))
    }
}

/// The last and the first price of a window: the terms of its cumulative return and of its
/// open-close range.
pub fn closing_and_opening_price(window: &PriceWindow) -> (result: Result<
    (Price, Price),
    FeatureComputationError,
>)
    ensures
        window@.observations.len() < 2 ==> result == Err::<(Price, Price), FeatureComputationError>(
            FeatureComputationError::InsufficientHistory,
        ),
        window@.observations.len() >= 2 ==> result == Ok::<(Price, Price), FeatureComputationError>(
            (window@.observations.last().price, window@.observations[0].price),
        ),
        result == return_pair(window@.observations),
{
    if let Err(error) = require_price_history(window, 2) {
        return Err(error);
    }
    let count: usize = window.observations.len();
    proof {
        assert(price_views(window.observations@).last() == window.observations@.last()@);
        assert(price_views(window.observations@)[0] == window.observations@[0]@);
    }
    Ok((window.observations[count - 1].price, window.observations[0].price))
}

/// The highest and the lowest price of a window: the terms of its range.
pub fn highest_and_lowest_price(window: &PriceWindow) -> (result: Result<
    (Price, Price),
    FeatureComputationError,
>)
    ensures
        window@.observations.len() < 2 ==> result == Err::<(Price, Price), FeatureComputationError>(
            FeatureComputationError::InsufficientHistory,
        ),
        window@.observations.len() >= 2 ==> result == Ok::<(Price, Price), FeatureComputationError>(
            (highest_price(window@.observations), lowest_price(window@.observations)),
        ),
        result == range_pair(window@.observations),
{
    if let Err(error) = require_price_history(window, 2) {
        return Err(error);
    }
    let ghost views = price_views(window.observations@);
    let mut high = window.observations[0].price;
    let mut low = high;
    let mut i: usize = 1;
    proof {
        assert(views.take(1)[0] == window.observations@[0]@);
    }
    while i < window.observations.len()
        invariant
            1 <= i <= window.observations@.len(),
            views == price_views(window.observations@),
            high == highest_price(views.take(i as int)),
            low == lowest_price(views.take(i as int)),
        decreases window.observations.len() - i,
    {
        proof {
            assert(views.take(i + 1).drop_last() =~= views.take(i as int));
            assert(views.take(i + 1).last() == window.observations@[i as int]@);
        }
        high = high.max_of(window.observations[i].price);
        low = low.min_of(window.observations[i].price);
        i += 1;
    }
    proof {
        assert(views.take(window.observations@.len() as int) =~= views);
    }
    Ok((high, low))
}

/// The latest price of a window and, for each horizon, the price that many observations before.
pub open spec fn horizon_pairs(
    observations: Seq<PriceObservationView>,
    horizons: Seq<usize>,
) -> Seq<(usize, Price, Price)> {
    Seq::new(
        horizons.len(),
        |i: int|
            (
                horizons[i],
                observations.last().price,
                observations[observations.len() - 1 - horizons[i]].price,
            ),
    )
}

/// The price pairs of returns over several horizons.
pub fn multi_horizon_prices(window: &PriceWindow, horizons: &Vec<usize>) -> (result: Result<
    Vec<(usize, Price, Price)>,
    FeatureComputationError,
>)
    ensures
        horizons@.len() == 0 || horizons@.len() > MAX_HORIZONS ==> result is Err && result->Err_0
            == FeatureComputationError::InvalidParameter,
        0 < horizons@.len() <= MAX_HORIZONS ==> if exists|i: int|
            0 <= i < horizons@.len() && (#[trigger] horizons@[i] == 0 || horizons@[i]
                >= window@.observations.len()) {
            result is Err && result->Err_0 == FeatureComputationError::InsufficientHistory
        } else {
            result is Ok && result->Ok_0@ == horizon_pairs(window@.observations, horizons@)
        },
{
    if horizons.len() == 0 || horizons.len() > MAX_HORIZONS {
        return Err(FeatureComputationError::InvalidParameter);
    }
    let count: usize = window.observation_count();
    let ghost views = price_views(window.observations@);
    let mut pairs: Vec<(usize, Price, Price)> = Vec::new();
    let mut i: usize = 0;
    while i < horizons.len()
        invariant
            i <= horizons@.len(),
            0 < horizons@.len() <= MAX_HORIZONS,
            count == window.observations@.len(),
            views == price_views(window.observations@),
            views == window@.observations,
            forall|k: int| 0 <= k < i ==> 0 < #[trigger] horizons@[k] < count,
            pairs@ =~= horizon_pairs(views, horizons@).take(i as int),
        decreases horizons.len() - i,
    {
        let horizon: usize = horizons[i];
        if horizon == 0 || horizon >= count {
            proof {
                assert(horizons@[i as int] == 0 || horizons@[i as int] >= window@.observations.len());
            }
            return Err(FeatureComputationError::InsufficientHistory);
        }
        proof {
            assert(views.last() == window.observations@.last()@);
            assert(views[count - 1 - horizon] == window.observations@[count - 1 - horizon]@);
        }
        pairs.push(
            (
                horizon,
                window.observations[count - 1].price,
                window.observations[count - 1 - horizon].price,
            ),
        );
        i += 1;
    }
    Ok(pairs)
}

/// Why two observations do not bound a finalized gap, if they do not.
pub open spec fn gap_refusal(
    previous_close: PriceObservationView,
    current_open: PriceObservationView,
) -> Option<FeatureComputationError> {
    if !previous_close.finalized || !current_open.finalized {
        Some(FeatureComputationError::WindowNotFinal)
    } else if current_open.entity != previous_close.entity || current_open.event_time.nanos
        <= previous_close.event_time.nanos || current_open.as_known_at.nanos
        < previous_close.as_known_at.nanos {
        Some(FeatureComputationError::NonMonotonicTime)
    } else {
        None
    }
}

/// The prices behind and before a finalized gap, or why there is none.
pub open spec fn gap_pair(
    previous_close: PriceObservationView,
    current_open: PriceObservationView,
) -> Result<(Price, Price), FeatureComputationError> {
    match gap_refusal(previous_close, current_open) {
        Some(error) => Err(error),
        None => Ok((current_open.price, previous_close.price)),
    }
}

/// The prices on both sides of a finalized gap.
pub fn finalized_interval_gap(previous_close: &PriceObservation, current_open: &PriceObservation) -> (
result: Result<(Price, Price), FeatureComputationError>)
    ensures
        match gap_refusal(previous_close@, current_open@) {
            Some(error) => result == Err::<(Price, Price), FeatureComputationError>(error),
            None => result == Ok::<(Price, Price), FeatureComputationError>(
                (current_open@.price, previous_close@.price),
            ),
        },
        result == gap_pair(previous_close@, current_open@),
{
    if !previous_close.finalized || !current_open.finalized {
        return Err(FeatureComputationError::WindowNotFinal);
    }
    if !current_open.entity.same(&previous_close.entity) || current_open.event_time.value()
        <= previous_close.event_time.value() || current_open.as_known_at.value()
        < previous_close.as_known_at.value() {
        return Err(FeatureComputationError::NonMonotonicTime);
    }
    Ok((current_open.price, previous_close.price))
}

/// The prices of a window, and their times since the first of them.
#[derive(Debug)]
pub struct WindowPath {
    pub prices: Vec<Price>,
    pub elapsed_nanos: Vec<i64>,
}

/// The time from the first observation to another.
pub open spec fn since_first(observations: Seq<PriceObservationView>, i: int) -> int {
    observations[i].event_time.nanos - observations[0].event_time.nanos
}

/// Why a window has no path of so many prices, if it has none.
pub open spec fn path_refusal(observations: Seq<PriceObservationView>, minimum: nat) -> Option<
    FeatureComputationError,
> {
    if observations.len() < minimum {
        Some(FeatureComputationError::InsufficientHistory)
    } else if exists|i: int|
        0 <= i < observations.len() && !(i64::MIN <= #[trigger] since_first(observations, i)
            <= i64::MAX) {
        Some(FeatureComputationError::InvalidInput)
    } else {
        None
    }
}

/// The prices of observations, in order.
pub open spec fn path_prices(observations: Seq<PriceObservationView>) -> Seq<Price> {
    Seq::new(observations.len(), |i: int| observations[i].price)
}

/// The times of observations since the first of them, in order.
pub open spec fn path_times(observations: Seq<PriceObservationView>) -> Seq<i64> {
    Seq::new(observations.len(), |i: int| since_first(observations, i) as i64)
}

/// The path of a window that has so many prices: the terms of its returns, of its drawdown and
/// run-up and, with their times, of its trend.
pub fn window_path(window: &PriceWindow, minimum: usize) -> (result: Result<
    WindowPath,
    FeatureComputationError,
>)
    ensures
        match path_refusal(window@.observations, minimum as nat) {
            Some(error) => result is Err && result->Err_0 == error,
            None => {
                let observations = window@.observations;
                &&& result is Ok
                &&& result->Ok_0.prices@ == Seq::new(
                    observations.len(),
                    |i: int| observations[i].price,
                )
                &&& result->Ok_0.elapsed_nanos@ == Seq::new(
                    observations.len(),
                    |i: int| since_first(observations, i) as i64,
                )
            },
        },
        result is Ok ==> result->Ok_0.prices@ == path_prices(window@.observations)
            && result->Ok_0.elapsed_nanos@ == path_times(window@.observations),
{
    require_price_history(window, minimum)?;
    let ghost views = window@.observations;
    let observations = &window.observations;
    let mut prices: Vec<Price> = Vec::new();
    let mut elapsed_nanos: Vec<i64> = Vec::new();
    let mut i: usize = 0;
    while i < observations.len()
        invariant
            i <= observations@.len(),
            observations@ == window.observations@,
            views == price_views(observations@),
            views == window@.observations,
            views.len() >= minimum,
            prices@.len() == i,
            elapsed_nanos@.len() == i,
            forall|k: int| 0 <= k < i ==> #[trigger] prices@[k] == views[k].price,
            forall|k: int|
                0 <= k < i ==> (#[trigger] elapsed_nanos@[k]) == since_first(views, k),
            forall|k: int|
                0 <= k < i ==> i64::MIN <= #[trigger] since_first(views, k) <= i64::MAX,
        decreases observations.len() - i,
    {
        proof {
            assert(views[i as int] == observations@[i as int]@);
            assert(views[0] == observations@[0]@);
        }
        let time: i64 = observations[i].event_time().value();
        match time.checked_sub(observations[0].event_time().value()) {
            None => {
                proof {
                    assert(!(i64::MIN <= since_first(views, i as int) <= i64::MAX));
                }
                return Err(FeatureComputationError::InvalidInput);
            },
            Some(elapsed) => {
                elapsed_nanos.push(elapsed);
            },
        }
        prices.push(observations[i].price());
        i += 1;
    }
    proof {
        assert(prices@ =~= Seq::new(views.len(), |k: int| views[k].price));
        assert(elapsed_nanos@ =~= Seq::new(views.len(), |k: int| since_first(views, k) as i64));
    }
    Ok(WindowPath { prices, elapsed_nanos })
}

/// The time between two neighbours of a path, and the time in the middle of them.
#[derive(Clone, Copy, Debug, PartialEq, Eq, Structural)]
pub struct TrendInterval {
    pub elapsed_nanos: i64,
    pub midpoint_nanos: i64,
}

/// The interval between a time and the next, or why there is none.
pub open spec fn interval_at(times: Seq<i64>, i: int) -> Result<
    TrendInterval,
    FeatureComputationError,
> {
    let elapsed = times[i + 1] - times[i];
    if elapsed > i64::MAX || elapsed < i64::MIN {
        Err(FeatureComputationError::InvalidInput)
    } else if elapsed <= 0 {
        Err(FeatureComputationError::NonMonotonicTime)
    } else {
        Ok(
            TrendInterval {
                elapsed_nanos: elapsed as i64,
                midpoint_nanos: (times[i] + elapsed / 2) as i64,
            },
        )
    }
}

/// The intervals between the first so many times and the next ones, or the first failure.
pub open spec fn intervals_of(times: Seq<i64>, count: nat) -> Result<
    Seq<TrendInterval>,
    FeatureComputationError,
>
    decreases count,
{
    if count == 0 {
        Ok(Seq::empty())
    } else {
        match intervals_of(times, (count - 1) as nat) {
            Err(error) => Err(error),
            Ok(before) => match interval_at(times, count - 1) {
                Err(error) => Err(error),
                Ok(interval) => Ok(before.push(interval)),
            },
        }
    }
}

/// How many neighbours a list of times has.
pub open spec fn interval_count(times: Seq<i64>) -> nat {
    if times.len() == 0 {
        0
    } else {
        (times.len() - 1) as nat
    }
}

proof fn lemma_intervals_fail(times: Seq<i64>, count: nat, more: nat)
    requires
        count <= more,
        intervals_of(times, count) is Err,
    ensures
        intervals_of(times, more) == intervals_of(times, count),
    decreases more,
{
    if count < more {
        lemma_intervals_fail(times, count, (more - 1) as nat);
    }
}

/// The intervals of a path, over whose midpoints its slopes change.
pub fn trend_intervals(elapsed_nanos: &Vec<i64>) -> (result: Result<
    Vec<TrendInterval>,
    FeatureComputationError,
>)
    ensures
        match intervals_of(elapsed_nanos@, interval_count(elapsed_nanos@)) {
            Err(error) => result is Err && result->Err_0 == error,
            Ok(intervals) => result is Ok && result->Ok_0@ == intervals,
        },
{
    let ghost times = elapsed_nanos@;
    let mut intervals: Vec<TrendInterval> = Vec::new();
    let mut i: usize = 0;
    proof {
        assert(intervals@ =~= Seq::empty());
    }
    while i < elapsed_nanos.len() && i + 1 < elapsed_nanos.len()
        invariant
            times == elapsed_nanos@,
            i <= interval_count(times),
            intervals_of(times, i as nat) == Ok::<Seq<TrendInterval>, FeatureComputationError>(
                intervals@,
            ),
        decreases elapsed_nanos.len() - i,
    {
        proof {
            if interval_at(times, i as int) is Err {
                lemma_intervals_fail(times, (i + 1) as nat, interval_count(times));
            }
        }
        let time: i64 = elapsed_nanos[i];
        let elapsed: i64 = match elapsed_nanos[i + 1].checked_sub(time) {
            None => {
                return Err(FeatureComputationError::InvalidInput);
            },
            Some(elapsed) => elapsed,
        };
        if elapsed <= 0 {
            return Err(FeatureComputationError::NonMonotonicTime);
        }
        intervals.push(
            TrendInterval { elapsed_nanos: elapsed, midpoint_nanos: time + elapsed / 2 },
        );
        i += 1;
    }
    Ok(intervals)
}

/// No price of a list lies above the highest or below the lowest, and both are prices of the list.
pub proof fn lemma_ranges_span_every_price(observations: Seq<PriceObservationView>)
    requires
        observations.len() >= 1,
    ensures
        forall|i: int|
            #![trigger observations[i]]
            0 <= i < observations.len() ==> lowest_price(observations).units()
                <= observations[i].price.units() <= highest_price(observations).units(),
        exists|i: int|
            0 <= i < observations.len() && (#[trigger] observations[i]).price == highest_price(
                observations,
            ),
        exists|i: int|
            0 <= i < observations.len() && (#[trigger] observations[i]).price == lowest_price(
                observations,
            ),
        range_pair(observations) is Ok <==> observations.len() >= 2,
        range_pair(observations) is Ok ==> range_pair(observations)->Ok_0 == (
            highest_price(observations),
            lowest_price(observations),
        ) && range_pair(observations)->Ok_0.0.units() >= range_pair(observations)->Ok_0.1.units(),
    decreases observations.len(),
{
    let last = observations.len() - 1;
    assert(observations[last] == observations.last());
    if observations.len() > 1 {
        let rest = observations.drop_last();
        lemma_ranges_span_every_price(rest);
        assert forall|i: int|
            #![trigger observations[i]]
            0 <= i < observations.len() implies lowest_price(observations).units()
            <= observations[i].price.units() <= highest_price(observations).units() by {
            if i < last {
                assert(rest[i] == observations[i]);
            }
        }
        let high = choose|i: int|
            0 <= i < rest.len() && (#[trigger] rest[i]).price == highest_price(rest);
        let low = choose|i: int|
            0 <= i < rest.len() && (#[trigger] rest[i]).price == lowest_price(rest);
        assert(observations[high].price == highest_price(rest));
        assert(observations[low].price == lowest_price(rest));
    } else {
        assert(observations[0].price == highest_price(observations));
    }
    assert(observations[0].price.units() == observations[0].price.units());
}

/// A return leads from the earliest price of a window to its latest.
pub proof fn lemma_returns_lead_from_the_earliest_price(observations: Seq<PriceObservationView>)
    requires
        prices_in_time_order(observations),
        return_pair(observations) is Ok,
    ensures
        exists|last: int, first: int|
            #![trigger observations[last], observations[first]]
            {
                &&& 0 <= first < last < observations.len()
                &&& return_pair(observations)->Ok_0 == (
                    observations[last].price,
                    observations[first].price,
                )
                &&& forall|k: int|
                    0 <= k < observations.len() ==> observations[first].event_time.nanos <= (
                    #[trigger] observations[k]).event_time.nanos
                        <= observations[last].event_time.nanos
            },
{
    let last = observations.len() - 1;
    assert(observations[last] == observations.last());
    assert forall|k: int| 0 <= k < observations.len() implies observations[0].event_time.nanos <= (
    #[trigger] observations[k]).event_time.nanos <= observations[last].event_time.nanos by {
        if k > 0 {
            assert(observations[0].event_time.nanos < observations[k].event_time.nanos);
        }
        if k < last {
            assert(observations[k].event_time.nanos < observations[last].event_time.nanos);
        }
    }
    assert(0 <= 0 < last < observations.len());
}

/// Each horizon compares the latest price with the one that so many observations lie before it.
pub proof fn lemma_horizons_look_back_from_the_latest_price(
    observations: Seq<PriceObservationView>,
    horizons: Seq<usize>,
    i: int,
)
    requires
        0 <= i < horizons.len(),
        0 < horizons[i] < observations.len(),
    ensures
        horizon_pairs(observations, horizons).len() == horizons.len(),
        horizon_pairs(observations, horizons)[i].0 == horizons[i],
        horizon_pairs(observations, horizons)[i].1 == observations[observations.len() - 1].price,
        forall|past: int|
            past + horizons[i] == observations.len() - 1 ==> horizon_pairs(
                observations,
                horizons,
            )[i].2 == (#[trigger] observations[past]).price,
{
}

/// A gap leads from a final close to a later final open of the same entity, and not back.
pub proof fn lemma_gaps_lead_from_close_to_open(
    previous_close: PriceObservationView,
    current_open: PriceObservationView,
)
    ensures
        gap_pair(previous_close, current_open) is Ok <==> {
            &&& previous_close.finalized && current_open.finalized
            &&& previous_close.entity == current_open.entity
            &&& previous_close.event_time.nanos < current_open.event_time.nanos
            &&& previous_close.as_known_at.nanos <= current_open.as_known_at.nanos
        },
        gap_pair(previous_close, current_open) is Ok ==> gap_pair(
            previous_close,
            current_open,
        )->Ok_0 == (current_open.price, previous_close.price),
        gap_pair(previous_close, current_open) is Ok ==> gap_pair(
            current_open,
            previous_close,
        ) is Err,
{
}

/// The gap between two intervals compares the first price of the later one with the close of the one
/// that ends where it begins.
pub proof fn lemma_interval_gaps_are_between_neighbours(
    previous: (PriceWindowView, PriceObservationView, TrackerView),
    current: PriceWindowView,
)
    requires
        interval_gap_pair(previous, current) is Ok,
    ensures
        previous.0.window.upper() == current.window.lower(),
        previous.0.entity == current.entity,
        current.observations.len() > 0,
        interval_gap_pair(previous, current)->Ok_0 == (
            current.observations[0].price,
            previous.1.price,
        ),
{
}

/// A path begins at its first price at time zero and keeps every price in order, each at the time
/// that it lies behind the first.
pub proof fn lemma_paths_count_from_their_first_price(observations: Seq<PriceObservationView>)
    requires
        observations.len() > 0,
        prices_in_time_order(observations),
        path_refusal(observations, 1) is None,
    ensures
        path_prices(observations).len() == observations.len(),
        path_times(observations).len() == observations.len(),
        path_times(observations)[0] == 0,
        forall|i: int|
            #![trigger observations[i]]
            0 <= i < observations.len() ==> path_prices(observations)[i] == observations[i].price
                && observations[0].event_time.nanos + path_times(observations)[i]
                == observations[i].event_time.nanos,
        forall|i: int, j: int|
            0 <= i < j < observations.len() ==> (#[trigger] path_times(observations)[i]) < (
            #[trigger] path_times(observations)[j]),
{
    assert forall|i: int|
        #![trigger observations[i]]
        0 <= i < observations.len() implies observations[0].event_time.nanos + path_times(
        observations,
    )[i] == observations[i].event_time.nanos by {
        assert(i64::MIN <= since_first(observations, i) <= i64::MAX);
    }
    assert forall|i: int, j: int| 0 <= i < j < observations.len() implies (
    #[trigger] path_times(observations)[i]) < (#[trigger] path_times(observations)[j]) by {
        assert(observations[i].event_time.nanos < observations[j].event_time.nanos);
    }
}

/// An interval of a trend leads from one time to the next, and its midpoint lies halfway between
/// them, rounded down to the earlier one.
pub proof fn lemma_trend_intervals_lie_between_their_times(times: Seq<i64>, count: nat, i: int)
    requires
        intervals_of(times, count) is Ok,
        count < times.len(),
        0 <= i < count,
    ensures
        intervals_of(times, count)->Ok_0.len() == count,
        ({
            let interval = intervals_of(times, count)->Ok_0[i];
            &&& times[i] + interval.elapsed_nanos == times[i + 1]
            &&& interval.elapsed_nanos > 0
            &&& times[i] <= interval.midpoint_nanos < times[i + 1]
            &&& 2 * interval.midpoint_nanos <= times[i] + times[i + 1] <= 2
                * interval.midpoint_nanos + 1
        }),
    decreases count,
{
    if i < count - 1 {
        lemma_trend_intervals_lie_between_their_times(times, (count - 1) as nat, i);
    } else if count > 1 {
        lemma_trend_intervals_lie_between_their_times(times, (count - 1) as nat, 0);
    }
}

/// What was known of prices was known when the last of them was.
pub proof fn lemma_prices_are_known_with_the_last(observations: Seq<PriceObservationView>)
    requires
        observations.len() >= 1,
    ensures
        forall|i: int|
            0 <= i < observations.len() ==> (#[trigger] observations[i]).as_known_at.nanos
                <= latest_price_knowledge(observations).nanos,
        exists|i: int|
            0 <= i < observations.len() && (#[trigger] observations[i]).as_known_at
                == latest_price_knowledge(observations),
    decreases observations.len(),
{
    let last = observations.len() - 1;
    assert(observations[last] == observations.last());
    if observations.len() > 1 {
        let rest = observations.drop_last();
        lemma_prices_are_known_with_the_last(rest);
        assert forall|i: int| 0 <= i < observations.len() implies (
        #[trigger] observations[i]).as_known_at.nanos <= latest_price_knowledge(
            observations,
        ).nanos by {
            if i < last {
                assert(rest[i] == observations[i]);
            }
        }
        let k = choose|k: int|
            0 <= k < rest.len() && (#[trigger] rest[k]).as_known_at == latest_price_knowledge(rest);
        assert(observations[k].as_known_at == latest_price_knowledge(rest));
    }
}

/// Evidence is shared where every price rests on the same sources, and is worth what the worst of
/// them is worth.
pub proof fn lemma_shared_evidence_is_that_of_every_price(observations: Seq<PriceObservationView>)
    requires
        shared_evidence(observations) is Ok,
    ensures
        observations.len() > 0,
        forall|i: int|
            #![trigger observations[i]]
            0 <= i < observations.len() ==> {
                let (coverage, quality) = shared_evidence(observations)->Ok_0;
                &&& observations[i].evidence is Some
                &&& observations[i].evidence->Some_0.0 == coverage
                &&& quality.millionths <= observations[i].evidence->Some_0.1.millionths
            },
        exists|i: int|
            0 <= i < observations.len() && (#[trigger] observations[i]).evidence == Some(
                shared_evidence(observations)->Ok_0,
            ),
    decreases observations.len(),
{
    let last = observations.len() - 1;
    assert(observations[last] == observations.last());
    if observations.len() > 1 {
        let rest = observations.drop_last();
        lemma_shared_evidence_is_that_of_every_price(rest);
        assert forall|i: int|
            #![trigger observations[i]]
            0 <= i < observations.len() implies {
            let (coverage, quality) = shared_evidence(observations)->Ok_0;
            &&& observations[i].evidence is Some
            &&& observations[i].evidence->Some_0.0 == coverage
            &&& quality.millionths <= observations[i].evidence->Some_0.1.millionths
        } by {
            if i < last {
                assert(rest[i] == observations[i]);
            }
        }
        let k = choose|k: int|
            0 <= k < rest.len() && (#[trigger] rest[k]).evidence == Some(
                shared_evidence(rest)->Ok_0,
            );
        assert(observations[k].evidence == Some(shared_evidence(rest)->Ok_0));
    }
}

/// A window's close lies on its end, is of its entity and its sources, and is known no earlier than
/// the window; with it, the window is worth no more than either.
pub proof fn lemma_closes_lie_on_the_end_of_their_window(
    window: PriceWindowView,
    closing: PriceObservationView,
)
    ensures
        window.closing_refusal(closing) is None <==> {
            &&& closing.entity == window.entity
            &&& closing.event_time.nanos == window.window.upper()
            &&& closing.as_known_at.nanos >= window.as_of.nanos
            &&& closing.evidence is Some
            &&& Some(closing.evidence->Some_0.0) == window.coverage
        },
        window.closing_quality(closing) is Ok ==> {
            let quality = window.closing_quality(closing)->Ok_0;
            &&& window.closing_refusal(closing) is None
            &&& quality.millionths <= window.quality->Some_0.millionths
            &&& quality.millionths <= closing.evidence->Some_0.1.millionths
            &&& quality == window.quality->Some_0 || quality == closing.evidence->Some_0.1
        },
{
}

/// A finalized window holds prices of its entity inside the decision's own span, each later than the
/// one before it, all known by its time, and the decision is a current one for the entity and the
/// sources that the prices rest on.
pub proof fn lemma_finalized_windows_rest_on_their_decision(
    entity: EntityView,
    tracker: TrackerView,
    decision: DecisionView,
    observations: Seq<PriceObservationView>,
)
    requires
        finalized_price_window(entity, tracker, decision, observations) is Ok,
    ensures
        ({
            let window = finalized_price_window(entity, tracker, decision, observations)->Ok_0;
            &&& window.window == decision.window && window.entity == entity
            &&& window.observations == observations
            &&& 0 < observations.len() <= 65_536
            &&& tracker.vouches_for(decision)
            &&& decision.entity == Some(entity_fingerprint(entity))
            &&& window.finalization == Some(decision)
            &&& window.coverage is Some && window.quality is Some
            &&& decision.required_count == window.coverage->Some_0.0.len()
            &&& forall|i: int|
                #![trigger observations[i]]
                0 <= i < observations.len() ==> {
                    &&& observations[i].entity == entity
                    &&& decision.window.lower() <= observations[i].event_time.nanos
                        < decision.window.upper()
                    &&& observations[i].as_known_at.nanos <= window.as_of.nanos
                    &&& observations[i].evidence is Some
                    &&& Some(observations[i].evidence->Some_0.0) == window.coverage
                    &&& window.quality->Some_0.millionths
                        <= observations[i].evidence->Some_0.1.millionths
                }
            &&& exists|i: int|
                0 <= i < observations.len() && (#[trigger] observations[i]).as_known_at
                    == window.as_of
            &&& prices_in_time_order(observations)
        }),
{
    lemma_prices_are_known_with_the_last(observations);
    lemma_shared_evidence_is_that_of_every_price(observations);
}

/// The latest knowledge and the lowest quality of trades bound those of each of them, and are those
/// of one.
pub proof fn lemma_trades_are_as_known_and_as_good_as_the_worst(trades: Seq<TradeObservationView>)
    requires
        trades.len() >= 1,
    ensures
        forall|i: int|
            #![trigger trades[i]]
            0 <= i < trades.len() ==> trades[i].as_known_at.nanos <= latest_trade_knowledge(
                trades,
            ).nanos && lowest_trade_quality(trades).millionths <= trades[i].quality.millionths,
        exists|i: int|
            0 <= i < trades.len() && (#[trigger] trades[i]).as_known_at == latest_trade_knowledge(
                trades,
            ),
        exists|i: int|
            0 <= i < trades.len() && (#[trigger] trades[i]).quality == lowest_trade_quality(trades),
    decreases trades.len(),
{
    let last = trades.len() - 1;
    assert(trades[last] == trades.last());
    if trades.len() > 1 {
        let rest = trades.drop_last();
        lemma_trades_are_as_known_and_as_good_as_the_worst(rest);
        assert forall|i: int|
            #![trigger trades[i]]
            0 <= i < trades.len() implies trades[i].as_known_at.nanos <= latest_trade_knowledge(
            trades,
        ).nanos && lowest_trade_quality(trades).millionths <= trades[i].quality.millionths by {
            if i < last {
                assert(rest[i] == trades[i]);
            }
        }
        let k = choose|k: int|
            0 <= k < rest.len() && (#[trigger] rest[k]).as_known_at == latest_trade_knowledge(rest);
        assert(trades[k].as_known_at == latest_trade_knowledge(rest));
        let m = choose|m: int|
            0 <= m < rest.len() && (#[trigger] rest[m]).quality == lowest_trade_quality(rest);
        assert(trades[m].quality == lowest_trade_quality(rest));
    }
}

/// A trade says what its event says: the same price and quantity of the instrument's base asset, at
/// the venue's own time, from a verified event of the instrument's own exchange while it was listed.
pub proof fn lemma_trades_keep_their_event(event: NormalizedEvent, instrument: InstrumentDefinition)
    requires
        trade_of_event(event, instrument) is Ok,
    ensures
        ({
            let trade = trade_of_event(event, instrument)->Ok_0;
            &&& match event.payload {
                EventPayload::Trade { price, quantity, .. } => trade.price == price
                    && trade.quantity == quantity,
                _ => false,
            }
            &&& event.verified && event.metadata.concerns(instrument.id)
            &&& event.metadata.source.kind == crate::domain::SourceKind::Exchange
            &&& event.metadata.source.name@ == instrument.id.venue@
            &&& trade.asset == instrument.base_asset@
            &&& Some(trade.event_time) == event.metadata.event_time_of()
            &&& instrument.listed_at(trade.event_time)
            &&& trade.as_known_at == event.metadata.normalization_timestamp
            &&& trade.event_time.nanos <= trade.as_known_at.nanos
            &&& trade.source == event.metadata.source@ && trade.lineage == event.id@
            &&& trade.quality.millionths == event.metadata.quality_score_ppm <= 1_000_000
        }),
{
}

/// Price times quantity of trades, and of prices with sizes, in units of units.
pub open spec fn trade_worths(trades: Seq<TradeObservationView>) -> Seq<int> {
    Seq::new(trades.len(), |i: int| trades[i].price.units() * trades[i].quantity.units())
}

pub open spec fn trade_sizes(trades: Seq<TradeObservationView>) -> Seq<int> {
    Seq::new(trades.len(), |i: int| trades[i].quantity.units())
}

pub open spec fn term_worths(terms: Seq<(Price, Quantity)>) -> Seq<int> {
    Seq::new(terms.len(), |i: int| terms[i].0.units() * terms[i].1.units())
}

pub open spec fn term_sizes(terms: Seq<(Price, Quantity)>) -> Seq<int> {
    Seq::new(terms.len(), |i: int| terms[i].1.units())
}

proof fn lemma_sized_trades_sum(trades: Seq<TradeObservationView>)
    ensures
        sum_of(term_worths(sized_trades(trades))) == sum_of(trade_worths(trades)),
        sum_of(term_sizes(sized_trades(trades))) == sum_of(trade_sizes(trades)),
        forall|i: int|
            0 <= i < sized_trades(trades).len() ==> (#[trigger] sized_trades(trades)[i]).1.units()
                != 0,
        sized_trades(trades).len() <= trades.len(),
    decreases trades.len(),
{
    if trades.len() > 0 {
        let rest = trades.drop_last();
        let trade = trades.last();
        lemma_sized_trades_sum(rest);
        lemma_sum_last(trade_worths(trades));
        lemma_sum_last(trade_sizes(trades));
        assert(trade_worths(trades).drop_last() =~= trade_worths(rest));
        assert(trade_sizes(trades).drop_last() =~= trade_sizes(rest));
        let before = sized_trades(rest);
        let terms = sized_trades(trades);
        if trade.quantity.units() == 0 {
            assert(trade.price.units() * 0 == 0);
        } else {
            lemma_sum_last(term_worths(terms));
            lemma_sum_last(term_sizes(terms));
            assert(term_worths(terms).drop_last() =~= term_worths(before));
            assert(term_sizes(terms).drop_last() =~= term_sizes(before));
        }
    } else {
        assert(term_worths(sized_trades(trades)) =~= Seq::empty());
        assert(term_sizes(sized_trades(trades)) =~= Seq::empty());
        assert(trade_worths(trades) =~= Seq::empty());
        assert(trade_sizes(trades) =~= Seq::empty());
    }
}

/// A volume-weighted average is over all that was traded in the window that the prices cover: its
/// terms come to the same worth and the same size as the trades, and each of them has a size.
pub proof fn lemma_vwap_terms_are_all_that_was_traded(
    kind: Task4FeatureKind,
    trades: TradeWindowView,
    prices: PriceWindowView,
    closing: PriceObservationView,
)
    requires
        vwap_terms(kind, trades, prices, closing) is Ok,
    ensures
        ({
            let terms = vwap_terms(kind, trades, prices, closing)->Ok_0;
            &&& sum_of(term_worths(terms)) == sum_of(trade_worths(trades.trades))
            &&& sum_of(term_sizes(terms)) == sum_of(trade_sizes(trades.trades))
            &&& terms.len() > 0
            &&& forall|i: int| 0 <= i < terms.len() ==> (#[trigger] terms[i]).1.units() != 0
        }),
        trades.window == prices.window,
        prices.entity == EntityView::Asset(trades.asset),
        closing.event_time.nanos == prices.window.upper(),
        kind == Task4FeatureKind::RollingVwapDistance || kind
            == Task4FeatureKind::AnchoredVwapDistance,
{
    lemma_sized_trades_sum(trades.trades);
}

/// The distance from the fair price is that of the latest trade of the window from the window's
/// close.
pub proof fn lemma_fair_price_distances_are_of_the_latest_trade(
    trades: TradeWindowView,
    prices: PriceWindowView,
    closing: PriceObservationView,
)
    requires
        trades_in_time_order(trades.trades),
        fair_price_pair(trades, prices, closing) is Ok,
    ensures
        trades.window == prices.window,
        fair_price_pair(trades, prices, closing)->Ok_0.1 == closing.price,
        exists|i: int|
            #![trigger trades.trades[i]]
            0 <= i < trades.trades.len() && fair_price_pair(trades, prices, closing)->Ok_0.0
                == trades.trades[i].price && forall|k: int|
                0 <= k < trades.trades.len() ==> (#[trigger] trades.trades[k]).event_time.nanos
                    <= trades.trades[i].event_time.nanos,
{
    let last = trades.trades.len() - 1;
    assert(trades.trades[last] == trades.trades.last());
    assert forall|k: int| 0 <= k < trades.trades.len() implies (
    #[trigger] trades.trades[k]).event_time.nanos <= trades.trades[last].event_time.nanos by {
        if k < last {
            assert(trades.trades[k].event_time.nanos < trades.trades[last].event_time.nanos);
        }
    }
}

/// A trade window holds trades of its asset inside the final decision's span, each later than the one
/// before it, and is as well known and as good as the worst of them.
pub proof fn lemma_trade_windows_rest_on_their_decision(
    asset: AssetView,
    tracker: TrackerView,
    decision: DecisionView,
    trades: Seq<TradeObservationView>,
)
    requires
        finalized_trade_window(asset, tracker, decision, trades) is Ok,
    ensures
        ({
            let window = finalized_trade_window(asset, tracker, decision, trades)->Ok_0;
            &&& window.window == decision.window && window.asset == asset
            &&& window.trades == trades && 0 < trades.len() <= 65_536
            &&& decision.state == Finalization::Final
            &&& tracker.vouches_for(decision)
            &&& decision.entity == Some(entity_fingerprint(EntityView::Asset(asset)))
            &&& forall|i: int|
                #![trigger trades[i]]
                0 <= i < trades.len() ==> {
                    &&& trades[i].asset == asset
                    &&& decision.window.lower() <= trades[i].event_time.nanos < decision.window.upper()
                    &&& trades[i].as_known_at.nanos <= window.as_known_at.nanos
                    &&& window.quality.millionths <= trades[i].quality.millionths
                    &&& window.coverage.0.contains(trades[i].source)
                }
            &&& exists|i: int|
                0 <= i < trades.len() && (#[trigger] trades[i]).as_known_at == window.as_known_at
            &&& exists|i: int|
                0 <= i < trades.len() && (#[trigger] trades[i]).quality == window.quality
            &&& trades_in_time_order(trades)
        }),
{
    lemma_trades_are_as_known_and_as_good_as_the_worst(trades);
}

/// A window of prices is taken exactly where it holds some, not too many, all of one entity,
/// each inside the window and known when the window is, at strictly increasing times and no
/// lineage twice.
pub proof fn lemma_price_windows_hold_their_own_prices(
    window: TimeWindow,
    entity: EntityView,
    as_of: UnixNanos,
    observations: Seq<PriceObservationView>,
)
    ensures
        price_window_refusal(window, entity, as_of, observations) is None <==> {
            &&& 1 <= observations.len() <= 65_536
            &&& as_of.nanos > 0
            &&& forall|i: int|
                #![trigger observations[i]]
                0 <= i < observations.len() ==> {
                    &&& window.lower() <= observations[i].event_time.nanos < window.upper()
                    &&& observations[i].entity == entity
                    &&& observations[i].as_known_at.nanos <= as_of.nanos
                }
            &&& forall|i: int, j: int|
                #![trigger observations[i], observations[j]]
                0 <= i < j < observations.len() ==> observations[i].event_time.nanos
                    < observations[j].event_time.nanos && observations[i].lineage
                    != observations[j].lineage
        },
{
    let lineages = price_lineages(observations);
    assert(lineages.no_duplicates() <==> forall|i: int, j: int|
        #![trigger observations[i], observations[j]]
        0 <= i < j < observations.len() ==> observations[i].lineage != observations[j].lineage)
    by {
        assert forall|i: int, j: int|
            #![trigger observations[i], observations[j]]
            lineages.no_duplicates() && 0 <= i < j
                < observations.len() implies observations[i].lineage
            != observations[j].lineage by {
            assert(lineages[i] != lineages[j]);
        }
        if forall|i: int, j: int|
            #![trigger observations[i], observations[j]]
            0 <= i < j < observations.len() ==> observations[i].lineage
                != observations[j].lineage {
            assert forall|i: int, j: int|
                0 <= i < lineages.len() && 0 <= j < lineages.len() && i != j implies lineages[i]
                != lineages[j] by {
                if i < j {
                    assert(observations[i].lineage != observations[j].lineage);
                } else {
                    assert(observations[j].lineage != observations[i].lineage);
                }
            }
        }
    }
}

/// A window of trades that is taken is final, and its trades are of its asset, inside the window,
/// at strictly increasing times, and no lineage occurs twice.
pub proof fn lemma_trade_windows_hold_their_own_trades(
    asset: AssetView,
    tracker: TrackerView,
    decision: DecisionView,
    trades: Seq<TradeObservationView>,
)
    requires
        trade_window_refusal(asset, tracker, decision, trades) is None,
    ensures
        1 <= trades.len() <= 65_536,
        decision.state == Finalization::Final,
        forall|i: int|
            #![trigger trades[i]]
            0 <= i < trades.len() ==> decision.window.lower() <= trades[i].event_time.nanos
                < decision.window.upper() && trades[i].asset == asset,
        forall|i: int, j: int|
            #![trigger trades[i], trades[j]]
            0 <= i < j < trades.len() ==> trades[i].event_time.nanos < trades[j].event_time.nanos
                && trades[i].lineage != trades[j].lineage,
{
    assert forall|i: int, j: int|
        #![trigger trades[i], trades[j]]
        0 <= i < j < trades.len() implies trades[i].lineage != trades[j].lineage by {
        assert(trade_lineages(trades)[i] != trade_lineages(trades)[j]);
    }
}

/// A close is taken exactly where it is of the window's entity, at the window's end, known no
/// earlier than the window, and rests on the window's own coverage.
pub proof fn lemma_closes_are_taken_at_the_end(
    window: PriceWindowView,
    closing: PriceObservationView,
)
    ensures
        window.closing_refusal(closing) is None <==> {
            &&& closing.entity == window.entity
            &&& closing.event_time.nanos == window.window.upper()
            &&& closing.as_known_at.nanos >= window.as_of.nanos
            &&& closing.evidence is Some
            &&& window.coverage == Some(closing.evidence->Some_0.0)
        },
{
}

/// The sources that contributed are those of the trades, each under the health that it was
/// covered with.
pub proof fn lemma_contributing_entries_are_those_that_traded(
    entries: Seq<(SourceView, SourceHealthState)>,
    trades: Seq<TradeObservationView>,
)
    ensures
        forall|k: int|
            #![trigger contributing_entries(entries, trades)[k]]
            0 <= k < contributing_entries(entries, trades).len() ==> entries.contains(
                contributing_entries(entries, trades)[k],
            ) && contributes(trades, contributing_entries(entries, trades)[k].0),
        forall|i: int|
            #![trigger entries[i]]
            0 <= i < entries.len() && contributes(trades, entries[i].0) ==> contributing_entries(
                entries,
                trades,
            ).contains(entries[i]),
    decreases entries.len(),
{
    if entries.len() > 0 {
        let rest = entries.drop_last();
        let before = contributing_entries(rest, trades);
        let found = contributing_entries(entries, trades);
        lemma_contributing_entries_are_those_that_traded(rest, trades);
        assert(entries[entries.len() - 1] == entries.last());
        assert forall|k: int|
            #![trigger found[k]]
            0 <= k < found.len() implies entries.contains(found[k]) && contributes(
            trades,
            found[k].0,
        ) by {
            if k < before.len() {
                assert(before[k] == found[k]);
                let i = choose|i: int| 0 <= i < rest.len() && rest[i] == before[k];
                assert(entries[i] == found[k]);
            }
        }
        assert forall|i: int|
            #![trigger entries[i]]
            0 <= i < entries.len() && contributes(trades, entries[i].0) implies found.contains(
            entries[i],
        ) by {
            if i < rest.len() {
                assert(rest[i] == entries[i]);
                let k = choose|k: int| 0 <= k < before.len() && before[k] == entries[i];
                assert(found[k] == entries[i]);
            } else {
                assert(found[before.len() as int] == entries[i]);
            }
        }
    }
}

} // verus!
