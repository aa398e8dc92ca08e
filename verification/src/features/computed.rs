//! Computed features: a value bound to its window, evidence, finality and lineage.

use vstd::prelude::*;

use super::catalog::Task4FeatureKind;
use super::price::{
    decided_coverage, validated, PriceObservation, PriceObservationView, PriceWindow,
    PriceWindowView,
};
use super::{
    merge_source_coverage, united_coverage, AnalyticalFeature, FeatureComputationError,
};
use crate::digest::{blake3_digest, blake3_hash, is_zero_digest, put_bytes, utf8, zero_digest};
use crate::domain::{
    AssetView, CoverageView, EntityView, FeatureEntity, FinalityState, QualityScore,
    SourceCoverage, UnixNanos,
};
use crate::ordering::{rank_precedes, Ranked};
use crate::watermark::{
    decision_encoding, DecisionView, Finalization, FinalizationDecision, TrackerView,
    WatermarkTracker,
};
use crate::window::{finality_of, finality_state, TimeWindow};

verus! {

/// The contents of a [`ComputedAnalyticalFeature`].
pub struct ComputedView {
    pub kind: Task4FeatureKind,
    pub window_id: Seq<char>,
    pub window: TimeWindow,
    pub entity: EntityView,
    pub as_of: UnixNanos,
    pub lineage: Seq<u8>,
    pub input_count: nat,
    pub analytical: AnalyticalFeature,
    pub finality: FinalityState,
    pub watermark: Option<UnixNanos>,
    pub finality_as_known_at: UnixNanos,
    pub coverage: CoverageView,
    pub quality: QualityScore,
}

/// A value of a catalogued feature, bound to the evidence that it was computed from.
#[derive(Debug)]
pub struct ComputedAnalyticalFeature {
    kind: Task4FeatureKind,
    window_id: &'static str,
    time_window: TimeWindow,
    entity: FeatureEntity,
    as_of: UnixNanos,
    input_lineage_digest: [u8; 32],
    input_count: usize,
    analytical: AnalyticalFeature,
    finality_state: FinalityState,
    watermark: Option<UnixNanos>,
    finality_as_known_at: UnixNanos,
    source_coverage: SourceCoverage,
    quality_score: QualityScore,
}

impl View for ComputedAnalyticalFeature {
    type V = ComputedView;

    closed spec fn view(&self) -> ComputedView {
        ComputedView {
            kind: self.kind,
            window_id: self.window_id@,
            window: self.time_window,
            entity: self.entity@,
            as_of: self.as_of,
            lineage: self.input_lineage_digest@,
            input_count: self.input_count as nat,
            analytical: self.analytical,
            finality: self.finality_state,
            watermark: self.watermark,
            finality_as_known_at: self.finality_as_known_at,
            coverage: self.source_coverage@,
            quality: self.quality_score,
        }
    }
}

/// Evidence that stands beside a price window.
#[derive(Debug)]
pub struct SecondaryEvidence {
    pub as_known_at: UnixNanos,
    pub lineage_digest: [u8; 32],
    pub input_count: usize,
    pub quality_score: QualityScore,
    pub source_coverage: Option<SourceCoverage>,
}

/// The contents of a [`SecondaryEvidence`].
pub struct SecondaryView {
    pub as_known_at: UnixNanos,
    pub lineage: Seq<u8>,
    pub input_count: nat,
    pub quality: QualityScore,
    pub coverage: Option<CoverageView>,
}

impl View for SecondaryEvidence {
    type V = SecondaryView;

    open spec fn view(&self) -> SecondaryView {
        SecondaryView {
            as_known_at: self.as_known_at,
            lineage: self.lineage_digest@,
            input_count: self.input_count as nat,
            quality: self.quality_score,
            coverage: match self.source_coverage {
                Some(coverage) => Some(coverage@),
                None => None,
            },
        }
    }
}

/// Evidence of a feature that is derived from other features.
#[derive(Debug)]
pub struct DerivedFeatureEvidence {
    pub time_window: TimeWindow,
    pub entity: FeatureEntity,
    pub as_of: UnixNanos,
    pub lineage_digest: [u8; 32],
    pub input_count: usize,
    pub watermark: UnixNanos,
    pub finality_as_known_at: UnixNanos,
    pub source_coverage: SourceCoverage,
    pub quality_score: QualityScore,
}

/// The contents of a [`DerivedFeatureEvidence`].
pub struct DerivedView {
    pub window: TimeWindow,
    pub entity: EntityView,
    pub as_of: UnixNanos,
    pub lineage: Seq<u8>,
    pub input_count: nat,
    pub watermark: UnixNanos,
    pub finality_as_known_at: UnixNanos,
    pub coverage: CoverageView,
    pub quality: QualityScore,
}

impl View for DerivedFeatureEvidence {
    type V = DerivedView;

    open spec fn view(&self) -> DerivedView {
        DerivedView {
            window: self.time_window,
            entity: self.entity@,
            as_of: self.as_of,
            lineage: self.lineage_digest@,
            input_count: self.input_count as nat,
            watermark: self.watermark,
            finality_as_known_at: self.finality_as_known_at,
            coverage: self.source_coverage@,
            quality: self.quality_score,
        }
    }
}

/// A feature derived from other features, or why the evidence does not carry it.
pub open spec fn derived_feature(
    kind: Task4FeatureKind,
    evidence: DerivedView,
    analytical: AnalyticalFeature,
) -> Result<ComputedView, FeatureComputationError> {
    if evidence.input_count == 0 || evidence.lineage == zero_digest() || evidence.as_of.nanos
        < evidence.window.upper() || evidence.watermark.nanos < evidence.window.upper()
        || evidence.finality_as_known_at.nanos > evidence.as_of.nanos {
        Err(FeatureComputationError::UntrustedInput)
    } else {
        match kind.spec_output_window(evidence.window) {
            Err(error) => Err(error),
            Ok(window_id) => Ok(
                ComputedView {
                    kind,
                    window_id,
                    window: evidence.window,
                    entity: evidence.entity,
                    as_of: evidence.as_of,
                    lineage: evidence.lineage,
                    input_count: evidence.input_count,
                    analytical,
                    finality: FinalityState::Final,
                    watermark: Some(evidence.watermark),
                    finality_as_known_at: evidence.finality_as_known_at,
                    coverage: evidence.coverage,
                    quality: evidence.quality,
                },
            ),
        }
    }
}

/// What a price window contributes to a feature.
pub struct PrimaryView {
    pub as_of: UnixNanos,
    pub lineage: Seq<u8>,
    pub input_count: nat,
    pub quality: QualityScore,
    pub coverage: CoverageView,
}

/// What a price window contributes, with its closing observation where there is one.
pub open spec fn primary_evidence(
    window: PriceWindowView,
    closing: Option<PriceObservationView>,
    decision: DecisionView,
) -> Result<PrimaryView, FeatureComputationError> {
    match closing {
        Some(closing) => match (window.closing_lineage(closing), window.closing_quality(closing)) {
            (Err(error), _) => Err(error),
            (Ok(_), Err(error)) => Err(error),
            (Ok(lineage), Ok(quality)) => match window.coverage {
                None => Err(FeatureComputationError::UntrustedInput),
                Some(coverage) => Ok(
                    PrimaryView {
                        as_of: closing.as_known_at.later(window.as_of).later(decision.as_known_at),
                        lineage,
                        input_count: window.observations.len() + 1,
                        quality,
                        coverage,
                    },
                ),
            },
        },
        None => match (window.finalized_lineage(), window.quality, window.coverage) {
            (Err(error), _, _) => Err(error),
            (Ok(lineage), Some(quality), Some(coverage)) => {
                let end = UnixNanos { nanos: window.window.upper() };
                Ok(
                    PrimaryView {
                        as_of: (match decision.watermark {
                            Some(watermark) => watermark,
                            None => end,
                        }).later(window.as_of).later(end).later(decision.as_known_at),
                        lineage,
                        input_count: window.observations.len(),
                        quality,
                        coverage,
                    },
                )
            },
            _ => Err(FeatureComputationError::UntrustedInput),
        },
    }
}

/// The lineage of primary and secondary evidence together.
pub open spec fn combined_lineage(primary: Seq<u8>, secondary: Seq<u8>) -> Seq<u8> {
    blake3_digest(
        utf8("crypto-intelligence/primary-secondary-lineage/v1"@) + primary + secondary,
    )
}

/// The primary evidence with the secondary evidence added, where there is any.
pub open spec fn with_secondary(primary: PrimaryView, secondary: Option<SecondaryView>) -> Result<
    PrimaryView,
    FeatureComputationError,
> {
    match secondary {
        None => Ok(primary),
        Some(secondary) => {
            let coverage = match secondary.coverage {
                None => Ok(primary.coverage),
                Some(coverage) => united_coverage(primary.coverage, coverage),
            };
            if primary.input_count + secondary.input_count > usize::MAX {
                Err(FeatureComputationError::CapacityExceeded)
            } else {
                match coverage {
                    Err(error) => Err(error),
                    Ok(coverage) => Ok(
                        PrimaryView {
                            as_of: primary.as_of.later(secondary.as_known_at),
                            lineage: combined_lineage(primary.lineage, secondary.lineage),
                            input_count: primary.input_count + secondary.input_count,
                            quality: primary.quality.lower(secondary.quality),
                            coverage,
                        },
                    ),
                }
            }
        },
    }
}

/// A feature of a price window, or why there is none.
pub open spec fn priced_feature(
    kind: Task4FeatureKind,
    window: PriceWindowView,
    closing: Option<PriceObservationView>,
    tracker: TrackerView,
    analytical: AnalyticalFeature,
    secondary: Option<SecondaryView>,
) -> Result<ComputedView, FeatureComputationError> {
    match window.finalization {
        None => Err(FeatureComputationError::UntrustedInput),
        Some(decision) => if !validated(tracker, decision, window.entity) {
            Err(FeatureComputationError::UntrustedInput)
        } else if analytical is Present && decision.state != Finalization::Final {
            Err(FeatureComputationError::WindowNotFinal)
        } else {
            match primary_evidence(window, closing, decision) {
                Err(error) => Err(error),
                Ok(primary) => match with_secondary(primary, secondary) {
                    Err(error) => Err(error),
                    Ok(evidence) => match kind.spec_output_window(window.window) {
                        Err(error) => Err(error),
                        Ok(window_id) => Ok(
                            ComputedView {
                                kind,
                                window_id,
                                window: window.window,
                                entity: window.entity,
                                as_of: evidence.as_of,
                                lineage: evidence.lineage,
                                input_count: evidence.input_count,
                                analytical,
                                finality: finality_of(decision.state),
                                watermark: decision.watermark,
                                finality_as_known_at: decision.as_known_at,
                                coverage: evidence.coverage,
                                quality: evidence.quality,
                            },
                        ),
                    },
                },
            }
        },
    }
}

/// The kinds that an entity can have.
pub open spec fn entity_fits(entity: EntityView, kind: Task4FeatureKind) -> bool {
    match entity {
        EntityView::AssetPair(_, _) => kind.is_paired(),
        EntityView::Asset(_) => !kind.is_paired(),
        _ => false,
    }
}

/// An explicitly missing feature, or why the absence is not expected.
pub open spec fn missing_feature(
    kind: Task4FeatureKind,
    entity: EntityView,
    tracker: TrackerView,
    decision: DecisionView,
    error: FeatureComputationError,
) -> Result<ComputedView, FeatureComputationError> {
    match error.absence() {
        None => Err(error),
        Some(reason) => if !validated(tracker, decision, entity) {
            Err(FeatureComputationError::UntrustedInput)
        } else if !entity_fits(entity, kind) {
            Err(FeatureComputationError::MixedEntity)
        } else {
            match decided_coverage(tracker, decision) {
                None => Err(FeatureComputationError::UntrustedInput),
                Some(coverage) => match kind.spec_output_window(decision.window) {
                    Err(error) => Err(error),
                    Ok(window_id) => Ok(
                        ComputedView {
                            kind,
                            window_id,
                            window: decision.window,
                            entity,
                            as_of: decision.as_known_at,
                            lineage: blake3_digest(decision_encoding(decision)),
                            input_count: 0,
                            analytical: AnalyticalFeature::Missing(reason),
                            finality: finality_of(decision.state),
                            watermark: decision.watermark,
                            finality_as_known_at: decision.as_known_at,
                            coverage,
                            quality: QualityScore { millionths: 0 },
                        },
                    ),
                },
            }
        },
    }
}

/// One side of a paired feature: a final window and the observation that closes it.
pub open spec fn paired_refusal(
    window: PriceWindowView,
    closing: PriceObservationView,
    tracker: TrackerView,
) -> Option<FeatureComputationError> {
    match window.finalization {
        None => Some(FeatureComputationError::UntrustedInput),
        Some(decision) => if !validated(tracker, decision, window.entity) || decision.state
            != Finalization::Final {
            Some(FeatureComputationError::UntrustedInput)
        } else {
            window.closing_refusal(closing)
        },
    }
}

/// A feature of two windows, with the windows in canonical order, or why there is none.
pub open spec fn ordered_pair_feature(
    kind: Task4FeatureKind,
    first: (PriceWindowView, PriceObservationView, TrackerView),
    second: (PriceWindowView, PriceObservationView, TrackerView),
    analytical: AnalyticalFeature,
) -> Result<ComputedView, FeatureComputationError> {
    let refusal = match paired_refusal(first.0, first.1, first.2) {
        Some(error) => Some(error),
        None => paired_refusal(second.0, second.1, second.2),
    };
    match refusal {
        Some(error) => Err(error),
        None => {
            let first_decision = first.0.finalization->Some_0;
            let second_decision = second.0.finalization->Some_0;
            match (first.0.coverage, second.0.coverage) {
                (Some(first_coverage), Some(second_coverage)) => match united_coverage(
                    first_coverage,
                    second_coverage,
                ) {
                    Err(error) => Err(error),
                    Ok(coverage) => match (
                        first.0.closing_lineage(first.1),
                        second.0.closing_lineage(second.1),
                        kind.spec_output_window(first.0.window),
                        first_decision.watermark,
                        second_decision.watermark,
                        first.0.closing_quality(first.1),
                        second.0.closing_quality(second.1),
                    ) {
                        (Err(error), _, _, _, _, _, _) => Err(error),
                        (Ok(_), Err(error), _, _, _, _, _) => Err(error),
                        (Ok(_), Ok(_), Err(error), _, _, _, _) => Err(error),
                        (
                            Ok(first_lineage),
                            Ok(second_lineage),
                            Ok(window_id),
                            Some(first_watermark),
                            Some(second_watermark),
                            first_quality,
                            second_quality,
                        ) => match (first_quality, second_quality) {
                            (Err(error), _) => Err(error),
                            (Ok(_), Err(error)) => Err(error),
                            (Ok(first_quality), Ok(second_quality)) => Ok(
                                ComputedView {
                                    kind,
                                    window_id,
                                    window: first.0.window,
                                    entity: EntityView::AssetPair(
                                        first.0.entity->Asset_0,
                                        second.0.entity->Asset_0,
                                    ),
                                    as_of: first.1.as_known_at.later(second.1.as_known_at).later(
                                        first.0.as_of,
                                    ).later(second.0.as_of).later(
                                        first_decision.as_known_at,
                                    ).later(second_decision.as_known_at),
                                    lineage: blake3_digest(
                                        utf8(
                                            "crypto-intelligence/paired-price-window-lineage/v1"@,
                                        ) + first_lineage + second_lineage,
                                    ),
                                    input_count: first.0.observations.len()
                                        + second.0.observations.len() + 2,
                                    analytical,
                                    finality: FinalityState::Final,
                                    watermark: Some(first_watermark.earlier(second_watermark)),
                                    finality_as_known_at: first_decision.as_known_at.later(
                                        second_decision.as_known_at,
                                    ),
                                    coverage,
                                    quality: first_quality.lower(second_quality),
                                },
                            ),
                        },
                        _ => Err(FeatureComputationError::WindowNotFinal),
                    },
                },
                _ => Err(FeatureComputationError::UntrustedInput),
            }
        },
    }
}

/// The asset of an entity comes first in a pair.
pub open spec fn asset_precedes(left: AssetView, right: AssetView) -> bool {
    rank_precedes(crate::domain::asset_rank(left), crate::domain::asset_rank(right))
}

/// A feature of two windows, or why there is none.
pub open spec fn paired_feature(
    kind: Task4FeatureKind,
    left: (PriceWindowView, PriceObservationView, TrackerView),
    right: (PriceWindowView, PriceObservationView, TrackerView),
    analytical: AnalyticalFeature,
) -> Result<ComputedView, FeatureComputationError> {
    if !kind.is_paired() || left.0.window != right.0.window {
        Err(FeatureComputationError::InvalidParameter)
    } else {
        match (left.0.entity, right.0.entity) {
            (EntityView::Asset(left_asset), EntityView::Asset(right_asset)) => {
                if left_asset == right_asset {
                    Err(FeatureComputationError::MixedEntity)
                } else if asset_precedes(left_asset, right_asset) {
                    ordered_pair_feature(kind, left, right, analytical)
                } else {
                    ordered_pair_feature(kind, right, left, analytical)
                }
            },
            _ => Err(FeatureComputationError::MixedEntity),
        }
    }
}

/// Swapping the two sides of a paired feature gives the same feature.
pub proof fn lemma_paired_features_ignore_side(
    kind: Task4FeatureKind,
    left: (PriceWindowView, PriceObservationView, TrackerView),
    right: (PriceWindowView, PriceObservationView, TrackerView),
    analytical: AnalyticalFeature,
)
    ensures
        paired_feature(kind, left, right, analytical) == paired_feature(
            kind,
            right,
            left,
            analytical,
        ),
{
    if left.0.entity is Asset && right.0.entity is Asset {
        let a = left.0.entity->Asset_0;
        let b = right.0.entity->Asset_0;
        crate::domain::lemma_asset_view_order_is_total(a, b);
    }
}

/// One side of a paired feature.
pub struct PairSide<'a> {
    pub window: &'a PriceWindow,
    pub closing: &'a PriceObservation,
    pub tracker: &'a WatermarkTracker,
}

impl<'a> PairSide<'a> {
    pub open spec fn parts(self) -> (PriceWindowView, PriceObservationView, TrackerView) {
        (self.window@, self.closing@, self.tracker@)
    }
}

pub(crate) fn check_pair_side(side: &PairSide) -> (result: Result<
    FinalizationDecision,
    FeatureComputationError,
>)
    ensures
        match paired_refusal(side.window@, side.closing@, side.tracker@) {
            Some(error) => result is Err && result->Err_0 == error,
            None => result is Ok && side.window@.finalization == Some(result->Ok_0@),
        },
{
    let decision = match side.window.finalization() {
        None => {
            return Err(FeatureComputationError::UntrustedInput);
        },
        Some(decision) => decision,
    };
    if !side.tracker.validates_decision(decision, side.window.entity()) || decision.state()
        != Finalization::Final {
        return Err(FeatureComputationError::UntrustedInput);
    }
    match side.window.validates_consolidated_closing_observation(side.closing) {
        Err(error) => Err(error),
        Ok(()) => Ok(decision),
    }
}

impl ComputedAnalyticalFeature {
    pub fn from_derived_feature_recipe(
        kind: Task4FeatureKind,
        evidence: DerivedFeatureEvidence,
        analytical: AnalyticalFeature,
    ) -> (result: Result<Self, FeatureComputationError>)
        ensures
            match derived_feature(kind, evidence@, analytical) {
                Err(error) => result is Err && result->Err_0 == error,
                Ok(feature) => result is Ok && result->Ok_0@ == feature,
            },
    {
        let end = evidence.time_window.end();
        if evidence.input_count == 0 || is_zero_digest(&evidence.lineage_digest)
            || evidence.as_of.value() < end.value() || evidence.watermark.value() < end.value()
            || evidence.finality_as_known_at.value() > evidence.as_of.value() {
            return Err(FeatureComputationError::UntrustedInput);
        }
        match kind.output_window_id(evidence.time_window) {
            Err(error) => Err(error),
            Ok(window_id) => Ok(
                ComputedAnalyticalFeature {
                    kind,
                    window_id,
                    time_window: evidence.time_window,
                    entity: evidence.entity,
                    as_of: evidence.as_of,
                    input_lineage_digest: evidence.lineage_digest,
                    input_count: evidence.input_count,
                    analytical,
                    finality_state: FinalityState::Final,
                    watermark: Some(evidence.watermark),
                    finality_as_known_at: evidence.finality_as_known_at,
                    source_coverage: evidence.source_coverage,
                    quality_score: evidence.quality_score,
                },
            ),
        }
    }

    /// A feature of a price window without further evidence.
    pub fn from_price_window_analytical(
        kind: Task4FeatureKind,
        window: &PriceWindow,
        closing: Option<&PriceObservation>,
        tracker: &WatermarkTracker,
        analytical: AnalyticalFeature,
    ) -> (result: Result<Self, FeatureComputationError>)
        ensures
            match priced_feature(
                kind,
                window@,
                closing_view(closing),
                tracker@,
                analytical,
                None,
            ) {
                Err(error) => result is Err && result->Err_0 == error,
                Ok(feature) => result is Ok && result->Ok_0@ == feature,
            },
    {
        Self::from_price_window_analytical_with_secondary(
            kind,
            window,
            closing,
            tracker,
            analytical,
            None,
        )
    }

    /// A feature of a price window, with the evidence that stands beside it.
    pub fn from_price_window_analytical_with_secondary(
        kind: Task4FeatureKind,
        window: &PriceWindow,
        closing: Option<&PriceObservation>,
        tracker: &WatermarkTracker,
        analytical: AnalyticalFeature,
        secondary: Option<SecondaryEvidence>,
    ) -> (result: Result<Self, FeatureComputationError>)
        ensures
            match priced_feature(
                kind,
                window@,
                closing_view(closing),
                tracker@,
                analytical,
                secondary_view(secondary),
            ) {
                Err(error) => result is Err && result->Err_0 == error,
                Ok(feature) => result is Ok && result->Ok_0@ == feature,
            },
    {
        let decision = match window.finalization() {
            None => {
                return Err(FeatureComputationError::UntrustedInput);
            },
            Some(decision) => decision,
        };
        if !tracker.validates_decision(decision, window.entity()) {
            return Err(FeatureComputationError::UntrustedInput);
        }
        let is_present: bool = match analytical {
            AnalyticalFeature::Present(_) => true,
            AnalyticalFeature::Missing(_) => false,
        };
        if is_present && decision.state() != Finalization::Final {
            return Err(FeatureComputationError::WindowNotFinal);
        }
        let primary = match gather_primary(window, closing, decision) {
            Err(error) => {
                return Err(error);
            },
            Ok(primary) => primary,
        };
        let evidence = match add_secondary(primary, secondary) {
            Err(error) => {
                return Err(error);
            },
            Ok(evidence) => evidence,
        };
        match kind.output_window_id(window.time_window()) {
            Err(error) => Err(error),
            Ok(window_id) => Ok(
                ComputedAnalyticalFeature {
                    kind,
                    window_id,
                    time_window: window.time_window(),
                    entity: window.entity().clone(),
                    as_of: evidence.as_of,
                    input_lineage_digest: evidence.lineage_digest,
                    input_count: evidence.input_count,
                    analytical,
                    finality_state: finality_state(decision.state()),
                    watermark: decision.watermark(),
                    finality_as_known_at: decision.as_known_at(),
                    source_coverage: evidence.source_coverage,
                    quality_score: evidence.quality_score,
                },
            ),
        }
    }

    /// A feature of two final windows over the same span. The emitted entity and lineage are in
    /// canonical asset order, so swapping the sides gives the same feature.
    pub fn from_paired_price_windows_recipe(
        kind: Task4FeatureKind,
        left: PairSide,
        right: PairSide,
        analytical: AnalyticalFeature,
    ) -> (result: Result<Self, FeatureComputationError>)
        ensures
            match paired_feature(kind, left.parts(), right.parts(), analytical) {
                Err(error) => result is Err && result->Err_0 == error,
                Ok(feature) => result is Ok && result->Ok_0@ == feature,
            },
    {
        let paired: bool = kind == Task4FeatureKind::RealizedCovariance || kind
            == Task4FeatureKind::RealizedCorrelation;
        if !paired || left.window.time_window() != right.window.time_window() {
            return Err(FeatureComputationError::InvalidParameter);
        }
        match (left.window.entity(), right.window.entity()) {
            (FeatureEntity::Asset(left_asset), FeatureEntity::Asset(right_asset)) => {
                if left_asset.same(right_asset) {
                    return Err(FeatureComputationError::MixedEntity);
                }
                if left_asset.precedes(right_asset) {
                    Self::from_ordered_pair(kind, left, right, analytical)
                } else {
                    Self::from_ordered_pair(kind, right, left, analytical)
                }
            },
            _ => Err(FeatureComputationError::MixedEntity),
        }
    }

    fn from_ordered_pair(
        kind: Task4FeatureKind,
        first: PairSide,
        second: PairSide,
        analytical: AnalyticalFeature,
    ) -> (result: Result<Self, FeatureComputationError>)
        requires
            first.window@.entity is Asset,
            second.window@.entity is Asset,
        ensures
            match ordered_pair_feature(kind, first.parts(), second.parts(), analytical) {
                Err(error) => result is Err && result->Err_0 == error,
                Ok(feature) => result is Ok && result->Ok_0@ == feature,
            },
    {
        let first_decision = match check_pair_side(&first) {
            Err(error) => {
                return Err(error);
            },
            Ok(decision) => decision,
        };
        let second_decision = match check_pair_side(&second) {
            Err(error) => {
                return Err(error);
            },
            Ok(decision) => decision,
        };
        let source_coverage = match (
            first.window.source_coverage(),
            second.window.source_coverage(),
        ) {
            (Some(first_coverage), Some(second_coverage)) => match merge_source_coverage(
                first_coverage,
                second_coverage,
            ) {
                Err(error) => {
                    return Err(error);
                },
                Ok(coverage) => coverage,
            },
            _ => {
                return Err(FeatureComputationError::UntrustedInput);
            },
        };
        let first_lineage = match first.window.closing_lineage_digest(first.closing) {
            Err(error) => {
                return Err(error);
            },
            Ok(lineage) => lineage,
        };
        let second_lineage = match second.window.closing_lineage_digest(second.closing) {
            Err(error) => {
                return Err(error);
            },
            Ok(lineage) => lineage,
        };
        let mut buffer: Vec<u8> = Vec::new();
        put_bytes(&mut buffer, "crypto-intelligence/paired-price-window-lineage/v1".as_bytes());
        put_bytes(&mut buffer, first_lineage.as_slice());
        put_bytes(&mut buffer, second_lineage.as_slice());
        proof {
            assert(buffer@ =~= utf8("crypto-intelligence/paired-price-window-lineage/v1"@)
                + first_lineage@ + second_lineage@);
        }
        let window_id = match kind.output_window_id(first.window.time_window()) {
            Err(error) => {
                return Err(error);
            },
            Ok(window_id) => window_id,
        };
        let watermark = match (first_decision.watermark(), second_decision.watermark()) {
            (Some(left), Some(right)) => left.min_of(right),
            _ => {
                return Err(FeatureComputationError::WindowNotFinal);
            },
        };
        let first_quality = match first.window.quality_with_closing(first.closing) {
            Err(error) => {
                return Err(error);
            },
            Ok(quality) => quality,
        };
        let second_quality = match second.window.quality_with_closing(second.closing) {
            Err(error) => {
                return Err(error);
            },
            Ok(quality) => quality,
        };
        let first_count: usize = first.window.observation_count();
        let second_count: usize = second.window.observation_count();
        let entity = match (first.window.entity(), second.window.entity()) {
            (FeatureEntity::Asset(first_asset), FeatureEntity::Asset(second_asset)) => {
                FeatureEntity::AssetPair(first_asset.clone(), second_asset.clone())
            },
            _ => {
                return Err(FeatureComputationError::MixedEntity);
            },
        };
        Ok(
            ComputedAnalyticalFeature {
                kind,
                window_id,
                time_window: first.window.time_window(),
                entity,
                as_of: first.closing.as_known_at().max_of(second.closing.as_known_at()).max_of(
                    first.window.as_of(),
                ).max_of(second.window.as_of()).max_of(first_decision.as_known_at()).max_of(
                    second_decision.as_known_at(),
                ),
                input_lineage_digest: blake3_hash(buffer.as_slice()),
                input_count: first_count + second_count + 2,
                analytical,
                finality_state: FinalityState::Final,
                watermark: Some(watermark),
                finality_as_known_at: first_decision.as_known_at().max_of(
                    second_decision.as_known_at(),
                ),
                source_coverage,
                quality_score: first_quality.min_of(second_quality),
            },
        )
    }

    /// An explicitly missing value. The entity, exact window, source universe, health, decision
    /// availability, and formula identity are all derived from the matching tracker decision.
    pub fn missing_task_four(
        kind: Task4FeatureKind,
        entity: FeatureEntity,
        tracker: &WatermarkTracker,
        decision: FinalizationDecision,
        error: FeatureComputationError,
    ) -> (result: Result<Self, FeatureComputationError>)
        ensures
            match missing_feature(kind, entity@, tracker@, decision@, error) {
                Err(error) => result is Err && result->Err_0 == error,
                Ok(feature) => result is Ok && result->Ok_0@ == feature,
            },
    {
        let reason = match error.missingness_reason() {
            None => {
                return Err(error);
            },
            Some(reason) => reason,
        };
        if !tracker.validates_decision(decision, &entity) {
            return Err(FeatureComputationError::UntrustedInput);
        }
        let paired: bool = kind == Task4FeatureKind::RealizedCovariance || kind
            == Task4FeatureKind::RealizedCorrelation;
        let fits: bool = match &entity {
            FeatureEntity::AssetPair(_, _) => paired,
            FeatureEntity::Asset(_) => !paired,
            _ => false,
        };
        if !fits {
            return Err(FeatureComputationError::MixedEntity);
        }
        let source_coverage = match tracker.coverage_for_decision(decision) {
            None => {
                return Err(FeatureComputationError::UntrustedInput);
            },
            Some(coverage) => coverage,
        };
        match kind.output_window_id(decision.window()) {
            Err(error) => Err(error),
            Ok(window_id) => Ok(
                ComputedAnalyticalFeature {
                    kind,
                    window_id,
                    time_window: decision.window(),
                    entity,
                    as_of: decision.as_known_at(),
                    input_lineage_digest: decision.evidence_digest(),
                    input_count: 0,
                    analytical: AnalyticalFeature::Missing(reason),
                    finality_state: finality_state(decision.state()),
                    watermark: decision.watermark(),
                    finality_as_known_at: decision.as_known_at(),
                    source_coverage,
                    quality_score: QualityScore { millionths: 0 },
                },
            ),
        }
    }

    pub fn kind(&self) -> (value: Task4FeatureKind)
        ensures
            value == self@.kind,
    {
        self.kind
    }

    pub fn window_id(&self) -> (value: &'static str)
        ensures
            value@ == self@.window_id,
    {
        self.window_id
    }

    pub fn time_window(&self) -> (value: TimeWindow)
        ensures
            value == self@.window,
    {
        self.time_window
    }

    pub fn as_of(&self) -> (value: UnixNanos)
        ensures
            value == self@.as_of,
    {
        self.as_of
    }

    pub fn analytical(&self) -> (value: AnalyticalFeature)
        ensures
            value == self@.analytical,
    {
        self.analytical
    }

    pub fn finality_state(&self) -> (value: FinalityState)
        ensures
            value == self@.finality,
    {
        self.finality_state
    }

    pub fn watermark(&self) -> (value: Option<UnixNanos>)
        ensures
            value == self@.watermark,
    {
        self.watermark
    }

    pub fn finality_as_known_at(&self) -> (value: UnixNanos)
        ensures
            value == self@.finality_as_known_at,
    {
        self.finality_as_known_at
    }

    pub fn quality_score(&self) -> (value: QualityScore)
        ensures
            value == self@.quality,
    {
        self.quality_score
    }

    pub fn input_count(&self) -> (value: usize)
        ensures
            value == self@.input_count,
    {
        self.input_count
    }

    pub fn entity(&self) -> (entity: &FeatureEntity)
        ensures
            entity@ == self@.entity,
    {
        &self.entity
    }

    pub fn source_coverage(&self) -> (coverage: &SourceCoverage)
        ensures
            coverage@ == self@.coverage,
    {
        &self.source_coverage
    }

    pub fn input_lineage_digest(&self) -> (digest: [u8; 32])
        ensures
            digest@ == self@.lineage,
    {
        self.input_lineage_digest
    }
}

/// Emits evidence-bound explicit missingness for any closed catalogue recipe. Only errors
/// classified as expected data absence are accepted.
pub fn compute_missing_task_four_feature(
    kind: Task4FeatureKind,
    entity: FeatureEntity,
    tracker: &WatermarkTracker,
    decision: FinalizationDecision,
    error: FeatureComputationError,
) -> (result: Result<ComputedAnalyticalFeature, FeatureComputationError>)
    ensures
        match missing_feature(kind, entity@, tracker@, decision@, error) {
            Err(error) => result is Err && result->Err_0 == error,
            Ok(feature) => result is Ok && result->Ok_0@ == feature,
        },
{
    ComputedAnalyticalFeature::missing_task_four(kind, entity, tracker, decision, error)
}

/// An expected absence is emitted with no inputs, no quality, and the decision as its lineage.
pub proof fn lemma_missing_features_claim_nothing(
    kind: Task4FeatureKind,
    entity: EntityView,
    tracker: TrackerView,
    decision: DecisionView,
    error: FeatureComputationError,
)
    requires
        missing_feature(kind, entity, tracker, decision, error) is Ok,
    ensures
        ({
            let feature = missing_feature(kind, entity, tracker, decision, error)->Ok_0;
            &&& feature.analytical is Missing
            &&& feature.input_count == 0
            &&& feature.quality.millionths == 0
            &&& error.absence() is Some
        }),
{
}

/// A present value is only ever bound to a final window.
pub proof fn lemma_present_values_are_final(
    kind: Task4FeatureKind,
    window: PriceWindowView,
    closing: Option<PriceObservationView>,
    tracker: TrackerView,
    analytical: AnalyticalFeature,
    secondary: Option<SecondaryView>,
)
    requires
        analytical is Present,
        priced_feature(kind, window, closing, tracker, analytical, secondary) is Ok,
    ensures
        priced_feature(
            kind,
            window,
            closing,
            tracker,
            analytical,
            secondary,
        )->Ok_0.finality == FinalityState::Final,
{
}

/// A feature is never dated before anything that it was computed from was known.
pub proof fn lemma_features_are_not_dated_early(
    kind: Task4FeatureKind,
    window: PriceWindowView,
    closing: Option<PriceObservationView>,
    tracker: TrackerView,
    analytical: AnalyticalFeature,
    secondary: Option<SecondaryView>,
)
    requires
        priced_feature(kind, window, closing, tracker, analytical, secondary) is Ok,
    ensures
        ({
            let feature = priced_feature(
                kind,
                window,
                closing,
                tracker,
                analytical,
                secondary,
            )->Ok_0;
            &&& feature.as_of.nanos >= window.as_of.nanos
            &&& feature.as_of.nanos >= feature.finality_as_known_at.nanos
            &&& closing is Some ==> feature.as_of.nanos >= closing->Some_0.as_known_at.nanos
            &&& secondary is Some ==> feature.as_of.nanos >= secondary->Some_0.as_known_at.nanos
        }),
{
}

pub open spec fn closing_view(closing: Option<&PriceObservation>) -> Option<PriceObservationView> {
    match closing {
        Some(closing) => Some(closing@),
        None => None,
    }
}

pub open spec fn secondary_view(secondary: Option<SecondaryEvidence>) -> Option<SecondaryView> {
    match secondary {
        Some(secondary) => Some(secondary@),
        None => None,
    }
}

struct PrimaryEvidence {
    as_of: UnixNanos,
    lineage_digest: [u8; 32],
    input_count: usize,
    quality_score: QualityScore,
    source_coverage: SourceCoverage,
}

impl View for PrimaryEvidence {
    type V = PrimaryView;

    closed spec fn view(&self) -> PrimaryView {
        PrimaryView {
            as_of: self.as_of,
            lineage: self.lineage_digest@,
            input_count: self.input_count as nat,
            quality: self.quality_score,
            coverage: self.source_coverage@,
        }
    }
}

fn gather_primary(
    window: &PriceWindow,
    closing: Option<&PriceObservation>,
    decision: FinalizationDecision,
) -> (result: Result<PrimaryEvidence, FeatureComputationError>)
    ensures
        match primary_evidence(window@, closing_view(closing), decision@) {
            Err(error) => result is Err && result->Err_0 == error,
            Ok(primary) => result is Ok && result->Ok_0@ == primary,
        },
{
    let count: usize = window.observation_count();
    match closing {
        Some(closing) => {
            let lineage_digest = match window.closing_lineage_digest(closing) {
                Err(error) => {
                    return Err(error);
                },
                Ok(lineage) => lineage,
            };
            let quality_score = match window.quality_with_closing(closing) {
                Err(error) => {
                    return Err(error);
                },
                Ok(quality) => quality,
            };
            match window.source_coverage() {
                None => Err(FeatureComputationError::UntrustedInput),
                Some(coverage) => Ok(
                    PrimaryEvidence {
                        as_of: closing.as_known_at().max_of(window.as_of()).max_of(
                            decision.as_known_at(),
                        ),
                        lineage_digest,
                        input_count: count + 1,
                        quality_score,
                        source_coverage: coverage.clone(),
                    },
                ),
            }
        },
        None => {
            let end = window.time_window().end();
            let reached = match decision.watermark() {
                Some(watermark) => watermark,
                None => end,
            };
            let lineage_digest = match window.finalized_lineage_digest() {
                Err(error) => {
                    return Err(error);
                },
                Ok(lineage) => lineage,
            };
            match (window.quality_score(), window.source_coverage()) {
                (Some(quality_score), Some(coverage)) => Ok(
                    PrimaryEvidence {
                        as_of: reached.max_of(window.as_of()).max_of(end).max_of(
                            decision.as_known_at(),
                        ),
                        lineage_digest,
                        input_count: count,
                        quality_score,
                        source_coverage: coverage.clone(),
                    },
                ),
                _ => Err(FeatureComputationError::UntrustedInput),
            }
        },
    }
}

fn add_secondary(primary: PrimaryEvidence, secondary: Option<SecondaryEvidence>) -> (result: Result<
    PrimaryEvidence,
    FeatureComputationError,
>)
    ensures
        match with_secondary(primary@, secondary_view(secondary)) {
            Err(error) => result is Err && result->Err_0 == error,
            Ok(evidence) => result is Ok && result->Ok_0@ == evidence,
        },
{
    let secondary = match secondary {
        None => {
            return Ok(primary);
        },
        Some(secondary) => secondary,
    };
    let mut buffer: Vec<u8> = Vec::new();
    put_bytes(&mut buffer, "crypto-intelligence/primary-secondary-lineage/v1".as_bytes());
    put_bytes(&mut buffer, primary.lineage_digest.as_slice());
    put_bytes(&mut buffer, secondary.lineage_digest.as_slice());
    proof {
        assert(buffer@ =~= utf8("crypto-intelligence/primary-secondary-lineage/v1"@)
            + primary@.lineage + secondary@.lineage);
    }
    let input_count: usize = match primary.input_count.checked_add(secondary.input_count) {
        None => {
            return Err(FeatureComputationError::CapacityExceeded);
        },
        Some(count) => count,
    };
    let source_coverage = match &secondary.source_coverage {
        None => primary.source_coverage.clone(),
        Some(coverage) => match merge_source_coverage(&primary.source_coverage, coverage) {
            Err(error) => {
                return Err(error);
            },
            Ok(coverage) => coverage,
        },
    };
    Ok(
        PrimaryEvidence {
            as_of: primary.as_of.max_of(secondary.as_known_at),
            lineage_digest: blake3_hash(buffer.as_slice()),
            input_count,
            quality_score: primary.quality_score.min_of(secondary.quality_score),
            source_coverage,
        },
    )
}

/// A derived feature is only bound once its window has closed by every clock, says what it was
/// given, and is never missing where the evidence and the kind allow it.
pub proof fn lemma_derived_features_wait_for_their_window(
    kind: Task4FeatureKind,
    evidence: DerivedView,
    analytical: AnalyticalFeature,
)
    ensures
        ({
            let owed = evidence.input_count > 0 && evidence.lineage != zero_digest()
                && evidence.as_of.nanos >= evidence.window.upper() && evidence.watermark.nanos
                >= evidence.window.upper() && evidence.finality_as_known_at.nanos
                <= evidence.as_of.nanos && kind.spec_output_window(evidence.window) is Ok;
            let result = derived_feature(kind, evidence, analytical);
            &&& result is Ok <==> owed
            &&& result is Ok ==> {
                let feature = result->Ok_0;
                &&& feature.kind == kind
                &&& feature.analytical == analytical
                &&& feature.finality == FinalityState::Final
                &&& feature.window == evidence.window
                &&& feature.entity == evidence.entity
                &&& feature.as_of == evidence.as_of
                &&& feature.lineage == evidence.lineage
                &&& feature.input_count == evidence.input_count
                &&& feature.watermark == Some(evidence.watermark)
                &&& feature.finality_as_known_at == evidence.finality_as_known_at
                &&& feature.coverage == evidence.coverage
                &&& feature.quality == evidence.quality
            }
        }),
{
}

/// Evidence beside a window moves the feature no earlier, makes it no better, and adds its own
/// inputs. Without any, the window's evidence stands as it is.
pub proof fn lemma_secondary_evidence_adds_up(
    primary: PrimaryView,
    secondary: Option<SecondaryView>,
)
    requires
        with_secondary(primary, secondary) is Ok,
    ensures
        ({
            let evidence = with_secondary(primary, secondary)->Ok_0;
            match secondary {
                None => evidence == primary,
                Some(beside) => {
                    &&& evidence.input_count == primary.input_count + beside.input_count
                    &&& evidence.as_of.nanos >= primary.as_of.nanos
                    &&& evidence.as_of.nanos >= beside.as_known_at.nanos
                    &&& evidence.as_of == primary.as_of || evidence.as_of == beside.as_known_at
                    &&& evidence.quality.millionths <= primary.quality.millionths
                    &&& evidence.quality.millionths <= beside.quality.millionths
                    &&& evidence.quality == primary.quality || evidence.quality
                        == beside.quality
                    &&& beside.coverage is None ==> evidence.coverage == primary.coverage
                },
            }
        }),
{
}

/// A feature of a price window counts every observation, its closing observation once, and
/// whatever stands beside it. It speaks of the window, the entity and the decision that it was
/// made from, and it is dated at one of the times at which its evidence was known.
pub proof fn lemma_priced_features_account_for_their_evidence(
    kind: Task4FeatureKind,
    window: PriceWindowView,
    closing: Option<PriceObservationView>,
    tracker: TrackerView,
    analytical: AnalyticalFeature,
    secondary: Option<SecondaryView>,
)
    requires
        priced_feature(kind, window, closing, tracker, analytical, secondary) is Ok,
    ensures
        ({
            let feature = priced_feature(
                kind,
                window,
                closing,
                tracker,
                analytical,
                secondary,
            )->Ok_0;
            let decision = window.finalization->Some_0;
            let beside: int = match secondary {
                Some(beside) => beside.input_count as int,
                None => 0,
            };
            let end: int = match closing {
                Some(_) => 1,
                None => 0,
            };
            &&& window.finalization is Some
            &&& feature.kind == kind
            &&& feature.analytical == analytical
            &&& feature.window == window.window
            &&& feature.entity == window.entity
            &&& feature.watermark == decision.watermark
            &&& feature.finality_as_known_at == decision.as_known_at
            &&& feature.input_count == window.observations.len() + end + beside
            &&& secondary is Some ==> feature.quality.millionths
                <= secondary->Some_0.quality.millionths
            &&& closing is Some ==> {
                ||| feature.as_of == closing->Some_0.as_known_at
                ||| feature.as_of == window.as_of
                ||| feature.as_of == decision.as_known_at
                ||| secondary is Some && feature.as_of == secondary->Some_0.as_known_at
            }
            &&& closing is None ==> {
                &&& feature.as_of.nanos >= window.window.upper()
                &&& decision.watermark is Some ==> feature.as_of.nanos
                    >= decision.watermark->Some_0.nanos
                &&& {
                    ||| feature.as_of.nanos == window.window.upper()
                    ||| decision.watermark == Some(feature.as_of)
                    ||| feature.as_of == window.as_of
                    ||| feature.as_of == decision.as_known_at
                    ||| secondary is Some && feature.as_of == secondary->Some_0.as_known_at
                }
            }
        }),
{
}

/// A feature of two windows is known only when both are, is as good as the worse of them, waits
/// for the slower watermark, and counts the observations and the closing observation of both.
pub proof fn lemma_paired_features_rest_on_both_sides(
    kind: Task4FeatureKind,
    left: (PriceWindowView, PriceObservationView, TrackerView),
    right: (PriceWindowView, PriceObservationView, TrackerView),
    analytical: AnalyticalFeature,
)
    requires
        paired_feature(kind, left, right, analytical) is Ok,
    ensures
        ({
            let feature = paired_feature(kind, left, right, analytical)->Ok_0;
            let one = left.0.finalization->Some_0;
            let other = right.0.finalization->Some_0;
            &&& left.0.window == feature.window && right.0.window == feature.window
            &&& feature.kind == kind
            &&& feature.analytical == analytical
            &&& feature.finality == FinalityState::Final
            &&& one.state == Finalization::Final && other.state == Finalization::Final
            &&& left.0.entity is Asset && right.0.entity is Asset
            &&& left.0.entity != right.0.entity
            &&& feature.entity == EntityView::AssetPair(
                left.0.entity->Asset_0,
                right.0.entity->Asset_0,
            ) || feature.entity == EntityView::AssetPair(
                right.0.entity->Asset_0,
                left.0.entity->Asset_0,
            )
            &&& feature.input_count == left.0.observations.len() + right.0.observations.len() + 2
            &&& feature.as_of.nanos >= left.0.as_of.nanos
            &&& feature.as_of.nanos >= right.0.as_of.nanos
            &&& feature.as_of.nanos >= left.1.as_known_at.nanos
            &&& feature.as_of.nanos >= right.1.as_known_at.nanos
            &&& feature.as_of.nanos >= one.as_known_at.nanos
            &&& feature.as_of.nanos >= other.as_known_at.nanos
            &&& {
                ||| feature.as_of == left.0.as_of
                ||| feature.as_of == right.0.as_of
                ||| feature.as_of == left.1.as_known_at
                ||| feature.as_of == right.1.as_known_at
                ||| feature.as_of == one.as_known_at
                ||| feature.as_of == other.as_known_at
            }
            &&& feature.finality_as_known_at.nanos >= one.as_known_at.nanos
            &&& feature.finality_as_known_at.nanos >= other.as_known_at.nanos
            &&& feature.finality_as_known_at == one.as_known_at || feature.finality_as_known_at
                == other.as_known_at
            &&& one.watermark is Some && other.watermark is Some
            &&& feature.watermark is Some
            &&& feature.watermark->Some_0.nanos <= one.watermark->Some_0.nanos
            &&& feature.watermark->Some_0.nanos <= other.watermark->Some_0.nanos
            &&& feature.watermark == one.watermark || feature.watermark == other.watermark
            &&& feature.quality.millionths <= left.0.closing_quality(left.1)->Ok_0.millionths
            &&& feature.quality.millionths <= right.0.closing_quality(right.1)->Ok_0.millionths
            &&& left.0.closing_quality(left.1) == Ok::<QualityScore, FeatureComputationError>(
                feature.quality,
            ) || right.0.closing_quality(right.1) == Ok::<QualityScore, FeatureComputationError>(
                feature.quality,
            )
        }),
{
}

/// An expected absence speaks of the window, the entity and the decision that it was found at.
pub proof fn lemma_missing_features_name_their_decision(
    kind: Task4FeatureKind,
    entity: EntityView,
    tracker: TrackerView,
    decision: DecisionView,
    error: FeatureComputationError,
)
    requires
        missing_feature(kind, entity, tracker, decision, error) is Ok,
    ensures
        ({
            let feature = missing_feature(kind, entity, tracker, decision, error)->Ok_0;
            &&& feature.kind == kind
            &&& feature.entity == entity
            &&& feature.window == decision.window
            &&& feature.as_of == decision.as_known_at
            &&& feature.finality_as_known_at == decision.as_known_at
            &&& feature.watermark == decision.watermark
            &&& feature.analytical == AnalyticalFeature::Missing(error.absence()->Some_0)
            &&& entity is AssetPair <==> kind.is_paired()
            &&& entity is Asset <==> !kind.is_paired()
        }),
{
}

} // verus!
