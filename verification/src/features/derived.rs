//! Volatility features that are derived from emitted realized-volatility features.

use vstd::prelude::*;

use super::catalog::{Task4FeatureKind, FIFTEEN_MINUTES, FIVE_MINUTES, ONE_HOUR};
use super::computed::{
    derived_feature, ComputedAnalyticalFeature, ComputedView, DerivedFeatureEvidence, DerivedView,
    SecondaryEvidence, SecondaryView,
};
use super::price::{
    bind_value, outcome, value_feature, PriceObservation, PriceObservationView, PriceWindow,
    PriceWindowView, MAX_PRICE_OBSERVATIONS,
};
use super::volatility::{
    plan_realized_measures, realized_refusal, unless_refused, MAX_MEASURE_OBSERVATIONS,
    REALIZED_VOLATILITY_V2_SAMPLING_NANOS,
};
use super::{
    merge_source_coverage, present_value, united_coverage, AnalyticalFeature,
    FeatureComputationError,
};
use crate::digest::{
    blake3_digest, blake3_hash, encoded_i64, encoded_u16, encoded_u32, encoded_u64, framed,
    is_zero_digest, labelled, put_bytes, put_framed, put_i64, put_u16, put_u32, put_u64,
    same_digest, utf8, zero_digest,
};
use crate::domain::{
    finite_bits, AssetId, AssetView, CoverageView, EntityView, FeatureEntity, FinalityState,
    FiniteF64, QualityScore, SourceCoverage, UnixNanos,
};
use crate::registry::{
    same_text, version_ascii, FeatureDatum, FeatureObservation, FeatureValue, FeatureVersion,
};
use crate::watermark::{valid_label_bytes, WatermarkTracker};
use crate::window::TimeWindow;

verus! {

/// An emitted observation, and whether its registered definition accepts it.
#[derive(Debug)]
pub struct RegisteredObservation {
    pub observation: FeatureObservation,
    pub accepted: bool,
}

/// The asset and the value of a realized-volatility observation, or why it has none.
pub open spec fn realized_value(registered: RegisteredObservation) -> Result<
    (AssetView, FiniteF64),
    FeatureComputationError,
> {
    let observation = registered.observation;
    let kind = Task4FeatureKind::RealizedVolatility;
    if !registered.accepted || observation.feature_id@ != kind.spec_id()
        || observation.feature_version != kind.spec_version() || observation.formula_hash@
        != kind.spec_formula_hash() || observation.finality_state != FinalityState::Final
        || observation.watermark is None || !observation.source_coverage.is_complete() {
        Err(FeatureComputationError::UntrustedInput)
    } else {
        match (observation.entity, observation.datum) {
            (
                FeatureEntity::Asset(asset),
                FeatureDatum::Present(FeatureValue::Float64(value)),
            ) => if value.below_zero() {
                Err(FeatureComputationError::InvalidInput)
            } else {
                Ok((asset@, value))
            },
            (FeatureEntity::Asset(_), _) => Err(FeatureComputationError::InsufficientHistory),
            _ => Err(FeatureComputationError::MixedEntity),
        }
    }
}

fn realized_volatility_observation(registered: &RegisteredObservation) -> (result: Result<
    (AssetId, FiniteF64),
    FeatureComputationError,
>)
    ensures
        match realized_value(*registered) {
            Err(error) => result is Err && result->Err_0 == error,
            Ok((asset, value)) => result is Ok && result->Ok_0.0@ == asset && result->Ok_0.1
                == value,
        },
{
    let observation = &registered.observation;
    let kind = Task4FeatureKind::RealizedVolatility;
    let formula = kind.formula_hash();
    if !registered.accepted || !same_text(observation.feature_id.as_str(), kind.id())
        || observation.feature_version != kind.version() || !same_digest(
        &observation.formula_hash,
        &formula,
    ) || observation.finality_state != FinalityState::Final || observation.watermark.is_none()
        || observation.source_coverage.entries.len() < observation.source_coverage.expected.len() {
        return Err(FeatureComputationError::UntrustedInput);
    }
    match &observation.entity {
        FeatureEntity::Asset(asset) => match &observation.datum {
            FeatureDatum::Present(FeatureValue::Float64(value)) => if value.is_negative() {
                Err(FeatureComputationError::InvalidInput)
            } else {
                Ok((asset.clone(), *value))
            },
            _ => Err(FeatureComputationError::InsufficientHistory),
        },
        _ => Err(FeatureComputationError::MixedEntity),
    }
}

/// An observation ends no later, or rests on a higher watermark, than the one behind it.
pub open spec fn out_of_order(observations: Seq<RegisteredObservation>, i: int) -> bool {
    let left = observations[i - 1].observation;
    let right = observations[i].observation;
    left.event_time_end.nanos >= right.event_time_end.nanos || (match (
        left.watermark,
        right.watermark,
    ) {
        (Some(left), Some(right)) => left.nanos > right.nanos,
        (Some(_), None) => true,
        (None, _) => false,
    })
}

/// Why a series does not tile its window minute by minute, if it does not.
pub open spec fn series_shape_refusal(
    window: TimeWindow,
    observations: Seq<RegisteredObservation>,
) -> Option<FeatureComputationError> {
    let extent = window.upper() - window.lower();
    let cadence = REALIZED_VOLATILITY_V2_SAMPLING_NANOS as int;
    if observations.len() < 2 {
        Some(FeatureComputationError::InsufficientHistory)
    } else if observations.len() > MAX_MEASURE_OBSERVATIONS {
        Some(FeatureComputationError::CapacityExceeded)
    } else if extent % cadence != 0 || extent / cadence != observations.len() {
        Some(FeatureComputationError::SequenceGap)
    } else if exists|i: int|
        0 < i < observations.len() && #[trigger] out_of_order(observations, i) {
        Some(FeatureComputationError::NonMonotonicTime)
    } else if exists|i: int|
        0 <= i < observations.len() && (
        #[trigger] observations[i]).observation.event_time_end.nanos != window.lower() + (i + 1)
            * cadence {
        Some(FeatureComputationError::SequenceGap)
    } else {
        None
    }
}

/// What is gathered from a series: its values, and the least and latest of its evidence.
pub struct SeriesView {
    pub values: Seq<FiniteF64>,
    pub quality: QualityScore,
    pub as_of: UnixNanos,
    pub finality_as_known_at: UnixNanos,
    pub encoding: Seq<u8>,
}

/// Gathers a series of one asset under one coverage, or says where it stops being one.
pub open spec fn gathered(
    observations: Seq<RegisteredObservation>,
    asset: AssetView,
    coverage: CoverageView,
    start: SeriesView,
) -> Result<SeriesView, FeatureComputationError>
    decreases observations.len(),
{
    if observations.len() == 0 {
        Ok(start)
    } else {
        match gathered(observations.drop_last(), asset, coverage, start) {
            Err(error) => Err(error),
            Ok(before) => {
                let registered = observations.last();
                let observation = registered.observation;
                match realized_value(registered) {
                    Err(error) => Err(error),
                    Ok((own_asset, value)) => if own_asset != asset
                        || observation.source_coverage@ != coverage {
                        Err(FeatureComputationError::EligibleUniverseChanged)
                    } else {
                        Ok(
                            SeriesView {
                                values: before.values.push(value),
                                quality: before.quality.lower(observation.quality_score),
                                as_of: before.as_of.later(observation.as_known_at),
                                finality_as_known_at: before.finality_as_known_at.later(
                                    observation.finality_as_known_at,
                                ),
                                encoding: before.encoding + observation.lineage_hash@
                                    + encoded_i64(observation.event_time_start.nanos)
                                    + encoded_i64(observation.event_time_end.nanos),
                            },
                        )
                    },
                }
            },
        }
    }
}

/// Where gathering starts: the first observation's own evidence, and no value yet.
pub open spec fn series_start(
    window: TimeWindow,
    first: FeatureObservation,
) -> SeriesView {
    SeriesView {
        values: Seq::empty(),
        quality: first.quality_score,
        as_of: first.as_known_at,
        finality_as_known_at: first.finality_as_known_at,
        encoding: utf8("crypto-intelligence/finalized-volatility-series/v1"@) + encoded_i64(
            window.lower(),
        ) + encoded_i64(window.upper()),
    }
}

/// The values and the evidence of a series, or why it is none.
pub open spec fn volatility_series(
    window: TimeWindow,
    observations: Seq<RegisteredObservation>,
) -> Result<(Seq<FiniteF64>, DerivedView), FeatureComputationError> {
    match series_shape_refusal(window, observations) {
        Some(error) => Err(error),
        None => match realized_value(observations[0]) {
            Err(error) => Err(error),
            Ok((asset, _)) => {
                let first = observations[0].observation;
                match gathered(
                    observations,
                    asset,
                    first.source_coverage@,
                    series_start(window, first),
                ) {
                    Err(error) => Err(error),
                    Ok(series) => match observations.last().observation.watermark {
                        None => Err(FeatureComputationError::WindowNotFinal),
                        Some(watermark) => Ok(
                            (
                                series.values,
                                DerivedView {
                                    window,
                                    entity: EntityView::Asset(asset),
                                    as_of: series.as_of,
                                    lineage: blake3_digest(series.encoding),
                                    input_count: observations.len(),
                                    watermark,
                                    finality_as_known_at: series.finality_as_known_at,
                                    coverage: first.source_coverage@,
                                    quality: series.quality,
                                },
                            ),
                        ),
                    },
                }
            },
        },
    }
}

/// A finalized point-in-time series of emitted realized-volatility features.
#[derive(Debug)]
pub struct FinalizedVolatilitySeries {
    values: Vec<FiniteF64>,
    evidence: DerivedFeatureEvidence,
}

fn check_series_shape(time_window: TimeWindow, observations: &Vec<RegisteredObservation>) -> (result:
    Result<(), FeatureComputationError>)
    ensures
        match series_shape_refusal(time_window, observations@) {
            Some(error) => result == Err::<(), FeatureComputationError>(error),
            None => result == Ok::<(), FeatureComputationError>(()),
        },
{
    if observations.len() < 2 {
        return Err(FeatureComputationError::InsufficientHistory);
    }
    if observations.len() > MAX_MEASURE_OBSERVATIONS {
        return Err(FeatureComputationError::CapacityExceeded);
    }
    let start: i64 = time_window.start().value();
    let end: i64 = time_window.end().value();
    let extent: u64 = (end - start) as u64;
    let cadence: u64 = REALIZED_VOLATILITY_V2_SAMPLING_NANOS;
    let count: usize = observations.len();
    if extent % cadence != 0 || extent / cadence != count as u64 {
        return Err(FeatureComputationError::SequenceGap);
    }
    let mut ordered: bool = true;
    let mut i: usize = 1;
    while i < count
        invariant
            1 <= i <= count == observations@.len(),
            ordered == !(exists|k: int| 0 < k < i && #[trigger] out_of_order(observations@, k)),
        decreases count - i,
    {
        let left = &observations[i - 1].observation;
        let right = &observations[i].observation;
        let regressed: bool = match (left.watermark, right.watermark) {
            (Some(left), Some(right)) => left.value() > right.value(),
            (Some(_), None) => true,
            (None, _) => false,
        };
        if left.event_time_end.value() >= right.event_time_end.value() || regressed {
            proof {
                assert(out_of_order(observations@, i as int));
            }
            ordered = false;
        }
        i += 1;
    }
    if !ordered {
        return Err(FeatureComputationError::NonMonotonicTime);
    }
    proof {
        vstd::arithmetic::div_mod::lemma_fundamental_div_mod(extent as int, cadence as int);
    }
    let mut expected: u64 = start as u64;
    let mut tiled: bool = true;
    let mut k: usize = 0;
    while k < count
        invariant
            k <= count == observations@.len(),
            cadence == REALIZED_VOLATILITY_V2_SAMPLING_NANOS,
            expected == start + k * cadence,
            0 <= start,
            start + count * cadence <= i64::MAX,
            tiled == !(exists|j: int|
                0 <= j < k && (#[trigger] observations@[j]).observation.event_time_end.nanos
                    != start + (j + 1) * cadence),
        decreases count - k,
    {
        proof {
            assert((k + 1) * cadence <= count * cadence) by (nonlinear_arith)
                requires
                    k + 1 <= count,
                    cadence >= 0,
            ;
            assert((k + 1) * cadence == k * cadence + cadence) by (nonlinear_arith);
        }
        expected = expected + cadence;
        if observations[k].observation.event_time_end.value() != expected as i64 {
            proof {
                assert(observations@[k as int].observation.event_time_end.nanos != start + (k + 1)
                    * cadence);
            }
            tiled = false;
        }
        k += 1;
    }
    if !tiled {
        return Err(FeatureComputationError::SequenceGap);
    }
    Ok(())
}

proof fn lemma_gathering_fails(
    observations: Seq<RegisteredObservation>,
    count: int,
    asset: AssetView,
    coverage: CoverageView,
    start: SeriesView,
    error: FeatureComputationError,
)
    requires
        0 <= count <= observations.len(),
        gathered(observations.take(count), asset, coverage, start) == Err::<
            SeriesView,
            FeatureComputationError,
        >(error),
    ensures
        gathered(observations, asset, coverage, start) == Err::<
            SeriesView,
            FeatureComputationError,
        >(error),
    decreases observations.len() - count,
{
    if count < observations.len() {
        assert(observations.take(count + 1).drop_last() =~= observations.take(count));
        lemma_gathering_fails(observations, count + 1, asset, coverage, start, error);
    } else {
        assert(observations.take(count) =~= observations);
    }
}

impl FinalizedVolatilitySeries {
    pub closed spec fn measures(self) -> Seq<FiniteF64> {
        self.values@
    }

    pub closed spec fn backing(self) -> DerivedView {
        self.evidence@
    }

    pub fn try_new(time_window: TimeWindow, observations: Vec<RegisteredObservation>) -> (result:
        Result<Self, FeatureComputationError>)
        ensures
            match volatility_series(time_window, observations@) {
                Err(error) => result is Err && result->Err_0 == error,
                Ok((values, evidence)) => result is Ok && result->Ok_0.measures() == values
                    && result->Ok_0.backing() == evidence,
            },
    {
        if let Err(error) = check_series_shape(time_window, &observations) {
            return Err(error);
        }
        let asset = match realized_volatility_observation(&observations[0]) {
            Err(error) => {
                return Err(error);
            },
            Ok((asset, _)) => asset,
        };
        let first_coverage = observations[0].observation.source_coverage.clone();
        let mut values: Vec<FiniteF64> = Vec::new();
        let mut quality_score = observations[0].observation.quality_score;
        let mut as_of = observations[0].observation.as_known_at;
        let mut finality_as_known_at = observations[0].observation.finality_as_known_at;
        let mut buffer = labelled("crypto-intelligence/finalized-volatility-series/v1");
        put_i64(&mut buffer, time_window.start().value());
        put_i64(&mut buffer, time_window.end().value());
        let ghost all = observations@;
        let ghost start = series_start(time_window, observations@[0].observation);
        let mut i: usize = 0;
        proof {
            assert(all.take(0) =~= Seq::empty());
            assert(values@ =~= Seq::empty());
        }
        while i < observations.len()
            invariant
                i <= observations@.len(),
                all == observations@,
                gathered(all.take(i as int), asset@, first_coverage@, start) == Ok::<
                    SeriesView,
                    FeatureComputationError,
                >(
                    (SeriesView {
                        values: values@,
                        quality: quality_score,
                        as_of,
                        finality_as_known_at,
                        encoding: buffer@,
                    }),
                ),
                series_shape_refusal(time_window, all) is None,
                realized_value(all[0]) is Ok && realized_value(all[0])->Ok_0.0 == asset@,
                first_coverage@ == all[0].observation.source_coverage@,
                start == series_start(time_window, all[0].observation),
            decreases observations.len() - i,
        {
            proof {
                assert(all.take(i + 1).drop_last() =~= all.take(i as int));
                assert(all.take(i + 1).last() == observations@[i as int]);
            }
            let (own_asset, value) = match realized_volatility_observation(&observations[i]) {
                Err(error) => {
                    proof {
                        lemma_gathering_fails(
                            all,
                            i + 1,
                            asset@,
                            first_coverage@,
                            start,
                            error,
                        );
                    }
                    return Err(error);
                },
                Ok(found) => found,
            };
            let observation = &observations[i].observation;
            if !own_asset.same(&asset) || !observation.source_coverage.same(&first_coverage) {
                proof {
                    lemma_gathering_fails(
                        all,
                        i + 1,
                        asset@,
                        first_coverage@,
                        start,
                        FeatureComputationError::EligibleUniverseChanged,
                    );
                }
                return Err(FeatureComputationError::EligibleUniverseChanged);
            }
            values.push(value);
            quality_score = quality_score.min_of(observation.quality_score);
            as_of = as_of.max_of(observation.as_known_at);
            finality_as_known_at = finality_as_known_at.max_of(observation.finality_as_known_at);
            put_bytes(&mut buffer, observation.lineage_hash.as_slice());
            put_i64(&mut buffer, observation.event_time_start.value());
            put_i64(&mut buffer, observation.event_time_end.value());
            i += 1;
        }
        proof {
            assert(all.take(observations@.len() as int) =~= all);
        }
        let count: usize = observations.len();
        match observations[count - 1].observation.watermark {
            None => Err(FeatureComputationError::WindowNotFinal),
            Some(watermark) => Ok(
                FinalizedVolatilitySeries {
                    values,
                    evidence: DerivedFeatureEvidence {
                        time_window,
                        entity: FeatureEntity::Asset(asset),
                        as_of,
                        lineage_digest: blake3_hash(buffer.as_slice()),
                        input_count: count,
                        watermark,
                        finality_as_known_at,
                        source_coverage: first_coverage,
                        quality_score,
                    },
                },
            ),
        }
    }

    /// The realized volatilities, in time order.
    pub fn values(&self) -> (values: &Vec<FiniteF64>)
        ensures
            values@ == self.measures(),
    {
        &self.values
    }
}

/// The derived feature with a measured value, or why there is none.
pub open spec fn derived_value(
    kind: Task4FeatureKind,
    evidence: DerivedView,
    measured: Result<u64, FeatureComputationError>,
) -> Result<ComputedView, FeatureComputationError> {
    match measured {
        Err(error) => Err(error),
        Ok(bits) => match present_value(bits) {
            Err(error) => match derived_feature(
                kind,
                evidence,
                AnalyticalFeature::Present(FiniteF64::of_pattern(bits)),
            ) {
                Err(earlier) => Err(earlier),
                Ok(_) => Err(error),
            },
            Ok(analytical) => derived_feature(kind, evidence, analytical),
        },
    }
}

fn bind_derived(
    kind: Task4FeatureKind,
    evidence: DerivedFeatureEvidence,
    measured: Result<u64, FeatureComputationError>,
) -> (result: Result<ComputedAnalyticalFeature, FeatureComputationError>)
    ensures
        outcome(result) == derived_value(kind, evidence@, measured),
{
    let bits: u64 = match measured {
        Err(error) => {
            return Err(error);
        },
        Ok(bits) => bits,
    };
    match AnalyticalFeature::present(bits) {
        Ok(analytical) => ComputedAnalyticalFeature::from_derived_feature_recipe(
            kind,
            evidence,
            analytical,
        ),
        Err(error) => {
            // The evidence is refused before the value is.
            match AnalyticalFeature::present(0) {
                Err(other) => Err(other),
                Ok(zero) => match ComputedAnalyticalFeature::from_derived_feature_recipe(
                    kind,
                    evidence,
                    zero,
                ) {
                    Err(earlier) => Err(earlier),
                    Ok(_) => Err(error),
                },
            }
        },
    }
}

/// Binds the dispersion that was measured over a series of realized volatilities.
pub fn compute_volatility_of_volatility(
    series: FinalizedVolatilitySeries,
    measured: Result<u64, FeatureComputationError>,
) -> (result: Result<ComputedAnalyticalFeature, FeatureComputationError>)
    ensures
        outcome(result) == derived_value(
            Task4FeatureKind::VolatilityOfVolatility,
            series.backing(),
            measured,
        ),
{
    bind_derived(Task4FeatureKind::VolatilityOfVolatility, series.evidence, measured)
}

/// The extents of a short and a long horizon that a term ratio compares.
pub open spec fn term_horizons(short: int, long: int) -> bool {
    (short == FIVE_MINUTES && long == FIFTEEN_MINUTES) || (short == FIFTEEN_MINUTES && long
        == ONE_HOUR)
}

/// The two values of a term ratio and the evidence behind them, or why there are none.
pub open spec fn term_ratio_inputs(
    short: RegisteredObservation,
    long: RegisteredObservation,
) -> Result<(FiniteF64, FiniteF64, AssetView, CoverageView), FeatureComputationError> {
    let short_extent = short.observation.event_time_end.nanos
        - short.observation.event_time_start.nanos;
    let long_extent = long.observation.event_time_end.nanos
        - long.observation.event_time_start.nanos;
    match (realized_value(short), realized_value(long)) {
        (Err(error), _) => Err(error),
        (Ok(_), Err(error)) => Err(error),
        (Ok((short_asset, short_value)), Ok((long_asset, long_value))) => {
            if short_asset != long_asset {
                Err(FeatureComputationError::MixedEntity)
            } else if short.observation.event_time_end != long.observation.event_time_end {
                Err(FeatureComputationError::NonMonotonicTime)
            } else if short_extent > i64::MAX || short_extent < i64::MIN || long_extent > i64::MAX
                || long_extent < i64::MIN {
                Err(FeatureComputationError::InvalidInput)
            } else if !term_horizons(short_extent, long_extent) {
                Err(FeatureComputationError::InvalidParameter)
            } else if long.observation.event_time_start.nanos < 0 {
                Err(FeatureComputationError::InvalidInput)
            } else {
                match united_coverage(
                    short.observation.source_coverage@,
                    long.observation.source_coverage@,
                ) {
                    Err(error) => Err(error),
                    Ok(coverage) => Ok((short_value, long_value, short_asset, coverage)),
                }
            }
        },
    }
}

/// The term ratio of two horizons with the value that was measured on them, or why there is none.
pub open spec fn term_ratio_feature(
    short: RegisteredObservation,
    long: RegisteredObservation,
    measured: Result<u64, FeatureComputationError>,
    window: TimeWindow,
) -> Result<ComputedView, FeatureComputationError> {
    match (term_ratio_inputs(short, long), measured) {
        (Err(error), _) => Err(error),
        (Ok(_), Err(error)) => Err(error),
        (Ok((_, _, asset, coverage)), Ok(_)) => derived_value(
            Task4FeatureKind::VolatilityTermRatio,
            DerivedView {
                window,
                entity: EntityView::Asset(asset),
                as_of: short.observation.as_known_at.later(long.observation.as_known_at),
                lineage: blake3_digest(
                    utf8("crypto-intelligence/volatility-term-ratio-input/v1"@)
                        + short.observation.lineage_hash@ + long.observation.lineage_hash@,
                ),
                input_count: 2,
                watermark: short.observation.watermark->Some_0.earlier(
                    long.observation.watermark->Some_0,
                ),
                finality_as_known_at: short.observation.finality_as_known_at.later(
                    long.observation.finality_as_known_at,
                ),
                coverage,
                quality: short.observation.quality_score.lower(long.observation.quality_score),
            },
            measured,
        ),
    }
}

fn check_term_ratio(short: &RegisteredObservation, long: &RegisteredObservation) -> (result: Result<
    (FiniteF64, FiniteF64, AssetId, SourceCoverage, TimeWindow),
    FeatureComputationError,
>)
    ensures
        match term_ratio_inputs(*short, *long) {
            Err(error) => result is Err && result->Err_0 == error,
            Ok((short_value, long_value, asset, coverage)) => {
                &&& result is Ok
                &&& result->Ok_0.0 == short_value
                &&& result->Ok_0.1 == long_value
                &&& result->Ok_0.2@ == asset
                &&& result->Ok_0.3@ == coverage
                &&& result->Ok_0.4.lower() == long.observation.event_time_start.nanos
                &&& result->Ok_0.4.upper() == long.observation.event_time_end.nanos
            },
        },
{
    let (short_asset, short_value) = match realized_volatility_observation(short) {
        Err(error) => {
            return Err(error);
        },
        Ok(found) => found,
    };
    let (long_asset, long_value) = match realized_volatility_observation(long) {
        Err(error) => {
            return Err(error);
        },
        Ok(found) => found,
    };
    if !short_asset.same(&long_asset) {
        return Err(FeatureComputationError::MixedEntity);
    }
    let end = short.observation.event_time_end;
    if end != long.observation.event_time_end {
        return Err(FeatureComputationError::NonMonotonicTime);
    }
    let short_extent: i64 = match end.value().checked_sub(
        short.observation.event_time_start.value(),
    ) {
        None => {
            return Err(FeatureComputationError::InvalidInput);
        },
        Some(extent) => extent,
    };
    let long_extent: i64 = match end.value().checked_sub(
        long.observation.event_time_start.value(),
    ) {
        None => {
            return Err(FeatureComputationError::InvalidInput);
        },
        Some(extent) => extent,
    };
    let matched: bool = (short_extent == FIVE_MINUTES as i64 && long_extent
        == FIFTEEN_MINUTES as i64) || (short_extent == FIFTEEN_MINUTES as i64 && long_extent
        == ONE_HOUR as i64);
    if !matched {
        return Err(FeatureComputationError::InvalidParameter);
    }
    let window = match TimeWindow::try_new(long.observation.event_time_start, end) {
        Err(_) => {
            return Err(FeatureComputationError::InvalidInput);
        },
        Ok(window) => window,
    };
    match merge_source_coverage(
        &short.observation.source_coverage,
        &long.observation.source_coverage,
    ) {
        Err(error) => Err(error),
        Ok(coverage) => Ok((short_value, long_value, short_asset, coverage, window)),
    }
}

/// The short-horizon and the long-horizon volatility of a term ratio.
pub fn plan_volatility_term_ratio(
    short: &RegisteredObservation,
    long: &RegisteredObservation,
) -> (result: Result<(FiniteF64, FiniteF64), FeatureComputationError>)
    ensures
        match term_ratio_inputs(*short, *long) {
            Err(error) => result is Err && result->Err_0 == error,
            Ok((short_value, long_value, _, _)) => result == Ok::<
                (FiniteF64, FiniteF64),
                FeatureComputationError,
            >((short_value, long_value)),
        },
{
    match check_term_ratio(short, long) {
        Err(error) => Err(error),
        Ok((short_value, long_value, _, _, _)) => Ok((short_value, long_value)),
    }
}

/// Binds the ratio that was measured on a short and a long horizon.
pub fn compute_volatility_term_ratio(
    short: &RegisteredObservation,
    long: &RegisteredObservation,
    measured: Result<u64, FeatureComputationError>,
) -> (result: Result<ComputedAnalyticalFeature, FeatureComputationError>)
    ensures
        exists|window: TimeWindow|
            (term_ratio_inputs(*short, *long) is Ok ==> window.lower()
                == long.observation.event_time_start.nanos && window.upper()
                == long.observation.event_time_end.nanos) && outcome(result)
                == #[trigger] term_ratio_feature(*short, *long, measured, window),
{
    let (asset, source_coverage, time_window) = match check_term_ratio(short, long) {
        Err(error) => {
            proof {
                let window = arbitrary::<TimeWindow>();
                assert(term_ratio_feature(*short, *long, measured, window) == Err::<
                    ComputedView,
                    FeatureComputationError,
                >(error));
            }
            return Err(error);
        },
        Ok((_, _, asset, coverage, window)) => (asset, coverage, window),
    };
    let mut buffer = labelled("crypto-intelligence/volatility-term-ratio-input/v1");
    put_bytes(&mut buffer, short.observation.lineage_hash.as_slice());
    put_bytes(&mut buffer, long.observation.lineage_hash.as_slice());
    let watermark = match (short.observation.watermark, long.observation.watermark) {
        (Some(short), Some(long)) => short.min_of(long),
        _ => {
            return Err(FeatureComputationError::WindowNotFinal);
        },
    };
    let evidence = DerivedFeatureEvidence {
        time_window,
        entity: FeatureEntity::Asset(asset),
        as_of: short.observation.as_known_at.max_of(long.observation.as_known_at),
        lineage_digest: blake3_hash(buffer.as_slice()),
        input_count: 2,
        watermark,
        finality_as_known_at: short.observation.finality_as_known_at.max_of(
            long.observation.finality_as_known_at,
        ),
        source_coverage,
        quality_score: short.observation.quality_score.min_of(long.observation.quality_score),
    };
    let result = bind_derived(Task4FeatureKind::VolatilityTermRatio, evidence, measured);
    proof {
        assert(outcome(result) == term_ratio_feature(*short, *long, measured, time_window));
    }
    result
}

/// Point-in-time model-package evidence for a volatility forecast.
#[derive(Debug)]
pub struct VolatilityForecastEvidence {
    asset: AssetId,
    target_window: TimeWindow,
    forecast: FiniteF64,
    generated_at: UnixNanos,
    as_known_at: UnixNanos,
    model_package_id: String,
    model_version: FeatureVersion,
    artifact_hash: [u8; 32],
    lineage_hash: [u8; 32],
    quality_score: QualityScore,
}

/// The contents of a [`VolatilityForecastEvidence`].
pub struct ForecastView {
    pub asset: AssetView,
    pub target: TimeWindow,
    pub forecast: FiniteF64,
    pub generated_at: UnixNanos,
    pub as_known_at: UnixNanos,
    pub model_package_id: Seq<char>,
    pub model_version: FeatureVersion,
    pub artifact_hash: Seq<u8>,
    pub lineage_hash: Seq<u8>,
    pub quality: QualityScore,
}

impl View for VolatilityForecastEvidence {
    type V = ForecastView;

    closed spec fn view(&self) -> ForecastView {
        ForecastView {
            asset: self.asset@,
            target: self.target_window,
            forecast: self.forecast,
            generated_at: self.generated_at,
            as_known_at: self.as_known_at,
            model_package_id: self.model_package_id@,
            model_version: self.model_version,
            artifact_hash: self.artifact_hash@,
            lineage_hash: self.lineage_hash@,
            quality: self.quality_score,
        }
    }
}

/// What a forecast is made of. The forecast itself is given by its bit pattern.
#[derive(Debug)]
pub struct VolatilityForecastInput {
    pub asset: AssetId,
    pub target_window: TimeWindow,
    pub forecast_bits: u64,
    pub generated_at: UnixNanos,
    pub as_known_at: UnixNanos,
    pub model_package_id: String,
    pub model_version: FeatureVersion,
    pub artifact_hash: [u8; 32],
    pub lineage_hash: [u8; 32],
    pub quality_score: QualityScore,
}

/// Why a forecast is refused, if it is: it must be known before its window starts, be finite and
/// not negative, and name its model and artifacts.
pub open spec fn forecast_refusal(input: VolatilityForecastInput) -> Option<
    FeatureComputationError,
> {
    if input.generated_at.nanos <= 0 || input.generated_at.nanos > input.as_known_at.nanos
        || input.as_known_at.nanos > input.target_window.lower() {
        Some(FeatureComputationError::FutureKnowledge)
    } else if !finite_bits(input.forecast_bits) || input.forecast_bits > 0x8000_0000_0000_0000
        || !crate::watermark::valid_label(utf8(input.model_package_id@), 128)
        || input.artifact_hash@ == zero_digest() || input.lineage_hash@ == zero_digest() {
        Some(FeatureComputationError::InvalidInput)
    } else {
        None
    }
}

impl VolatilityForecastEvidence {
    pub fn try_new(input: VolatilityForecastInput) -> (result: Result<
        Self,
        FeatureComputationError,
    >)
        ensures
            match forecast_refusal(input) {
                Some(error) => result is Err && result->Err_0 == error,
                None => result is Ok && result->Ok_0@ == (ForecastView {
                    asset: input.asset@,
                    target: input.target_window,
                    forecast: FiniteF64::of_pattern(input.forecast_bits),
                    generated_at: input.generated_at,
                    as_known_at: input.as_known_at,
                    model_package_id: input.model_package_id@,
                    model_version: input.model_version,
                    artifact_hash: input.artifact_hash@,
                    lineage_hash: input.lineage_hash@,
                    quality: input.quality_score,
                }),
            },
    {
        if input.generated_at.value() <= 0 || input.generated_at.value()
            > input.as_known_at.value() || input.as_known_at.value()
            > input.target_window.start().value() {
            return Err(FeatureComputationError::FutureKnowledge);
        }
        let forecast = match FiniteF64::from_bits(input.forecast_bits) {
            Err(_) => {
                return Err(FeatureComputationError::InvalidInput);
            },
            Ok(forecast) => forecast,
        };
        if input.forecast_bits > 0x8000_0000_0000_0000 || !valid_label_bytes(
            input.model_package_id.as_str().as_bytes(),
            128,
        ) || is_zero_digest(&input.artifact_hash) || is_zero_digest(&input.lineage_hash) {
            return Err(FeatureComputationError::InvalidInput);
        }
        Ok(
            VolatilityForecastEvidence {
                asset: input.asset,
                target_window: input.target_window,
                forecast,
                generated_at: input.generated_at,
                as_known_at: input.as_known_at,
                model_package_id: input.model_package_id,
                model_version: input.model_version,
                artifact_hash: input.artifact_hash,
                lineage_hash: input.lineage_hash,
                quality_score: input.quality_score,
            },
        )
    }
}

/// The realized and the forecast volatility of a window, or why they cannot be compared.
pub open spec fn residual_inputs(
    realized: RegisteredObservation,
    forecast: ForecastView,
) -> Result<(FiniteF64, FiniteF64), FeatureComputationError> {
    match realized_value(realized) {
        Err(error) => Err(error),
        Ok((asset, value)) => if asset != forecast.asset {
            Err(FeatureComputationError::MixedEntity)
        } else if realized.observation.event_time_start.nanos != forecast.target.lower()
            || realized.observation.event_time_end.nanos != forecast.target.upper() {
            Err(FeatureComputationError::InvalidParameter)
        } else {
            Ok((value, forecast.forecast))
        },
    }
}

/// The evidence behind a forecast residual.
pub open spec fn residual_evidence(
    realized: FeatureObservation,
    forecast: ForecastView,
) -> DerivedView {
    DerivedView {
        window: forecast.target,
        entity: EntityView::Asset(forecast.asset),
        as_of: realized.as_known_at.later(forecast.as_known_at),
        lineage: blake3_digest(
            utf8("crypto-intelligence/volatility-forecast-residual-input/v1"@)
                + realized.lineage_hash@ + framed(utf8(forecast.model_package_id)) + framed(
                version_ascii(forecast.model_version),
            ) + encoded_i64(forecast.generated_at.nanos) + encoded_i64(forecast.as_known_at.nanos)
                + encoded_u64(forecast.forecast.pattern()) + forecast.artifact_hash
                + forecast.lineage_hash,
        ),
        input_count: 2,
        watermark: realized.watermark->Some_0,
        finality_as_known_at: realized.finality_as_known_at,
        coverage: realized.source_coverage@,
        quality: realized.quality_score.lower(forecast.quality),
    }
}

/// The realized and the forecast volatility of a window.
pub fn plan_volatility_forecast_residual(
    realized: &RegisteredObservation,
    forecast: &VolatilityForecastEvidence,
) -> (result: Result<(FiniteF64, FiniteF64), FeatureComputationError>)
    ensures
        result == residual_inputs(*realized, forecast@),
{
    let (asset, value) = match realized_volatility_observation(realized) {
        Err(error) => {
            return Err(error);
        },
        Ok(found) => found,
    };
    if !asset.same(&forecast.asset) {
        return Err(FeatureComputationError::MixedEntity);
    }
    if realized.observation.event_time_start.value() != forecast.target_window.start().value()
        || realized.observation.event_time_end.value() != forecast.target_window.end().value() {
        return Err(FeatureComputationError::InvalidParameter);
    }
    Ok((value, forecast.forecast))
}

/// Binds the residual that was measured between a realized and a forecast volatility.
pub fn compute_volatility_forecast_residual(
    realized: &RegisteredObservation,
    forecast: &VolatilityForecastEvidence,
    measured: Result<u64, FeatureComputationError>,
) -> (result: Result<ComputedAnalyticalFeature, FeatureComputationError>)
    ensures
        outcome(result) == (match residual_inputs(*realized, forecast@) {
            Err(error) => Err(error),
            Ok(_) => derived_value(
                Task4FeatureKind::VolatilityForecastResidual,
                residual_evidence(realized.observation, forecast@),
                measured,
            ),
        }),
{
    if let Err(error) = plan_volatility_forecast_residual(realized, forecast) {
        return Err(error);
    }
    let observation = &realized.observation;
    let mut buffer = labelled("crypto-intelligence/volatility-forecast-residual-input/v1");
    put_bytes(&mut buffer, observation.lineage_hash.as_slice());
    put_framed(&mut buffer, forecast.model_package_id.as_str().as_bytes());
    let version = forecast.model_version.text();
    put_framed(&mut buffer, version.as_str().as_bytes());
    put_i64(&mut buffer, forecast.generated_at.value());
    put_i64(&mut buffer, forecast.as_known_at.value());
    put_u64(&mut buffer, forecast.forecast.bits());
    put_bytes(&mut buffer, forecast.artifact_hash.as_slice());
    put_bytes(&mut buffer, forecast.lineage_hash.as_slice());
    let watermark = match observation.watermark {
        None => {
            return Err(FeatureComputationError::WindowNotFinal);
        },
        Some(watermark) => watermark,
    };
    let evidence = DerivedFeatureEvidence {
        time_window: forecast.target_window,
        entity: FeatureEntity::Asset(forecast.asset.clone()),
        as_of: observation.as_known_at.max_of(forecast.as_known_at),
        lineage_digest: blake3_hash(buffer.as_slice()),
        input_count: 2,
        watermark,
        finality_as_known_at: observation.finality_as_known_at,
        source_coverage: observation.source_coverage.clone(),
        quality_score: observation.quality_score.min_of(forecast.quality_score),
    };
    bind_derived(Task4FeatureKind::VolatilityForecastResidual, evidence, measured)
}

/// A fitted seasonal factor, given by its bit pattern.
#[derive(Clone, Copy, Debug)]
pub struct SeasonalBaseline {
    pub factor: FiniteF64,
    pub fitted_through_nanos: i64,
    pub as_known_at_nanos: i64,
    pub version_hash: [u8; 32],
}

/// Point-in-time fitted seasonal artifact required by the seasonality recipe.
#[derive(Debug)]
pub struct SeasonalBaselineEvidence {
    asset: AssetId,
    utc_hour_of_week: u16,
    fit_window: TimeWindow,
    baseline: SeasonalBaseline,
    sample_count: usize,
    quality_score: QualityScore,
    lineage_digest: [u8; 32],
}

/// The contents of a [`SeasonalBaselineEvidence`].
pub struct SeasonalView {
    pub asset: AssetView,
    pub utc_hour_of_week: u16,
    pub fit_window: TimeWindow,
    pub baseline: SeasonalBaseline,
    pub sample_count: nat,
    pub quality: QualityScore,
    pub lineage: Seq<u8>,
}

impl View for SeasonalBaselineEvidence {
    type V = SeasonalView;

    closed spec fn view(&self) -> SeasonalView {
        SeasonalView {
            asset: self.asset@,
            utc_hour_of_week: self.utc_hour_of_week,
            fit_window: self.fit_window,
            baseline: self.baseline,
            sample_count: self.sample_count as nat,
            quality: self.quality_score,
            lineage: self.lineage_digest@,
        }
    }
}

/// A seasonal baseline as evidence beside a price window.
pub open spec fn seasonal_evidence(seasonal: SeasonalView) -> SecondaryView {
    SecondaryView {
        as_known_at: UnixNanos { nanos: seasonal.baseline.as_known_at_nanos },
        lineage: blake3_digest(
            utf8("crypto-intelligence/seasonal-baseline-evidence/v1"@)
                + crate::domain::entity_encoding(EntityView::Asset(seasonal.asset)) + encoded_u16(
                seasonal.utc_hour_of_week,
            ) + encoded_i64(seasonal.fit_window.lower()) + encoded_i64(seasonal.fit_window.upper())
                + encoded_u64(seasonal.baseline.factor.pattern()) + encoded_i64(
                seasonal.baseline.fitted_through_nanos,
            ) + encoded_i64(seasonal.baseline.as_known_at_nanos)
                + seasonal.baseline.version_hash@ + encoded_u64(seasonal.sample_count as u64)
                + encoded_u32(seasonal.quality.millionths) + seasonal.lineage,
        ),
        input_count: seasonal.sample_count,
        quality: seasonal.quality,
        coverage: None,
    }
}

impl SeasonalBaselineEvidence {
    pub fn try_new(
        asset: AssetId,
        utc_hour_of_week: u16,
        fit_window: TimeWindow,
        baseline: SeasonalBaseline,
        sample_count: usize,
        quality_score: QualityScore,
        lineage_digest: [u8; 32],
    ) -> (result: Result<Self, FeatureComputationError>)
        ensures
            result is Ok <==> utc_hour_of_week < 168 && 0 < sample_count <= MAX_PRICE_OBSERVATIONS
                && lineage_digest@ != zero_digest() && fit_window.upper()
                == baseline.fitted_through_nanos,
            result is Err ==> result->Err_0 == FeatureComputationError::InvalidInput,
            result is Ok ==> result->Ok_0@ == (SeasonalView {
                asset: asset@,
                utc_hour_of_week,
                fit_window,
                baseline,
                sample_count: sample_count as nat,
                quality: quality_score,
                lineage: lineage_digest@,
            }),
    {
        if utc_hour_of_week >= 168 || sample_count == 0 || sample_count > MAX_PRICE_OBSERVATIONS
            || is_zero_digest(&lineage_digest) || fit_window.end().value()
            != baseline.fitted_through_nanos {
            return Err(FeatureComputationError::InvalidInput);
        }
        Ok(
            SeasonalBaselineEvidence {
                asset,
                utc_hour_of_week,
                fit_window,
                baseline,
                sample_count,
                quality_score,
                lineage_digest,
            },
        )
    }

    /// The baseline as evidence beside a price window.
    pub fn secondary_evidence(&self) -> (evidence: SecondaryEvidence)
        ensures
            evidence@ == seasonal_evidence(self@),
    {
        let entity = FeatureEntity::Asset(self.asset.clone());
        let mut buffer = labelled("crypto-intelligence/seasonal-baseline-evidence/v1");
        entity.put(&mut buffer);
        put_u16(&mut buffer, self.utc_hour_of_week);
        put_i64(&mut buffer, self.fit_window.start().value());
        put_i64(&mut buffer, self.fit_window.end().value());
        put_u64(&mut buffer, self.baseline.factor.bits());
        put_i64(&mut buffer, self.baseline.fitted_through_nanos);
        put_i64(&mut buffer, self.baseline.as_known_at_nanos);
        put_bytes(&mut buffer, self.baseline.version_hash.as_slice());
        put_u64(&mut buffer, self.sample_count as u64);
        put_u32(&mut buffer, self.quality_score.millionths);
        put_bytes(&mut buffer, self.lineage_digest.as_slice());
        SecondaryEvidence {
            as_known_at: UnixNanos::new(self.baseline.as_known_at_nanos),
            lineage_digest: blake3_hash(buffer.as_slice()),
            input_count: self.sample_count,
            quality_score: self.quality_score,
            source_coverage: None,
        }
    }
}

/// The hour of the week at a time, counted from Monday 00:00 UTC. The epoch was a Thursday.
pub open spec fn hour_of_week(nanos: int) -> int {
    (nanos / ONE_HOUR as int + 72) % 168
}

/// Why a window cannot be adjusted by a baseline, if it cannot.
pub open spec fn seasonal_refusal(
    window: PriceWindowView,
    closing: PriceObservationView,
    seasonal: SeasonalView,
) -> Option<FeatureComputationError> {
    let start = window.window.lower();
    if window.entity != EntityView::Asset(seasonal.asset)
        || seasonal.baseline.fitted_through_nanos > start || seasonal.baseline.as_known_at_nanos
        > start {
        Some(FeatureComputationError::FutureKnowledge)
    } else if hour_of_week(start as int) != seasonal.utc_hour_of_week {
        Some(FeatureComputationError::InvalidParameter)
    } else {
        realized_refusal(window, closing)
    }
}

/// Whether a window can be adjusted by a baseline.
pub fn check_seasonality(
    window: &PriceWindow,
    closing: &PriceObservation,
    baseline: &SeasonalBaselineEvidence,
) -> (result: Result<(), FeatureComputationError>)
    ensures
        match seasonal_refusal(window@, closing@, baseline@) {
            Some(error) => result == Err::<(), FeatureComputationError>(error),
            None => result == Ok::<(), FeatureComputationError>(()),
        },
{
    let start: i64 = window.time_window().start().value();
    let same_asset: bool = match window.entity() {
        FeatureEntity::Asset(asset) => asset.same(&baseline.asset),
        _ => false,
    };
    if !same_asset || baseline.baseline.fitted_through_nanos > start
        || baseline.baseline.as_known_at_nanos > start {
        return Err(FeatureComputationError::FutureKnowledge);
    }
    let hour: u64 = (start as u64 / ONE_HOUR + 72) % 168;
    if hour != baseline.utc_hour_of_week as u64 {
        return Err(FeatureComputationError::InvalidParameter);
    }
    match plan_realized_measures(window, closing) {
        Err(error) => Err(error),
        Ok(_) => Ok(()),
    }
}

/// Binds a volatility that was adjusted by a seasonal baseline.
pub fn compute_seasonality_adjusted_volatility(
    window: &PriceWindow,
    closing: &PriceObservation,
    tracker: &WatermarkTracker,
    baseline: &SeasonalBaselineEvidence,
    measured: Result<u64, FeatureComputationError>,
) -> (result: Result<ComputedAnalyticalFeature, FeatureComputationError>)
    ensures
        outcome(result) == value_feature(
            Task4FeatureKind::SeasonalityAdjustedVolatility,
            window@,
            Some(closing@),
            tracker@,
            unless_refused(seasonal_refusal(window@, closing@, baseline@), measured),
            seasonal_evidence(baseline@),
        ),
{
    let planned = match check_seasonality(window, closing, baseline) {
        Err(error) => Err(error),
        Ok(()) => measured,
    };
    bind_value(
        Task4FeatureKind::SeasonalityAdjustedVolatility,
        window,
        Some(closing),
        tracker,
        planned,
        baseline.secondary_evidence(),
    )
}

proof fn lemma_gathering_reads_every_observation(
    observations: Seq<RegisteredObservation>,
    asset: AssetView,
    coverage: CoverageView,
    start: SeriesView,
)
    requires
        gathered(observations, asset, coverage, start) is Ok,
    ensures
        ({
            let series = gathered(observations, asset, coverage, start)->Ok_0;
            &&& series.values.len() == start.values.len() + observations.len()
            &&& forall|i: int|
                #![trigger observations[i]]
                0 <= i < observations.len() ==> {
                    &&& realized_value(observations[i]) == Ok::<
                        (AssetView, FiniteF64),
                        FeatureComputationError,
                    >((asset, series.values[start.values.len() + i]))
                    &&& observations[i].observation.source_coverage@ == coverage
                    &&& series.quality.millionths
                        <= observations[i].observation.quality_score.millionths
                    &&& series.as_of.nanos >= observations[i].observation.as_known_at.nanos
                    &&& series.finality_as_known_at.nanos
                        >= observations[i].observation.finality_as_known_at.nanos
                }
            &&& series.quality.millionths <= start.quality.millionths
            &&& series.as_of.nanos >= start.as_of.nanos
            &&& series.finality_as_known_at.nanos >= start.finality_as_known_at.nanos
            &&& series.quality == start.quality || exists|i: int|
                0 <= i < observations.len() && (
                #[trigger] observations[i]).observation.quality_score == series.quality
            &&& series.as_of == start.as_of || exists|i: int|
                0 <= i < observations.len() && (
                #[trigger] observations[i]).observation.as_known_at == series.as_of
            &&& series.finality_as_known_at == start.finality_as_known_at || exists|i: int|
                0 <= i < observations.len() && (
                #[trigger] observations[i]).observation.finality_as_known_at
                    == series.finality_as_known_at
        }),
    decreases observations.len(),
{
    if observations.len() > 0 {
        let shorter = observations.drop_last();
        lemma_gathering_reads_every_observation(shorter, asset, coverage, start);
        let before = gathered(shorter, asset, coverage, start)->Ok_0;
        let series = gathered(observations, asset, coverage, start)->Ok_0;
        let last = observations.len() - 1;
        assert forall|i: int| #![trigger observations[i]] 0 <= i < last implies observations[i]
            == shorter[i] by {}
        assert(observations[last] == observations.last());
        assert forall|i: int| #![trigger shorter[i]] 0 <= i < last implies shorter[i]
            == observations[i] by {}
        if before.quality != start.quality {
            let i = choose|i: int|
                0 <= i < shorter.len() && (#[trigger] shorter[i]).observation.quality_score
                    == before.quality;
            assert(observations[i].observation.quality_score == before.quality);
        }
        if before.as_of != start.as_of {
            let i = choose|i: int|
                0 <= i < shorter.len() && (#[trigger] shorter[i]).observation.as_known_at
                    == before.as_of;
            assert(observations[i].observation.as_known_at == before.as_of);
        }
        if before.finality_as_known_at != start.finality_as_known_at {
            let i = choose|i: int|
                0 <= i < shorter.len() && (
                #[trigger] shorter[i]).observation.finality_as_known_at
                    == before.finality_as_known_at;
            assert(observations[i].observation.finality_as_known_at
                == before.finality_as_known_at);
        }
    }
}

/// A volatility series holds the value of each observation in turn, one for every minute of its
/// window, all of one asset under one coverage, all final and none below zero. It is known when
/// the last of them is and is as good as the worst of them.
pub proof fn lemma_series_cover_every_minute(
    window: TimeWindow,
    observations: Seq<RegisteredObservation>,
)
    requires
        volatility_series(window, observations) is Ok,
    ensures
        ({
            let (values, evidence) = volatility_series(window, observations)->Ok_0;
            &&& observations.len() >= 2
            &&& values.len() == observations.len() == evidence.input_count
            &&& window.upper() - window.lower() == observations.len() * 60_000_000_000
            &&& evidence.window == window
            &&& forall|i: int|
                #![trigger observations[i]]
                0 <= i < observations.len() ==> {
                    let observation = observations[i].observation;
                    &&& observations[i].accepted
                    &&& observation.event_time_end.nanos == window.lower() + (i + 1)
                        * 60_000_000_000
                    &&& observation.finality_state == FinalityState::Final
                    &&& observation.source_coverage.is_complete()
                    &&& observation.source_coverage@ == evidence.coverage
                    &&& observation.datum is Present
                    &&& observation.datum->Present_0 is Float64
                    &&& observation.datum->Present_0->Float64_0 == values[i]
                    &&& !values[i].below_zero()
                    &&& observation.entity is Asset
                    &&& evidence.entity == EntityView::Asset(observation.entity->Asset_0@)
                    &&& evidence.quality.millionths <= observation.quality_score.millionths
                    &&& evidence.as_of.nanos >= observation.as_known_at.nanos
                    &&& evidence.finality_as_known_at.nanos
                        >= observation.finality_as_known_at.nanos
                }
            &&& observations.last().observation.watermark == Some(evidence.watermark)
            &&& exists|i: int|
                0 <= i < observations.len() && (
                #[trigger] observations[i]).observation.quality_score == evidence.quality
            &&& exists|i: int|
                0 <= i < observations.len() && (
                #[trigger] observations[i]).observation.as_known_at == evidence.as_of
            &&& exists|i: int|
                0 <= i < observations.len() && (
                #[trigger] observations[i]).observation.finality_as_known_at
                    == evidence.finality_as_known_at
        }),
{
    let first = observations[0].observation;
    let asset = realized_value(observations[0])->Ok_0.0;
    lemma_gathering_reads_every_observation(
        observations,
        asset,
        first.source_coverage@,
        series_start(window, first),
    );
    assert(observations[0].observation.quality_score == first.quality_score);
    let extent = window.upper() - window.lower();
    assert(extent == observations.len() * 60_000_000_000) by {
        vstd::arithmetic::div_mod::lemma_fundamental_div_mod(extent, 60_000_000_000);
    }
}

/// A term ratio sets five minutes against fifteen, or fifteen minutes against an hour, of one
/// asset, with both ending together; the short horizon's value comes first.
pub proof fn lemma_term_ratios_compare_nested_horizons(
    short: RegisteredObservation,
    long: RegisteredObservation,
)
    requires
        term_ratio_inputs(short, long) is Ok,
    ensures
        ({
            let (near, far, asset, _) = term_ratio_inputs(short, long)->Ok_0;
            let minute = 60_000_000_000int;
            let short_extent = short.observation.event_time_end.nanos
                - short.observation.event_time_start.nanos;
            let long_extent = long.observation.event_time_end.nanos
                - long.observation.event_time_start.nanos;
            &&& short.observation.event_time_end == long.observation.event_time_end
            &&& (short_extent == 5 * minute && long_extent == 15 * minute) || (short_extent
                == 15 * minute && long_extent == 60 * minute)
            &&& short.observation.datum == FeatureDatum::Present(FeatureValue::Float64(near))
            &&& long.observation.datum == FeatureDatum::Present(FeatureValue::Float64(far))
            &&& short.observation.entity is Asset && long.observation.entity is Asset
            &&& short.observation.entity->Asset_0@ == asset
            &&& long.observation.entity->Asset_0@ == asset
            &&& short.accepted && long.accepted
        }),
{
}

/// A term ratio is known when both horizons are, is as good as the worse of them, and waits for
/// the slower watermark.
pub proof fn lemma_term_ratios_rest_on_both_horizons(
    short: RegisteredObservation,
    long: RegisteredObservation,
    measured: Result<u64, FeatureComputationError>,
    window: TimeWindow,
)
    requires
        term_ratio_feature(short, long, measured, window) is Ok,
    ensures
        ({
            let feature = term_ratio_feature(short, long, measured, window)->Ok_0;
            let near = short.observation;
            let far = long.observation;
            &&& feature.kind == Task4FeatureKind::VolatilityTermRatio
            &&& feature.window == window
            &&& feature.input_count == 2
            &&& feature.as_of.nanos >= near.as_known_at.nanos
            &&& feature.as_of.nanos >= far.as_known_at.nanos
            &&& feature.as_of == near.as_known_at || feature.as_of == far.as_known_at
            &&& feature.finality_as_known_at.nanos >= near.finality_as_known_at.nanos
            &&& feature.finality_as_known_at.nanos >= far.finality_as_known_at.nanos
            &&& feature.finality_as_known_at == near.finality_as_known_at
                || feature.finality_as_known_at == far.finality_as_known_at
            &&& feature.watermark is Some && near.watermark is Some && far.watermark is Some
            &&& feature.watermark->Some_0.nanos <= near.watermark->Some_0.nanos
            &&& feature.watermark->Some_0.nanos <= far.watermark->Some_0.nanos
            &&& feature.watermark == near.watermark || feature.watermark == far.watermark
            &&& feature.quality.millionths <= near.quality_score.millionths
            &&& feature.quality.millionths <= far.quality_score.millionths
            &&& feature.quality == near.quality_score || feature.quality == far.quality_score
        }),
{
}

/// A forecast is taken exactly when it was made at some time, known no earlier than that and no
/// later than the start of the window that it speaks of, and its parts are sound.
pub proof fn lemma_forecasts_precede_their_window(input: VolatilityForecastInput)
    ensures
        forecast_refusal(input) is None <==> {
            &&& 0 < input.generated_at.nanos <= input.as_known_at.nanos
                <= input.target_window.lower()
            &&& finite_bits(input.forecast_bits)
            &&& input.forecast_bits <= 0x8000_0000_0000_0000
            &&& crate::watermark::valid_label(utf8(input.model_package_id@), 128)
            &&& input.artifact_hash@ != zero_digest()
            &&& input.lineage_hash@ != zero_digest()
        },
        forecast_refusal(input) == Some(FeatureComputationError::FutureKnowledge) <==> !(0
            < input.generated_at.nanos <= input.as_known_at.nanos <= input.target_window.lower()),
{
}

/// A residual compares what was realized with what was forecast for the same asset over the same
/// span, in that order.
pub proof fn lemma_residuals_compare_like_with_like(
    realized: RegisteredObservation,
    forecast: ForecastView,
)
    requires
        residual_inputs(realized, forecast) is Ok,
    ensures
        ({
            let (value, expected) = residual_inputs(realized, forecast)->Ok_0;
            let observation = realized.observation;
            let evidence = residual_evidence(observation, forecast);
            &&& expected == forecast.forecast
            &&& observation.datum == FeatureDatum::Present(FeatureValue::Float64(value))
            &&& observation.entity is Asset
            &&& observation.entity->Asset_0@ == forecast.asset
            &&& observation.event_time_start.nanos == forecast.target.lower()
            &&& observation.event_time_end.nanos == forecast.target.upper()
            &&& evidence.as_of.nanos >= observation.as_known_at.nanos
            &&& evidence.as_of.nanos >= forecast.as_known_at.nanos
            &&& evidence.as_of == observation.as_known_at || evidence.as_of
                == forecast.as_known_at
            &&& evidence.quality.millionths <= observation.quality_score.millionths
            &&& evidence.quality.millionths <= forecast.quality.millionths
            &&& evidence.quality == observation.quality_score || evidence.quality
                == forecast.quality
            &&& observation.watermark == Some(evidence.watermark)
            &&& evidence.window == forecast.target
            &&& evidence.entity == EntityView::Asset(forecast.asset)
        }),
{
}

/// The hours of a week are counted from Monday midnight: the fifth day of the epoch is a Monday,
/// every week after it starts anew, and within a week the hours run on from day to day.
pub proof fn lemma_weeks_start_on_monday(week: int, day: int, hour: int, within: int)
    requires
        0 <= day < 7,
        0 <= hour < 24,
        0 <= within < 3_600_000_000_000,
    ensures
        hour_of_week(((week * 7 + 4 + day) * 24 + hour) * 3_600_000_000_000 + within) == day * 24
            + hour,
{
    let hours = (week * 7 + 4 + day) * 24 + hour;
    vstd::arithmetic::div_mod::lemma_fundamental_div_mod_converse(
        hours * 3_600_000_000_000 + within,
        3_600_000_000_000,
        hours,
        within,
    );
    assert((hours * 3_600_000_000_000 + within) / 3_600_000_000_000 == hours);
    assert(hours + 72 == (week + 1) * 168 + (day * 24 + hour));
    vstd::arithmetic::div_mod::lemma_fundamental_div_mod_converse(
        hours + 72,
        168,
        week + 1,
        day * 24 + hour,
    );
}

/// A window is adjusted only by a baseline of its own asset and hour of the week that was fitted
/// and known before the window started.
pub proof fn lemma_seasons_are_known_beforehand(
    window: PriceWindowView,
    closing: PriceObservationView,
    seasonal: SeasonalView,
)
    requires
        seasonal_refusal(window, closing, seasonal) is None,
    ensures
        window.entity == EntityView::Asset(seasonal.asset),
        seasonal.baseline.fitted_through_nanos <= window.window.lower(),
        seasonal.baseline.as_known_at_nanos <= window.window.lower(),
        hour_of_week(window.window.lower() as int) == seasonal.utc_hour_of_week,
        seasonal_evidence(seasonal).as_known_at.nanos == seasonal.baseline.as_known_at_nanos,
        seasonal_evidence(seasonal).input_count == seasonal.sample_count,
        seasonal_evidence(seasonal).quality == seasonal.quality,
{
}

} // verus!
