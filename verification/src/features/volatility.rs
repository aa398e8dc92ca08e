//! Point-in-time adapters from exact prices into bounded volatility measures.

use vstd::prelude::*;

use super::catalog::Task4FeatureKind;
use super::computed::{
    check_pair_side, compute_missing_task_four_feature, missing_feature, paired_feature,
    paired_refusal, priced_feature, ComputedAnalyticalFeature, ComputedView, PairSide,
};
use super::price::{
    outcome, price_views, PriceObservation, PriceObservationView, PriceWindow, PriceWindowView,
    MAX_PRICE_OBSERVATIONS,
};
use super::{analytical_value, AnalyticalFeature, FeatureComputationError};
use crate::decimal::Price;
use crate::digest::{
    blake3_digest, blake3_hash, encoded_u32, encoded_u64, put_bytes, put_u32, put_u64, utf8,
};
use crate::domain::{AssetId, EntityView, FeatureEntity};
use crate::registry::FeatureDefinition;
use crate::watermark::{FinalizationDecision, TrackerView, WatermarkTracker};
use crate::window::{WindowError, MAX_EWMA_SAMPLES};

verus! {

pub const REALIZED_VOLATILITY_V2_SAMPLING_NANOS: u64 = 60_000_000_000;

/// Most observations that one measure takes. This stands for
/// `volatility::MAX_MEASURE_OBSERVATIONS`; it is written down here, not read from there. It enters
/// the formulas' hashes, so it has to follow that value.
pub const MAX_MEASURE_OBSERVATIONS: usize = 65_536;

/// How a realized volatility is sampled and scaled.
#[derive(Clone, Copy, Debug, PartialEq, Eq, Structural)]
pub struct VolatilityFormulaPolicy {
    sampling_interval_nanos: u64,
    annualization_periods: Option<u32>,
}

/// The digest that identifies a realized-volatility formula.
pub open spec fn realized_volatility_formula(sampling: u64, periods: Option<u32>) -> Seq<u8> {
    blake3_digest(
        utf8("crypto-intelligence/realized-volatility/v2"@) + utf8("return=consecutive-log"@)
            + utf8("rv=sum-squared-returns"@) + utf8("vol=sqrt-rv-times-annualization-periods"@)
            + utf8("bv=pi-over-2-adjacent-absolute-products"@) + utf8(
            "jump=max-rv-minus-bv-zero"@,
        ) + utf8("output=float64-finite-canonical-zero"@) + encoded_u64(sampling) + (match periods {
            Some(periods) => seq![1u8] + encoded_u32(periods),
            None => seq![0u8],
        }) + encoded_u64(MAX_PRICE_OBSERVATIONS as u64) + encoded_u64(
            MAX_MEASURE_OBSERVATIONS as u64,
        ),
    )
}

impl VolatilityFormulaPolicy {
    #[verifier::type_invariant]
    spec fn valid(self) -> bool {
        self.sampling_interval_nanos != 0 && self.annualization_periods != Some(0u32)
    }

    pub closed spec fn sampling(self) -> u64 {
        self.sampling_interval_nanos
    }

    pub closed spec fn periods(self) -> Option<u32> {
        self.annualization_periods
    }

    pub fn try_new(sampling_interval_nanos: u64, annualization_periods: Option<u32>) -> (result:
        Result<Self, FeatureComputationError>)
        ensures
            result is Ok <==> sampling_interval_nanos != 0 && annualization_periods != Some(0u32),
            result is Err ==> result->Err_0 == FeatureComputationError::InvalidParameter,
            result is Ok ==> result->Ok_0.sampling() == sampling_interval_nanos
                && result->Ok_0.periods() == annualization_periods,
    {
        let unscaled: bool = match annualization_periods {
            Some(periods) => periods == 0,
            None => false,
        };
        if sampling_interval_nanos == 0 || unscaled {
            return Err(FeatureComputationError::InvalidParameter);
        }
        Ok(VolatilityFormulaPolicy { sampling_interval_nanos, annualization_periods })
    }

    pub fn sampling_interval_nanos(self) -> (interval: u64)
        ensures
            interval == self.sampling(),
            interval != 0,
    {
        proof {
            use_type_invariant(&self);
        }
        self.sampling_interval_nanos
    }

    pub fn annualization_periods(self) -> (periods: Option<u32>)
        ensures
            periods == self.periods(),
    {
        self.annualization_periods
    }

    pub fn formula_hash(self) -> (digest: [u8; 32])
        ensures
            digest@ == realized_volatility_formula(self.sampling(), self.periods()),
    {
        let mut buffer: Vec<u8> = Vec::new();
        put_bytes(&mut buffer, "crypto-intelligence/realized-volatility/v2".as_bytes());
        put_bytes(&mut buffer, "return=consecutive-log".as_bytes());
        put_bytes(&mut buffer, "rv=sum-squared-returns".as_bytes());
        put_bytes(&mut buffer, "vol=sqrt-rv-times-annualization-periods".as_bytes());
        put_bytes(&mut buffer, "bv=pi-over-2-adjacent-absolute-products".as_bytes());
        put_bytes(&mut buffer, "jump=max-rv-minus-bv-zero".as_bytes());
        put_bytes(&mut buffer, "output=float64-finite-canonical-zero".as_bytes());
        put_u64(&mut buffer, self.sampling_interval_nanos);
        match self.annualization_periods {
            Some(periods) => {
                buffer.push(1);
                put_u32(&mut buffer, periods);
            },
            None => {
                buffer.push(0);
            },
        }
        put_u64(&mut buffer, MAX_PRICE_OBSERVATIONS as u64);
        put_u64(&mut buffer, MAX_MEASURE_OBSERVATIONS as u64);
        proof {
            assert(buffer@ =~= utf8("crypto-intelligence/realized-volatility/v2"@) + utf8(
                "return=consecutive-log"@,
            ) + utf8("rv=sum-squared-returns"@) + utf8(
                "vol=sqrt-rv-times-annualization-periods"@,
            ) + utf8("bv=pi-over-2-adjacent-absolute-products"@) + utf8(
                "jump=max-rv-minus-bv-zero"@,
            ) + utf8("output=float64-finite-canonical-zero"@) + encoded_u64(self.sampling()) + (
            match self.periods() {
                Some(periods) => seq![1u8] + encoded_u32(periods),
                None => seq![0u8],
            }) + encoded_u64(MAX_PRICE_OBSERVATIONS as u64) + encoded_u64(
                MAX_MEASURE_OBSERVATIONS as u64,
            ));
        }
        blake3_hash(buffer.as_slice())
    }
}

/// The frozen policy: one sample per minute, without annualization.
pub fn realized_volatility_v2_policy() -> (policy: VolatilityFormulaPolicy)
    ensures
        policy.sampling() == REALIZED_VOLATILITY_V2_SAMPLING_NANOS,
        policy.periods() is None,
{
    VolatilityFormulaPolicy {
        sampling_interval_nanos: REALIZED_VOLATILITY_V2_SAMPLING_NANOS,
        annualization_periods: None,
    }
}

pub fn realized_volatility_v2_definition() -> (definition: FeatureDefinition)
    ensures
        definition@ == Task4FeatureKind::RealizedVolatility.spec_definition(),
{
    Task4FeatureKind::RealizedVolatility.definition()
}

/// Why a window is not sampled as a policy asks, if it is not.
pub open spec fn sampling_refusal(
    window: PriceWindowView,
    closing: PriceObservationView,
    sampling: u64,
) -> Option<FeatureComputationError> {
    let extent = window.window.upper() - window.window.lower();
    if sampling > i64::MAX {
        Some(FeatureComputationError::InvalidParameter)
    } else if extent % sampling as int != 0 {
        Some(FeatureComputationError::InvalidParameter)
    } else if window.observations.len() != extent / sampling as int || closing.entity
        != window.entity || closing.event_time.nanos != window.window.upper() {
        Some(FeatureComputationError::SequenceGap)
    } else if exists|i: int|
        0 <= i < window.observations.len() && (#[trigger] window.observations[i]).event_time.nanos
            != window.window.lower() + i * sampling {
        Some(FeatureComputationError::SequenceGap)
    } else {
        None
    }
}

/// Whether a window holds exactly one observation per sampling interval, and is closed on its end.
#[verifier::loop_isolation(false)]
pub fn validate_sampling(
    window: &PriceWindow,
    closing: &PriceObservation,
    policy: VolatilityFormulaPolicy,
) -> (result: Result<(), FeatureComputationError>)
    ensures
        match sampling_refusal(window@, closing@, policy.sampling()) {
            Some(error) => result == Err::<(), FeatureComputationError>(error),
            None => result == Ok::<(), FeatureComputationError>(()),
        },
{
    let sampling: u64 = policy.sampling_interval_nanos();
    if sampling > i64::MAX as u64 {
        return Err(FeatureComputationError::InvalidParameter);
    }
    let start: i64 = window.time_window().start().value();
    let end: i64 = window.time_window().end().value();
    let extent: u64 = (end - start) as u64;
    if extent % sampling != 0 {
        return Err(FeatureComputationError::InvalidParameter);
    }
    let count: usize = window.observation_count();
    if count as u64 != extent / sampling || !closing.entity().same(window.entity())
        || closing.event_time().value() != end {
        return Err(FeatureComputationError::SequenceGap);
    }
    let observations = window.observations();
    let ghost views = window@.observations;
    let mut expected: u64 = start as u64;
    let mut i: usize = 0;
    proof {
        vstd::arithmetic::div_mod::lemma_fundamental_div_mod(extent as int, sampling as int);
        assert(extent == count * sampling) by (nonlinear_arith)
            requires
                extent == sampling * (extent as int / sampling as int) + extent as int
                    % sampling as int,
                extent as int % sampling as int == 0,
                count == extent as int / sampling as int,
        ;
        assert(0 * sampling == 0);
    }
    while i < count
        invariant
            i <= count == observations@.len(),
            views == price_views(observations@),
            expected == start + i * sampling,
            start >= 0,
            extent == count * sampling,
            start + extent <= i64::MAX,
            forall|k: int|
                0 <= k < i ==> (#[trigger] views[k]).event_time.nanos == start + k * sampling,
        decreases count - i,
    {
        proof {
            assert(views[i as int] == observations@[i as int]@);
            assert(i * sampling + sampling <= count * sampling) by (nonlinear_arith)
                requires
                    i + 1 <= count,
                    sampling >= 0,
            ;
            assert((i + 1) * sampling == i * sampling + sampling) by (nonlinear_arith);
        }
        if observations[i].event_time().value() != expected as i64 {
            return Err(FeatureComputationError::SequenceGap);
        }
        expected = expected + sampling;
        i += 1;
    }
    Ok(())
}

/// The prices of a window, with its closing price behind them.
pub open spec fn complete_prices(
    window: PriceWindowView,
    closing: PriceObservationView,
) -> Seq<Price> {
    Seq::new(window.observations.len(), |i: int| window.observations[i].price).push(closing.price)
}

/// The event times of a window, with its end behind them.
pub open spec fn complete_times(
    window: PriceWindowView,
    closing: PriceObservationView,
) -> Seq<i64> {
    Seq::new(window.observations.len(), |i: int| window.observations[i].event_time.nanos).push(
        closing.event_time.nanos,
    )
}

/// A sampled price path: exact prices, and their times since the first of them.
#[derive(Debug)]
pub struct PricePath {
    pub prices: Vec<Price>,
    pub elapsed_nanos: Vec<i64>,
}

/// The path holds the prices of a window and the times at which they stood.
pub open spec fn is_path_of(
    path: PricePath,
    window: PriceWindowView,
    closing: PriceObservationView,
) -> bool {
    let times = complete_times(window, closing);
    &&& path.prices@ == complete_prices(window, closing)
    &&& path.elapsed_nanos@ == Seq::new(times.len(), |i: int| (times[i] - times[0]) as i64)
}

fn copy_path(window: &PriceWindow, closing: &PriceObservation) -> (path: PricePath)
    requires
        sampling_refusal(window@, closing@, REALIZED_VOLATILITY_V2_SAMPLING_NANOS) is None,
    ensures
        is_path_of(path, window@, closing@),
{
    let observations = window.observations();
    let ghost views = window@.observations;
    let ghost times = complete_times(window@, closing@);
    let start: i64 = window.time_window().start().value();
    let end: i64 = window.time_window().end().value();
    let count: usize = window.observation_count();
    let ghost sampling = REALIZED_VOLATILITY_V2_SAMPLING_NANOS as int;
    let mut prices: Vec<Price> = Vec::new();
    let mut elapsed_nanos: Vec<i64> = Vec::new();
    let mut i: usize = 0;
    proof {
        lemma_sampled_times(window@, closing@);
    }
    while i < count
        invariant
            i <= count == observations@.len(),
            views == price_views(observations@),
            views == window@.observations,
            times == complete_times(window@, closing@),
            times[0] == start,
            0 <= start < end,
            prices@ =~= complete_prices(window@, closing@).take(i as int),
            elapsed_nanos@.len() == i,
            forall|k: int| 0 <= k < i ==> (#[trigger] elapsed_nanos@[k]) == times[k] - start,
            forall|k: int| 0 <= k < times.len() ==> start <= #[trigger] times[k] <= end,
        decreases count - i,
    {
        proof {
            assert(views[i as int] == observations@[i as int]@);
            assert(times[i as int] == views[i as int].event_time.nanos);
        }
        prices.push(observations[i].price());
        elapsed_nanos.push(observations[i].event_time().value() - start);
        i += 1;
    }
    prices.push(closing.price());
    proof {
        assert(times[count as int] == closing@.event_time.nanos);
    }
    elapsed_nanos.push(closing.event_time().value() - start);
    proof {
        assert(prices@ =~= complete_prices(window@, closing@));
        assert(elapsed_nanos@ =~= Seq::new(times.len(), |k: int| (times[k] - times[0]) as i64));
    }
    PricePath { prices, elapsed_nanos }
}

proof fn lemma_sampled_times(window: PriceWindowView, closing: PriceObservationView)
    requires
        sampling_refusal(window, closing, REALIZED_VOLATILITY_V2_SAMPLING_NANOS) is None,
        0 <= window.window.lower() < window.window.upper(),
    ensures
        window.observations.len() > 0,
        complete_times(window, closing)[0] == window.window.lower(),
        forall|k: int|
            0 <= k < complete_times(window, closing).len() ==> window.window.lower()
                <= #[trigger] complete_times(window, closing)[k] <= window.window.upper(),
{
    let times = complete_times(window, closing);
    let start = window.window.lower() as int;
    let extent = window.window.upper() - window.window.lower();
    let sampling = REALIZED_VOLATILITY_V2_SAMPLING_NANOS as int;
    let count = window.observations.len() as int;
    vstd::arithmetic::div_mod::lemma_fundamental_div_mod(extent, sampling);
    assert(extent == count * sampling) by (nonlinear_arith)
        requires
            extent == sampling * (extent / sampling) + extent % sampling,
            extent % sampling == 0,
            count == extent / sampling,
    ;
    assert(count > 0) by (nonlinear_arith)
        requires
            extent == count * sampling,
            extent > 0,
            sampling > 0,
    ;
    assert(window.observations[0].event_time.nanos == start + 0 * sampling);
    assert forall|k: int| 0 <= k < times.len() implies start <= #[trigger] times[k]
        <= window.window.upper() by {
        if k < count {
            assert(window.observations[k].event_time.nanos == start + k * sampling);
            assert(0 <= k * sampling <= count * sampling) by (nonlinear_arith)
                requires
                    0 <= k <= count,
                    sampling > 0,
            ;
        }
    }
}

/// The recipes that are measured on a price path.
pub open spec fn is_path_kind(kind: Task4FeatureKind) -> bool {
    match kind {
        Task4FeatureKind::LogReturn
        | Task4FeatureKind::CumulativeReturn
        | Task4FeatureKind::OpenCloseRange
        | Task4FeatureKind::HighLowRange
        | Task4FeatureKind::TrendSlope
        | Task4FeatureKind::TrendAcceleration
        | Task4FeatureKind::MaximumDrawdown
        | Task4FeatureKind::MaximumRunUp
        | Task4FeatureKind::ReturnAutocorrelation
        | Task4FeatureKind::VarianceRatio
        | Task4FeatureKind::RollingSkewness
        | Task4FeatureKind::RollingExcessKurtosis
        | Task4FeatureKind::ReturnReversal => true,
        _ => false,
    }
}

/// Why a price path is not fit for a recipe, if it is not.
pub open spec fn path_refusal(
    kind: Task4FeatureKind,
    window: PriceWindowView,
    closing: PriceObservationView,
) -> Option<FeatureComputationError> {
    match sampling_refusal(window, closing, REALIZED_VOLATILITY_V2_SAMPLING_NANOS) {
        Some(error) => Some(error),
        None => match window.closing_refusal(closing) {
            Some(error) => Some(error),
            None => if window.observations.len() + 1 > MAX_PRICE_OBSERVATIONS {
                Some(FeatureComputationError::CapacityExceeded)
            } else if !is_path_kind(kind) {
                Some(FeatureComputationError::InvalidParameter)
            } else {
                None
            },
        },
    }
}

/// The exact, finalized price path that a path recipe is measured on.
pub fn plan_price_path(
    kind: Task4FeatureKind,
    window: &PriceWindow,
    closing: &PriceObservation,
) -> (result: Result<PricePath, FeatureComputationError>)
    ensures
        match path_refusal(kind, window@, closing@) {
            Some(error) => result is Err && result->Err_0 == error,
            None => result is Ok && is_path_of(result->Ok_0, window@, closing@),
        },
{
    if let Err(error) = validate_sampling(window, closing, realized_volatility_v2_policy()) {
        return Err(error);
    }
    if let Err(error) = window.validates_consolidated_closing_observation(closing) {
        return Err(error);
    }
    if window.observation_count() + 1 > MAX_PRICE_OBSERVATIONS {
        return Err(FeatureComputationError::CapacityExceeded);
    }
    match kind {
        Task4FeatureKind::LogReturn
        | Task4FeatureKind::CumulativeReturn
        | Task4FeatureKind::OpenCloseRange
        | Task4FeatureKind::HighLowRange
        | Task4FeatureKind::TrendSlope
        | Task4FeatureKind::TrendAcceleration
        | Task4FeatureKind::MaximumDrawdown
        | Task4FeatureKind::MaximumRunUp
        | Task4FeatureKind::ReturnAutocorrelation
        | Task4FeatureKind::VarianceRatio
        | Task4FeatureKind::RollingSkewness
        | Task4FeatureKind::RollingExcessKurtosis
        | Task4FeatureKind::ReturnReversal => Ok(copy_path(window, closing)),
        _ => Err(FeatureComputationError::InvalidParameter),
    }
}

/// The measured value where nothing stands in its way, and the refusal where something does.
pub open spec fn unless_refused(
    refusal: Option<FeatureComputationError>,
    measured: Result<u64, FeatureComputationError>,
) -> Result<u64, FeatureComputationError> {
    match refusal {
        Some(error) => Err(error),
        None => measured,
    }
}

/// A measured value, or an expected absence, of a price window, or why there is neither.
pub open spec fn measured_feature(
    kind: Task4FeatureKind,
    window: PriceWindowView,
    closing: PriceObservationView,
    tracker: TrackerView,
    measured: Result<u64, FeatureComputationError>,
) -> Result<ComputedView, FeatureComputationError> {
    match analytical_value(measured) {
        Err(error) => Err(error),
        Ok(analytical) => priced_feature(kind, window, Some(closing), tracker, analytical, None),
    }
}

fn bind_measure(
    kind: Task4FeatureKind,
    window: &PriceWindow,
    closing: &PriceObservation,
    tracker: &WatermarkTracker,
    result: Result<u64, FeatureComputationError>,
) -> (feature: Result<ComputedAnalyticalFeature, FeatureComputationError>)
    ensures
        outcome(feature) == measured_feature(kind, window@, closing@, tracker@, result),
{
    match AnalyticalFeature::from_result(result) {
        Err(error) => Err(error),
        Ok(analytical) => ComputedAnalyticalFeature::from_price_window_analytical(
            kind,
            window,
            Some(closing),
            tracker,
            analytical,
        ),
    }
}

/// Computes one price-path or return-distribution catalogue recipe from an exact, finalized
/// consolidated-price grid, with the value that was measured on its planned path.
pub fn compute_price_path_feature(
    kind: Task4FeatureKind,
    window: &PriceWindow,
    closing: &PriceObservation,
    tracker: &WatermarkTracker,
    measured: Result<u64, FeatureComputationError>,
) -> (result: Result<ComputedAnalyticalFeature, FeatureComputationError>)
    ensures
        outcome(result) == measured_feature(
            kind,
            window@,
            closing@,
            tracker@,
            unless_refused(path_refusal(kind, window@, closing@), measured),
        ),
{
    let planned = match plan_price_path(kind, window, closing) {
        Err(error) => Err(error),
        Ok(_) => measured,
    };
    bind_measure(kind, window, closing, tracker, planned)
}

/// The recipes that are realized measures of a return grid.
pub open spec fn is_realized_kind(kind: Task4FeatureKind) -> bool {
    match kind {
        Task4FeatureKind::RealizedVolatility
        | Task4FeatureKind::RealizedVariance
        | Task4FeatureKind::UpsideSemivariance
        | Task4FeatureKind::DownsideSemivariance
        | Task4FeatureKind::BipowerVariation
        | Task4FeatureKind::JumpVariation => true,
        _ => false,
    }
}

/// Why a window has no realized measures, if it has none.
pub open spec fn realized_refusal(
    window: PriceWindowView,
    closing: PriceObservationView,
) -> Option<FeatureComputationError> {
    match sampling_refusal(window, closing, REALIZED_VOLATILITY_V2_SAMPLING_NANOS) {
        Some(error) => Some(error),
        None => if window.observations.len() < 2 {
            Some(FeatureComputationError::InsufficientHistory)
        } else {
            None
        },
    }
}

/// The prices whose consecutive returns the realized measures are taken over.
pub fn plan_realized_measures(window: &PriceWindow, closing: &PriceObservation) -> (result: Result<
    PricePath,
    FeatureComputationError,
>)
    ensures
        match realized_refusal(window@, closing@) {
            Some(error) => result is Err && result->Err_0 == error,
            None => result is Ok && is_path_of(result->Ok_0, window@, closing@),
        },
{
    if let Err(error) = validate_sampling(window, closing, realized_volatility_v2_policy()) {
        return Err(error);
    }
    if window.observation_count() < 2 {
        return Err(FeatureComputationError::InsufficientHistory);
    }
    Ok(copy_path(window, closing))
}

/// Computes one registry-bound realized-measure recipe from the same complete consolidated-price
/// grid and finalization evidence, with the value that was measured on it.
pub fn compute_realized_measure_feature(
    kind: Task4FeatureKind,
    window: &PriceWindow,
    closing: &PriceObservation,
    tracker: &WatermarkTracker,
    measured: Result<u64, FeatureComputationError>,
) -> (result: Result<ComputedAnalyticalFeature, FeatureComputationError>)
    ensures
        ({
            let refusal = match realized_refusal(window@, closing@) {
                Some(error) => Some(error),
                None => match measured {
                    Err(error) => Some(error),
                    Ok(_) => if is_realized_kind(kind) {
                        None
                    } else {
                        Some(FeatureComputationError::InvalidParameter)
                    },
                },
            };
            outcome(result) == measured_feature(
                kind,
                window@,
                closing@,
                tracker@,
                unless_refused(refusal, measured),
            )
        }),
{
    let planned = match plan_realized_measures(window, closing) {
        Err(error) => Err(error),
        Ok(_) => match measured {
            Err(error) => Err(error),
            Ok(bits) => match kind {
                Task4FeatureKind::RealizedVolatility
                | Task4FeatureKind::RealizedVariance
                | Task4FeatureKind::UpsideSemivariance
                | Task4FeatureKind::DownsideSemivariance
                | Task4FeatureKind::BipowerVariation
                | Task4FeatureKind::JumpVariation => Ok(bits),
                _ => Err(FeatureComputationError::InvalidParameter),
            },
        },
    };
    bind_measure(kind, window, closing, tracker, planned)
}

pub fn compute_realized_volatility_v2(
    window: &PriceWindow,
    closing: &PriceObservation,
    tracker: &WatermarkTracker,
    measured: Result<u64, FeatureComputationError>,
) -> (result: Result<ComputedAnalyticalFeature, FeatureComputationError>)
    ensures
        outcome(result) == measured_feature(
            Task4FeatureKind::RealizedVolatility,
            window@,
            closing@,
            tracker@,
            unless_refused(realized_refusal(window@, closing@), measured),
        ),
{
    let planned = match plan_realized_measures(window, closing) {
        Err(error) => Err(error),
        Ok(_) => measured,
    };
    bind_measure(Task4FeatureKind::RealizedVolatility, window, closing, tracker, planned)
}

/// Why two return grids cannot be paired, if they cannot.
pub open spec fn pair_grid_refusal(
    kind: Task4FeatureKind,
    left: (PriceWindowView, PriceObservationView, TrackerView),
    right: (PriceWindowView, PriceObservationView, TrackerView),
) -> Option<FeatureComputationError> {
    let left_sampling = sampling_refusal(left.0, left.1, REALIZED_VOLATILITY_V2_SAMPLING_NANOS);
    let right_sampling = sampling_refusal(right.0, right.1, REALIZED_VOLATILITY_V2_SAMPLING_NANOS);
    if left_sampling is Some {
        left_sampling
    } else if right_sampling is Some {
        right_sampling
    } else if left.0.window != right.0.window {
        Some(FeatureComputationError::LengthMismatch)
    } else if left.0.observations.len() < 2 || right.0.observations.len() < 2 {
        Some(FeatureComputationError::InsufficientHistory)
    } else if !kind.is_paired() {
        Some(FeatureComputationError::InvalidParameter)
    } else {
        None
    }
}

/// The two aligned grids that covariance or correlation is measured on.
pub fn plan_realized_pair(kind: Task4FeatureKind, left: &PairSide, right: &PairSide) -> (result:
    Result<(PricePath, PricePath), FeatureComputationError>)
    ensures
        match pair_grid_refusal(kind, left.parts(), right.parts()) {
            Some(error) => result is Err && result->Err_0 == error,
            None => result is Ok && is_path_of(result->Ok_0.0, left.window@, left.closing@)
                && is_path_of(result->Ok_0.1, right.window@, right.closing@),
        },
{
    let policy = realized_volatility_v2_policy();
    if let Err(error) = validate_sampling(left.window, left.closing, policy) {
        return Err(error);
    }
    if let Err(error) = validate_sampling(right.window, right.closing, policy) {
        return Err(error);
    }
    if left.window.time_window() != right.window.time_window() {
        return Err(FeatureComputationError::LengthMismatch);
    }
    if left.window.observation_count() < 2 || right.window.observation_count() < 2 {
        return Err(FeatureComputationError::InsufficientHistory);
    }
    if !(kind == Task4FeatureKind::RealizedCovariance || kind
        == Task4FeatureKind::RealizedCorrelation) {
        return Err(FeatureComputationError::InvalidParameter);
    }
    Ok((copy_path(left.window, left.closing), copy_path(right.window, right.closing)))
}

/// Computes covariance or correlation from two aligned, finalized consolidated-price grids, with
/// the value that was measured on them.
///
/// Both assets must use the frozen realized-volatility sampling policy. The emitted entity and
/// lineage are canonically ordered by asset identity, so swapping the caller's left and right
/// inputs produces the same observation.
pub fn compute_realized_pair_feature(
    kind: Task4FeatureKind,
    left: PairSide,
    right: PairSide,
    measured: Result<u64, FeatureComputationError>,
) -> (result: Result<ComputedAnalyticalFeature, FeatureComputationError>)
    ensures
        outcome(result) == (match analytical_value(
            unless_refused(pair_grid_refusal(kind, left.parts(), right.parts()), measured),
        ) {
            Err(error) => Err(error),
            Ok(analytical) => paired_feature(kind, left.parts(), right.parts(), analytical),
        }),
{
    let planned = match plan_realized_pair(kind, &left, &right) {
        Err(error) => Err(error),
        Ok(_) => measured,
    };
    match AnalyticalFeature::from_result(planned) {
        Err(error) => Err(error),
        Ok(analytical) => ComputedAnalyticalFeature::from_paired_price_windows_recipe(
            kind,
            left,
            right,
            analytical,
        ),
    }
}

/// Why a window has no exponentially weighted volatility, if it has none.
pub open spec fn ewma_refusal(
    window: PriceWindowView,
    closing: PriceObservationView,
) -> Option<FeatureComputationError> {
    match realized_refusal(window, closing) {
        Some(error) => Some(error),
        None => if window.observations.len() > MAX_EWMA_SAMPLES {
            Some(FeatureComputationError::CapacityExceeded)
        } else {
            None
        },
    }
}

/// The return grid of the frozen five-minute half-life average.
pub fn plan_exponentially_weighted_volatility(window: &PriceWindow, closing: &PriceObservation) -> (
result: Result<PricePath, FeatureComputationError>)
    ensures
        match ewma_refusal(window@, closing@) {
            Some(error) => result is Err && result->Err_0 == error,
            None => result is Ok && is_path_of(result->Ok_0, window@, closing@),
        },
{
    let path = match plan_realized_measures(window, closing) {
        Err(error) => {
            return Err(error);
        },
        Ok(path) => path,
    };
    if window.observation_count() > MAX_EWMA_SAMPLES {
        return Err(FeatureComputationError::CapacityExceeded);
    }
    Ok(path)
}

/// Computes the frozen five-minute half-life EWMA from the same finalized one-minute return grid
/// used by the realized measures, with the value that was measured on it.
pub fn compute_exponentially_weighted_volatility(
    window: &PriceWindow,
    closing: &PriceObservation,
    tracker: &WatermarkTracker,
    measured: Result<u64, FeatureComputationError>,
) -> (result: Result<ComputedAnalyticalFeature, FeatureComputationError>)
    ensures
        outcome(result) == measured_feature(
            Task4FeatureKind::ExponentiallyWeightedVolatility,
            window@,
            closing@,
            tracker@,
            unless_refused(ewma_refusal(window@, closing@), measured),
        ),
{
    let planned = match plan_exponentially_weighted_volatility(window, closing) {
        Err(error) => Err(error),
        Ok(_) => measured,
    };
    bind_measure(
        Task4FeatureKind::ExponentiallyWeightedVolatility,
        window,
        closing,
        tracker,
        planned,
    )
}

/// The computation error for a window engine's refusal.
pub open spec fn window_error_meaning(error: WindowError) -> FeatureComputationError {
    match error {
        WindowError::MembershipCapacity
        | WindowError::InvalidEwmaCapacity
        | WindowError::EwmaCapacity
        | WindowError::WindowCapacity
        | WindowError::RevisionCapacity => FeatureComputationError::CapacityExceeded,
        WindowError::EwmaWatermarkUnavailable => FeatureComputationError::SourceDisconnected,
        WindowError::EwmaWatermarkRegression
        | WindowError::EwmaBeforeWatermark
        | WindowError::StaleFinalizationDecision => FeatureComputationError::Stale,
        WindowError::ForeignWatermarkPolicy => FeatureComputationError::UntrustedInput,
        _ => FeatureComputationError::InvalidInput,
    }
}

pub fn map_window_error(error: WindowError) -> (meaning: FeatureComputationError)
    ensures
        meaning == window_error_meaning(error),
{
    match error {
        WindowError::MembershipCapacity
        | WindowError::InvalidEwmaCapacity
        | WindowError::EwmaCapacity
        | WindowError::WindowCapacity
        | WindowError::RevisionCapacity => FeatureComputationError::CapacityExceeded,
        WindowError::EwmaWatermarkUnavailable => FeatureComputationError::SourceDisconnected,
        WindowError::EwmaWatermarkRegression
        | WindowError::EwmaBeforeWatermark
        | WindowError::StaleFinalizationDecision => FeatureComputationError::Stale,
        WindowError::ForeignWatermarkPolicy => FeatureComputationError::UntrustedInput,
        _ => FeatureComputationError::InvalidInput,
    }
}

/// The open, high, low and closing price of an interval.
#[derive(Clone, Copy, Debug, PartialEq, Eq, Structural)]
pub struct PriceOhlcBar {
    open: Price,
    high: Price,
    low: Price,
    close: Price,
}

impl PriceOhlcBar {
    #[verifier::type_invariant]
    spec fn ordered(self) -> bool {
        self.low.units() <= self.open.units() <= self.high.units() && self.low.units()
            <= self.close.units() <= self.high.units()
    }

    /// Open, high, low and close.
    pub closed spec fn parts(self) -> (Price, Price, Price, Price) {
        (self.open, self.high, self.low, self.close)
    }

    pub fn try_new(open: Price, high: Price, low: Price, close: Price) -> (result: Result<
        Self,
        FeatureComputationError,
    >)
        ensures
            result is Ok <==> low.units() <= open.units() <= high.units() && low.units()
                <= close.units() <= high.units(),
            result is Ok ==> result->Ok_0.parts() == (open, high, low, close),
            result is Err ==> result->Err_0 == FeatureComputationError::InvalidInput,
    {
        if high.is_below(&open.max_of(close)) || open.min_of(close).is_below(&low)
            || high.is_below(&low) {
            return Err(FeatureComputationError::InvalidInput);
        }
        Ok(PriceOhlcBar { open, high, low, close })
    }

    /// Open, high, low and close, with the open and the close between low and high.
    pub fn prices(self) -> (prices: (Price, Price, Price, Price))
        ensures
            prices == self.parts(),
            prices.2.units() <= prices.0.units() <= prices.1.units(),
            prices.2.units() <= prices.3.units() <= prices.1.units(),
    {
        proof {
            use_type_invariant(&self);
        }
        (self.open, self.high, self.low, self.close)
    }
}

/// Finalized OHLC evidence derived from the exact consolidated-price grid.
#[derive(Debug)]
pub struct FinalizedOhlcWindow {
    prices: PriceWindow,
    closing: PriceObservation,
    bar: PriceOhlcBar,
}

/// Why a window has no bar, if it has none.
pub open spec fn ohlc_refusal(
    window: PriceWindowView,
    closing: PriceObservationView,
    tracker: TrackerView,
) -> Option<FeatureComputationError> {
    match sampling_refusal(window, closing, REALIZED_VOLATILITY_V2_SAMPLING_NANOS) {
        Some(error) => Some(error),
        None => paired_refusal(window, closing, tracker),
    }
}

/// The highest of a price and of a list of observations.
pub open spec fn highest_with(first: Price, observations: Seq<PriceObservationView>) -> Price
    decreases observations.len(),
{
    if observations.len() == 0 {
        first
    } else {
        highest_with(first, observations.drop_last()).higher(observations.last().price)
    }
}

/// The lowest of a price and of a list of observations.
pub open spec fn lowest_with(first: Price, observations: Seq<PriceObservationView>) -> Price
    decreases observations.len(),
{
    if observations.len() == 0 {
        first
    } else {
        lowest_with(first, observations.drop_last()).lower(observations.last().price)
    }
}

/// The bar of a window and its closing observation.
pub open spec fn ohlc_parts(window: PriceWindowView, closing: PriceObservationView) -> (
    Price,
    Price,
    Price,
    Price,
) {
    let open = window.observations[0].price;
    (
        open,
        highest_with(open.higher(closing.price), window.observations),
        lowest_with(open.lower(closing.price), window.observations),
        closing.price,
    )
}

impl FinalizedOhlcWindow {
    pub closed spec fn window(self) -> PriceWindowView {
        self.prices@
    }

    pub closed spec fn close(self) -> PriceObservationView {
        self.closing@
    }

    pub closed spec fn candle(self) -> PriceOhlcBar {
        self.bar
    }

    pub fn try_from_prices(
        prices: &PriceWindow,
        closing: &PriceObservation,
        tracker: &WatermarkTracker,
    ) -> (result: Result<Self, FeatureComputationError>)
        ensures
            match ohlc_refusal(prices@, closing@, tracker@) {
                Some(error) => result is Err && result->Err_0 == error,
                None => result is Ok && result->Ok_0.window() == prices@ && result->Ok_0.close()
                    == closing@ && result->Ok_0.candle().parts() == ohlc_parts(prices@, closing@),
            },
    {
        if let Err(error) = validate_sampling(prices, closing, realized_volatility_v2_policy()) {
            return Err(error);
        }
        if let Err(error) = check_pair_side(&PairSide { window: prices, closing, tracker }) {
            return Err(error);
        }
        let observations = prices.observations();
        let ghost views = prices@.observations;
        let count: usize = prices.observation_count();
        let _start = prices.time_window().start();
        proof {
            lemma_sampled_times(prices@, closing@);
        }
        let open = observations[0].price();
        let mut high = open.max_of(closing.price());
        let mut low = open.min_of(closing.price());
        let ghost top = high;
        let ghost bottom = low;
        let mut i: usize = 0;
        proof {
            assert(views.take(0) =~= Seq::empty());
            assert(views[0] == observations@[0]@);
        }
        while i < count
            invariant
                i <= count == observations@.len(),
                views == price_views(observations@),
                high == highest_with(top, views.take(i as int)),
                low == lowest_with(bottom, views.take(i as int)),
                high.units() >= top.units(),
                low.units() <= bottom.units(),
            decreases count - i,
        {
            proof {
                assert(views.take(i + 1).drop_last() =~= views.take(i as int));
                assert(views.take(i + 1).last() == observations@[i as int]@);
            }
            high = high.max_of(observations[i].price());
            low = low.min_of(observations[i].price());
            i += 1;
        }
        proof {
            assert(views.take(count as int) =~= views);
        }
        match PriceOhlcBar::try_new(open, high, low, closing.price()) {
            Err(error) => Err(error),
            Ok(bar) => Ok(
                FinalizedOhlcWindow { prices: prices.clone(), closing: closing.clone(), bar },
            ),
        }
    }

    pub fn bar(&self) -> (bar: PriceOhlcBar)
        ensures
            bar == self.candle(),
    {
        self.bar
    }
}

/// Binds a range-based volatility that was measured on a finalized bar.
pub fn compute_range_volatility_feature(
    kind: Task4FeatureKind,
    input: &FinalizedOhlcWindow,
    tracker: &WatermarkTracker,
    measured: Result<u64, FeatureComputationError>,
) -> (result: Result<ComputedAnalyticalFeature, FeatureComputationError>)
    ensures
        if kind == Task4FeatureKind::ParkinsonVolatility || kind
            == Task4FeatureKind::GarmanKlassVolatility {
            outcome(result) == measured_feature(
                kind,
                input.window(),
                input.close(),
                tracker@,
                measured,
            )
        } else {
            result is Err && result->Err_0 == FeatureComputationError::InvalidParameter
        },
{
    if !(kind == Task4FeatureKind::ParkinsonVolatility || kind
        == Task4FeatureKind::GarmanKlassVolatility) {
        return Err(FeatureComputationError::InvalidParameter);
    }
    bind_measure(kind, &input.prices, &input.closing, tracker, measured)
}

/// Creates an explicit missing observation from current watermark evidence.
///
/// Only errors classified as expected data absence are accepted. The tracker must be the exact
/// tracker that produced the decision and must not have advanced since that decision was made.
pub fn compute_missing_realized_volatility_v2(
    asset: AssetId,
    tracker: &WatermarkTracker,
    decision: FinalizationDecision,
    error: FeatureComputationError,
) -> (result: Result<ComputedAnalyticalFeature, FeatureComputationError>)
    ensures
        outcome(result) == missing_feature(
            Task4FeatureKind::RealizedVolatility,
            EntityView::Asset(asset@),
            tracker@,
            decision@,
            error,
        ),
{
    compute_missing_task_four_feature(
        Task4FeatureKind::RealizedVolatility,
        FeatureEntity::Asset(asset),
        tracker,
        decision,
        error,
    )
}

/// A grid has one price for each sampling interval of its window: the first at the window's start,
/// each further one an interval behind the one before it, and the close at the window's end, an
/// interval behind the last. Nothing else is a grid.
pub proof fn lemma_grids_have_a_price_for_each_interval(
    window: PriceWindowView,
    closing: PriceObservationView,
    sampling: u64,
)
    requires
        0 < sampling <= i64::MAX,
        window.window.lower() < window.window.upper(),
    ensures
        sampling_refusal(window, closing, sampling) is None <==> {
            &&& window.observations.len() > 0
            &&& window.observations[0].event_time.nanos == window.window.lower()
            &&& forall|i: int|
                #![trigger window.observations[i]]
                0 < i < window.observations.len() ==> window.observations[i].event_time.nanos
                    == window.observations[i - 1].event_time.nanos + sampling
            &&& window.observations.last().event_time.nanos + sampling == window.window.upper()
            &&& closing.event_time.nanos == window.window.upper()
            &&& closing.entity == window.entity
        },
{
    let prices = window.observations;
    let lower = window.window.lower() as int;
    let extent = window.window.upper() - window.window.lower();
    let s = sampling as int;
    let n = prices.len() as int;
    vstd::arithmetic::div_mod::lemma_fundamental_div_mod(extent, s);
    if sampling_refusal(window, closing, sampling) is None {
        assert(extent == s * n);
        assert(n > 0) by (nonlinear_arith)
            requires
                extent == s * n,
                extent > 0,
                s > 0,
        ;
        assert(prices[0].event_time.nanos == lower + 0 * s);
        assert forall|i: int|
            #![trigger prices[i]]
            0 < i < n implies prices[i].event_time.nanos == prices[i - 1].event_time.nanos + s by {
            assert(prices[i].event_time.nanos == lower + i * sampling);
            assert(prices[i - 1].event_time.nanos == lower + (i - 1) * sampling);
            assert(i * s == (i - 1) * s + s) by (nonlinear_arith);
        }
        assert(prices[n - 1].event_time.nanos == lower + (n - 1) * sampling);
        assert(prices.last() == prices[n - 1]);
        assert((n - 1) * s + s == s * n) by (nonlinear_arith);
    } else if {
        &&& n > 0
        &&& prices[0].event_time.nanos == lower
        &&& forall|i: int|
            #![trigger prices[i]]
            0 < i < n ==> prices[i].event_time.nanos == prices[i - 1].event_time.nanos + sampling
        &&& prices.last().event_time.nanos + sampling == window.window.upper()
        &&& closing.event_time.nanos == window.window.upper()
        &&& closing.entity == window.entity
    } {
        assert forall|i: int| 0 <= i < n implies (#[trigger] prices[i]).event_time.nanos == lower
            + i * sampling by {
            lemma_steps_add_up(prices, lower, s, i);
        }
        assert(prices.last() == prices[n - 1]);
        assert(prices[n - 1].event_time.nanos == lower + (n - 1) * sampling);
        assert(extent == n * s) by (nonlinear_arith)
            requires
                extent == (n - 1) * s + s,
        ;
        vstd::arithmetic::div_mod::lemma_div_multiples_vanish(n, s);
        vstd::arithmetic::div_mod::lemma_mod_multiples_basic(n, s);
        assert(s * n == n * s) by (nonlinear_arith);
    }
}

proof fn lemma_steps_add_up(prices: Seq<PriceObservationView>, lower: int, step: int, i: int)
    requires
        0 <= i < prices.len(),
        prices[0].event_time.nanos == lower,
        forall|k: int|
            #![trigger prices[k]]
            0 < k < prices.len() ==> prices[k].event_time.nanos == prices[k - 1].event_time.nanos
                + step,
    ensures
        prices[i].event_time.nanos == lower + i * step,
    decreases i,
{
    if i > 0 {
        lemma_steps_add_up(prices, lower, step, i - 1);
        assert(prices[i].event_time.nanos == prices[i - 1].event_time.nanos + step);
        assert(i * step == (i - 1) * step + step) by (nonlinear_arith);
    } else {
        assert(0 * step == 0);
    }
}

/// The path of a grid holds the window's prices in order with the close behind them, a minute apart
/// from the first on.
pub proof fn lemma_paths_go_minute_by_minute(
    path: PricePath,
    window: PriceWindowView,
    closing: PriceObservationView,
)
    requires
        is_path_of(path, window, closing),
        sampling_refusal(window, closing, REALIZED_VOLATILITY_V2_SAMPLING_NANOS) is None,
        0 <= window.window.lower() < window.window.upper(),
    ensures
        path.prices@.len() == window.observations.len() + 1,
        path.elapsed_nanos@.len() == window.observations.len() + 1,
        forall|i: int|
            #![trigger window.observations[i]]
            0 <= i < window.observations.len() ==> path.prices@[i] == window.observations[i].price,
        path.prices@.last() == closing.price,
        forall|i: int|
            #![trigger path.elapsed_nanos@[i]]
            0 <= i < path.elapsed_nanos@.len() ==> path.elapsed_nanos@[i] == i * 60_000_000_000,
{
    let prices = window.observations;
    let n = prices.len() as int;
    let s = REALIZED_VOLATILITY_V2_SAMPLING_NANOS as int;
    let lower = window.window.lower() as int;
    let times = complete_times(window, closing);
    lemma_sampled_times(window, closing);
    lemma_grids_have_a_price_for_each_interval(
        window,
        closing,
        REALIZED_VOLATILITY_V2_SAMPLING_NANOS,
    );
    assert forall|i: int|
        #![trigger path.elapsed_nanos@[i]]
        0 <= i < path.elapsed_nanos@.len() implies path.elapsed_nanos@[i] == i * 60_000_000_000 by {
        if i < n {
            lemma_steps_add_up(prices, lower, s, i);
            assert(times[i] == prices[i].event_time.nanos);
        } else {
            lemma_steps_add_up(prices, lower, s, n - 1);
            assert(prices.last() == prices[n - 1]);
            assert(n * s == (n - 1) * s + s) by (nonlinear_arith);
            assert(times[i] == closing.event_time.nanos);
        }
        assert(times[0] == lower);
        assert(window.window.lower() <= times[i] <= window.window.upper());
    }
}

proof fn lemma_extremes_bound(first: Price, observations: Seq<PriceObservationView>)
    ensures
        lowest_with(first, observations).units() <= first.units() <= highest_with(
            first,
            observations,
        ).units(),
        forall|i: int|
            #![trigger observations[i]]
            0 <= i < observations.len() ==> lowest_with(first, observations).units()
                <= observations[i].price.units() <= highest_with(first, observations).units(),
        highest_with(first, observations) == first || exists|i: int|
            0 <= i < observations.len() && (#[trigger] observations[i]).price == highest_with(
                first,
                observations,
            ),
        lowest_with(first, observations) == first || exists|i: int|
            0 <= i < observations.len() && (#[trigger] observations[i]).price == lowest_with(
                first,
                observations,
            ),
    decreases observations.len(),
{
    if observations.len() > 0 {
        let rest = observations.drop_last();
        let last = observations.len() - 1;
        lemma_extremes_bound(first, rest);
        assert(observations[last] == observations.last());
        assert forall|i: int|
            #![trigger observations[i]]
            0 <= i < observations.len() implies lowest_with(first, observations).units()
            <= observations[i].price.units() <= highest_with(first, observations).units() by {
            if i < last {
                assert(rest[i] == observations[i]);
            }
        }
        if highest_with(first, rest) != first {
            let i = choose|i: int|
                0 <= i < rest.len() && (#[trigger] rest[i]).price == highest_with(first, rest);
            assert(observations[i].price == highest_with(first, rest));
        }
        if lowest_with(first, rest) != first {
            let i = choose|i: int|
                0 <= i < rest.len() && (#[trigger] rest[i]).price == lowest_with(first, rest);
            assert(observations[i].price == lowest_with(first, rest));
        }
    }
}

/// A bar opens with the first price of its window and closes with the close. No price of the window,
/// nor its close, lies above the high or below the low, and both are among them.
pub proof fn lemma_bars_span_their_window(window: PriceWindowView, closing: PriceObservationView)
    requires
        window.observations.len() > 0,
    ensures
        ({
            let (open, high, low, close) = ohlc_parts(window, closing);
            let prices = window.observations;
            &&& open == prices[0].price
            &&& close == closing.price
            &&& low.units() <= close.units() <= high.units()
            &&& forall|i: int|
                #![trigger prices[i]]
                0 <= i < prices.len() ==> low.units() <= prices[i].price.units() <= high.units()
            &&& high == close || exists|i: int|
                0 <= i < prices.len() && (#[trigger] prices[i]).price == high
            &&& low == close || exists|i: int|
                0 <= i < prices.len() && (#[trigger] prices[i]).price == low
        }),
{
    let open = window.observations[0].price;
    lemma_extremes_bound(open.higher(closing.price), window.observations);
    lemma_extremes_bound(open.lower(closing.price), window.observations);
    assert(window.observations[0].price == open);
}

/// A pair of grids is measured over one and the same window, of at least two prices on each side.
pub proof fn lemma_pairs_share_their_window(
    kind: Task4FeatureKind,
    left: (PriceWindowView, PriceObservationView, TrackerView),
    right: (PriceWindowView, PriceObservationView, TrackerView),
)
    ensures
        pair_grid_refusal(kind, left, right) is None ==> {
            &&& left.0.window == right.0.window
            &&& left.0.observations.len() == right.0.observations.len() >= 2
            &&& kind == Task4FeatureKind::RealizedCovariance || kind
                == Task4FeatureKind::RealizedCorrelation
        },
        pair_grid_refusal(kind, left, right) is None <==> pair_grid_refusal(kind, right, left)
            is None,
{
}

/// Realized volatility is measured exactly where the window holds a price for every minute, at
/// least two of them, with the close at its end and of its entity.
pub proof fn lemma_realized_volatility_needs_every_minute(
    window: PriceWindowView,
    closing: PriceObservationView,
)
    ensures
        realized_refusal(window, closing) is None ==> {
            &&& window.observations.len() >= 2
            &&& window.window.upper() - window.window.lower() == window.observations.len()
                * 60_000_000_000
            &&& closing.entity == window.entity
            &&& closing.event_time.nanos == window.window.upper()
            &&& forall|i: int|
                #![trigger window.observations[i]]
                0 <= i < window.observations.len() ==> window.observations[i].event_time.nanos
                    == window.window.lower() + i * 60_000_000_000
        },
        ewma_refusal(window, closing) is None <==> realized_refusal(window, closing) is None
            && window.observations.len() <= 4_096,
{
    let extent = window.window.upper() - window.window.lower();
    if realized_refusal(window, closing) is None {
        vstd::arithmetic::div_mod::lemma_fundamental_div_mod(extent, 60_000_000_000);
    }
}

/// A refusal stands in the place of what was measured, and nothing else does.
pub proof fn lemma_refusals_stand_before_measures(
    refusal: Option<FeatureComputationError>,
    measured: Result<u64, FeatureComputationError>,
)
    ensures
        refusal is None ==> unless_refused(refusal, measured) == measured,
        refusal is Some ==> unless_refused(refusal, measured) == Err::<
            u64,
            FeatureComputationError,
        >(refusal->Some_0),
{
}

} // verus!
