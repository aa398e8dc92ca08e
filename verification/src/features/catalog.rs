//! Closed registry catalogue for price, return and volatility recipes.

use vstd::prelude::*;

use super::price::MAX_PRICE_OBSERVATIONS;
use super::volatility::{
    realized_volatility_formula, realized_volatility_v2_policy, MAX_MEASURE_OBSERVATIONS,
};
use super::FeatureComputationError;
use crate::digest::{
    blake3_digest, blake3_hash, encoded_u64, framed, put_bytes, put_framed, put_u64, utf8,
};
use crate::domain::{DurationNanos, QualityScore, SourceHealthState, UnixNanos};
use crate::registry::{
    documentation_for, documentation_of, text_views, version_ascii, window_views, DefinitionView,
    EntityScope, FeatureConsumptionRole, FeatureDefinition, FeatureStatus, FeatureValueType,
    FeatureVersion, NormalizationKind, QualityGate, WindowView,
};
use crate::window::{TimeWindow, WindowDefinition, WindowKind, WindowParameter};

verus! {

pub const ONE_MINUTE: u64 = 60_000_000_000;

pub const FIVE_MINUTES: u64 = 300_000_000_000;

pub const FIFTEEN_MINUTES: u64 = 900_000_000_000;

pub const ONE_HOUR: u64 = 3_600_000_000_000;

pub const ONE_DAY: u64 = 86_400_000_000_000;

pub const FIVE_SECONDS: u64 = 5_000_000_000;

/// The price, return and volatility features.
#[derive(Clone, Copy, Debug, PartialEq, Eq, Structural)]
pub enum Task4FeatureKind {
    LogReturn,
    CumulativeReturn,
    HighLowRange,
    OpenCloseRange,
    RollingVwapDistance,
    AnchoredVwapDistance,
    ConsolidatedFairPriceDistance,
    TrendSlope,
    TrendAcceleration,
    MaximumDrawdown,
    MaximumRunUp,
    UpsideSemivariance,
    DownsideSemivariance,
    ReturnAutocorrelation,
    VarianceRatio,
    RollingSkewness,
    RollingExcessKurtosis,
    ReturnReversal,
    FinalizedIntervalGap,
    RealizedVariance,
    RealizedVolatility,
    ExponentiallyWeightedVolatility,
    ParkinsonVolatility,
    GarmanKlassVolatility,
    BipowerVariation,
    JumpVariation,
    VolatilityOfVolatility,
    VolatilityTermRatio,
    SeasonalityAdjustedVolatility,
    RealizedCovariance,
    RealizedCorrelation,
    VolatilityForecastResidual,
}

/// Every kind, in catalogue order.
pub open spec fn task_four_kinds() -> Seq<Task4FeatureKind> {
    seq![
        Task4FeatureKind::LogReturn,
        Task4FeatureKind::CumulativeReturn,
        Task4FeatureKind::HighLowRange,
        Task4FeatureKind::OpenCloseRange,
        Task4FeatureKind::RollingVwapDistance,
        Task4FeatureKind::AnchoredVwapDistance,
        Task4FeatureKind::ConsolidatedFairPriceDistance,
        Task4FeatureKind::TrendSlope,
        Task4FeatureKind::TrendAcceleration,
        Task4FeatureKind::MaximumDrawdown,
        Task4FeatureKind::MaximumRunUp,
        Task4FeatureKind::UpsideSemivariance,
        Task4FeatureKind::DownsideSemivariance,
        Task4FeatureKind::ReturnAutocorrelation,
        Task4FeatureKind::VarianceRatio,
        Task4FeatureKind::RollingSkewness,
        Task4FeatureKind::RollingExcessKurtosis,
        Task4FeatureKind::ReturnReversal,
        Task4FeatureKind::FinalizedIntervalGap,
        Task4FeatureKind::RealizedVariance,
        Task4FeatureKind::RealizedVolatility,
        Task4FeatureKind::ExponentiallyWeightedVolatility,
        Task4FeatureKind::ParkinsonVolatility,
        Task4FeatureKind::GarmanKlassVolatility,
        Task4FeatureKind::BipowerVariation,
        Task4FeatureKind::JumpVariation,
        Task4FeatureKind::VolatilityOfVolatility,
        Task4FeatureKind::VolatilityTermRatio,
        Task4FeatureKind::SeasonalityAdjustedVolatility,
        Task4FeatureKind::RealizedCovariance,
        Task4FeatureKind::RealizedCorrelation,
        Task4FeatureKind::VolatilityForecastResidual,
    ]
}

impl Task4FeatureKind {
    /// Every kind, in catalogue order.
    pub fn all() -> (kinds: Vec<Self>)
        ensures
            kinds@ == task_four_kinds(),
    {
        let mut kinds: Vec<Self> = Vec::new();
        kinds.push(Task4FeatureKind::LogReturn);
        kinds.push(Task4FeatureKind::CumulativeReturn);
        kinds.push(Task4FeatureKind::HighLowRange);
        kinds.push(Task4FeatureKind::OpenCloseRange);
        kinds.push(Task4FeatureKind::RollingVwapDistance);
        kinds.push(Task4FeatureKind::AnchoredVwapDistance);
        kinds.push(Task4FeatureKind::ConsolidatedFairPriceDistance);
        kinds.push(Task4FeatureKind::TrendSlope);
        kinds.push(Task4FeatureKind::TrendAcceleration);
        kinds.push(Task4FeatureKind::MaximumDrawdown);
        kinds.push(Task4FeatureKind::MaximumRunUp);
        kinds.push(Task4FeatureKind::UpsideSemivariance);
        kinds.push(Task4FeatureKind::DownsideSemivariance);
        kinds.push(Task4FeatureKind::ReturnAutocorrelation);
        kinds.push(Task4FeatureKind::VarianceRatio);
        kinds.push(Task4FeatureKind::RollingSkewness);
        kinds.push(Task4FeatureKind::RollingExcessKurtosis);
        kinds.push(Task4FeatureKind::ReturnReversal);
        kinds.push(Task4FeatureKind::FinalizedIntervalGap);
        kinds.push(Task4FeatureKind::RealizedVariance);
        kinds.push(Task4FeatureKind::RealizedVolatility);
        kinds.push(Task4FeatureKind::ExponentiallyWeightedVolatility);
        kinds.push(Task4FeatureKind::ParkinsonVolatility);
        kinds.push(Task4FeatureKind::GarmanKlassVolatility);
        kinds.push(Task4FeatureKind::BipowerVariation);
        kinds.push(Task4FeatureKind::JumpVariation);
        kinds.push(Task4FeatureKind::VolatilityOfVolatility);
        kinds.push(Task4FeatureKind::VolatilityTermRatio);
        kinds.push(Task4FeatureKind::SeasonalityAdjustedVolatility);
        kinds.push(Task4FeatureKind::RealizedCovariance);
        kinds.push(Task4FeatureKind::RealizedCorrelation);
        kinds.push(Task4FeatureKind::VolatilityForecastResidual);
        proof {
            assert(kinds@ =~= task_four_kinds());
        }
        kinds
    }

    /// The identifier of the feature.
    pub open spec fn spec_id(self) -> Seq<char> {
        match self {
            Task4FeatureKind::LogReturn => "log_return"@,
            Task4FeatureKind::CumulativeReturn => "cumulative_return"@,
            Task4FeatureKind::HighLowRange => "high_low_range"@,
            Task4FeatureKind::OpenCloseRange => "open_close_range"@,
            Task4FeatureKind::RollingVwapDistance => "rolling_vwap_distance"@,
            Task4FeatureKind::AnchoredVwapDistance => "anchored_vwap_distance"@,
            Task4FeatureKind::ConsolidatedFairPriceDistance => "consolidated_fair_price_distance"@,
            Task4FeatureKind::TrendSlope => "trend_slope"@,
            Task4FeatureKind::TrendAcceleration => "trend_acceleration"@,
            Task4FeatureKind::MaximumDrawdown => "maximum_drawdown"@,
            Task4FeatureKind::MaximumRunUp => "maximum_run_up"@,
            Task4FeatureKind::UpsideSemivariance => "upside_semivariance"@,
            Task4FeatureKind::DownsideSemivariance => "downside_semivariance"@,
            Task4FeatureKind::ReturnAutocorrelation => "return_autocorrelation"@,
            Task4FeatureKind::VarianceRatio => "variance_ratio"@,
            Task4FeatureKind::RollingSkewness => "rolling_skewness"@,
            Task4FeatureKind::RollingExcessKurtosis => "rolling_excess_kurtosis"@,
            Task4FeatureKind::ReturnReversal => "return_reversal"@,
            Task4FeatureKind::FinalizedIntervalGap => "finalized_interval_gap"@,
            Task4FeatureKind::RealizedVariance => "realized_variance"@,
            Task4FeatureKind::RealizedVolatility => "realized_volatility"@,
            Task4FeatureKind::ExponentiallyWeightedVolatility => "exponentially_weighted_volatility"@,
            Task4FeatureKind::ParkinsonVolatility => "parkinson_volatility"@,
            Task4FeatureKind::GarmanKlassVolatility => "garman_klass_volatility"@,
            Task4FeatureKind::BipowerVariation => "bipower_variation"@,
            Task4FeatureKind::JumpVariation => "jump_variation"@,
            Task4FeatureKind::VolatilityOfVolatility => "volatility_of_volatility"@,
            Task4FeatureKind::VolatilityTermRatio => "volatility_term_ratio"@,
            Task4FeatureKind::SeasonalityAdjustedVolatility => "seasonality_adjusted_volatility"@,
            Task4FeatureKind::RealizedCovariance => "realized_covariance"@,
            Task4FeatureKind::RealizedCorrelation => "realized_correlation"@,
            Task4FeatureKind::VolatilityForecastResidual => "volatility_forecast_residual"@,
        }
    }

    pub fn id(self) -> (text: &'static str)
        ensures
            text@ == self.spec_id(),
    {
        match self {
            Task4FeatureKind::LogReturn => "log_return",
            Task4FeatureKind::CumulativeReturn => "cumulative_return",
            Task4FeatureKind::HighLowRange => "high_low_range",
            Task4FeatureKind::OpenCloseRange => "open_close_range",
            Task4FeatureKind::RollingVwapDistance => "rolling_vwap_distance",
            Task4FeatureKind::AnchoredVwapDistance => "anchored_vwap_distance",
            Task4FeatureKind::ConsolidatedFairPriceDistance => "consolidated_fair_price_distance",
            Task4FeatureKind::TrendSlope => "trend_slope",
            Task4FeatureKind::TrendAcceleration => "trend_acceleration",
            Task4FeatureKind::MaximumDrawdown => "maximum_drawdown",
            Task4FeatureKind::MaximumRunUp => "maximum_run_up",
            Task4FeatureKind::UpsideSemivariance => "upside_semivariance",
            Task4FeatureKind::DownsideSemivariance => "downside_semivariance",
            Task4FeatureKind::ReturnAutocorrelation => "return_autocorrelation",
            Task4FeatureKind::VarianceRatio => "variance_ratio",
            Task4FeatureKind::RollingSkewness => "rolling_skewness",
            Task4FeatureKind::RollingExcessKurtosis => "rolling_excess_kurtosis",
            Task4FeatureKind::ReturnReversal => "return_reversal",
            Task4FeatureKind::FinalizedIntervalGap => "finalized_interval_gap",
            Task4FeatureKind::RealizedVariance => "realized_variance",
            Task4FeatureKind::RealizedVolatility => "realized_volatility",
            Task4FeatureKind::ExponentiallyWeightedVolatility => "exponentially_weighted_volatility",
            Task4FeatureKind::ParkinsonVolatility => "parkinson_volatility",
            Task4FeatureKind::GarmanKlassVolatility => "garman_klass_volatility",
            Task4FeatureKind::BipowerVariation => "bipower_variation",
            Task4FeatureKind::JumpVariation => "jump_variation",
            Task4FeatureKind::VolatilityOfVolatility => "volatility_of_volatility",
            Task4FeatureKind::VolatilityTermRatio => "volatility_term_ratio",
            Task4FeatureKind::SeasonalityAdjustedVolatility => "seasonality_adjusted_volatility",
            Task4FeatureKind::RealizedCovariance => "realized_covariance",
            Task4FeatureKind::RealizedCorrelation => "realized_correlation",
            Task4FeatureKind::VolatilityForecastResidual => "volatility_forecast_residual",
        }
    }

    /// The formula of the feature, in words.
    pub open spec fn spec_formula(self) -> Seq<char> {
        match self {
            Task4FeatureKind::LogReturn => "ln(close_t/close_t-h)"@,
            Task4FeatureKind::CumulativeReturn => "close_t/open_h-1"@,
            Task4FeatureKind::HighLowRange => "high_h/low_h-1"@,
            Task4FeatureKind::OpenCloseRange => "close_h/open_h-1"@,
            Task4FeatureKind::RollingVwapDistance => "price/rolling-vwap-1;zero-size-ignored"@,
            Task4FeatureKind::AnchoredVwapDistance => "price/utc-session-vwap-1;zero-size-ignored"@,
            Task4FeatureKind::ConsolidatedFairPriceDistance => "price/consolidated-fair-price-1"@,
            Task4FeatureKind::TrendSlope => "event-time-ols-price-slope"@,
            Task4FeatureKind::TrendAcceleration => "event-time-ols-interval-slope-acceleration"@,
            Task4FeatureKind::MaximumDrawdown => "max((running-peak-price)/running-peak)"@,
            Task4FeatureKind::MaximumRunUp => "max((price-running-trough)/running-trough)"@,
            Task4FeatureKind::UpsideSemivariance => "sum(return^2 where return>0)"@,
            Task4FeatureKind::DownsideSemivariance => "sum(return^2 where return<0)"@,
            Task4FeatureKind::ReturnAutocorrelation => "pearson(return_t,return_t-1);lag=1"@,
            Task4FeatureKind::VarianceRatio => "var(overlapping-two-return-sums)/(2*var(return));horizon=2"@,
            Task4FeatureKind::RollingSkewness => "population-third-central-moment/variance^1.5"@,
            Task4FeatureKind::RollingExcessKurtosis => "population-fourth-central-moment/variance^2-3"@,
            Task4FeatureKind::ReturnReversal => "mean(-sign(r_t)*r_t+1 where abs(r_t)>=0.05)"@,
            Task4FeatureKind::FinalizedIntervalGap => "current-final-open/previous-final-close-1"@,
            Task4FeatureKind::RealizedVariance => "sum(consecutive-log-return^2)"@,
            Task4FeatureKind::RealizedVolatility => "sqrt(sum(consecutive-log-return^2));unannualized"@,
            Task4FeatureKind::ExponentiallyWeightedVolatility => "sqrt(time-aware-ewma-squared-return);half-life=5m;lookback=5m;initial=first-squared-return"@,
            Task4FeatureKind::ParkinsonVolatility => "sqrt(mean(log(high/low)^2)/(4*ln(2)))"@,
            Task4FeatureKind::GarmanKlassVolatility => "sqrt(mean(0.5*log(high/low)^2-(2*ln(2)-1)*log(close/open)^2));negative-mean-tolerance=f64-epsilon;clamp-small-negative-to-zero"@,
            Task4FeatureKind::BipowerVariation => "pi/2*sum(abs(r_t-1)*abs(r_t))"@,
            Task4FeatureKind::JumpVariation => "max(realized-variance-bipower-variation,0)"@,
            Task4FeatureKind::VolatilityOfVolatility => "sample-standard-deviation(realized-volatility)"@,
            Task4FeatureKind::VolatilityTermRatio => "short-horizon-volatility/long-horizon-volatility;pair=5m/15m-or-15m/1h"@,
            Task4FeatureKind::SeasonalityAdjustedVolatility => "realized-volatility/point-in-time-time-of-week-factor;bucket-anchor=monday-00:00-utc"@,
            Task4FeatureKind::RealizedCovariance => "sum(aligned-log-return-products)"@,
            Task4FeatureKind::RealizedCorrelation => "sum(aligned-log-return-products)/sqrt(sum(left^2)*sum(right^2))"@,
            Task4FeatureKind::VolatilityForecastResidual => "realized-volatility-point-in-time-forecast"@,
        }
    }

    pub fn formula(self) -> (text: &'static str)
        ensures
            text@ == self.spec_formula(),
    {
        match self {
            Task4FeatureKind::LogReturn => "ln(close_t/close_t-h)",
            Task4FeatureKind::CumulativeReturn => "close_t/open_h-1",
            Task4FeatureKind::HighLowRange => "high_h/low_h-1",
            Task4FeatureKind::OpenCloseRange => "close_h/open_h-1",
            Task4FeatureKind::RollingVwapDistance => "price/rolling-vwap-1;zero-size-ignored",
            Task4FeatureKind::AnchoredVwapDistance => "price/utc-session-vwap-1;zero-size-ignored",
            Task4FeatureKind::ConsolidatedFairPriceDistance => "price/consolidated-fair-price-1",
            Task4FeatureKind::TrendSlope => "event-time-ols-price-slope",
            Task4FeatureKind::TrendAcceleration => "event-time-ols-interval-slope-acceleration",
            Task4FeatureKind::MaximumDrawdown => "max((running-peak-price)/running-peak)",
            Task4FeatureKind::MaximumRunUp => "max((price-running-trough)/running-trough)",
            Task4FeatureKind::UpsideSemivariance => "sum(return^2 where return>0)",
            Task4FeatureKind::DownsideSemivariance => "sum(return^2 where return<0)",
            Task4FeatureKind::ReturnAutocorrelation => "pearson(return_t,return_t-1);lag=1",
            Task4FeatureKind::VarianceRatio => "var(overlapping-two-return-sums)/(2*var(return));horizon=2",
            Task4FeatureKind::RollingSkewness => "population-third-central-moment/variance^1.5",
            Task4FeatureKind::RollingExcessKurtosis => "population-fourth-central-moment/variance^2-3",
            Task4FeatureKind::ReturnReversal => "mean(-sign(r_t)*r_t+1 where abs(r_t)>=0.05)",
            Task4FeatureKind::FinalizedIntervalGap => "current-final-open/previous-final-close-1",
            Task4FeatureKind::RealizedVariance => "sum(consecutive-log-return^2)",
            Task4FeatureKind::RealizedVolatility => "sqrt(sum(consecutive-log-return^2));unannualized",
            Task4FeatureKind::ExponentiallyWeightedVolatility => "sqrt(time-aware-ewma-squared-return);half-life=5m;lookback=5m;initial=first-squared-return",
            Task4FeatureKind::ParkinsonVolatility => "sqrt(mean(log(high/low)^2)/(4*ln(2)))",
            Task4FeatureKind::GarmanKlassVolatility => "sqrt(mean(0.5*log(high/low)^2-(2*ln(2)-1)*log(close/open)^2));negative-mean-tolerance=f64-epsilon;clamp-small-negative-to-zero",
            Task4FeatureKind::BipowerVariation => "pi/2*sum(abs(r_t-1)*abs(r_t))",
            Task4FeatureKind::JumpVariation => "max(realized-variance-bipower-variation,0)",
            Task4FeatureKind::VolatilityOfVolatility => "sample-standard-deviation(realized-volatility)",
            Task4FeatureKind::VolatilityTermRatio => "short-horizon-volatility/long-horizon-volatility;pair=5m/15m-or-15m/1h",
            Task4FeatureKind::SeasonalityAdjustedVolatility => "realized-volatility/point-in-time-time-of-week-factor;bucket-anchor=monday-00:00-utc",
            Task4FeatureKind::RealizedCovariance => "sum(aligned-log-return-products)",
            Task4FeatureKind::RealizedCorrelation => "sum(aligned-log-return-products)/sqrt(sum(left^2)*sum(right^2))",
            Task4FeatureKind::VolatilityForecastResidual => "realized-volatility-point-in-time-forecast",
        }
    }

    pub open spec fn spec_version(self) -> FeatureVersion {
        if self == Task4FeatureKind::RealizedVolatility {
            FeatureVersion { major: 2, minor: 0, patch: 0 }
        } else {
            FeatureVersion { major: 1, minor: 0, patch: 0 }
        }
    }

    pub fn version(self) -> (version: FeatureVersion)
        ensures
            version == self.spec_version(),
    {
        if self == Task4FeatureKind::RealizedVolatility {
            FeatureVersion::new(2, 0, 0)
        } else {
            FeatureVersion::new(1, 0, 0)
        }
    }

    /// The digest that identifies the formula and the bounds under which it is computed.
    pub open spec fn spec_formula_hash(self) -> Seq<u8> {
        if self == Task4FeatureKind::RealizedVolatility {
            realized_volatility_formula(ONE_MINUTE, None)
        } else {
            blake3_digest(
                utf8("crypto-intelligence/task4-feature-formula/v1"@) + framed(
                    utf8(self.spec_id()),
                ) + framed(version_ascii(self.spec_version())) + framed(utf8(self.spec_formula()))
                    + encoded_u64(ONE_MINUTE) + encoded_u64(FIVE_MINUTES) + encoded_u64(
                    FIFTEEN_MINUTES,
                ) + encoded_u64(ONE_HOUR) + encoded_u64(MAX_PRICE_OBSERVATIONS as u64)
                    + encoded_u64(MAX_MEASURE_OBSERVATIONS as u64),
            )
        }
    }

    pub fn formula_hash(self) -> (digest: [u8; 32])
        ensures
            digest@ == self.spec_formula_hash(),
    {
        if self == Task4FeatureKind::RealizedVolatility {
            return realized_volatility_v2_policy().formula_hash();
        }
        let mut buffer: Vec<u8> = Vec::new();
        put_bytes(&mut buffer, "crypto-intelligence/task4-feature-formula/v1".as_bytes());
        put_framed(&mut buffer, self.id().as_bytes());
        let version = self.version().text();
        put_framed(&mut buffer, version.as_str().as_bytes());
        put_framed(&mut buffer, self.formula().as_bytes());
        put_u64(&mut buffer, ONE_MINUTE);
        put_u64(&mut buffer, FIVE_MINUTES);
        put_u64(&mut buffer, FIFTEEN_MINUTES);
        put_u64(&mut buffer, ONE_HOUR);
        put_u64(&mut buffer, MAX_PRICE_OBSERVATIONS as u64);
        put_u64(&mut buffer, MAX_MEASURE_OBSERVATIONS as u64);
        proof {
            assert(buffer@ =~= utf8("crypto-intelligence/task4-feature-formula/v1"@) + framed(
                utf8(self.spec_id()),
            ) + framed(version_ascii(self.spec_version())) + framed(utf8(self.spec_formula()))
                + encoded_u64(ONE_MINUTE) + encoded_u64(FIVE_MINUTES) + encoded_u64(
                FIFTEEN_MINUTES,
            ) + encoded_u64(ONE_HOUR) + encoded_u64(MAX_PRICE_OBSERVATIONS as u64) + encoded_u64(
                MAX_MEASURE_OBSERVATIONS as u64,
            ));
        }
        blake3_hash(buffer.as_slice())
    }

    /// The feature describes a pair of assets.
    pub open spec fn is_paired(self) -> bool {
        self == Task4FeatureKind::RealizedCovariance || self
            == Task4FeatureKind::RealizedCorrelation
    }

    /// The registered inputs of the feature.
    pub open spec fn spec_required_inputs(self) -> Seq<Seq<char>> {
        match self {
            Task4FeatureKind::RollingVwapDistance
            | Task4FeatureKind::AnchoredVwapDistance
            | Task4FeatureKind::ConsolidatedFairPriceDistance => seq![
                "normalized.trades"@,
                "consolidated.fair_price"@,
            ],
            Task4FeatureKind::ExponentiallyWeightedVolatility => seq!["feature.log_return"@],
            Task4FeatureKind::VolatilityOfVolatility => seq!["feature.realized_volatility"@],
            Task4FeatureKind::VolatilityTermRatio => seq![
                "feature.realized_volatility.short"@,
                "feature.realized_volatility.long"@,
            ],
            Task4FeatureKind::SeasonalityAdjustedVolatility => seq![
                "feature.realized_volatility"@,
                "baseline.intraday_seasonality"@,
            ],
            Task4FeatureKind::RealizedCovariance | Task4FeatureKind::RealizedCorrelation => seq![
                "consolidated.fair_price.left"@,
                "consolidated.fair_price.right"@,
            ],
            Task4FeatureKind::VolatilityForecastResidual => seq![
                "feature.realized_volatility"@,
                "forecast.volatility"@,
            ],
            Task4FeatureKind::FinalizedIntervalGap => seq!["consolidated.finalized_interval"@],
            _ => seq!["consolidated.fair_price"@],
        }
    }

    pub fn required_inputs(self) -> (inputs: Vec<&'static str>)
        ensures
            text_views(inputs@) == self.spec_required_inputs(),
    {
        let mut inputs: Vec<&'static str> = Vec::new();
        match self {
            Task4FeatureKind::RollingVwapDistance
            | Task4FeatureKind::AnchoredVwapDistance
            | Task4FeatureKind::ConsolidatedFairPriceDistance => {
                inputs.push("normalized.trades");
                inputs.push("consolidated.fair_price");
            },
            Task4FeatureKind::ExponentiallyWeightedVolatility => {
                inputs.push("feature.log_return");
            },
            Task4FeatureKind::VolatilityOfVolatility => {
                inputs.push("feature.realized_volatility");
            },
            Task4FeatureKind::VolatilityTermRatio => {
                inputs.push("feature.realized_volatility.short");
                inputs.push("feature.realized_volatility.long");
            },
            Task4FeatureKind::SeasonalityAdjustedVolatility => {
                inputs.push("feature.realized_volatility");
                inputs.push("baseline.intraday_seasonality");
            },
            Task4FeatureKind::RealizedCovariance | Task4FeatureKind::RealizedCorrelation => {
                inputs.push("consolidated.fair_price.left");
                inputs.push("consolidated.fair_price.right");
            },
            Task4FeatureKind::VolatilityForecastResidual => {
                inputs.push("feature.realized_volatility");
                inputs.push("forecast.volatility");
            },
            Task4FeatureKind::FinalizedIntervalGap => {
                inputs.push("consolidated.finalized_interval");
            },
            _ => {
                inputs.push("consolidated.fair_price");
            },
        }
        proof {
            assert(text_views(inputs@) =~= self.spec_required_inputs());
        }
        inputs
    }

    /// The registered windows of the feature.
    pub open spec fn spec_windows(self) -> Seq<WindowView> {
        if self == Task4FeatureKind::ExponentiallyWeightedVolatility {
            seq![
                (
                    "ewma_5m"@,
                    WindowKind::ExponentiallyWeighted,
                    WindowParameter::ExponentiallyWeighted {
                        half_life: DurationNanos { nanos: FIVE_MINUTES },
                    },
                ),
            ]
        } else if self == Task4FeatureKind::AnchoredVwapDistance {
            seq![
                (
                    "utc_day"@,
                    WindowKind::SessionAligned,
                    WindowParameter::SessionAligned {
                        extent: DurationNanos { nanos: ONE_DAY },
                        utc_anchor: UnixNanos { nanos: 86_400_000_000_000 },
                    },
                ),
            ]
        } else if self == Task4FeatureKind::VolatilityTermRatio {
            seq![
                rolling_window("rolling_15m"@, FIFTEEN_MINUTES),
                rolling_window("rolling_1h"@, ONE_HOUR),
            ]
        } else {
            seq![
                rolling_window("rolling_5m"@, FIVE_MINUTES),
                rolling_window("rolling_15m"@, FIFTEEN_MINUTES),
                rolling_window("rolling_1h"@, ONE_HOUR),
            ]
        }
    }

    pub fn windows(self) -> (windows: Vec<WindowDefinition>)
        ensures
            window_views(windows@) == self.spec_windows(),
    {
        let mut windows: Vec<WindowDefinition> = Vec::new();
        if self == Task4FeatureKind::ExponentiallyWeightedVolatility {
            windows.push(
                WindowDefinition {
                    id: "ewma_5m".to_owned(),
                    kind: WindowKind::ExponentiallyWeighted,
                    parameter: WindowParameter::ExponentiallyWeighted {
                        half_life: DurationNanos::new(FIVE_MINUTES),
                    },
                },
            );
        } else if self == Task4FeatureKind::AnchoredVwapDistance {
            windows.push(
                WindowDefinition {
                    id: "utc_day".to_owned(),
                    kind: WindowKind::SessionAligned,
                    parameter: WindowParameter::SessionAligned {
                        extent: DurationNanos::new(ONE_DAY),
                        utc_anchor: UnixNanos::new(86_400_000_000_000),
                    },
                },
            );
        } else {
            if self != Task4FeatureKind::VolatilityTermRatio {
                windows.push(rolling("rolling_5m", FIVE_MINUTES));
            }
            windows.push(rolling("rolling_15m", FIFTEEN_MINUTES));
            windows.push(rolling("rolling_1h", ONE_HOUR));
        }
        proof {
            assert(window_views(windows@) =~= self.spec_windows());
        }
        windows
    }

    /// What the registry says of the feature.
    pub open spec fn spec_definition(self) -> DefinitionView {
        DefinitionView {
            id: self.spec_id(),
            version: self.spec_version(),
            status: FeatureStatus::Required,
            consumption_role: FeatureConsumptionRole::ModelEligible,
            value_type: FeatureValueType::Float64,
            entities: if self.is_paired() {
                EntityScope::AssetPair
            } else {
                EntityScope::Asset
            },
            required_inputs: self.spec_required_inputs(),
            windows: self.spec_windows(),
            output_resolution: ONE_MINUTE,
            allowed_lateness: FIVE_SECONDS,
            time_to_live: ONE_DAY,
            normalization: NormalizationKind::Unnormalized,
            normalization_version: self.spec_version(),
            minimum_quality: 900_000,
            minimum_coverage: 1_000_000,
            allowed_health: seq![SourceHealthState::Healthy, SourceHealthState::Recovering],
            formula_hash: self.spec_formula_hash(),
            documentation: documentation_of(self.spec_id()),
        }
    }

    pub fn definition(self) -> (definition: FeatureDefinition)
        ensures
            definition@ == self.spec_definition(),
    {
        let mut allowed_health: Vec<SourceHealthState> = Vec::new();
        allowed_health.push(SourceHealthState::Healthy);
        allowed_health.push(SourceHealthState::Recovering);
        proof {
            assert(allowed_health@ =~= self.spec_definition().allowed_health);
        }
        let paired: bool = self == Task4FeatureKind::RealizedCovariance || self
            == Task4FeatureKind::RealizedCorrelation;
        FeatureDefinition {
            id: self.id(),
            version: self.version(),
            status: FeatureStatus::Required,
            consumption_role: FeatureConsumptionRole::ModelEligible,
            value_type: FeatureValueType::Float64,
            entities: if paired {
                EntityScope::AssetPair
            } else {
                EntityScope::Asset
            },
            required_inputs: self.required_inputs(),
            windows: self.windows(),
            output_resolution: DurationNanos::new(ONE_MINUTE),
            allowed_lateness: DurationNanos::new(FIVE_SECONDS),
            time_to_live: DurationNanos::new(ONE_DAY),
            normalization: NormalizationKind::Unnormalized,
            normalization_version: self.version(),
            quality_gate: QualityGate {
                minimum_quality: QualityScore { millionths: 900_000 },
                minimum_coverage: QualityScore { millionths: 1_000_000 },
                allowed_health,
            },
            formula_hash: self.formula_hash(),
            documentation: documentation_for(self.id()),
        }
    }

    /// The registered window that a span of event time is an instance of, or why it is none.
    pub open spec fn spec_output_window(self, window: TimeWindow) -> Result<
        Seq<char>,
        FeatureComputationError,
    > {
        let extent = window.upper() - window.lower();
        if self == Task4FeatureKind::ExponentiallyWeightedVolatility {
            if extent == FIVE_MINUTES {
                Ok("ewma_5m"@)
            } else {
                Err(FeatureComputationError::InvalidParameter)
            }
        } else if self == Task4FeatureKind::AnchoredVwapDistance {
            if extent == ONE_DAY && window.lower() as int % ONE_DAY as int == 0 {
                Ok("utc_day"@)
            } else {
                Err(FeatureComputationError::InvalidParameter)
            }
        } else if extent == FIVE_MINUTES {
            Ok("rolling_5m"@)
        } else if extent == FIFTEEN_MINUTES {
            Ok("rolling_15m"@)
        } else if extent == ONE_HOUR {
            Ok("rolling_1h"@)
        } else {
            Err(FeatureComputationError::InvalidParameter)
        }
    }

    pub fn output_window_id(self, window: TimeWindow) -> (result: Result<
        &'static str,
        FeatureComputationError,
    >)
        ensures
            match self.spec_output_window(window) {
                Err(error) => result is Err && result->Err_0 == error,
                Ok(id) => result is Ok && result->Ok_0@ == id,
            },
    {
        let start: i64 = window.start().value();
        let extent: u64 = (window.end().value() - start) as u64;
        if self == Task4FeatureKind::ExponentiallyWeightedVolatility {
            return if extent == FIVE_MINUTES {
                Ok("ewma_5m")
            } else {
                Err(FeatureComputationError::InvalidParameter)
            };
        }
        if self == Task4FeatureKind::AnchoredVwapDistance {
            return if extent == ONE_DAY && start as u64 % ONE_DAY == 0 {
                Ok("utc_day")
            } else {
                Err(FeatureComputationError::InvalidParameter)
            };
        }
        if extent == FIVE_MINUTES {
            Ok("rolling_5m")
        } else if extent == FIFTEEN_MINUTES {
            Ok("rolling_15m")
        } else if extent == ONE_HOUR {
            Ok("rolling_1h")
        } else {
            Err(FeatureComputationError::InvalidParameter)
        }
    }
}

/// A sliding window that advances by one minute.
pub open spec fn rolling_window(id: Seq<char>, extent: u64) -> WindowView {
    (
        id,
        WindowKind::Sliding,
        WindowParameter::Time {
            extent: DurationNanos { nanos: extent },
            advance: Some(DurationNanos { nanos: ONE_MINUTE }),
        },
    )
}

fn rolling(id: &str, extent: u64) -> (window: WindowDefinition)
    ensures
        (window.id@, window.kind, window.parameter) == rolling_window(id@, extent),
{
    WindowDefinition {
        id: id.to_owned(),
        kind: WindowKind::Sliding,
        parameter: WindowParameter::Time {
            extent: DurationNanos::new(extent),
            advance: Some(DurationNanos::new(ONE_MINUTE)),
        },
    }
}

/// The definitions of every kind, in catalogue order.
pub fn task_four_definitions() -> (definitions: Vec<FeatureDefinition>)
    ensures
        definitions@.len() == task_four_kinds().len(),
        forall|i: int|
            0 <= i < definitions@.len() ==> (#[trigger] definitions@[i])@
                == task_four_kinds()[i].spec_definition(),
{
    let kinds = Task4FeatureKind::all();
    let mut definitions: Vec<FeatureDefinition> = Vec::new();
    let mut i: usize = 0;
    while i < kinds.len()
        invariant
            i <= kinds@.len(),
            kinds@ == task_four_kinds(),
            definitions@.len() == i,
            forall|k: int|
                0 <= k < i ==> (#[trigger] definitions@[k])@ == task_four_kinds()[k].spec_definition(),
        decreases kinds.len() - i,
    {
        definitions.push(kinds[i].definition());
        i += 1;
    }
    definitions
}

/// Every kind is in the catalogue.
pub proof fn lemma_catalogue_is_complete(kind: Task4FeatureKind)
    ensures
        task_four_kinds().contains(kind),
{
    let kinds = task_four_kinds();
    match kind {
        Task4FeatureKind::LogReturn => assert(kinds[0] == kind),
        Task4FeatureKind::CumulativeReturn => assert(kinds[1] == kind),
        Task4FeatureKind::HighLowRange => assert(kinds[2] == kind),
        Task4FeatureKind::OpenCloseRange => assert(kinds[3] == kind),
        Task4FeatureKind::RollingVwapDistance => assert(kinds[4] == kind),
        Task4FeatureKind::AnchoredVwapDistance => assert(kinds[5] == kind),
        Task4FeatureKind::ConsolidatedFairPriceDistance => assert(kinds[6] == kind),
        Task4FeatureKind::TrendSlope => assert(kinds[7] == kind),
        Task4FeatureKind::TrendAcceleration => assert(kinds[8] == kind),
        Task4FeatureKind::MaximumDrawdown => assert(kinds[9] == kind),
        Task4FeatureKind::MaximumRunUp => assert(kinds[10] == kind),
        Task4FeatureKind::UpsideSemivariance => assert(kinds[11] == kind),
        Task4FeatureKind::DownsideSemivariance => assert(kinds[12] == kind),
        Task4FeatureKind::ReturnAutocorrelation => assert(kinds[13] == kind),
        Task4FeatureKind::VarianceRatio => assert(kinds[14] == kind),
        Task4FeatureKind::RollingSkewness => assert(kinds[15] == kind),
        Task4FeatureKind::RollingExcessKurtosis => assert(kinds[16] == kind),
        Task4FeatureKind::ReturnReversal => assert(kinds[17] == kind),
        Task4FeatureKind::FinalizedIntervalGap => assert(kinds[18] == kind),
        Task4FeatureKind::RealizedVariance => assert(kinds[19] == kind),
        Task4FeatureKind::RealizedVolatility => assert(kinds[20] == kind),
        Task4FeatureKind::ExponentiallyWeightedVolatility => assert(kinds[21] == kind),
        Task4FeatureKind::ParkinsonVolatility => assert(kinds[22] == kind),
        Task4FeatureKind::GarmanKlassVolatility => assert(kinds[23] == kind),
        Task4FeatureKind::BipowerVariation => assert(kinds[24] == kind),
        Task4FeatureKind::JumpVariation => assert(kinds[25] == kind),
        Task4FeatureKind::VolatilityOfVolatility => assert(kinds[26] == kind),
        Task4FeatureKind::VolatilityTermRatio => assert(kinds[27] == kind),
        Task4FeatureKind::SeasonalityAdjustedVolatility => assert(kinds[28] == kind),
        Task4FeatureKind::RealizedCovariance => assert(kinds[29] == kind),
        Task4FeatureKind::RealizedCorrelation => assert(kinds[30] == kind),
        Task4FeatureKind::VolatilityForecastResidual => assert(kinds[31] == kind),
    }
}

/// A number that tells the identifiers of the catalogue apart.
spec fn id_mark(id: Seq<char>) -> int {
    ((id.len() as int) * 1000 + id[0] as u32) * 1000 + id[9] as u32
}

proof fn lemma_id_mark(kind: Task4FeatureKind) -> (mark: int)
    ensures
        id_mark(kind.spec_id()) == mark,
        mark == match kind {
            Task4FeatureKind::LogReturn => 10108110int,
            Task4FeatureKind::CumulativeReturn => 17099101int,
            Task4FeatureKind::HighLowRange => 14104114int,
            Task4FeatureKind::OpenCloseRange => 16111101int,
            Task4FeatureKind::RollingVwapDistance => 21114119int,
            Task4FeatureKind::AnchoredVwapDistance => 22097118int,
            Task4FeatureKind::ConsolidatedFairPriceDistance => 32099116int,
            Task4FeatureKind::TrendSlope => 11116112int,
            Task4FeatureKind::TrendAcceleration => 18116101int,
            Task4FeatureKind::MaximumDrawdown => 16109114int,
            Task4FeatureKind::MaximumRunUp => 14109117int,
            Task4FeatureKind::UpsideSemivariance => 19117109int,
            Task4FeatureKind::DownsideSemivariance => 21100115int,
            Task4FeatureKind::ReturnAutocorrelation => 22114116int,
            Task4FeatureKind::VarianceRatio => 14118114int,
            Task4FeatureKind::RollingSkewness => 16114107int,
            Task4FeatureKind::RollingExcessKurtosis => 23114120int,
            Task4FeatureKind::ReturnReversal => 15114118int,
            Task4FeatureKind::FinalizedIntervalGap => 22102095int,
            Task4FeatureKind::RealizedVariance => 17114118int,
            Task4FeatureKind::RealizedVolatility => 19114118int,
            Task4FeatureKind::ExponentiallyWeightedVolatility => 33101097int,
            Task4FeatureKind::ParkinsonVolatility => 20112095int,
            Task4FeatureKind::GarmanKlassVolatility => 23103097int,
            Task4FeatureKind::BipowerVariation => 17098097int,
            Task4FeatureKind::JumpVariation => 14106097int,
            Task4FeatureKind::VolatilityOfVolatility => 24118121int,
            Task4FeatureKind::VolatilityTermRatio => 21118121int,
            Task4FeatureKind::SeasonalityAdjustedVolatility => 31115116int,
            Task4FeatureKind::RealizedCovariance => 19114099int,
            Task4FeatureKind::RealizedCorrelation => 20114099int,
            Task4FeatureKind::VolatilityForecastResidual => 28118121int,
        },
{
    match kind {
        Task4FeatureKind::LogReturn => {
            reveal_strlit("log_return");
            10108110
        },
        Task4FeatureKind::CumulativeReturn => {
            reveal_strlit("cumulative_return");
            17099101
        },
        Task4FeatureKind::HighLowRange => {
            reveal_strlit("high_low_range");
            14104114
        },
        Task4FeatureKind::OpenCloseRange => {
            reveal_strlit("open_close_range");
            16111101
        },
        Task4FeatureKind::RollingVwapDistance => {
            reveal_strlit("rolling_vwap_distance");
            21114119
        },
        Task4FeatureKind::AnchoredVwapDistance => {
            reveal_strlit("anchored_vwap_distance");
            22097118
        },
        Task4FeatureKind::ConsolidatedFairPriceDistance => {
            reveal_strlit("consolidated_fair_price_distance");
            32099116
        },
        Task4FeatureKind::TrendSlope => {
            reveal_strlit("trend_slope");
            11116112
        },
        Task4FeatureKind::TrendAcceleration => {
            reveal_strlit("trend_acceleration");
            18116101
        },
        Task4FeatureKind::MaximumDrawdown => {
            reveal_strlit("maximum_drawdown");
            16109114
        },
        Task4FeatureKind::MaximumRunUp => {
            reveal_strlit("maximum_run_up");
            14109117
        },
        Task4FeatureKind::UpsideSemivariance => {
            reveal_strlit("upside_semivariance");
            19117109
        },
        Task4FeatureKind::DownsideSemivariance => {
            reveal_strlit("downside_semivariance");
            21100115
        },
        Task4FeatureKind::ReturnAutocorrelation => {
            reveal_strlit("return_autocorrelation");
            22114116
        },
        Task4FeatureKind::VarianceRatio => {
            reveal_strlit("variance_ratio");
            14118114
        },
        Task4FeatureKind::RollingSkewness => {
            reveal_strlit("rolling_skewness");
            16114107
        },
        Task4FeatureKind::RollingExcessKurtosis => {
            reveal_strlit("rolling_excess_kurtosis");
            23114120
        },
        Task4FeatureKind::ReturnReversal => {
            reveal_strlit("return_reversal");
            15114118
        },
        Task4FeatureKind::FinalizedIntervalGap => {
            reveal_strlit("finalized_interval_gap");
            22102095
        },
        Task4FeatureKind::RealizedVariance => {
            reveal_strlit("realized_variance");
            17114118
        },
        Task4FeatureKind::RealizedVolatility => {
            reveal_strlit("realized_volatility");
            19114118
        },
        Task4FeatureKind::ExponentiallyWeightedVolatility => {
            reveal_strlit("exponentially_weighted_volatility");
            33101097
        },
        Task4FeatureKind::ParkinsonVolatility => {
            reveal_strlit("parkinson_volatility");
            20112095
        },
        Task4FeatureKind::GarmanKlassVolatility => {
            reveal_strlit("garman_klass_volatility");
            23103097
        },
        Task4FeatureKind::BipowerVariation => {
            reveal_strlit("bipower_variation");
            17098097
        },
        Task4FeatureKind::JumpVariation => {
            reveal_strlit("jump_variation");
            14106097
        },
        Task4FeatureKind::VolatilityOfVolatility => {
            reveal_strlit("volatility_of_volatility");
            24118121
        },
        Task4FeatureKind::VolatilityTermRatio => {
            reveal_strlit("volatility_term_ratio");
            21118121
        },
        Task4FeatureKind::SeasonalityAdjustedVolatility => {
            reveal_strlit("seasonality_adjusted_volatility");
            31115116
        },
        Task4FeatureKind::RealizedCovariance => {
            reveal_strlit("realized_covariance");
            19114099
        },
        Task4FeatureKind::RealizedCorrelation => {
            reveal_strlit("realized_correlation");
            20114099
        },
        Task4FeatureKind::VolatilityForecastResidual => {
            reveal_strlit("volatility_forecast_residual");
            28118121
        },
    }
}

/// Different features have different identifiers.
pub proof fn lemma_task_four_ids_are_distinct(a: Task4FeatureKind, b: Task4FeatureKind)
    requires
        a != b,
    ensures
        a.spec_id() != b.spec_id(),
{
    let left = lemma_id_mark(a);
    let right = lemma_id_mark(b);
    assert(left != right);
}

/// A number that tells the formulas of the catalogue apart.
spec fn formula_mark(text: Seq<char>) -> int {
    ((text.len() as int) * 1000 + text[6] as u32) * 1000 + text[text.len() - 3] as u32
}

proof fn lemma_formula_mark(kind: Task4FeatureKind) -> (mark: int)
    ensures
        formula_mark(kind.spec_formula()) == mark,
        mark == match kind {
            Task4FeatureKind::LogReturn => 21115045int,
            Task4FeatureKind::CumulativeReturn => 16116104int,
            Task4FeatureKind::HighLowRange => 14047104int,
            Task4FeatureKind::OpenCloseRange => 16104104int,
            Task4FeatureKind::RollingVwapDistance => 38114114int,
            Task4FeatureKind::AnchoredVwapDistance => 42117114int,
            Task4FeatureKind::ConsolidatedFairPriceDistance => 31099101int,
            Task4FeatureKind::TrendSlope => 26116111int,
            Task4FeatureKind::TrendAcceleration => 42116105int,
            Task4FeatureKind::MaximumDrawdown => 38117097int,
            Task4FeatureKind::MaximumRunUp => 42114103int,
            Task4FeatureKind::UpsideSemivariance => 28116062int,
            Task4FeatureKind::DownsideSemivariance => 28116060int,
            Task4FeatureKind::ReturnAutocorrelation => 34110103int,
            Task4FeatureKind::VarianceRatio => 58101110int,
            Task4FeatureKind::RollingSkewness => 44116049int,
            Task4FeatureKind::RollingExcessKurtosis => 45116050int,
            Task4FeatureKind::ReturnReversal => 43115048int,
            Task4FeatureKind::FinalizedIntervalGap => 41116101int,
            Task4FeatureKind::RealizedVariance => 29110094int,
            Task4FeatureKind::RealizedVolatility => 48117122int,
            Task4FeatureKind::ExponentiallyWeightedVolatility => 90105117int,
            Task4FeatureKind::ParkinsonVolatility => 37101041int,
            Task4FeatureKind::GarmanKlassVolatility => 126101101int,
            Task4FeatureKind::BipowerVariation => 29117116int,
            Task4FeatureKind::JumpVariation => 42097044int,
            Task4FeatureKind::VolatilityOfVolatility => 46045116int,
            Task4FeatureKind::VolatilityTermRatio => 70104047int,
            Task4FeatureKind::SeasonalityAdjustedVolatility => 84101117int,
            Task4FeatureKind::RealizedCovariance => 32105116int,
            Task4FeatureKind::RealizedCorrelation => 63105050int,
            Task4FeatureKind::VolatilityForecastResidual => 42101097int,
        },
{
    match kind {
        Task4FeatureKind::LogReturn => {
            reveal_strlit("ln(close_t/close_t-h)");
            21115045
        },
        Task4FeatureKind::CumulativeReturn => {
            reveal_strlit("close_t/open_h-1");
            16116104
        },
        Task4FeatureKind::HighLowRange => {
            reveal_strlit("high_h/low_h-1");
            14047104
        },
        Task4FeatureKind::OpenCloseRange => {
            reveal_strlit("close_h/open_h-1");
            16104104
        },
        Task4FeatureKind::RollingVwapDistance => {
            reveal_strlit("price/rolling-vwap-1;zero-size-ignored");
            38114114
        },
        Task4FeatureKind::AnchoredVwapDistance => {
            reveal_strlit("price/utc-session-vwap-1;zero-size-ignored");
            42117114
        },
        Task4FeatureKind::ConsolidatedFairPriceDistance => {
            reveal_strlit("price/consolidated-fair-price-1");
            31099101
        },
        Task4FeatureKind::TrendSlope => {
            reveal_strlit("event-time-ols-price-slope");
            26116111
        },
        Task4FeatureKind::TrendAcceleration => {
            reveal_strlit("event-time-ols-interval-slope-acceleration");
            42116105
        },
        Task4FeatureKind::MaximumDrawdown => {
            reveal_strlit("max((running-peak-price)/running-peak)");
            38117097
        },
        Task4FeatureKind::MaximumRunUp => {
            reveal_strlit("max((price-running-trough)/running-trough)");
            42114103
        },
        Task4FeatureKind::UpsideSemivariance => {
            reveal_strlit("sum(return^2 where return>0)");
            28116062
        },
        Task4FeatureKind::DownsideSemivariance => {
            reveal_strlit("sum(return^2 where return<0)");
            28116060
        },
        Task4FeatureKind::ReturnAutocorrelation => {
            reveal_strlit("pearson(return_t,return_t-1);lag=1");
            34110103
        },
        Task4FeatureKind::VarianceRatio => {
            reveal_strlit("var(overlapping-two-return-sums)/(2*var(return));horizon=2");
            58101110
        },
        Task4FeatureKind::RollingSkewness => {
            reveal_strlit("population-third-central-moment/variance^1.5");
            44116049
        },
        Task4FeatureKind::RollingExcessKurtosis => {
            reveal_strlit("population-fourth-central-moment/variance^2-3");
            45116050
        },
        Task4FeatureKind::ReturnReversal => {
            reveal_strlit("mean(-sign(r_t)*r_t+1 where abs(r_t)>=0.05)");
            43115048
        },
        Task4FeatureKind::FinalizedIntervalGap => {
            reveal_strlit("current-final-open/previous-final-close-1");
            41116101
        },
        Task4FeatureKind::RealizedVariance => {
            reveal_strlit("sum(consecutive-log-return^2)");
            29110094
        },
        Task4FeatureKind::RealizedVolatility => {
            reveal_strlit("sqrt(sum(consecutive-log-return^2));unannualized");
            48117122
        },
        Task4FeatureKind::ExponentiallyWeightedVolatility => {
            reveal_strlit("sqrt(time-aware-ewma-squared-return);half-life=5m;lookback=5m;initial=first-squared-return");
            90105117
        },
        Task4FeatureKind::ParkinsonVolatility => {
            reveal_strlit("sqrt(mean(log(high/low)^2)/(4*ln(2)))");
            37101041
        },
        Task4FeatureKind::GarmanKlassVolatility => {
            reveal_strlit("sqrt(mean(0.5*log(high/low)^2-(2*ln(2)-1)*log(close/open)^2));negative-mean-tolerance=f64-epsilon;clamp-small-negative-to-zero");
            126101101
        },
        Task4FeatureKind::BipowerVariation => {
            reveal_strlit("pi/2*sum(abs(r_t-1)*abs(r_t))");
            29117116
        },
        Task4FeatureKind::JumpVariation => {
            reveal_strlit("max(realized-variance-bipower-variation,0)");
            42097044
        },
        Task4FeatureKind::VolatilityOfVolatility => {
            reveal_strlit("sample-standard-deviation(realized-volatility)");
            46045116
        },
        Task4FeatureKind::VolatilityTermRatio => {
            reveal_strlit("short-horizon-volatility/long-horizon-volatility;pair=5m/15m-or-15m/1h");
            70104047
        },
        Task4FeatureKind::SeasonalityAdjustedVolatility => {
            reveal_strlit("realized-volatility/point-in-time-time-of-week-factor;bucket-anchor=monday-00:00-utc");
            84101117
        },
        Task4FeatureKind::RealizedCovariance => {
            reveal_strlit("sum(aligned-log-return-products)");
            32105116
        },
        Task4FeatureKind::RealizedCorrelation => {
            reveal_strlit("sum(aligned-log-return-products)/sqrt(sum(left^2)*sum(right^2))");
            63105050
        },
        Task4FeatureKind::VolatilityForecastResidual => {
            reveal_strlit("realized-volatility-point-in-time-forecast");
            42101097
        },
    }
}

/// Different features have different formulas.
pub proof fn lemma_task_four_formulas_are_distinct(a: Task4FeatureKind, b: Task4FeatureKind)
    requires
        a != b,
    ensures
        a.spec_formula() != b.spec_formula(),
{
    let left = lemma_formula_mark(a);
    let right = lemma_formula_mark(b);
    assert(left != right);
}

/// A value's window is one that its kind is registered with, of just the span that the value
/// covers. The one span that a kind without such a window is answered for is left out: a ratio of
/// horizons is never measured over five minutes.
pub proof fn lemma_output_windows_are_registered(kind: Task4FeatureKind, window: TimeWindow)
    requires
        kind.spec_output_window(window) is Ok,
        !(kind == Task4FeatureKind::VolatilityTermRatio && window.upper() - window.lower()
            == 300_000_000_000),
    ensures
        exists|i: int|
            #![trigger kind.spec_windows()[i]]
            {
                &&& 0 <= i < kind.spec_windows().len()
                &&& kind.spec_windows()[i].0 == kind.spec_output_window(window)->Ok_0
                &&& match kind.spec_windows()[i].2 {
                    WindowParameter::Time { extent, .. } => extent.nanos == window.upper()
                        - window.lower(),
                    WindowParameter::ExponentiallyWeighted { half_life } => half_life.nanos
                        == window.upper() - window.lower(),
                    WindowParameter::SessionAligned { extent, .. } => extent.nanos
                        == window.upper() - window.lower() && window.lower() as int
                        % 86_400_000_000_000 == 0,
                    _ => false,
                }
            },
{
    let windows = kind.spec_windows();
    let extent = window.upper() - window.lower();
    if kind == Task4FeatureKind::ExponentiallyWeightedVolatility || kind
        == Task4FeatureKind::AnchoredVwapDistance {
        assert(windows[0].0 == kind.spec_output_window(window)->Ok_0);
    } else if kind == Task4FeatureKind::VolatilityTermRatio {
        if extent == FIFTEEN_MINUTES {
            assert(windows[0].0 == "rolling_15m"@);
        } else {
            assert(windows[1].0 == "rolling_1h"@);
        }
    } else if extent == FIVE_MINUTES {
        assert(windows[0].0 == "rolling_5m"@);
    } else if extent == FIFTEEN_MINUTES {
        assert(windows[1].0 == "rolling_15m"@);
    } else {
        assert(windows[2].0 == "rolling_1h"@);
    }
}

/// Spans of five minutes, a quarter of an hour and an hour are answered for every kind that rolls.
pub proof fn lemma_rolling_kinds_cover_three_horizons(kind: Task4FeatureKind, window: TimeWindow)
    requires
        kind != Task4FeatureKind::ExponentiallyWeightedVolatility,
        kind != Task4FeatureKind::AnchoredVwapDistance,
    ensures
        ({
            let minutes = 60_000_000_000int;
            let extent = window.upper() - window.lower();
            &&& kind.spec_output_window(window) is Ok <==> extent == 5 * minutes || extent == 15
                * minutes || extent == 60 * minutes
            &&& extent == 5 * minutes ==> kind.spec_output_window(window)->Ok_0 == "rolling_5m"@
            &&& extent == 15 * minutes ==> kind.spec_output_window(window)->Ok_0 == "rolling_15m"@
            &&& extent == 60 * minutes ==> kind.spec_output_window(window)->Ok_0 == "rolling_1h"@
        }),
{
}

/// Every feature is a float under a minute's resolution, takes events up to five seconds late and
/// lives for a day. It takes only healthy and recovering sources, all of them, and quality from
/// nine tenths on. Only covariance and correlation describe pairs, and only realized volatility
/// is at its second version.
pub proof fn lemma_definitions_of_prices(kind: Task4FeatureKind, health: SourceHealthState)
    ensures
        ({
            let definition = kind.spec_definition();
            &&& definition.id == kind.spec_id()
            &&& definition.value_type == FeatureValueType::Float64
            &&& definition.output_resolution == 60 * 1_000_000_000
            &&& definition.allowed_lateness == 5 * 1_000_000_000
            &&& definition.time_to_live == 24 * 60 * definition.output_resolution
            &&& definition.minimum_quality * 10 == 9 * 1_000_000
            &&& definition.minimum_coverage == 1_000_000
            &&& definition.allowed_health.contains(health) <==> health
                == SourceHealthState::Healthy || health == SourceHealthState::Recovering
            &&& definition.entities == EntityScope::AssetPair <==> kind
                == Task4FeatureKind::RealizedCovariance || kind
                == Task4FeatureKind::RealizedCorrelation
            &&& definition.entities != EntityScope::AssetPair ==> definition.entities
                == EntityScope::Asset
            &&& definition.version.major == 2 <==> kind == Task4FeatureKind::RealizedVolatility
            &&& definition.version.major != 2 ==> definition.version.major == 1
            &&& definition.version.minor == 0 && definition.version.patch == 0
            &&& definition.normalization_version == definition.version
        }),
{
    let allowed = kind.spec_definition().allowed_health;
    assert(allowed[0] == SourceHealthState::Healthy && allowed[1]
        == SourceHealthState::Recovering);
}

} // verus!
