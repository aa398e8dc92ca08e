//! Point-in-time derivatives and leverage calculations.

use vstd::prelude::*;

use super::cross_venue::{finite_measure, measured};
use super::orderbook::nothing;
use super::{sum_of, ExactRatio, FeatureComputationError};
use crate::decimal::{
    lemma_exact_arithmetic, lemma_moderate_sums_exist, lemma_zero_units, FixedDecimal, Price,
};
use crate::digest::{is_zero_digest, zero_digest};
use crate::domain::{FeatureEntity, EntityView, FiniteF64, SourceId, UnixNanos};
use crate::event::{same_instrument_definition, EventPayload, InstrumentDefinition};
use crate::ordering::{digest_views, first_repeated_digest, lemma_repeats};
use crate::receipt::{
    Completeness, CompletenessReason, DerivativeNormalizationReceipt, DerivativeStream,
};
use crate::watermark::{
    decision_coverage, entity_fingerprint, sources_fingerprint, DecisionView, Finalization,
    FinalizationDecision, TrackerView, WatermarkTracker,
};

verus! {

pub const MAX_DERIVATIVE_WINDOW_OBSERVATIONS: usize = 100_000;

/// The receipt is sealed, of the expected stream, and about its own instrument.
pub open spec fn receipt_is_sound(
    receipt: DerivativeNormalizationReceipt,
    expected: DerivativeStream,
) -> bool {
    &&& receipt.stream == expected
    &&& receipt.connector_version@.len() > 0
    &&& receipt.catalog_digest@ != zero_digest()
    &&& receipt.definition_hash@ != zero_digest()
    &&& receipt.catalog_as_known_at.nanos <= receipt.event.metadata.normalization_timestamp.nanos
    &&& receipt.event.metadata.concerns(receipt.instrument_definition.id)
    &&& receipt.event.verified
}

fn validate_receipt_stream(
    receipt: &DerivativeNormalizationReceipt,
    expected: DerivativeStream,
) -> (result: Result<(), FeatureComputationError>)
    ensures
        result == if receipt_is_sound(*receipt, expected) {
            Ok::<(), FeatureComputationError>(())
        } else {
            Err(FeatureComputationError::UntrustedInput)
        },
{
    proof {
        reveal_strlit("");
    }
    if receipt.stream != expected || crate::registry::same_text(
        receipt.connector_version.as_str(),
        "",
    ) || is_zero_digest(&receipt.catalog_digest) || is_zero_digest(&receipt.definition_hash)
        || receipt.catalog_as_known_at.value()
        > receipt.event.metadata.normalization_timestamp.value()
        || !receipt.event.metadata.is_about(&receipt.instrument_definition.id)
        || !receipt.event.verified {
        proof {
            if receipt.connector_version@ =~= ""@ {
                assert(receipt.connector_version@.len() == 0);
            }
        }
        return Err(FeatureComputationError::UntrustedInput);
    }
    proof {
        if receipt.connector_version@.len() == 0 {
            assert(receipt.connector_version@ =~= ""@);
        }
    }
    Ok(())
}

/// Both receipts come from one connector under one catalog, and speak of one instrument.
pub open spec fn receipts_agree(
    previous: DerivativeNormalizationReceipt,
    current: DerivativeNormalizationReceipt,
) -> bool {
    &&& previous.connector_version@ == current.connector_version@
    &&& previous.completeness == current.completeness
    &&& previous.catalog_authority == current.catalog_authority
    &&& same_instrument_definition(previous.instrument_definition, current.instrument_definition)
    &&& previous.event.metadata.source@ == current.event.metadata.source@
}

/// Why two receipts are no pair, if they are none.
pub open spec fn pair_refusal(
    previous: DerivativeNormalizationReceipt,
    current: DerivativeNormalizationReceipt,
    expected: DerivativeStream,
) -> Option<FeatureComputationError> {
    if !receipt_is_sound(previous, expected) || !receipt_is_sound(current, expected) {
        Some(FeatureComputationError::UntrustedInput)
    } else if !receipts_agree(previous, current) {
        Some(FeatureComputationError::MixedEntity)
    } else {
        None
    }
}

fn validate_receipt_pair(
    previous: &DerivativeNormalizationReceipt,
    current: &DerivativeNormalizationReceipt,
    expected: DerivativeStream,
) -> (result: Result<(), FeatureComputationError>)
    ensures
        result == match pair_refusal(*previous, *current, expected) {
            Some(error) => Err::<(), FeatureComputationError>(error),
            None => Ok(()),
        },
{
    validate_receipt_stream(previous, expected)?;
    validate_receipt_stream(current, expected)?;
    if previous.connector_version != current.connector_version || previous.completeness
        != current.completeness || previous.catalog_authority != current.catalog_authority
        || !previous.instrument_definition.same(&current.instrument_definition)
        || !previous.event.metadata.source.same(&current.event.metadata.source) {
        return Err(FeatureComputationError::MixedEntity);
    }
    Ok(())
}

/// A dated future over spot, and the time until it expires.
#[derive(Clone, Copy, Debug, PartialEq, Eq, Structural)]
pub struct BasisTerms {
    pub prices: ExactRatio,
    pub seconds_to_expiry: i64,
}

/// The exact terms of an annualized basis, or why there are none.
pub open spec fn basis_terms(future: Price, spot: Price, seconds_to_expiry: i64) -> Result<
    BasisTerms,
    FeatureComputationError,
> {
    if seconds_to_expiry <= 0 {
        Err(FeatureComputationError::InvalidInput)
    } else {
        Ok(
            BasisTerms {
                prices: ExactRatio { numerator: future.amount(), denominator: spot.amount() },
                seconds_to_expiry,
            },
        )
    }
}

/// The exact terms of an annualized basis. An expired contract has none.
pub fn annualized_basis(future: Price, spot: Price, seconds_to_expiry: i64) -> (result: Result<
    BasisTerms,
    FeatureComputationError,
>)
    ensures
        result == if seconds_to_expiry <= 0 {
            Err::<BasisTerms, FeatureComputationError>(FeatureComputationError::InvalidInput)
        } else {
            Ok(
                (BasisTerms {
                    prices: ExactRatio { numerator: future.amount(), denominator: spot.amount() },
                    seconds_to_expiry,
                }),
            )
        },
        result is Ok ==> result->Ok_0.prices.numerator.units() > 0
            && result->Ok_0.prices.denominator.units() > 0,
        result == basis_terms(future, spot, seconds_to_expiry),
{
    if seconds_to_expiry <= 0 {
        return Err(FeatureComputationError::InvalidInput);
    }
    Ok(
        BasisTerms {
            prices: ExactRatio { numerator: future.value(), denominator: spot.value() },
            seconds_to_expiry,
        },
    )
}

/// The mark and index prices of a receipt, or why it has none.
pub open spec fn mark_index_terms(receipt: DerivativeNormalizationReceipt) -> Result<
    ExactRatio,
    FeatureComputationError,
> {
    if !receipt_is_sound(receipt, DerivativeStream::MarkIndex) {
        Err(FeatureComputationError::UntrustedInput)
    } else {
        match receipt.event.payload {
            EventPayload::MarkIndexObservation { mark_price, index_price, .. } => if
                index_price.units() <= 0 {
                Err(FeatureComputationError::ZeroDenominator)
            } else {
                Ok(
                    ExactRatio {
                        numerator: mark_price.amount(),
                        denominator: index_price.amount(),
                    },
                )
            },
            _ => Err(FeatureComputationError::UntrustedInput),
        }
    }
}

/// The mark and index prices, whose relative divergence is reported.
pub fn mark_index_divergence(receipt: &DerivativeNormalizationReceipt) -> (result: Result<
    ExactRatio,
    FeatureComputationError,
>)
    ensures
        result == mark_index_terms(*receipt),
{
    validate_receipt_stream(receipt, DerivativeStream::MarkIndex)?;
    match &receipt.event.payload {
        EventPayload::MarkIndexObservation { mark_price, index_price, .. } => {
            if !index_price.value().is_positive() {
                return Err(FeatureComputationError::ZeroDenominator);
            }
            Ok(ExactRatio { numerator: mark_price.value(), denominator: index_price.value() })
        },
        _ => Err(FeatureComputationError::UntrustedInput),
    }
}

/// A funding rate that is not settled yet.
#[derive(Clone, Copy, Debug, PartialEq, Eq, Structural)]
pub struct PredictedFundingRate {
    pub rate: FixedDecimal,
    pub observed_at: UnixNanos,
    pub next_funding_time: UnixNanos,
}

impl PredictedFundingRate {
    pub fn rate(self) -> (rate: FixedDecimal)
        ensures
            rate == self.rate,
    {
        self.rate
    }

    pub fn observed_at(self) -> (time: UnixNanos)
        ensures
            time == self.observed_at,
    {
        self.observed_at
    }

    pub fn next_funding_time(self) -> (time: UnixNanos)
        ensures
            time == self.next_funding_time,
    {
        self.next_funding_time
    }
}

/// The predicted funding rate of a receipt, or why it has none.
pub open spec fn predicted_funding(receipt: DerivativeNormalizationReceipt) -> Result<
    PredictedFundingRate,
    FeatureComputationError,
> {
    if !receipt_is_sound(receipt, DerivativeStream::Funding) {
        Err(FeatureComputationError::UntrustedInput)
    } else {
        match receipt.event.payload {
            EventPayload::FundingObservation { funding_rate, observed_at, next_funding_time } => {
                match next_funding_time {
                    None => Err(FeatureComputationError::SourceNotSupported),
                    Some(next_funding_time) => Ok(
                        PredictedFundingRate { rate: funding_rate, observed_at, next_funding_time },
                    ),
                }
            },
            _ => Err(FeatureComputationError::UntrustedInput),
        }
    }
}

pub fn predicted_funding_rate(receipt: &DerivativeNormalizationReceipt) -> (result: Result<
    PredictedFundingRate,
    FeatureComputationError,
>)
    ensures
        result == predicted_funding(*receipt),
{
    validate_receipt_stream(receipt, DerivativeStream::Funding)?;
    match &receipt.event.payload {
        EventPayload::FundingObservation { funding_rate, observed_at, next_funding_time } => {
            match next_funding_time {
                None => Err(FeatureComputationError::SourceNotSupported),
                Some(next_funding_time) => Ok(
                    PredictedFundingRate {
                        rate: *funding_rate,
                        observed_at: *observed_at,
                        next_funding_time: *next_funding_time,
                    },
                ),
            }
        },
        _ => Err(FeatureComputationError::UntrustedInput),
    }
}

/// The rate and time of a funding payload.
pub open spec fn funding_of(payload: EventPayload) -> Option<(FixedDecimal, UnixNanos)> {
    match payload {
        EventPayload::FundingObservation { funding_rate, observed_at, .. } => Some(
            (funding_rate, observed_at),
        ),
        _ => None,
    }
}

fn read_funding(payload: &EventPayload) -> (funding: Option<(FixedDecimal, UnixNanos)>)
    ensures
        funding == funding_of(*payload),
{
    match payload {
        EventPayload::FundingObservation { funding_rate, observed_at, .. } => Some(
            (*funding_rate, *observed_at),
        ),
        _ => None,
    }
}

/// The change of the funding rate between two receipts, or why there is none.
pub open spec fn funding_difference(
    previous: DerivativeNormalizationReceipt,
    current: DerivativeNormalizationReceipt,
) -> Result<FixedDecimal, FeatureComputationError> {
    match pair_refusal(previous, current, DerivativeStream::Funding) {
        Some(error) => Err(error),
        None => match (funding_of(previous.event.payload), funding_of(current.event.payload)) {
            (Some((before, earlier)), Some((after, later))) => if later.nanos <= earlier.nanos {
                Err(FeatureComputationError::NonMonotonicTime)
            } else {
                match after.minus(before) {
                    None => Err(FeatureComputationError::CapacityExceeded),
                    Some(change) => Ok(change),
                }
            },
            _ => Err(FeatureComputationError::UntrustedInput),
        },
    }
}

pub fn funding_change(
    previous: &DerivativeNormalizationReceipt,
    current: &DerivativeNormalizationReceipt,
) -> (result: Result<FixedDecimal, FeatureComputationError>)
    ensures
        result == funding_difference(*previous, *current),
{
    validate_receipt_pair(previous, current, DerivativeStream::Funding)?;
    match (read_funding(&previous.event.payload), read_funding(&current.event.payload)) {
        (Some((before, earlier)), Some((after, later))) => {
            if later.value() <= earlier.value() {
                return Err(FeatureComputationError::NonMonotonicTime);
            }
            match after.checked_sub(before) {
                Ok(change) => Ok(change),
                Err(_) => Err(FeatureComputationError::CapacityExceeded),
            }
        },
        _ => Err(FeatureComputationError::UntrustedInput),
    }
}

/// The quantity, quote notional and time of an open-interest payload.
pub open spec fn open_interest_of(payload: EventPayload) -> Option<
    (FixedDecimal, Option<FixedDecimal>, UnixNanos),
> {
    match payload {
        EventPayload::OpenInterestObservation { quantity, quote_notional, observed_at } => Some(
            (quantity.amount(), quote_notional, observed_at),
        ),
        _ => None,
    }
}

pub(crate) fn read_open_interest(payload: &EventPayload) -> (open_interest: Option<
    (FixedDecimal, Option<FixedDecimal>, UnixNanos),
>)
    ensures
        open_interest == open_interest_of(*payload),
{
    match payload {
        EventPayload::OpenInterestObservation { quantity, quote_notional, observed_at } => Some(
            (quantity.value(), *quote_notional, *observed_at),
        ),
        _ => None,
    }
}

/// The exact terms of a change of open interest.
#[derive(Clone, Copy, Debug, PartialEq, Eq, Structural)]
pub struct OpenInterestTerms {
    pub native_change: FixedDecimal,
    pub current_quote_notional: Option<FixedDecimal>,
    /// The current quantity over the previous one.
    pub growth: ExactRatio,
}

/// The change of open interest between two receipts, or why there is none.
pub open spec fn open_interest_terms(
    previous: DerivativeNormalizationReceipt,
    current: DerivativeNormalizationReceipt,
    instrument: InstrumentDefinition,
) -> Result<OpenInterestTerms, FeatureComputationError> {
    match pair_refusal(previous, current, DerivativeStream::OpenInterest) {
        Some(error) => Err(error),
        None => if !same_instrument_definition(previous.instrument_definition, instrument) {
            Err(FeatureComputationError::UntrustedInput)
        } else {
            match (
                open_interest_of(previous.event.payload),
                open_interest_of(current.event.payload),
            ) {
                (Some((before, _, earlier)), Some((after, current_quote_notional, later))) => if
                    later.nanos <= earlier.nanos {
                    Err(FeatureComputationError::NonMonotonicTime)
                } else if before.units() == 0 {
                    Err(FeatureComputationError::ZeroDenominator)
                } else {
                    match after.minus(before) {
                        None => Err(FeatureComputationError::CapacityExceeded),
                        Some(native_change) => Ok(
                            OpenInterestTerms {
                                native_change,
                                current_quote_notional,
                                growth: ExactRatio { numerator: after, denominator: before },
                            },
                        ),
                    }
                },
                _ => Err(FeatureComputationError::UntrustedInput),
            }
        },
    }
}

/// The exact terms of a change of open interest.
pub fn open_interest_change(
    previous: &DerivativeNormalizationReceipt,
    current: &DerivativeNormalizationReceipt,
    instrument: &InstrumentDefinition,
) -> (result: Result<OpenInterestTerms, FeatureComputationError>)
    ensures
        result == open_interest_terms(*previous, *current, *instrument),
{
    validate_receipt_pair(previous, current, DerivativeStream::OpenInterest)?;
    if !previous.instrument_definition.same(instrument) || !current.instrument_definition.same(
        instrument,
    ) {
        return Err(FeatureComputationError::UntrustedInput);
    }
    match (
        read_open_interest(&previous.event.payload),
        read_open_interest(&current.event.payload),
    ) {
        (Some((before, _, earlier)), Some((after, current_quote_notional, later))) => {
            if later.value() <= earlier.value() {
                return Err(FeatureComputationError::NonMonotonicTime);
            }
            if before.is_zero() {
                return Err(FeatureComputationError::ZeroDenominator);
            }
            match after.checked_sub(before) {
                Ok(native_change) => Ok(
                    OpenInterestTerms {
                        native_change,
                        current_quote_notional,
                        growth: ExactRatio { numerator: after, denominator: before },
                    },
                ),
                Err(_) => Err(FeatureComputationError::CapacityExceeded),
            }
        },
        _ => Err(FeatureComputationError::UntrustedInput),
    }
}

/// A change of open interest.
#[derive(Clone, Copy, Debug, PartialEq, Eq, Structural)]
pub struct OpenInterestChange {
    pub native_change: FixedDecimal,
    pub current_quote_notional: Option<FixedDecimal>,
    pub relative_change: FiniteF64,
}

impl OpenInterestChange {
    /// The change with its relative size as measured, where that is finite.
    pub fn from_terms(terms: OpenInterestTerms, relative_bits: u64) -> (result: Result<
        Self,
        FeatureComputationError,
    >)
        ensures
            result == match finite_measure(relative_bits) {
                Err(error) => Err::<Self, FeatureComputationError>(error),
                Ok(relative_change) => Ok(
                    (OpenInterestChange {
                        native_change: terms.native_change,
                        current_quote_notional: terms.current_quote_notional,
                        relative_change,
                    }),
                ),
            },
    {
        let relative_change = measured(relative_bits)?;
        Ok(
            OpenInterestChange {
                native_change: terms.native_change,
                current_quote_notional: terms.current_quote_notional,
                relative_change,
            },
        )
    }

    pub fn native_change(self) -> (change: FixedDecimal)
        ensures
            change == self.native_change,
    {
        self.native_change
    }

    pub fn current_quote_notional(self) -> (notional: Option<FixedDecimal>)
        ensures
            notional == self.current_quote_notional,
    {
        self.current_quote_notional
    }

    pub fn relative_change(self) -> (change: FiniteF64)
        ensures
            change == self.relative_change,
    {
        self.relative_change
    }
}

/// How much of the liquidations a window shows.
#[derive(Clone, Copy, Debug, PartialEq, Eq, Structural)]
pub enum LiquidationCoverage {
    Complete,
    VenueReportedCompleteWithDeliveryUncertainty,
    VenueReportedAll { push_cadence_ms: u32, delivery_uncertainty: bool },
    SampledLargestPerSymbolWindow { window_ms: u32 },
    Partial { reason: CompletenessReason },
}

impl LiquidationCoverage {
    /// Nothing is missing.
    pub open spec fn complete(self) -> bool {
        match self {
            LiquidationCoverage::Complete => true,
            LiquidationCoverage::VenueReportedAll { delivery_uncertainty, .. } =>
                !delivery_uncertainty,
            _ => false,
        }
    }

    pub fn is_complete(self) -> (answer: bool)
        ensures
            answer == self.complete(),
    {
        match self {
            LiquidationCoverage::Complete => true,
            LiquidationCoverage::VenueReportedAll { delivery_uncertainty, .. } =>
                !delivery_uncertainty,
            _ => false,
        }
    }

    pub fn is_sampled(self) -> (answer: bool)
        ensures
            answer == (self is SampledLargestPerSymbolWindow),
    {
        match self {
            LiquidationCoverage::SampledLargestPerSymbolWindow { .. } => true,
            _ => false,
        }
    }

    pub fn sampling_window_ms(self) -> (window: Option<u32>)
        ensures
            window == match self {
                LiquidationCoverage::SampledLargestPerSymbolWindow { window_ms } => Some(window_ms),
                _ => None,
            },
    {
        match self {
            LiquidationCoverage::SampledLargestPerSymbolWindow { window_ms } => Some(window_ms),
            _ => None,
        }
    }

    /// What a connector's completeness means for liquidations.
    pub open spec fn of_completeness(value: Completeness) -> Result<Self, FeatureComputationError> {
        match value {
            Completeness::NotSupported => Err(FeatureComputationError::SourceNotSupported),
            Completeness::VenueReportedComplete { delivery_uncertainty } => if delivery_uncertainty {
                Ok(LiquidationCoverage::VenueReportedCompleteWithDeliveryUncertainty)
            } else {
                Ok(LiquidationCoverage::Complete)
            },
            Completeness::VenueReportedAll { push_cadence_ms, delivery_uncertainty } => Ok(
                LiquidationCoverage::VenueReportedAll { push_cadence_ms, delivery_uncertainty },
            ),
            Completeness::SampledLargestPerSymbolWindow { window_ms } => Ok(
                LiquidationCoverage::SampledLargestPerSymbolWindow { window_ms },
            ),
            Completeness::Partial { reason } => Ok(LiquidationCoverage::Partial { reason }),
        }
    }

    fn from_connector(value: Completeness) -> (result: Result<Self, FeatureComputationError>)
        ensures
            result == Self::of_completeness(value),
    {
        match value {
            Completeness::NotSupported => Err(FeatureComputationError::SourceNotSupported),
            Completeness::VenueReportedComplete { delivery_uncertainty } => if delivery_uncertainty {
                Ok(LiquidationCoverage::VenueReportedCompleteWithDeliveryUncertainty)
            } else {
                Ok(LiquidationCoverage::Complete)
            },
            Completeness::VenueReportedAll { push_cadence_ms, delivery_uncertainty } => Ok(
                LiquidationCoverage::VenueReportedAll { push_cadence_ms, delivery_uncertainty },
            ),
            Completeness::SampledLargestPerSymbolWindow { window_ms } => Ok(
                LiquidationCoverage::SampledLargestPerSymbolWindow { window_ms },
            ),
            Completeness::Partial { reason } => Ok(LiquidationCoverage::Partial { reason }),
        }
    }

    /// A partial record leaves a gap in what was complete.
    pub open spec fn downgraded(self) -> Self {
        if self.complete() {
            LiquidationCoverage::Partial { reason: CompletenessReason::HistoricalGap }
        } else {
            self
        }
    }

    fn downgrade_for_partial_record(self) -> (coverage: Self)
        ensures
            coverage == self.downgraded(),
    {
        if self.is_complete() {
            LiquidationCoverage::Partial { reason: CompletenessReason::HistoricalGap }
        } else {
            self
        }
    }
}

#[derive(Clone, Copy, Debug, PartialEq, Eq, Structural)]
pub enum LiquidationNotionalInterpretation {
    CompleteObservedFlow,
    ObservedLowerBound,
}

/// What the liquidations of a window add up to, and over what time.
#[derive(Clone, Copy, Debug, PartialEq, Eq, Structural)]
pub struct LiquidationTerms {
    pub observed_count: usize,
    pub observed_quote_notional: FixedDecimal,
    pub duration_ns: i64,
    pub coverage: LiquidationCoverage,
}

/// The event identities of receipts.
pub open spec fn receipt_ids(receipts: Seq<DerivativeNormalizationReceipt>) -> Seq<Seq<u8>> {
    Seq::new(receipts.len(), |i: int| receipts[i].event.id@)
}

/// Why a liquidation receipt does not belong with the first of its window, if it does not.
pub open spec fn liquidation_step_refusal(
    receipts: Seq<DerivativeNormalizationReceipt>,
    i: int,
    instrument: InstrumentDefinition,
    decision: DecisionView,
) -> Option<FeatureComputationError> {
    let receipt = receipts[i];
    let first = receipts[0];
    let metadata = receipt.event.metadata;
    if receipt.stream != DerivativeStream::Liquidation || receipt.completeness
        != first.completeness || receipt.connector_version@ != first.connector_version@
        || receipt.catalog_authority != first.catalog_authority {
        Some(FeatureComputationError::UntrustedInput)
    } else if !receipt.event.verified {
        Some(FeatureComputationError::UntrustedInput)
    } else if receipt_ids(receipts).take(i).contains(receipt.event.id@) {
        Some(FeatureComputationError::DuplicateLineage)
    } else if !(receipt.event.payload is LiquidationObservation) {
        Some(FeatureComputationError::InvalidInput)
    } else if !same_instrument_definition(receipt.instrument_definition, instrument)
        || !metadata.concerns(instrument.id) || metadata.source@ != first.event.metadata.source@ {
        Some(FeatureComputationError::MixedEntity)
    } else {
        match metadata.event_time_of() {
            None => Some(FeatureComputationError::InvalidInput),
            Some(time) => if time.nanos < decision.window.lower() || time.nanos
                >= decision.window.upper() {
                Some(FeatureComputationError::OutsideWindow)
            } else if liquidation_notional(receipt) is None {
                Some(FeatureComputationError::InvalidInput)
            } else {
                None
            },
        }
    }
}

/// The quote notional of a liquidation.
pub open spec fn liquidation_notional(receipt: DerivativeNormalizationReceipt) -> Option<
    FixedDecimal,
> {
    match receipt.event.payload {
        EventPayload::LiquidationObservation { quote_notional, .. } => quote_notional,
        _ => None,
    }
}

/// The event reports only a part.
pub open spec fn is_partial(receipt: DerivativeNormalizationReceipt) -> bool {
    receipt.event.metadata.quality_flags % 2 == 1
}

/// The coverage and notional of the receipts from an index on, or the first failure.
pub open spec fn liquidations_from(
    receipts: Seq<DerivativeNormalizationReceipt>,
    i: int,
    instrument: InstrumentDefinition,
    decision: DecisionView,
    coverage: LiquidationCoverage,
    notional: FixedDecimal,
) -> Result<(LiquidationCoverage, FixedDecimal), FeatureComputationError>
    decreases receipts.len() - i,
{
    if i >= receipts.len() {
        Ok((coverage, notional))
    } else {
        match liquidation_step_refusal(receipts, i, instrument, decision) {
            Some(error) => Err(error),
            None => match notional.plus(liquidation_notional(receipts[i])->Some_0) {
                None => Err(FeatureComputationError::CapacityExceeded),
                Some(total) => liquidations_from(
                    receipts,
                    i + 1,
                    instrument,
                    decision,
                    if is_partial(receipts[i]) {
                        coverage.downgraded()
                    } else {
                        coverage
                    },
                    total,
                ),
            },
        }
    }
}

/// The decision is final for the instrument and its one source, and still current.
pub open spec fn liquidation_authority(
    receipts: Seq<DerivativeNormalizationReceipt>,
    instrument: InstrumentDefinition,
    tracker: TrackerView,
    decision: DecisionView,
) -> bool {
    &&& decision.state == Finalization::Final
    &&& decision.entity == Some(entity_fingerprint(EntityView::Instrument(instrument.id@)))
    &&& decision_coverage(tracker, decision) is Some
    &&& decision.required_count == 1
    &&& decision.required_digest == sources_fingerprint(seq![receipts[0].event.metadata.source@])
}

/// The liquidations of a window, or why they cannot be told.
pub open spec fn liquidation_terms(
    receipts: Seq<DerivativeNormalizationReceipt>,
    instrument: InstrumentDefinition,
    tracker: TrackerView,
    decision: DecisionView,
) -> Result<LiquidationTerms, FeatureComputationError> {
    let duration = decision.window.upper() - decision.window.lower();
    if receipts.len() == 0 {
        Err(FeatureComputationError::InsufficientHistory)
    } else if receipts.len() > MAX_DERIVATIVE_WINDOW_OBSERVATIONS {
        Err(FeatureComputationError::CapacityExceeded)
    } else if !liquidation_authority(receipts, instrument, tracker, decision) {
        Err(FeatureComputationError::UntrustedInput)
    } else if duration <= 0 || duration > i64::MAX {
        Err(FeatureComputationError::InvalidInput)
    } else {
        match LiquidationCoverage::of_completeness(receipts[0].completeness) {
            Err(error) => Err(error),
            Ok(first_coverage) => match liquidations_from(
                receipts,
                0,
                instrument,
                decision,
                first_coverage,
                nothing(),
            ) {
                Err(error) => Err(error),
                Ok((coverage, observed_quote_notional)) => if coverage.complete() {
                    Err(FeatureComputationError::UntrustedInput)
                } else {
                    Ok(
                        LiquidationTerms {
                            observed_count: receipts.len() as usize,
                            observed_quote_notional,
                            duration_ns: duration as i64,
                            coverage,
                        },
                    )
                },
            },
        }
    }
}

/// What is reported of liquidations is never a claim to completeness.
pub proof fn lemma_liquidations_are_lower_bounds(
    receipts: Seq<DerivativeNormalizationReceipt>,
    instrument: InstrumentDefinition,
    tracker: TrackerView,
    decision: DecisionView,
)
    requires
        liquidation_terms(receipts, instrument, tracker, decision) is Ok,
    ensures
        !liquidation_terms(receipts, instrument, tracker, decision)->Ok_0.coverage.complete(),
        liquidation_terms(receipts, instrument, tracker, decision)->Ok_0.observed_count
            == receipts.len(),
        liquidation_terms(receipts, instrument, tracker, decision)->Ok_0.duration_ns > 0,
{
}

fn check_liquidation(
    receipts: &Vec<DerivativeNormalizationReceipt>,
    i: usize,
    repeated: Option<usize>,
    instrument: &InstrumentDefinition,
    decision: FinalizationDecision,
) -> (result: Result<FixedDecimal, FeatureComputationError>)
    requires
        i < receipts@.len(),
        receipt_ids(receipts@).take(i as int).contains(receipts@[i as int].event.id@) == (repeated
            is Some && repeated->Some_0 == i),
    ensures
        match liquidation_step_refusal(receipts@, i as int, *instrument, decision@) {
            Some(error) => result is Err && result->Err_0 == error,
            None => result is Ok && liquidation_notional(receipts@[i as int]) == Some(
                result->Ok_0,
            ),
        },
{
    let receipt = &receipts[i];
    let first = &receipts[0];
    let again: bool = match repeated {
        None => false,
        Some(place) => place == i,
    };
    if receipt.stream != DerivativeStream::Liquidation || receipt.completeness
        != first.completeness || receipt.connector_version != first.connector_version
        || receipt.catalog_authority != first.catalog_authority {
        return Err(FeatureComputationError::UntrustedInput);
    }
    if !receipt.event.verified {
        return Err(FeatureComputationError::UntrustedInput);
    }
    if again {
        return Err(FeatureComputationError::DuplicateLineage);
    }
    let quote_notional = match &receipt.event.payload {
        EventPayload::LiquidationObservation { quote_notional, .. } => *quote_notional,
        _ => {
            return Err(FeatureComputationError::InvalidInput);
        },
    };
    let metadata = &receipt.event.metadata;
    if !receipt.instrument_definition.same(instrument) || !metadata.is_about(&instrument.id)
        || !metadata.source.same(&first.event.metadata.source) {
        return Err(FeatureComputationError::MixedEntity);
    }
    let time = match metadata.event_time() {
        None => {
            return Err(FeatureComputationError::InvalidInput);
        },
        Some(time) => time,
    };
    let window = decision.window();
    if time.value() < window.start().value() || time.value() >= window.end().value() {
        return Err(FeatureComputationError::OutsideWindow);
    }
    match quote_notional {
        None => Err(FeatureComputationError::InvalidInput),
        Some(notional) => Ok(notional),
    }
}

pub(crate) fn receipt_digests(receipts: &Vec<DerivativeNormalizationReceipt>) -> (ids: Vec<
    [u8; 32],
>)
    ensures
        digest_views(ids@) == receipt_ids(receipts@),
{
    let mut ids: Vec<[u8; 32]> = Vec::new();
    let mut n: usize = 0;
    while n < receipts.len()
        invariant
            n <= receipts@.len(),
            ids@.len() == n,
            forall|k: int| 0 <= k < n ==> (#[trigger] ids@[k])@ == receipts@[k].event.id@,
        decreases receipts.len() - n,
    {
        ids.push(receipts[n].event.id);
        n += 1;
    }
    proof {
        assert(digest_views(ids@) =~= receipt_ids(receipts@));
    }
    ids
}

/// The exact terms of a window's liquidations.
pub fn liquidation_velocity(
    receipts: &Vec<DerivativeNormalizationReceipt>,
    instrument: &InstrumentDefinition,
    tracker: &WatermarkTracker,
    decision: FinalizationDecision,
) -> (result: Result<LiquidationTerms, FeatureComputationError>)
    ensures
        result == liquidation_terms(receipts@, *instrument, tracker@, decision@),
{
    if receipts.len() == 0 {
        return Err(FeatureComputationError::InsufficientHistory);
    }
    if receipts.len() > MAX_DERIVATIVE_WINDOW_OBSERVATIONS {
        return Err(FeatureComputationError::CapacityExceeded);
    }
    let window = decision.window();
    let entity = FeatureEntity::Instrument(instrument.id.clone());
    if decision.state() != Finalization::Final || !decision.matches_entity(&entity)
        || tracker.coverage_for_decision(decision).is_none() {
        return Err(FeatureComputationError::UntrustedInput);
    }
    let mut required: Vec<SourceId> = Vec::new();
    required.push(receipts[0].event.metadata.source.clone());
    proof {
        assert(crate::domain::source_views(required@) =~= seq![
            receipts@[0].event.metadata.source@,
        ]);
    }
    if !decision.matches_required_sources(&required) {
        return Err(FeatureComputationError::UntrustedInput);
    }
    let duration_ns: i64 = match window.end().value().checked_sub(window.start().value()) {
        None => {
            return Err(FeatureComputationError::InvalidInput);
        },
        Some(duration) => duration,
    };
    if duration_ns <= 0 {
        return Err(FeatureComputationError::InvalidInput);
    }
    let mut coverage = LiquidationCoverage::from_connector(receipts[0].completeness)?;
    let ghost first_coverage = coverage;
    let mut total = FixedDecimal::zero();
    let ghost names = receipt_ids(receipts@);
    let ids = receipt_digests(receipts);
    let repeated: Option<usize> = first_repeated_digest(&ids);
    let mut i: usize = 0;
    proof {
        if let Some(place) = repeated {
            assert(names[place as int] == ids@[place as int]@);
        }
    }
    while i < receipts.len()
        invariant
            0 < receipts@.len() <= MAX_DERIVATIVE_WINDOW_OBSERVATIONS,
            i <= receipts@.len(),
            names == receipt_ids(receipts@),
            match repeated {
                None => names.no_duplicates(),
                Some(place) => i <= place < names.len() && names.take(place as int).no_duplicates()
                    && names.take(place as int).contains(names[place as int]),
            },
            liquidation_authority(receipts@, *instrument, tracker@, decision@),
            duration_ns == decision@.window.upper() - decision@.window.lower(),
            duration_ns > 0,
            LiquidationCoverage::of_completeness(receipts@[0].completeness) == Ok::<
                LiquidationCoverage,
                FeatureComputationError,
            >(first_coverage),
            liquidations_from(
                receipts@,
                0,
                *instrument,
                decision@,
                first_coverage,
                nothing(),
            ) == liquidations_from(
                receipts@,
                i as int,
                *instrument,
                decision@,
                coverage,
                total,
            ),
        decreases receipts.len() - i,
    {
        proof {
            lemma_repeats(names, repeated, i as int);
        }
        let notional = check_liquidation(receipts, i, repeated, instrument, decision)?;
        match total.checked_add(notional) {
            Ok(sum) => {
                total = sum;
            },
            Err(_) => {
                return Err(FeatureComputationError::CapacityExceeded);
            },
        }
        if receipts[i].event.metadata.quality_flags % 2 == 1 {
            coverage = coverage.downgrade_for_partial_record();
        }
        i += 1;
    }
    if coverage.is_complete() {
        return Err(FeatureComputationError::UntrustedInput);
    }
    Ok(
        LiquidationTerms {
            observed_count: receipts.len(),
            observed_quote_notional: total,
            duration_ns,
            coverage,
        },
    )
}

/// The liquidations of a window with their rate.
#[derive(Clone, Copy, Debug, PartialEq, Eq, Structural)]
pub struct LiquidationVelocity {
    pub observed_count: usize,
    pub observed_quote_notional: FixedDecimal,
    pub observed_count_per_second: FiniteF64,
    pub coverage: LiquidationCoverage,
    pub notional_interpretation: LiquidationNotionalInterpretation,
}

impl LiquidationVelocity {
    /// The liquidations with the rate as measured, where that is finite.
    pub fn from_terms(terms: LiquidationTerms, rate_bits: u64) -> (result: Result<
        Self,
        FeatureComputationError,
    >)
        ensures
            result == match finite_measure(rate_bits) {
                Err(error) => Err::<Self, FeatureComputationError>(error),
                Ok(observed_count_per_second) => Ok(
                    (LiquidationVelocity {
                        observed_count: terms.observed_count,
                        observed_quote_notional: terms.observed_quote_notional,
                        observed_count_per_second,
                        coverage: terms.coverage,
                        notional_interpretation:
                            LiquidationNotionalInterpretation::ObservedLowerBound,
                    }),
                ),
            },
    {
        let observed_count_per_second = measured(rate_bits)?;
        Ok(
            LiquidationVelocity {
                observed_count: terms.observed_count,
                observed_quote_notional: terms.observed_quote_notional,
                observed_count_per_second,
                coverage: terms.coverage,
                notional_interpretation: LiquidationNotionalInterpretation::ObservedLowerBound,
            },
        )
    }

    pub fn observed_count(self) -> (count: usize)
        ensures
            count == self.observed_count,
    {
        self.observed_count
    }

    pub fn observed_quote_notional(self) -> (notional: FixedDecimal)
        ensures
            notional == self.observed_quote_notional,
    {
        self.observed_quote_notional
    }

    pub fn observed_count_per_second(self) -> (rate: FiniteF64)
        ensures
            rate == self.observed_count_per_second,
    {
        self.observed_count_per_second
    }

    pub fn coverage(self) -> (coverage: LiquidationCoverage)
        ensures
            coverage == self.coverage,
    {
        self.coverage
    }

    pub fn notional_interpretation(self) -> (interpretation: LiquidationNotionalInterpretation)
        ensures
            interpretation == self.notional_interpretation,
    {
        self.notional_interpretation
    }
}

/// A basis is that of a future that has not expired over its spot: above one where the future
/// stands above spot, and below one where it stands below.
pub proof fn lemma_bases_compare_the_future_with_spot(
    future: Price,
    spot: Price,
    seconds_to_expiry: i64,
)
    ensures
        basis_terms(future, spot, seconds_to_expiry) is Ok <==> seconds_to_expiry > 0,
        basis_terms(future, spot, seconds_to_expiry) is Err ==> basis_terms(
            future,
            spot,
            seconds_to_expiry,
        )->Err_0 == FeatureComputationError::InvalidInput,
        basis_terms(future, spot, seconds_to_expiry) is Ok ==> {
            let terms = basis_terms(future, spot, seconds_to_expiry)->Ok_0;
            &&& terms.prices.numerator.units() - terms.prices.denominator.units()
                == future.units() - spot.units()
            &&& terms.prices.denominator.units() == spot.units()
            &&& terms.seconds_to_expiry == seconds_to_expiry
        },
{
}

/// A divergence is that of the mark over the index of one sound receipt: positive where the mark
/// stands above the index.
pub proof fn lemma_divergences_compare_the_mark_with_the_index(
    receipt: DerivativeNormalizationReceipt,
)
    requires
        mark_index_terms(receipt) is Ok,
    ensures
        receipt.stream == DerivativeStream::MarkIndex,
        receipt.event.verified,
        receipt.event.metadata.concerns(receipt.instrument_definition.id),
        match receipt.event.payload {
            EventPayload::MarkIndexObservation { mark_price, index_price, .. } => {
                let terms = mark_index_terms(receipt)->Ok_0;
                &&& terms.numerator.units() - terms.denominator.units() == mark_price.units()
                    - index_price.units()
                &&& terms.denominator.units() == index_price.units()
                &&& index_price.units() > 0
            },
            _ => false,
        },
{
}

/// The change of a funding rate brings the previous rate to the current one: it is negative just
/// where the rate fell, and only a later observation has changed from an earlier one.
pub proof fn lemma_funding_changes_lead_to_the_current_rate(
    previous: DerivativeNormalizationReceipt,
    current: DerivativeNormalizationReceipt,
)
    requires
        funding_difference(previous, current) is Ok,
    ensures
        match (previous.event.payload, current.event.payload) {
            (
                EventPayload::FundingObservation {
                    funding_rate: before,
                    observed_at: earlier,
                    next_funding_time: _,
                },
                EventPayload::FundingObservation {
                    funding_rate: after,
                    observed_at: later,
                    next_funding_time: _,
                },
            ) => earlier.nanos < later.nanos && (before.in_scale() && after.in_scale() ==> {
                let change = funding_difference(previous, current)->Ok_0.units();
                &&& before.units() + change == after.units()
                &&& change < 0 <==> after.units() < before.units()
                &&& change == 0 <==> after.units() == before.units()
            }),
            _ => false,
        },
        previous.event.metadata.source@ == current.event.metadata.source@,
        same_instrument_definition(previous.instrument_definition, current.instrument_definition),
{
    let (before, _) = funding_of(previous.event.payload)->Some_0;
    let (after, _) = funding_of(current.event.payload)->Some_0;
    if before.in_scale() && after.in_scale() {
        lemma_exact_arithmetic(after, before);
    }
}

/// Two receipts of one instrument's funding in their order always have a change, where their rates
/// are of moderate size and scale.
pub proof fn lemma_moderate_funding_rates_have_changes(
    previous: DerivativeNormalizationReceipt,
    current: DerivativeNormalizationReceipt,
    places: nat,
    power: nat,
)
    requires
        pair_refusal(previous, current, DerivativeStream::Funding) is None,
        places + power < 38,
        match (previous.event.payload, current.event.payload) {
            (
                EventPayload::FundingObservation {
                    funding_rate: before,
                    observed_at: earlier,
                    next_funding_time: _,
                },
                EventPayload::FundingObservation {
                    funding_rate: after,
                    observed_at: later,
                    next_funding_time: _,
                },
            ) => earlier.nanos < later.nanos && before.within(places, power) && after.within(
                places,
                power,
            ),
            _ => false,
        },
    ensures
        funding_difference(previous, current) is Ok,
{
    let (before, _) = funding_of(previous.event.payload)->Some_0;
    let (after, _) = funding_of(current.event.payload)->Some_0;
    lemma_moderate_sums_exist(after, before, places, power);
}

/// A predicted rate is the one that its receipt observed, with the time at which it will be
/// settled; a receipt without such a time predicts nothing.
pub proof fn lemma_predictions_are_of_unsettled_rates(receipt: DerivativeNormalizationReceipt)
    requires
        predicted_funding(receipt) is Ok,
    ensures
        receipt.stream == DerivativeStream::Funding,
        match receipt.event.payload {
            EventPayload::FundingObservation { funding_rate, observed_at, next_funding_time } => {
                let predicted = predicted_funding(receipt)->Ok_0;
                &&& predicted.rate == funding_rate
                &&& predicted.observed_at == observed_at
                &&& next_funding_time == Some(predicted.next_funding_time)
            },
            _ => false,
        },
{
}

/// The change of open interest brings the previous quantity to the current one. It is negative just
/// where open interest fell, and growth is the current quantity over the previous one.
pub proof fn lemma_open_interest_changes_lead_to_the_current_quantity(
    previous: DerivativeNormalizationReceipt,
    current: DerivativeNormalizationReceipt,
    instrument: InstrumentDefinition,
)
    requires
        open_interest_terms(previous, current, instrument) is Ok,
    ensures
        match (previous.event.payload, current.event.payload) {
            (
                EventPayload::OpenInterestObservation {
                    quantity: before,
                    quote_notional: _,
                    observed_at: earlier,
                },
                EventPayload::OpenInterestObservation {
                    quantity: after,
                    quote_notional: notional,
                    observed_at: later,
                },
            ) => {
                let terms = open_interest_terms(previous, current, instrument)->Ok_0;
                &&& earlier.nanos < later.nanos
                &&& before.units() != 0
                &&& terms.current_quote_notional == notional
                &&& terms.growth.numerator.units() == after.units()
                &&& terms.growth.denominator.units() == before.units()
                &&& before.is_valid() && after.is_valid() ==> {
                    &&& before.units() + terms.native_change.units() == after.units()
                    &&& terms.native_change.units() < 0 <==> after.units() < before.units()
                }
            },
            _ => false,
        },
        previous.event.metadata.source@ == current.event.metadata.source@,
        same_instrument_definition(previous.instrument_definition, instrument),
        same_instrument_definition(previous.instrument_definition, current.instrument_definition),
{
    let (before, _, _) = open_interest_of(previous.event.payload)->Some_0;
    let (after, _, _) = open_interest_of(current.event.payload)->Some_0;
    if before.in_scale() && after.in_scale() {
        lemma_exact_arithmetic(after, before);
    }
}

/// The quote notionals of liquidations from a place on, in units.
pub open spec fn liquidated_units(receipts: Seq<DerivativeNormalizationReceipt>, from: int) -> Seq<
    int,
> {
    Seq::new(
        (receipts.len() - from) as nat,
        |i: int|
            match receipts[from + i].event.payload {
                EventPayload::LiquidationObservation { quote_notional: Some(notional), .. } =>
                    notional.units(),
                _ => 0,
            },
    )
}

/// What is reported of a window's liquidations is their number and the sum of their quote
/// notionals, over the window's own length. Each of them lies in the window, is a verified
/// liquidation of the instrument, and is counted once.
pub proof fn lemma_liquidations_add_up(
    receipts: Seq<DerivativeNormalizationReceipt>,
    instrument: InstrumentDefinition,
    tracker: TrackerView,
    decision: DecisionView,
)
    requires
        liquidation_terms(receipts, instrument, tracker, decision) is Ok,
        forall|i: int|
            0 <= i < receipts.len() && liquidation_notional(#[trigger] receipts[i]) is Some
                ==> liquidation_notional(receipts[i])->Some_0.in_scale(),
    ensures
        ({
            let terms = liquidation_terms(receipts, instrument, tracker, decision)->Ok_0;
            &&& terms.observed_quote_notional.units() == sum_of(liquidated_units(receipts, 0))
            &&& terms.observed_count == receipts.len()
            &&& 0 < receipts.len() <= 100_000
            &&& terms.duration_ns == decision.window.upper() - decision.window.lower()
        }),
        forall|i: int|
            #![trigger receipts[i]]
            0 <= i < receipts.len() ==> {
                let event = receipts[i].event;
                &&& event.verified
                &&& event.payload is LiquidationObservation
                &&& event.metadata.concerns(instrument.id)
                &&& event.metadata.event_time_of() is Some
                &&& decision.window.lower() <= event.metadata.event_time_of()->Some_0.nanos
                    < decision.window.upper()
                &&& !receipt_ids(receipts).take(i).contains(event.id@)
            },
        decision.state == Finalization::Final,
{
    lemma_zero_units();
    let coverage = LiquidationCoverage::of_completeness(receipts[0].completeness)->Ok_0;
    lemma_liquidations_from(receipts, 0, instrument, decision, coverage, nothing());
    assert forall|i: int|
        #![trigger receipts[i]]
        0 <= i < receipts.len() implies {
        let event = receipts[i].event;
        &&& event.verified
        &&& event.payload is LiquidationObservation
        &&& event.metadata.concerns(instrument.id)
        &&& event.metadata.event_time_of() is Some
        &&& decision.window.lower() <= event.metadata.event_time_of()->Some_0.nanos
            < decision.window.upper()
        &&& !receipt_ids(receipts).take(i).contains(event.id@)
    } by {
        assert(liquidation_step_refusal(receipts, i, instrument, decision) is None);
    }
}

proof fn lemma_liquidations_from(
    receipts: Seq<DerivativeNormalizationReceipt>,
    i: int,
    instrument: InstrumentDefinition,
    decision: DecisionView,
    coverage: LiquidationCoverage,
    notional: FixedDecimal,
)
    requires
        0 <= i <= receipts.len(),
        notional.in_scale(),
        liquidations_from(receipts, i, instrument, decision, coverage, notional) is Ok,
        forall|k: int|
            0 <= k < receipts.len() && liquidation_notional(#[trigger] receipts[k]) is Some
                ==> liquidation_notional(receipts[k])->Some_0.in_scale(),
    ensures
        liquidations_from(
            receipts,
            i,
            instrument,
            decision,
            coverage,
            notional,
        )->Ok_0.1.units() == notional.units() + sum_of(liquidated_units(receipts, i)),
        forall|k: int|
            i <= k < receipts.len() ==> liquidation_step_refusal(
                receipts,
                k,
                instrument,
                decision,
            ) is None,
    decreases receipts.len() - i,
{
    if i < receipts.len() {
        let own = liquidation_notional(receipts[i])->Some_0;
        lemma_exact_arithmetic(notional, own);
        let total = notional.plus(own)->Some_0;
        let next = if is_partial(receipts[i]) {
            coverage.downgraded()
        } else {
            coverage
        };
        lemma_liquidations_from(receipts, i + 1, instrument, decision, next, total);
        let values = liquidated_units(receipts, i);
        assert(values.drop_first() =~= liquidated_units(receipts, i + 1));
        assert(values[0] == own.units());
    }
}

/// Whatever a connector promises, coverage is never called better than it is: only a venue that
/// reports everything without doubt about delivery is complete, and a partial record leaves a gap.
pub proof fn lemma_coverage_is_never_overstated(completeness: Completeness)
    ensures
        LiquidationCoverage::of_completeness(completeness) is Err <==> completeness
            == Completeness::NotSupported,
        LiquidationCoverage::of_completeness(completeness) is Ok ==> {
            let coverage = LiquidationCoverage::of_completeness(completeness)->Ok_0;
            &&& coverage.complete() <==> match completeness {
                Completeness::VenueReportedComplete { delivery_uncertainty } =>
                    !delivery_uncertainty,
                Completeness::VenueReportedAll { push_cadence_ms: _, delivery_uncertainty } =>
                    !delivery_uncertainty,
                _ => false,
            }
            &&& coverage is SampledLargestPerSymbolWindow <==> completeness
                is SampledLargestPerSymbolWindow
            &&& !coverage.downgraded().complete()
            &&& !coverage.complete() ==> coverage.downgraded() == coverage
        },
{
}

} // verus!
