//! Deterministic analytical features over trusted fixed-point order books.

use vstd::prelude::*;

use super::{
    difference_exact, exact, finite, finite_value, lemma_sum_last, lemma_sum_of_zeros,
    lemma_sum_split, product_exact, sum_exact, sum_of, ExactRatio, FeatureComputationError,
};
use crate::book::{BookClassification, BookSnapshotView, BookState};
use crate::decimal::{
    decimal_of_units, lemma_exact_arithmetic, lemma_moderate_sums_exist, lemma_over_units,
    lemma_times_whole, lemma_zero_units, unit, FixedDecimal, Price, Quantity,
};
use crate::domain::ProductType;
use crate::event::BookLevel;

verus! {

pub const MAX_DEPTH_BAND_BPS: u32 = 10_000;

pub const L2_UNAVAILABLE_AFTER_MS: u64 = 3_000;

pub const MAX_BOOK_SHAPE_LEVELS: usize = 256;

pub const MAX_RECOVERY_OBSERVATIONS: usize = 4_096;

/// Ten thousand basis points.
pub open spec fn basis_points() -> FixedDecimal {
    decimal_of_units(10_000 * unit())
}

/// Zero.
pub open spec fn nothing() -> FixedDecimal {
    decimal_of_units(0)
}

/// Why a book is not fit for features, if it is not.
pub open spec fn book_refusal(book: BookSnapshotView) -> Option<FeatureComputationError> {
    if book.quality.health_state != BookState::Synchronized || book.classification
        != BookClassification::Normal {
        Some(FeatureComputationError::UntrustedInput)
    } else if book.quality.last_update_age_ms > L2_UNAVAILABLE_AFTER_MS {
        Some(FeatureComputationError::Stale)
    } else {
        None
    }
}

pub fn require_normal_book(book: &BookSnapshotView) -> (result: Result<
    (),
    FeatureComputationError,
>)
    ensures
        match book_refusal(*book) {
            Some(error) => result == Err::<(), FeatureComputationError>(error),
            None => result == Ok::<(), FeatureComputationError>(()),
        },
{
    if book.quality.health_state != BookState::Synchronized || book.classification
        != BookClassification::Normal {
        return Err(FeatureComputationError::UntrustedInput);
    }
    if book.quality.last_update_age_ms > L2_UNAVAILABLE_AFTER_MS {
        return Err(FeatureComputationError::Stale);
    }
    Ok(())
}

/// Why a book has no quote notional, if it has none: only spot quantities are base quantities.
pub open spec fn spot_refusal(book: BookSnapshotView) -> Option<FeatureComputationError> {
    match book_refusal(book) {
        Some(error) => Some(error),
        None => if book.instrument.product_type == ProductType::Spot {
            None
        } else {
            Some(FeatureComputationError::SourceNotSupported)
        },
    }
}

fn require_spot_book(book: &BookSnapshotView) -> (result: Result<(), FeatureComputationError>)
    ensures
        match spot_refusal(*book) {
            Some(error) => result == Err::<(), FeatureComputationError>(error),
            None => result == Ok::<(), FeatureComputationError>(()),
        },
{
    require_normal_book(book)?;
    if book.instrument.product_type == ProductType::Spot {
        Ok(())
    } else {
        Err(FeatureComputationError::SourceNotSupported)
    }
}

/// The inside levels of a book, or why there are none.
pub open spec fn inside(book: BookSnapshotView) -> Result<
    (BookLevel, BookLevel),
    FeatureComputationError,
> {
    match book_refusal(book) {
        Some(error) => Err(error),
        None => if book.bids@.len() == 0 || book.asks@.len() == 0 {
            Err(FeatureComputationError::UntrustedInput)
        } else {
            Ok((book.bids@[0], book.asks@[0]))
        },
    }
}

pub(crate) fn inside_levels(book: &BookSnapshotView) -> (result: Result<
    (BookLevel, BookLevel),
    FeatureComputationError,
>)
    ensures
        result == inside(*book),
{
    require_normal_book(book)?;
    if book.bids.len() == 0 || book.asks.len() == 0 {
        return Err(FeatureComputationError::UntrustedInput);
    }
    Ok((book.bids[0], book.asks[0]))
}

/// The spread, and the sum of the inside prices that it is compared with.
#[derive(Clone, Copy, Debug, PartialEq, Eq, Structural)]
pub struct SpreadTerms {
    pub absolute: FixedDecimal,
    pub midpoint_sum: FixedDecimal,
}

/// The spread of a book, or why it has none.
pub open spec fn spread_terms(book: BookSnapshotView) -> Result<
    SpreadTerms,
    FeatureComputationError,
> {
    match inside(book) {
        Err(error) => Err(error),
        Ok((bid, ask)) => match (
            exact(ask.price.amount().minus(bid.price.amount())),
            exact(ask.price.amount().plus(bid.price.amount())),
        ) {
            (Ok(absolute), Ok(midpoint_sum)) => Ok(SpreadTerms { absolute, midpoint_sum }),
            _ => Err(FeatureComputationError::InvalidInput),
        },
    }
}

pub fn spread(book: &BookSnapshotView) -> (result: Result<SpreadTerms, FeatureComputationError>)
    ensures
        result == spread_terms(*book),
{
    let (bid, ask) = inside_levels(book)?;
    let absolute = difference_exact(ask.price.value(), bid.price.value())?;
    let midpoint_sum = sum_exact(ask.price.value(), bid.price.value())?;
    Ok(SpreadTerms { absolute, midpoint_sum })
}

/// A spread and its ratio to the midpoint, the ratio by its bit pattern.
#[derive(Clone, Copy, Debug, PartialEq, Eq, Structural)]
pub struct SpreadMetrics {
    pub absolute: FixedDecimal,
    pub relative_bits: u64,
}

impl SpreadMetrics {
    pub fn from_terms(terms: SpreadTerms, relative_bits: u64) -> (result: Result<
        Self,
        FeatureComputationError,
    >)
        ensures
            result == match finite_value(relative_bits) {
                Err(error) => Err::<Self, FeatureComputationError>(error),
                Ok(_) => Ok((SpreadMetrics { absolute: terms.absolute, relative_bits })),
            },
    {
        finite(relative_bits)?;
        Ok(SpreadMetrics { absolute: terms.absolute, relative_bits })
    }

    pub fn absolute(self) -> (absolute: FixedDecimal)
        ensures
            absolute == self.absolute,
    {
        self.absolute
    }
}

pub fn book_quote_age_ms(book: &BookSnapshotView) -> (result: Result<u64, FeatureComputationError>)
    ensures
        result == match book_refusal(*book) {
            Some(error) => Err::<u64, FeatureComputationError>(error),
            None => Ok(book.quality.last_update_age_ms),
        },
{
    require_normal_book(book)?;
    Ok(book.quality.last_update_age_ms)
}

/// The bounds of a price band, in ten-thousandths of a price, or why it has none.
pub open spec fn price_bounds(reference: Price, band_bps: u32) -> Result<
    (FixedDecimal, FixedDecimal),
    FeatureComputationError,
> {
    if band_bps > MAX_DEPTH_BAND_BPS {
        Err(FeatureComputationError::InvalidParameter)
    } else {
        match (
            reference.amount().times(decimal_of_units((10_000 - band_bps) * unit())),
            reference.amount().times(decimal_of_units((10_000 + band_bps) * unit())),
        ) {
            (Some(lower), Some(upper)) => Ok((lower, upper)),
            _ => Err(FeatureComputationError::InvalidInput),
        }
    }
}

fn scaled_price_bounds(reference_price: Price, band_bps: u32) -> (result: Result<
    (FixedDecimal, FixedDecimal),
    FeatureComputationError,
>)
    ensures
        result == price_bounds(reference_price, band_bps),
{
    if band_bps > MAX_DEPTH_BAND_BPS {
        return Err(FeatureComputationError::InvalidParameter);
    }
    let lower_multiplier = FixedDecimal::whole(10_000 - band_bps as i64);
    let upper_multiplier = FixedDecimal::whole(10_000 + band_bps as i64);
    let lower = product_exact(reference_price.value(), lower_multiplier)?;
    let upper = product_exact(reference_price.value(), upper_multiplier)?;
    Ok((lower, upper))
}

/// The bounds of a price band that is not empty.
pub open spec fn band_bounds(reference: Price, band_bps: u32) -> Result<
    (FixedDecimal, FixedDecimal),
    FeatureComputationError,
> {
    if band_bps == 0 {
        Err(FeatureComputationError::InvalidParameter)
    } else {
        price_bounds(reference, band_bps)
    }
}

fn scaled_band_bounds(reference_price: Price, band_bps: u32) -> (result: Result<
    (FixedDecimal, FixedDecimal),
    FeatureComputationError,
>)
    ensures
        result == band_bounds(reference_price, band_bps),
{
    if band_bps == 0 {
        return Err(FeatureComputationError::InvalidParameter);
    }
    scaled_price_bounds(reference_price, band_bps)
}

/// Ten thousand times a level's price.
pub open spec fn scaled_price(level: BookLevel) -> Option<FixedDecimal> {
    level.price.amount().times(basis_points())
}

/// A level's price times its quantity.
pub open spec fn notional_of(level: BookLevel) -> Option<FixedDecimal> {
    level.price.amount().times(level.quantity.amount())
}

fn level_notional(level: &BookLevel) -> (result: Result<FixedDecimal, FeatureComputationError>)
    ensures
        result == exact(notional_of(*level)),
{
    product_exact(level.price.value(), level.quantity.value())
}

/// Where a level lies with respect to a band.
#[derive(Clone, Copy, Debug, PartialEq, Eq, Structural)]
pub enum BandPlace {
    /// On the inside of the band, towards the other side of the book.
    Before,
    /// In the band.
    Within,
    /// Behind the band, away from the other side of the book.
    Behind,
}

/// The place of a scaled price, on the bid or the ask side.
pub open spec fn band_place(
    scaled: FixedDecimal,
    lower: FixedDecimal,
    upper: FixedDecimal,
    bids: bool,
) -> BandPlace {
    if bids {
        if scaled.units() < lower.units() {
            BandPlace::Behind
        } else if scaled.units() > upper.units() {
            BandPlace::Before
        } else {
            BandPlace::Within
        }
    } else {
        if scaled.units() > upper.units() {
            BandPlace::Behind
        } else if scaled.units() < lower.units() {
            BandPlace::Before
        } else {
            BandPlace::Within
        }
    }
}

/// Quantity and notional of the levels in a band, added up from the inside to the first level
/// behind the band, on top of what is there; nothing where a step is not a decimal.
pub open spec fn band_depth(
    levels: Seq<BookLevel>,
    lower: FixedDecimal,
    upper: FixedDecimal,
    bids: bool,
    quantity: FixedDecimal,
    notional: FixedDecimal,
) -> Option<(FixedDecimal, FixedDecimal)>
    decreases levels.len(),
{
    if levels.len() == 0 {
        Some((quantity, notional))
    } else {
        let level = levels[0];
        let rest = levels.drop_first();
        match scaled_price(level) {
            None => None,
            Some(scaled) => match band_place(scaled, lower, upper, bids) {
                BandPlace::Behind => Some((quantity, notional)),
                BandPlace::Before => band_depth(rest, lower, upper, bids, quantity, notional),
                BandPlace::Within => match (
                    quantity.plus(level.quantity.amount()),
                    notional_of(level),
                ) {
                    (Some(more), Some(own)) => match notional.plus(own) {
                        None => None,
                        Some(worth) => band_depth(rest, lower, upper, bids, more, worth),
                    },
                    _ => None,
                },
            },
        }
    }
}

fn side_depth(
    levels: &Vec<BookLevel>,
    lower: FixedDecimal,
    upper: FixedDecimal,
    bids: bool,
) -> (result: Result<(FixedDecimal, FixedDecimal), FeatureComputationError>)
    ensures
        result == match band_depth(levels@, lower, upper, bids, nothing(), nothing()) {
            Some(depth) => Ok::<(FixedDecimal, FixedDecimal), FeatureComputationError>(depth),
            None => Err(FeatureComputationError::InvalidInput),
        },
        result is Ok ==> result->Ok_0.0.units() >= 0,
{
    let denominator = FixedDecimal::whole(10_000);
    let mut quantity = FixedDecimal::zero();
    let mut notional = FixedDecimal::zero();
    let mut i: usize = 0;
    proof {
        assert(levels@.skip(0) =~= levels@);
    }
    while i < levels.len()
        invariant
            i <= levels@.len(),
            denominator == basis_points(),
            quantity.units() >= 0,
            band_depth(levels@, lower, upper, bids, nothing(), nothing()) == band_depth(
                levels@.skip(i as int),
                lower,
                upper,
                bids,
                quantity,
                notional,
            ),
        decreases levels.len() - i,
    {
        let level = levels[i];
        proof {
            assert(levels@.skip(i as int)[0] == level);
            assert(levels@.skip(i as int).drop_first() =~= levels@.skip(i + 1));
        }
        let scaled = product_exact(level.price.value(), denominator)?;
        let below: bool = scaled.less_than(&lower);
        let above: bool = upper.less_than(&scaled);
        let behind: bool = if bids {
            below
        } else {
            above
        };
        if behind {
            return Ok((quantity, notional));
        }
        if !below && !above {
            let more = sum_exact(quantity, level.quantity.value())?;
            let own = level_notional(&level)?;
            let worth = sum_exact(notional, own)?;
            quantity = more;
            notional = worth;
        }
        i += 1;
    }
    Ok((quantity, notional))
}

/// Quantity and notional of both sides of a book within a band.
#[derive(Clone, Copy, Debug, PartialEq, Eq, Structural)]
pub struct DepthBand {
    pub bid_quantity: Quantity,
    pub ask_quantity: Quantity,
    pub bid_notional: FixedDecimal,
    pub ask_notional: FixedDecimal,
}

impl DepthBand {
    pub fn bid_quantity(self) -> (quantity: Quantity)
        ensures
            quantity == self.bid_quantity,
    {
        self.bid_quantity
    }

    pub fn ask_quantity(self) -> (quantity: Quantity)
        ensures
            quantity == self.ask_quantity,
    {
        self.ask_quantity
    }

    pub fn bid_notional(self) -> (notional: FixedDecimal)
        ensures
            notional == self.bid_notional,
    {
        self.bid_notional
    }

    pub fn ask_notional(self) -> (notional: FixedDecimal)
        ensures
            notional == self.ask_notional,
    {
        self.ask_notional
    }
}

/// Bid quantity, bid notional, ask quantity and ask notional within a band, or why there are none.
pub open spec fn depth_in_band(
    book: BookSnapshotView,
    reference: Price,
    band_bps: u32,
) -> Result<(FixedDecimal, FixedDecimal, FixedDecimal, FixedDecimal), FeatureComputationError> {
    match (spot_refusal(book), band_bounds(reference, band_bps)) {
        (Some(error), _) => Err(error),
        (None, Err(error)) => Err(error),
        (None, Ok((lower, upper))) => match (
            band_depth(book.bids@, lower, upper, true, nothing(), nothing()),
            band_depth(book.asks@, lower, upper, false, nothing(), nothing()),
        ) {
            (Some(bids), Some(asks)) => Ok((bids.0, bids.1, asks.0, asks.1)),
            _ => Err(FeatureComputationError::InvalidInput),
        },
    }
}

/// A depth band with these totals.
pub open spec fn is_depth(
    band: DepthBand,
    totals: (FixedDecimal, FixedDecimal, FixedDecimal, FixedDecimal),
) -> bool {
    band.bid_quantity.amount() == totals.0 && band.bid_notional == totals.1
        && band.ask_quantity.amount() == totals.2 && band.ask_notional == totals.3
}

pub fn depth_within_band(book: &BookSnapshotView, reference_price: Price, band_bps: u32) -> (result:
    Result<DepthBand, FeatureComputationError>)
    ensures
        match depth_in_band(*book, reference_price, band_bps) {
            Err(error) => result is Err && result->Err_0 == error,
            Ok(totals) => result is Ok && is_depth(result->Ok_0, totals),
        },
{
    require_spot_book(book)?;
    let (lower, upper) = scaled_band_bounds(reference_price, band_bps)?;
    let (bids, bid_notional) = side_depth(&book.bids, lower, upper, true)?;
    let (asks, ask_notional) = side_depth(&book.asks, lower, upper, false)?;
    match (Quantity::new(bids), Quantity::new(asks)) {
        (Ok(bid_quantity), Ok(ask_quantity)) => Ok(
            DepthBand { bid_quantity, ask_quantity, bid_notional, ask_notional },
        ),
        _ => Err(FeatureComputationError::InvalidInput),
    }
}

/// The quantity of each side within a band, where the book reaches through the whole band.
#[derive(Clone, Copy, Debug)]
pub struct FullyObservedDepthBand {
    pub bid_quantity: Result<Quantity, FeatureComputationError>,
    pub ask_quantity: Result<Quantity, FeatureComputationError>,
}

impl FullyObservedDepthBand {
    pub fn bid_quantity(self) -> (quantity: Result<Quantity, FeatureComputationError>)
        ensures
            quantity == self.bid_quantity,
    {
        self.bid_quantity
    }

    pub fn ask_quantity(self) -> (quantity: Result<Quantity, FeatureComputationError>)
        ensures
            quantity == self.ask_quantity,
    {
        self.ask_quantity
    }
}

/// The outermost prices of both sides, scaled, and the band's bounds, or why there are none.
pub open spec fn outer_prices(
    book: BookSnapshotView,
    reference: Price,
    band_bps: u32,
) -> Result<(FixedDecimal, FixedDecimal, FixedDecimal, FixedDecimal), FeatureComputationError> {
    match (depth_in_band(book, reference, band_bps), band_bounds(reference, band_bps)) {
        (Err(error), _) => Err(error),
        (Ok(_), Err(error)) => Err(error),
        (Ok(_), Ok((lower, upper))) => if book.bids@.len() == 0 {
            Err(FeatureComputationError::UntrustedInput)
        } else {
            match scaled_price(book.bids@.last()) {
                None => Err(FeatureComputationError::InvalidInput),
                Some(bid) => if book.asks@.len() == 0 {
                    Err(FeatureComputationError::UntrustedInput)
                } else {
                    match scaled_price(book.asks@.last()) {
                        None => Err(FeatureComputationError::InvalidInput),
                        Some(ask) => Ok((bid, ask, lower, upper)),
                    }
                },
            }
        },
    }
}

/// The quantity of each side within a band, or why it is not known.
pub type ObservedSides = (
    Result<FixedDecimal, FeatureComputationError>,
    Result<FixedDecimal, FeatureComputationError>,
);

/// The amount of a quantity that is known.
pub open spec fn known_amount(quantity: Result<Quantity, FeatureComputationError>) -> Result<
    FixedDecimal,
    FeatureComputationError,
> {
    match quantity {
        Ok(quantity) => Ok(quantity.amount()),
        Err(error) => Err(error),
    }
}

/// What a fully observed depth holds, by its contents.
pub open spec fn observed_outcome(
    result: Result<FullyObservedDepthBand, FeatureComputationError>,
) -> Result<ObservedSides, FeatureComputationError> {
    match result {
        Ok(band) => Ok((known_amount(band.bid_quantity), known_amount(band.ask_quantity))),
        Err(error) => Err(error),
    }
}

/// The quantity of each side within a band, known where the side reaches to the band's end.
pub open spec fn observed_depth(book: BookSnapshotView, reference: Price, band_bps: u32) -> Result<
    ObservedSides,
    FeatureComputationError,
> {
    match outer_prices(book, reference, band_bps) {
        Err(error) => Err(error),
        Ok((bid, ask, lower, upper)) => {
            let totals = depth_in_band(book, reference, band_bps)->Ok_0;
            Ok(
                (
                    if bid.units() <= lower.units() {
                        Ok(totals.0)
                    } else {
                        Err(FeatureComputationError::InsufficientHistory)
                    },
                    if ask.units() >= upper.units() {
                        Ok(totals.2)
                    } else {
                        Err(FeatureComputationError::InsufficientHistory)
                    },
                ),
            )
        },
    }
}

pub fn fully_observed_depth_within_band(
    book: &BookSnapshotView,
    reference_price: Price,
    band_bps: u32,
) -> (result: Result<FullyObservedDepthBand, FeatureComputationError>)
    ensures
        observed_outcome(result) == observed_depth(*book, reference_price, band_bps),
        match outer_prices(*book, reference_price, band_bps) {
            Err(error) => result is Err && result->Err_0 == error,
            Ok((bid, ask, lower, upper)) => {
                let totals = depth_in_band(*book, reference_price, band_bps)->Ok_0;
                &&& result is Ok
                &&& if bid.units() <= lower.units() {
                    result->Ok_0.bid_quantity is Ok && result->Ok_0.bid_quantity->Ok_0.amount()
                        == totals.0
                } else {
                    result->Ok_0.bid_quantity == Err::<Quantity, FeatureComputationError>(
                        FeatureComputationError::InsufficientHistory,
                    )
                }
                &&& if ask.units() >= upper.units() {
                    result->Ok_0.ask_quantity is Ok && result->Ok_0.ask_quantity->Ok_0.amount()
                        == totals.2
                } else {
                    result->Ok_0.ask_quantity == Err::<Quantity, FeatureComputationError>(
                        FeatureComputationError::InsufficientHistory,
                    )
                }
            },
        },
{
    let depth = depth_within_band(book, reference_price, band_bps)?;
    let (lower, upper) = scaled_band_bounds(reference_price, band_bps)?;
    let denominator = FixedDecimal::whole(10_000);
    if book.bids.len() == 0 {
        return Err(FeatureComputationError::UntrustedInput);
    }
    let outer_bid = product_exact(book.bids[book.bids.len() - 1].price.value(), denominator)?;
    if book.asks.len() == 0 {
        return Err(FeatureComputationError::UntrustedInput);
    }
    let outer_ask = product_exact(book.asks[book.asks.len() - 1].price.value(), denominator)?;
    Ok(
        FullyObservedDepthBand {
            bid_quantity: if lower.less_than(&outer_bid) {
                Err(FeatureComputationError::InsufficientHistory)
            } else {
                Ok(depth.bid_quantity)
            },
            ask_quantity: if outer_ask.less_than(&upper) {
                Err(FeatureComputationError::InsufficientHistory)
            } else {
                Ok(depth.ask_quantity)
            },
        },
    )
}

/// The difference of the sides over their sum, or why there is no such ratio.
pub open spec fn imbalance_of(bid: FixedDecimal, ask: FixedDecimal) -> Result<
    ExactRatio,
    FeatureComputationError,
> {
    match bid.plus(ask) {
        None => Err(FeatureComputationError::InvalidInput),
        Some(total) => if total.units() == 0 {
            Err(FeatureComputationError::ZeroDenominator)
        } else {
            match bid.minus(ask) {
                None => Err(FeatureComputationError::InvalidInput),
                Some(difference) => Ok(
                    ExactRatio { numerator: difference, denominator: total },
                ),
            }
        },
    }
}

pub(crate) fn imbalance(bid: FixedDecimal, ask: FixedDecimal) -> (result: Result<
    ExactRatio,
    FeatureComputationError,
>)
    ensures
        result == imbalance_of(bid, ask),
{
    let total = sum_exact(bid, ask)?;
    if total.is_zero() {
        return Err(FeatureComputationError::ZeroDenominator);
    }
    let difference = difference_exact(bid, ask)?;
    Ok(ExactRatio { numerator: difference, denominator: total })
}

/// The imbalance of the depth within a band, or why there is none.
pub open spec fn imbalance_in_band(
    book: BookSnapshotView,
    reference: Price,
    band_bps: u32,
) -> Result<ExactRatio, FeatureComputationError> {
    match depth_in_band(book, reference, band_bps) {
        Err(error) => Err(error),
        Ok(totals) => imbalance_of(totals.0, totals.2),
    }
}

/// The imbalance of the depth within a band, as an exact ratio.
pub fn normalized_imbalance(
    book: &BookSnapshotView,
    reference_price: Price,
    band_bps: u32,
) -> (result: Result<ExactRatio, FeatureComputationError>)
    ensures
        result == match depth_in_band(*book, reference_price, band_bps) {
            Err(error) => Err::<ExactRatio, FeatureComputationError>(error),
            Ok(totals) => imbalance_of(totals.0, totals.2),
        },
        result == imbalance_in_band(*book, reference_price, band_bps),
{
    let depth = depth_within_band(book, reference_price, band_bps)?;
    imbalance(depth.bid_quantity.value(), depth.ask_quantity.value())
}

/// A weighted mean of two prices as an exact ratio, or why there is none.
pub open spec fn weighted_price(
    first: Price,
    first_weight: FixedDecimal,
    second: Price,
    second_weight: FixedDecimal,
    total: Option<FixedDecimal>,
) -> Result<ExactRatio, FeatureComputationError> {
    match total {
        None => Err(FeatureComputationError::InvalidInput),
        Some(total) => if total.units() == 0 {
            Err(FeatureComputationError::ZeroDenominator)
        } else {
            match (first.amount().times(first_weight), second.amount().times(second_weight)) {
                (Some(left), Some(right)) => match left.plus(right) {
                    None => Err(FeatureComputationError::InvalidInput),
                    Some(numerator) => Ok(ExactRatio { numerator, denominator: total }),
                },
                _ => Err(FeatureComputationError::InvalidInput),
            }
        },
    }
}

fn weighted_inside(
    first: Price,
    first_weight: FixedDecimal,
    second: Price,
    second_weight: FixedDecimal,
    total: FixedDecimal,
) -> (result: Result<ExactRatio, FeatureComputationError>)
    ensures
        result == weighted_price(first, first_weight, second, second_weight, Some(total)),
{
    if total.is_zero() {
        return Err(FeatureComputationError::ZeroDenominator);
    }
    let left = product_exact(first.value(), first_weight)?;
    let right = product_exact(second.value(), second_weight)?;
    let numerator = sum_exact(left, right)?;
    Ok(ExactRatio { numerator, denominator: total })
}

/// The microprice of a book, or why it has none.
pub open spec fn microprice_of(book: BookSnapshotView) -> Result<
    ExactRatio,
    FeatureComputationError,
> {
    match inside(book) {
        Err(error) => Err(error),
        Ok((bid, ask)) => weighted_price(
            ask.price,
            bid.quantity.amount(),
            bid.price,
            ask.quantity.amount(),
            bid.quantity.amount().plus(ask.quantity.amount()),
        ),
    }
}

/// The weighted midpoint of a book, or why it has none.
pub open spec fn weighted_midpoint_of(book: BookSnapshotView) -> Result<
    ExactRatio,
    FeatureComputationError,
> {
    match inside(book) {
        Err(error) => Err(error),
        Ok((bid, ask)) => weighted_price(
            bid.price,
            bid.quantity.amount(),
            ask.price,
            ask.quantity.amount(),
            bid.quantity.amount().plus(ask.quantity.amount()),
        ),
    }
}

/// The inside prices, each weighted by the quantity of the other side, as an exact ratio.
pub fn microprice(book: &BookSnapshotView) -> (result: Result<ExactRatio, FeatureComputationError>)
    ensures
        result == match inside(*book) {
            Err(error) => Err::<ExactRatio, FeatureComputationError>(error),
            Ok((bid, ask)) => weighted_price(
                ask.price,
                bid.quantity.amount(),
                bid.price,
                ask.quantity.amount(),
                bid.quantity.amount().plus(ask.quantity.amount()),
            ),
        },
        result == microprice_of(*book),
{
    let (bid, ask) = inside_levels(book)?;
    let total = sum_exact(bid.quantity.value(), ask.quantity.value())?;
    weighted_inside(ask.price, bid.quantity.value(), bid.price, ask.quantity.value(), total)
}

/// The inside prices, each weighted by its own quantity, as an exact ratio.
pub fn weighted_midpoint(book: &BookSnapshotView) -> (result: Result<
    ExactRatio,
    FeatureComputationError,
>)
    ensures
        result == match inside(*book) {
            Err(error) => Err::<ExactRatio, FeatureComputationError>(error),
            Ok((bid, ask)) => weighted_price(
                bid.price,
                bid.quantity.amount(),
                ask.price,
                ask.quantity.amount(),
                bid.quantity.amount().plus(ask.quantity.amount()),
            ),
        },
        result == weighted_midpoint_of(*book),
{
    let (bid, ask) = inside_levels(book)?;
    let total = sum_exact(bid.quantity.value(), ask.quantity.value())?;
    weighted_inside(bid.price, bid.quantity.value(), ask.price, ask.quantity.value(), total)
}

/// The number of levels on each side.
#[derive(Clone, Copy, Debug, PartialEq, Eq, Structural)]
pub struct ActiveLevelCounts {
    pub bid: usize,
    pub ask: usize,
}

impl ActiveLevelCounts {
    pub fn bid(self) -> (count: usize)
        ensures
            count == self.bid,
    {
        self.bid
    }

    pub fn ask(self) -> (count: usize)
        ensures
            count == self.ask,
    {
        self.ask
    }

    pub fn total(self) -> (count: usize)
        requires
            self.bid + self.ask <= usize::MAX,
        ensures
            count == self.bid + self.ask,
    {
        self.bid + self.ask
    }
}

/// The counts of a book's levels, or why they are not counted.
pub open spec fn level_counts(book: BookSnapshotView) -> Result<
    ActiveLevelCounts,
    FeatureComputationError,
> {
    match book_refusal(book) {
        Some(error) => Err(error),
        None => Ok(
            ActiveLevelCounts {
                bid: book.bids@.len() as usize,
                ask: book.asks@.len() as usize,
            },
        ),
    }
}

/// The counts of a book's levels add up to all of its levels.
pub proof fn lemma_level_counts_add_up(book: BookSnapshotView, counts: ActiveLevelCounts)
    requires
        level_counts(book) == Ok::<ActiveLevelCounts, FeatureComputationError>(counts),
    ensures
        counts.bid == book.bids@.len(),
        counts.ask == book.asks@.len(),
        counts.bid + counts.ask == book.bids@.len() + book.asks@.len(),
{
    assert(book.bids@.len() == book.bids.len());
    assert(book.asks@.len() == book.asks.len());
}

pub fn active_level_counts(book: &BookSnapshotView) -> (result: Result<
    ActiveLevelCounts,
    FeatureComputationError,
>)
    ensures
        result == level_counts(*book),
        result is Ok ==> result->Ok_0.bid == book.bids@.len() && result->Ok_0.ask
            == book.asks@.len(),
{
    require_normal_book(book)?;
    Ok(ActiveLevelCounts { bid: book.bids.len(), ask: book.asks.len() })
}

/// The quantities of all levels, bids first, and their sum.
#[derive(Debug)]
pub struct BookQuantities {
    pub quantities: Vec<Quantity>,
    pub total: FixedDecimal,
}

/// Entropy and concentration of a book's quantities, by their bit patterns.
#[derive(Clone, Copy, Debug, PartialEq, Eq, Structural)]
pub struct BookDistribution {
    pub normalized_entropy_bits: u64,
    pub concentration_bits: u64,
}

impl BookDistribution {
    pub fn from_bits(normalized_entropy_bits: u64, concentration_bits: u64) -> (result: Result<
        Self,
        FeatureComputationError,
    >)
        ensures
            result == match (finite_value(normalized_entropy_bits), finite_value(concentration_bits)) {
                (Ok(_), Ok(_)) => Ok::<Self, FeatureComputationError>(
                    (BookDistribution { normalized_entropy_bits, concentration_bits }),
                ),
                _ => Err(FeatureComputationError::AnalyticalUnavailable),
            },
    {
        finite(normalized_entropy_bits)?;
        finite(concentration_bits)?;
        Ok(BookDistribution { normalized_entropy_bits, concentration_bits })
    }
}

pub open spec fn quantities_of(levels: Seq<BookLevel>) -> Seq<Quantity> {
    Seq::new(levels.len(), |i: int| levels[i].quantity)
}

/// The sum of quantities on top of what is there, where every step is a decimal.
pub open spec fn total_quantity(quantities: Seq<Quantity>, start: FixedDecimal) -> Option<
    FixedDecimal,
>
    decreases quantities.len(),
{
    if quantities.len() == 0 {
        Some(start)
    } else {
        match total_quantity(quantities.drop_last(), start) {
            None => None,
            Some(before) => before.plus(quantities.last().amount()),
        }
    }
}

pub open spec fn some_level_empty(quantities: Seq<Quantity>) -> bool {
    exists|i: int| 0 <= i < quantities.len() && (#[trigger] quantities[i]).units() == 0
}

/// Why a book's quantities have no distribution, if they have none.
pub open spec fn distribution_refusal(book: BookSnapshotView) -> Option<FeatureComputationError> {
    let quantities = quantities_of(book.bids@) + quantities_of(book.asks@);
    match book_refusal(book) {
        Some(error) => Some(error),
        None => if quantities.len() > usize::MAX {
            Some(FeatureComputationError::CapacityExceeded)
        } else if quantities.len() < 2 {
            Some(FeatureComputationError::InsufficientHistory)
        } else {
            match total_quantity(quantities, nothing()) {
                None => Some(FeatureComputationError::InvalidInput),
                Some(total) => if total.units() == 0 {
                    Some(FeatureComputationError::ZeroDenominator)
                } else if some_level_empty(quantities) {
                    Some(FeatureComputationError::InvalidInput)
                } else {
                    None
                },
            }
        },
    }
}

/// The quantities whose shares a book's distribution is taken over.
pub fn book_distribution(book: &BookSnapshotView) -> (result: Result<
    BookQuantities,
    FeatureComputationError,
>)
    ensures
        match distribution_refusal(*book) {
            Some(error) => result is Err && result->Err_0 == error,
            None => {
                let quantities = quantities_of(book.bids@) + quantities_of(book.asks@);
                result is Ok && result->Ok_0.quantities@ == quantities && Some(
                    result->Ok_0.total,
                ) == total_quantity(quantities, nothing())
            },
        },
{
    require_normal_book(book)?;
    let ghost all = quantities_of(book.bids@) + quantities_of(book.asks@);
    let count: usize = match book.bids.len().checked_add(book.asks.len()) {
        None => {
            return Err(FeatureComputationError::CapacityExceeded);
        },
        Some(count) => count,
    };
    if count < 2 {
        return Err(FeatureComputationError::InsufficientHistory);
    }
    let mut quantities: Vec<Quantity> = Vec::new();
    let mut i: usize = 0;
    while i < count
        invariant
            i <= count == book.bids@.len() + book.asks@.len(),
            all == quantities_of(book.bids@) + quantities_of(book.asks@),
            quantities@ =~= all.take(i as int),
        decreases count - i,
    {
        if i < book.bids.len() {
            quantities.push(book.bids[i].quantity);
        } else {
            quantities.push(book.asks[i - book.bids.len()].quantity);
        }
        i += 1;
    }
    proof {
        assert(quantities@ =~= all);
    }
    let total = match sum_quantities(&quantities) {
        None => {
            return Err(FeatureComputationError::InvalidInput);
        },
        Some(total) => total,
    };
    if total.is_zero() {
        return Err(FeatureComputationError::ZeroDenominator);
    }
    if has_empty_level(&quantities) {
        return Err(FeatureComputationError::InvalidInput);
    }
    Ok(BookQuantities { quantities, total })
}

fn sum_quantities(quantities: &Vec<Quantity>) -> (total: Option<FixedDecimal>)
    ensures
        total == total_quantity(quantities@, nothing()),
{
    let mut total = FixedDecimal::zero();
    let mut i: usize = 0;
    proof {
        assert(quantities@.take(0) =~= Seq::empty());
    }
    while i < quantities.len()
        invariant
            i <= quantities@.len(),
            total_quantity(quantities@.take(i as int), nothing()) == Some(total),
        decreases quantities.len() - i,
    {
        proof {
            assert(quantities@.take(i + 1).drop_last() =~= quantities@.take(i as int));
            assert(quantities@.take(i + 1).last() == quantities@[i as int]);
        }
        match total.checked_add(quantities[i].value()) {
            Err(_) => {
                proof {
                    lemma_total_fails(quantities@, i + 1, nothing());
                }
                return None;
            },
            Ok(sum) => {
                total = sum;
            },
        }
        i += 1;
    }
    proof {
        assert(quantities@.take(quantities@.len() as int) =~= quantities@);
    }
    Some(total)
}

proof fn lemma_total_fails(quantities: Seq<Quantity>, count: int, start: FixedDecimal)
    requires
        0 <= count <= quantities.len(),
        total_quantity(quantities.take(count), start) is None,
    ensures
        total_quantity(quantities, start) is None,
    decreases quantities.len() - count,
{
    if count < quantities.len() {
        assert(quantities.take(count + 1).drop_last() =~= quantities.take(count));
        lemma_total_fails(quantities, count + 1, start);
    } else {
        assert(quantities.take(count) =~= quantities);
    }
}

fn has_empty_level(quantities: &Vec<Quantity>) -> (answer: bool)
    ensures
        answer == some_level_empty(quantities@),
{
    let mut i: usize = 0;
    while i < quantities.len()
        invariant
            i <= quantities@.len(),
            forall|k: int| 0 <= k < i ==> (#[trigger] quantities@[k]).units() != 0,
        decreases quantities.len() - i,
    {
        if quantities[i].value().is_zero() {
            proof {
                assert(quantities@[i as int].units() == 0);
            }
            return true;
        }
        i += 1;
    }
    false
}

/// A level's distance from the inside in ticks, and the depth up to it.
#[derive(Clone, Copy, Debug, PartialEq, Eq, Structural)]
pub struct ShapePoint {
    pub ticks: FixedDecimal,
    pub cumulative_depth: FixedDecimal,
}

/// The distance of a price from the inside, away from the other side of the book.
pub open spec fn outward_distance(inside: Price, price: Price, descending: bool) -> Option<
    FixedDecimal,
> {
    if descending {
        inside.amount().minus(price.amount())
    } else {
        price.amount().minus(inside.amount())
    }
}

fn outward(inside: Price, price: Price, descending: bool) -> (result: Result<
    FixedDecimal,
    FeatureComputationError,
>)
    ensures
        result == exact(outward_distance(inside, price, descending)),
{
    if descending {
        difference_exact(inside.value(), price.value())
    } else {
        difference_exact(price.value(), inside.value())
    }
}

/// A distance as a whole number of ticks that is not negative.
pub open spec fn whole_ticks(distance: Option<FixedDecimal>, tick: Price) -> Option<FixedDecimal> {
    match distance {
        None => None,
        Some(distance) => match distance.over(tick.amount()) {
            None => None,
            Some(ticks) => if ticks.is_whole() && ticks.units() >= 0 {
                Some(ticks)
            } else {
                None
            },
        },
    }
}

/// The points of a side's cumulative depth curve, where every step is exact.
pub open spec fn shape_points(levels: Seq<BookLevel>, tick: Price, descending: bool) -> Option<
    (Seq<ShapePoint>, FixedDecimal),
>
    decreases levels.len(),
{
    if levels.len() == 0 {
        Some((Seq::empty(), nothing()))
    } else {
        match shape_points(levels.drop_last(), tick, descending) {
            None => None,
            Some((points, depth)) => {
                let level = levels.last();
                let ticks = whole_ticks(
                    outward_distance(levels[0].price, level.price, descending),
                    tick,
                );
                match (ticks, depth.plus(level.quantity.amount())) {
                    (Some(ticks), Some(cumulative_depth)) => Some(
                        (points.push(ShapePoint { ticks, cumulative_depth }), cumulative_depth),
                    ),
                    _ => None,
                }
            },
        }
    }
}

proof fn lemma_shape_fails(levels: Seq<BookLevel>, count: int, tick: Price, descending: bool)
    requires
        0 < count <= levels.len(),
        shape_points(levels.take(count), tick, descending) is None,
    ensures
        shape_points(levels, tick, descending) is None,
    decreases levels.len() - count,
{
    if count < levels.len() {
        assert(levels.take(count + 1).drop_last() =~= levels.take(count));
        lemma_shape_fails(levels, count + 1, tick, descending);
    } else {
        assert(levels.take(count) =~= levels);
    }
}

/// The points of one side's cumulative depth curve.
fn side_shape(
    levels: &Vec<BookLevel>,
    level_count: usize,
    price_tick: Price,
    descending: bool,
) -> (result: Result<Vec<ShapePoint>, FeatureComputationError>)
    requires
        0 < level_count <= levels@.len(),
    ensures
        match shape_points(levels@.take(level_count as int), price_tick, descending) {
            None => result is Err && result->Err_0 == FeatureComputationError::InvalidInput,
            Some((points, _)) => result is Ok && result->Ok_0@ == points,
        },
{
    let ghost side = levels@.take(level_count as int);
    let inside = levels[0].price;
    let mut points: Vec<ShapePoint> = Vec::new();
    let mut depth = FixedDecimal::zero();
    let mut i: usize = 0;
    proof {
        assert(side.take(0) =~= Seq::empty());
        assert(points@ =~= Seq::empty());
    }
    while i < level_count
        invariant
            i <= level_count <= levels@.len(),
            side == levels@.take(level_count as int),
            inside == levels@[0].price,
            shape_points(side.take(i as int), price_tick, descending) == Some((points@, depth)),
        decreases level_count - i,
    {
        let level = levels[i];
        proof {
            assert(side.take(i + 1).drop_last() =~= side.take(i as int));
            assert(side.take(i + 1).last() == level);
            assert(side.take(i + 1)[0] == levels@[0]);
            if shape_points(side.take(i + 1), price_tick, descending) is None {
                lemma_shape_fails(side, i + 1, price_tick, descending);
            }
        }
        let distance = outward(inside, level.price, descending)?;
        let ticks = match distance.checked_div_exact(price_tick.value()) {
            Err(_) => {
                return Err(FeatureComputationError::InvalidInput);
            },
            Ok(ticks) => ticks,
        };
        if ticks.scale() != 0 || ticks.is_negative() {
            return Err(FeatureComputationError::InvalidInput);
        }
        let cumulative_depth = sum_exact(depth, level.quantity.value())?;
        points.push(ShapePoint { ticks, cumulative_depth });
        depth = cumulative_depth;
        i += 1;
    }
    proof {
        assert(side.take(level_count as int) =~= side);
    }
    Ok(points)
}

fn require_book_shape_level_count(level_count: usize) -> (result: Result<
    (),
    FeatureComputationError,
>)
    ensures
        result == if 3 <= level_count <= MAX_BOOK_SHAPE_LEVELS {
            Ok::<(), FeatureComputationError>(())
        } else {
            Err(FeatureComputationError::InvalidParameter)
        },
{
    if 3 <= level_count && level_count <= MAX_BOOK_SHAPE_LEVELS {
        Ok(())
    } else {
        Err(FeatureComputationError::InvalidParameter)
    }
}

/// The points of one side's depth curve, or why it has none.
pub open spec fn side_curve(
    book: BookSnapshotView,
    levels: Seq<BookLevel>,
    tick: Price,
    level_count: usize,
    descending: bool,
) -> Result<Seq<ShapePoint>, FeatureComputationError> {
    match book_refusal(book) {
        Some(error) => Err(error),
        None => if !(3 <= level_count <= MAX_BOOK_SHAPE_LEVELS) {
            Err(FeatureComputationError::InvalidParameter)
        } else if levels.len() < level_count {
            Err(FeatureComputationError::InsufficientHistory)
        } else {
            match shape_points(levels.take(level_count as int), tick, descending) {
                None => Err(FeatureComputationError::InvalidInput),
                Some((points, _)) => Ok(points),
            }
        },
    }
}

/// The points of the bid side's depth curve, or why it has none.
pub open spec fn bid_curve(book: BookSnapshotView, tick: Price, level_count: usize) -> Result<
    Seq<ShapePoint>,
    FeatureComputationError,
> {
    side_curve(book, book.bids@, tick, level_count, true)
}

/// The points of the ask side's depth curve, or why it has none.
pub open spec fn ask_curve(book: BookSnapshotView, tick: Price, level_count: usize) -> Result<
    Seq<ShapePoint>,
    FeatureComputationError,
> {
    side_curve(book, book.asks@, tick, level_count, false)
}

/// What a curve computation returned, by its contents.
pub open spec fn curve_outcome(
    result: Result<Vec<ShapePoint>, FeatureComputationError>,
) -> Result<Seq<ShapePoint>, FeatureComputationError> {
    match result {
        Ok(points) => Ok(points@),
        Err(error) => Err(error),
    }
}

/// The points that the bid side's quadratic shape is fitted to.
pub fn bid_book_shape_quadratic(
    book: &BookSnapshotView,
    price_tick: Price,
    level_count: usize,
) -> (result: Result<Vec<ShapePoint>, FeatureComputationError>)
    ensures
        curve_outcome(result) == side_curve(*book, book.bids@, price_tick, level_count, true),
        curve_outcome(result) == bid_curve(*book, price_tick, level_count),
{
    require_normal_book(book)?;
    require_book_shape_level_count(level_count)?;
    if book.bids.len() < level_count {
        return Err(FeatureComputationError::InsufficientHistory);
    }
    side_shape(&book.bids, level_count, price_tick, true)
}

/// The points that the ask side's quadratic shape is fitted to.
pub fn ask_book_shape_quadratic(
    book: &BookSnapshotView,
    price_tick: Price,
    level_count: usize,
) -> (result: Result<Vec<ShapePoint>, FeatureComputationError>)
    ensures
        curve_outcome(result) == side_curve(*book, book.asks@, price_tick, level_count, false),
        curve_outcome(result) == ask_curve(*book, price_tick, level_count),
{
    require_normal_book(book)?;
    require_book_shape_level_count(level_count)?;
    if book.asks.len() < level_count {
        return Err(FeatureComputationError::InsufficientHistory);
    }
    side_shape(&book.asks, level_count, price_tick, false)
}

/// The fitted shape of one side, by its bit patterns.
#[derive(Clone, Copy, Debug, PartialEq, Eq, Structural)]
pub struct BookSideShape {
    pub slope_at_inside_bits: u64,
    pub convexity_bits: u64,
}

impl BookSideShape {
    pub fn from_bits(slope_at_inside_bits: u64, convexity_bits: u64) -> (result: Result<
        Self,
        FeatureComputationError,
    >)
        ensures
            result == match (finite_value(slope_at_inside_bits), finite_value(convexity_bits)) {
                (Ok(_), Ok(_)) => Ok::<Self, FeatureComputationError>(
                    (BookSideShape { slope_at_inside_bits, convexity_bits }),
                ),
                _ => Err(FeatureComputationError::AnalyticalUnavailable),
            },
    {
        finite(slope_at_inside_bits)?;
        finite(convexity_bits)?;
        Ok(BookSideShape { slope_at_inside_bits, convexity_bits })
    }
}

/// The fitted shapes of both sides.
#[derive(Clone, Copy, Debug, PartialEq, Eq, Structural)]
pub struct QuadraticBookShape {
    pub bid: BookSideShape,
    pub ask: BookSideShape,
}

impl QuadraticBookShape {
    pub fn bid(self) -> (shape: BookSideShape)
        ensures
            shape == self.bid,
    {
        self.bid
    }

    pub fn ask(self) -> (shape: BookSideShape)
        ensures
            shape == self.ask,
    {
        self.ask
    }
}

/// How many ticks lie between the levels of a side, and how many of them are empty.
#[derive(Clone, Copy, Debug, PartialEq, Eq, Structural)]
pub struct GapTicks {
    pub missing: u128,
    pub intervals: u128,
}

/// The ticks between two neighbouring levels, or why there is no such number.
pub open spec fn gap_between(
    inner: BookLevel,
    outer: BookLevel,
    tick: Price,
    descending: bool,
) -> Result<int, FeatureComputationError> {
    match outward_distance(inner.price, outer.price, descending) {
        None => Err(FeatureComputationError::InvalidInput),
        Some(distance) => match distance.over(tick.amount()) {
            None => Err(FeatureComputationError::InvalidParameter),
            Some(ticks) => if ticks.is_whole() && ticks.units() > 0 {
                Ok(ticks.digits())
            } else {
                Err(FeatureComputationError::InvalidParameter)
            },
        },
    }
}

/// The gaps between the first levels of a side, or why they cannot be counted.
pub open spec fn gap_totals(levels: Seq<BookLevel>, tick: Price, descending: bool) -> Result<
    (int, int),
    FeatureComputationError,
>
    decreases levels.len(),
{
    if levels.len() <= 1 {
        Ok((0, 0))
    } else {
        match gap_totals(levels.drop_last(), tick, descending) {
            Err(error) => Err(error),
            Ok((missing, intervals)) => match gap_between(
                levels[levels.len() - 2],
                levels.last(),
                tick,
                descending,
            ) {
                Err(error) => Err(error),
                Ok(ticks) => if intervals + ticks > u128::MAX {
                    Err(FeatureComputationError::CapacityExceeded)
                } else {
                    Ok((missing + ticks - 1, intervals + ticks))
                },
            },
        }
    }
}

proof fn lemma_gaps_fail(
    levels: Seq<BookLevel>,
    count: int,
    tick: Price,
    descending: bool,
    error: FeatureComputationError,
)
    requires
        0 < count <= levels.len(),
        gap_totals(levels.take(count), tick, descending) == Err::<
            (int, int),
            FeatureComputationError,
        >(error),
    ensures
        gap_totals(levels, tick, descending) == Err::<(int, int), FeatureComputationError>(error),
    decreases levels.len() - count,
{
    if count < levels.len() {
        assert(levels.take(count + 1).drop_last() =~= levels.take(count));
        lemma_gaps_fail(levels, count + 1, tick, descending, error);
    } else {
        assert(levels.take(count) =~= levels);
    }
}

/// The gaps of one side of a fit book, or why they cannot be counted.
pub open spec fn side_gaps(
    book: BookSnapshotView,
    levels: Seq<BookLevel>,
    tick: Price,
    descending: bool,
) -> Result<(int, int), FeatureComputationError> {
    match book_refusal(book) {
        Some(error) => Err(error),
        None => if levels.len() < 2 {
            Err(FeatureComputationError::InsufficientHistory)
        } else {
            gap_totals(levels, tick, descending)
        },
    }
}

fn side_gap_density(levels: &Vec<BookLevel>, price_tick: Price, descending: bool) -> (result: Result<
    GapTicks,
    FeatureComputationError,
>)
    ensures
        levels@.len() < 2 ==> result is Err && result->Err_0
            == FeatureComputationError::InsufficientHistory,
        levels@.len() >= 2 ==> match gap_totals(levels@, price_tick, descending) {
            Err(error) => result is Err && result->Err_0 == error,
            Ok((missing, intervals)) => result is Ok && result->Ok_0.missing == missing
                && result->Ok_0.intervals == intervals && intervals > missing >= 0,
        },
{
    if levels.len() < 2 {
        return Err(FeatureComputationError::InsufficientHistory);
    }
    let mut missing: u128 = 0;
    let mut intervals: u128 = 0;
    let mut i: usize = 1;
    while i < levels.len()
        invariant
            1 <= i <= levels@.len(),
            gap_totals(levels@.take(i as int), price_tick, descending) == Ok::<
                (int, int),
                FeatureComputationError,
            >((missing as int, intervals as int)),
            i > 1 ==> missing < intervals,
            missing <= intervals,
        decreases levels.len() - i,
    {
        let inner = levels[i - 1];
        let outer = levels[i];
        let ghost longer = levels@.take(i + 1);
        proof {
            assert(longer.drop_last() =~= levels@.take(i as int));
            assert(longer.last() == outer);
            assert(longer[longer.len() - 2] == inner);
            if gap_totals(longer, price_tick, descending) is Err {
                lemma_gaps_fail(
                    levels@,
                    i + 1,
                    price_tick,
                    descending,
                    gap_totals(longer, price_tick, descending)->Err_0,
                );
            }
        }
        let distance = outward(inner.price, outer.price, descending)?;
        let ticks = match distance.checked_div_exact(price_tick.value()) {
            Err(_) => {
                return Err(FeatureComputationError::InvalidParameter);
            },
            Ok(ticks) => ticks,
        };
        if ticks.scale() != 0 || !ticks.is_positive() {
            return Err(FeatureComputationError::InvalidParameter);
        }
        let count: u128 = ticks.whole_magnitude();
        let more: u128 = match intervals.checked_add(count) {
            None => {
                return Err(FeatureComputationError::CapacityExceeded);
            },
            Some(more) => more,
        };
        missing = missing + (count - 1);
        intervals = more;
        i += 1;
    }
    proof {
        assert(levels@.take(levels@.len() as int) =~= levels@);
    }
    Ok(GapTicks { missing, intervals })
}

/// The gaps of the bid side, or why they cannot be counted.
pub open spec fn bid_gaps(book: BookSnapshotView, tick: Price) -> Result<
    (int, int),
    FeatureComputationError,
> {
    side_gaps(book, book.bids@, tick, true)
}

/// The gaps of the ask side, or why they cannot be counted.
pub open spec fn ask_gaps(book: BookSnapshotView, tick: Price) -> Result<
    (int, int),
    FeatureComputationError,
> {
    side_gaps(book, book.asks@, tick, false)
}

/// What a gap count returned, by its contents.
pub open spec fn gap_outcome(result: Result<GapTicks, FeatureComputationError>) -> Result<
    (int, int),
    FeatureComputationError,
> {
    match result {
        Ok(gaps) => Ok((gaps.missing as int, gaps.intervals as int)),
        Err(error) => Err(error),
    }
}

/// The gaps of the bid side.
pub fn bid_level_gap_density(book: &BookSnapshotView, price_tick: Price) -> (result: Result<
    GapTicks,
    FeatureComputationError,
>)
    ensures
        gap_outcome(result) == side_gaps(*book, book.bids@, price_tick, true),
        gap_outcome(result) == bid_gaps(*book, price_tick),
{
    require_normal_book(book)?;
    side_gap_density(&book.bids, price_tick, true)
}

/// The gaps of the ask side.
pub fn ask_level_gap_density(book: &BookSnapshotView, price_tick: Price) -> (result: Result<
    GapTicks,
    FeatureComputationError,
>)
    ensures
        gap_outcome(result) == side_gaps(*book, book.asks@, price_tick, false),
        gap_outcome(result) == ask_gaps(*book, price_tick),
{
    require_normal_book(book)?;
    side_gap_density(&book.asks, price_tick, false)
}

/// The share of empty ticks on each side, by its bit pattern.
#[derive(Clone, Copy, Debug, PartialEq, Eq, Structural)]
pub struct LevelGapDensity {
    pub bid_bits: u64,
    pub ask_bits: u64,
}

/// The gaps of both sides.
pub fn level_gap_density(book: &BookSnapshotView, price_tick: Price) -> (result: Result<
    (GapTicks, GapTicks),
    FeatureComputationError,
>)
    ensures
        match (
            side_gaps(*book, book.bids@, price_tick, true),
            side_gaps(*book, book.asks@, price_tick, false),
        ) {
            (Err(error), _) => result is Err && result->Err_0 == error,
            (Ok(_), Err(error)) => result is Err && result->Err_0 == error,
            (Ok(bid), Ok(ask)) => result is Ok && (
                result->Ok_0.0.missing as int,
                result->Ok_0.0.intervals as int,
            ) == bid && (result->Ok_0.1.missing as int, result->Ok_0.1.intervals as int) == ask,
        },
        result is Ok ==> bid_gaps(*book, price_tick) is Ok && ask_gaps(*book, price_tick) is Ok,
{
    let bid = bid_level_gap_density(book, price_tick)?;
    let ask = ask_level_gap_density(book, price_tick)?;
    Ok((bid, ask))
}

/// The distance of each side's nearest wall in basis points, by its bit pattern.
#[derive(Clone, Copy, Debug, PartialEq, Eq, Structural)]
pub struct LiquidityWallDistances {
    pub bid_bits: Option<u64>,
    pub ask_bits: Option<u64>,
}

/// The first level of a side whose notional is material, where every notional up to it is exact.
pub open spec fn first_material(levels: Seq<BookLevel>, material: FixedDecimal) -> Result<
    Option<BookLevel>,
    FeatureComputationError,
>
    decreases levels.len(),
{
    if levels.len() == 0 {
        Ok(None)
    } else {
        match notional_of(levels[0]) {
            None => Err(FeatureComputationError::InvalidInput),
            Some(notional) => if notional.units() >= material.units() {
                Ok(Some(levels[0]))
            } else {
                first_material(levels.drop_first(), material)
            },
        }
    }
}

/// The distance of a side's nearest wall from a reference price.
pub open spec fn wall_distance(
    levels: Seq<BookLevel>,
    reference: Price,
    material: FixedDecimal,
) -> Result<Option<FixedDecimal>, FeatureComputationError> {
    match first_material(levels, material) {
        Err(error) => Err(error),
        Ok(None) => Ok(None),
        Ok(Some(level)) => {
            let distance = if level.price.units() >= reference.units() {
                level.price.amount().minus(reference.amount())
            } else {
                reference.amount().minus(level.price.amount())
            };
            match distance {
                None => Err(FeatureComputationError::InvalidInput),
                Some(distance) => Ok(Some(distance)),
            }
        },
    }
}

fn nearest_material_wall(
    levels: &Vec<BookLevel>,
    reference_price: Price,
    material_quote_notional: FixedDecimal,
) -> (result: Result<Option<FixedDecimal>, FeatureComputationError>)
    ensures
        result == wall_distance(levels@, reference_price, material_quote_notional),
{
    let mut i: usize = 0;
    proof {
        assert(levels@.skip(0) =~= levels@);
    }
    while i < levels.len()
        invariant
            i <= levels@.len(),
            first_material(levels@, material_quote_notional) == first_material(
                levels@.skip(i as int),
                material_quote_notional,
            ),
        decreases levels.len() - i,
    {
        let level = levels[i];
        proof {
            assert(levels@.skip(i as int)[0] == level);
            assert(levels@.skip(i as int).drop_first() =~= levels@.skip(i + 1));
        }
        let notional = level_notional(&level)?;
        if !notional.less_than(&material_quote_notional) {
            let distance = if level.price.is_below(&reference_price) {
                difference_exact(reference_price.value(), level.price.value())?
            } else {
                difference_exact(level.price.value(), reference_price.value())?
            };
            return Ok(Some(distance));
        }
        i += 1;
    }
    Ok(None)
}

/// The distances of both sides' nearest walls, or why there are none.
pub open spec fn wall_distances(
    book: BookSnapshotView,
    reference: Price,
    material: FixedDecimal,
) -> Result<(Option<FixedDecimal>, Option<FixedDecimal>), FeatureComputationError> {
    match spot_refusal(book) {
        Some(error) => Err(error),
        None => if material.units() <= 0 {
            Err(FeatureComputationError::InvalidParameter)
        } else {
            match (
                wall_distance(book.bids@, reference, material),
                wall_distance(book.asks@, reference, material),
            ) {
                (Err(error), _) => Err(error),
                (Ok(_), Err(error)) => Err(error),
                (Ok(bid), Ok(ask)) => Ok((bid, ask)),
            }
        },
    }
}

/// The exact distances of both sides' nearest walls from a reference price.
pub fn liquidity_wall_distance_bps(
    book: &BookSnapshotView,
    reference_price: Price,
    material_quote_notional: FixedDecimal,
) -> (result: Result<
    (Option<FixedDecimal>, Option<FixedDecimal>),
    FeatureComputationError,
>)
    ensures
        result == wall_distances(*book, reference_price, material_quote_notional),
{
    require_spot_book(book)?;
    if !material_quote_notional.is_positive() {
        return Err(FeatureComputationError::InvalidParameter);
    }
    let bid = nearest_material_wall(&book.bids, reference_price, material_quote_notional)?;
    let ask = nearest_material_wall(&book.asks, reference_price, material_quote_notional)?;
    Ok((bid, ask))
}

#[derive(Clone, Copy, Debug, PartialEq, Eq, Structural)]
pub enum SweepSide {
    Buy,
    Sell,
}

/// What a sweep takes: levels in full, and a part of one more.
#[derive(Debug)]
pub struct SweepPlan {
    pub executed_quote_notional: FixedDecimal,
    pub full_fills: Vec<Quantity>,
    /// The quote notional that is filled on one further level, and that level's price.
    pub partial_fill: Option<(FixedDecimal, Price)>,
}

/// The contents of a [`SweepPlan`].
pub struct SweepView {
    pub executed: FixedDecimal,
    pub full_fills: Seq<Quantity>,
    pub partial_fill: Option<(FixedDecimal, Price)>,
}

impl View for SweepPlan {
    type V = SweepView;

    open spec fn view(&self) -> SweepView {
        SweepView {
            executed: self.executed_quote_notional,
            full_fills: self.full_fills@,
            partial_fill: self.partial_fill,
        }
    }
}

/// The levels that a sweep eats into.
pub open spec fn swept_side(book: BookSnapshotView, side: SweepSide) -> Seq<BookLevel> {
    match side {
        SweepSide::Buy => book.asks@,
        SweepSide::Sell => book.bids@,
    }
}

/// Sweeps levels from the inside until nothing remains, or says why it cannot.
pub open spec fn swept(levels: Seq<BookLevel>, remaining: FixedDecimal, so_far: SweepView) -> Result<
    SweepView,
    FeatureComputationError,
>
    decreases levels.len(),
{
    if remaining.units() == 0 {
        Ok(so_far)
    } else if levels.len() == 0 {
        Err(FeatureComputationError::BelowLiquidityThreshold)
    } else {
        match notional_of(levels[0]) {
            None => Err(FeatureComputationError::InvalidInput),
            Some(available) => {
                let whole = remaining.units() >= available.units();
                let fill = if whole {
                    available
                } else {
                    remaining
                };
                match (so_far.executed.plus(fill), remaining.minus(fill)) {
                    (Some(executed), Some(rest)) => swept(
                        levels.drop_first(),
                        rest,
                        SweepView {
                            executed,
                            full_fills: if whole {
                                so_far.full_fills.push(levels[0].quantity)
                            } else {
                                so_far.full_fills
                            },
                            partial_fill: if whole {
                                so_far.partial_fill
                            } else {
                                Some((remaining, levels[0].price))
                            },
                        },
                    ),
                    _ => Err(FeatureComputationError::InvalidInput),
                }
            },
        }
    }
}

/// The sweep of a quote notional, or why the book does not carry it.
pub open spec fn sweep(
    book: BookSnapshotView,
    side: SweepSide,
    requested: FixedDecimal,
) -> Result<SweepView, FeatureComputationError> {
    match spot_refusal(book) {
        Some(error) => Err(error),
        None => if requested.units() <= 0 {
            Err(FeatureComputationError::InvalidParameter)
        } else {
            swept(
                swept_side(book, side),
                requested,
                SweepView {
                    executed: nothing(),
                    full_fills: Seq::empty(),
                    partial_fill: None,
                },
            )
        },
    }
}

/// What a sweep computation returned, by its contents.
pub open spec fn sweep_outcome(result: Result<SweepPlan, FeatureComputationError>) -> Result<
    SweepView,
    FeatureComputationError,
> {
    match result {
        Ok(plan) => Ok(plan@),
        Err(error) => Err(error),
    }
}

/// The fills whose average price is the expected cost of a sweep.
pub fn expected_sweep_cost(
    book: &BookSnapshotView,
    side: SweepSide,
    requested_quote_notional: FixedDecimal,
) -> (result: Result<SweepPlan, FeatureComputationError>)
    ensures
        sweep_outcome(result) == sweep(*book, side, requested_quote_notional),
{
    require_spot_book(book)?;
    if !requested_quote_notional.is_positive() {
        return Err(FeatureComputationError::InvalidParameter);
    }
    let levels = match side {
        SweepSide::Buy => &book.asks,
        SweepSide::Sell => &book.bids,
    };
    let mut remaining = requested_quote_notional;
    let mut executed_quote_notional = FixedDecimal::zero();
    let mut full_fills: Vec<Quantity> = Vec::new();
    let mut partial_fill: Option<(FixedDecimal, Price)> = None;
    let ghost start = SweepView {
        executed: nothing(),
        full_fills: Seq::empty(),
        partial_fill: None,
    };
    let mut i: usize = 0;
    proof {
        assert(levels@.skip(0) =~= levels@);
        assert(full_fills@ =~= Seq::empty());
    }
    while i < levels.len() && !remaining.is_zero()
        invariant
            i <= levels@.len(),
            levels@ == swept_side(*book, side),
            sweep(*book, side, requested_quote_notional) == swept(
                levels@.skip(i as int),
                remaining,
                SweepView {
                    executed: executed_quote_notional,
                    full_fills: full_fills@,
                    partial_fill,
                },
            ),
        decreases levels.len() - i,
    {
        let level = levels[i];
        proof {
            assert(levels@.skip(i as int)[0] == level);
            assert(levels@.skip(i as int).drop_first() =~= levels@.skip(i + 1));
        }
        let available = level_notional(&level)?;
        let whole: bool = !remaining.less_than(&available);
        let fill = if whole {
            available
        } else {
            remaining
        };
        let executed = sum_exact(executed_quote_notional, fill)?;
        let rest = difference_exact(remaining, fill)?;
        if whole {
            full_fills.push(level.quantity);
        } else {
            partial_fill = Some((remaining, level.price));
        }
        executed_quote_notional = executed;
        remaining = rest;
        i += 1;
    }
    if !remaining.is_zero() {
        return Err(FeatureComputationError::BelowLiquidityThreshold);
    }
    Ok(SweepPlan { executed_quote_notional, full_fills, partial_fill })
}

/// A successful sweep executes exactly what was requested.
pub proof fn lemma_sweeps_execute_what_was_requested(
    levels: Seq<BookLevel>,
    remaining: FixedDecimal,
    so_far: SweepView,
)
    requires
        swept(levels, remaining, so_far) is Ok,
        so_far.executed.places() <= crate::decimal::MAX_DECIMAL_SCALE,
        remaining.places() <= crate::decimal::MAX_DECIMAL_SCALE,
        forall|i: int|
            0 <= i < levels.len() ==> (
            #[trigger] levels[i]).price.amount().places() <= crate::decimal::MAX_DECIMAL_SCALE
                && levels[i].quantity.amount().places() <= crate::decimal::MAX_DECIMAL_SCALE,
    ensures
        swept(levels, remaining, so_far)->Ok_0.executed.units() == so_far.executed.units()
            + remaining.units(),
    decreases levels.len(),
{
    if remaining.units() != 0 {
        let level = levels[0];
        let available = notional_of(level)->Some_0;
        let whole = remaining.units() >= available.units();
        let fill = if whole {
            available
        } else {
            remaining
        };
        let executed = so_far.executed.plus(fill)->Some_0;
        let rest = remaining.minus(fill)->Some_0;
        crate::decimal::lemma_decimal_of_units_places(
            level.price.amount().units() * level.quantity.amount().units() / unit(),
        );
        crate::decimal::lemma_plus_units(so_far.executed, fill);
        crate::decimal::lemma_minus_units(remaining, fill);
        crate::decimal::lemma_decimal_of_units_places(
            so_far.executed.units() + fill.units(),
        );
        crate::decimal::lemma_decimal_of_units_places(remaining.units() - fill.units());
        let next = SweepView {
            executed,
            full_fills: if whole {
                so_far.full_fills.push(level.quantity)
            } else {
                so_far.full_fills
            },
            partial_fill: if whole {
                so_far.partial_fill
            } else {
                Some((remaining, level.price))
            },
        };
        assert forall|i: int| 0 <= i < levels.drop_first().len() implies (
        #[trigger] levels.drop_first()[i]).price.amount().places()
            <= crate::decimal::MAX_DECIMAL_SCALE && levels.drop_first()[i].quantity.amount().places()
            <= crate::decimal::MAX_DECIMAL_SCALE by {
            assert(levels.drop_first()[i] == levels[i + 1]);
        }
        lemma_sweeps_execute_what_was_requested(levels.drop_first(), rest, next);
    }
}

/// The notional of the levels up to a price limit, on top of what is there; nothing where a step
/// is not a decimal.
pub open spec fn notional_within(
    levels: Seq<BookLevel>,
    side: SweepSide,
    lower: FixedDecimal,
    upper: FixedDecimal,
    so_far: FixedDecimal,
) -> Option<FixedDecimal>
    decreases levels.len(),
{
    if levels.len() == 0 {
        Some(so_far)
    } else {
        match scaled_price(levels[0]) {
            None => None,
            Some(scaled) => {
                let within = match side {
                    SweepSide::Buy => scaled.units() <= upper.units(),
                    SweepSide::Sell => scaled.units() >= lower.units(),
                };
                if !within {
                    Some(so_far)
                } else {
                    match notional_of(levels[0]) {
                        None => None,
                        Some(own) => match so_far.plus(own) {
                            None => None,
                            Some(more) => notional_within(
                                levels.drop_first(),
                                side,
                                lower,
                                upper,
                                more,
                            ),
                        },
                    }
                }
            },
        }
    }
}

/// The notional that can be executed within a slippage limit, or why there is none.
pub open spec fn executable_notional(
    book: BookSnapshotView,
    side: SweepSide,
    limit_bps: u32,
    reference: Price,
) -> Result<FixedDecimal, FeatureComputationError> {
    match (spot_refusal(book), price_bounds(reference, limit_bps)) {
        (Some(error), _) => Err(error),
        (None, Err(error)) => Err(error),
        (None, Ok((lower, upper))) => exact(
            notional_within(swept_side(book, side), side, lower, upper, nothing()),
        ),
    }
}

pub fn maximum_executable_quote_notional(
    book: &BookSnapshotView,
    side: SweepSide,
    slippage_limit_bps: u32,
    reference_price: Price,
) -> (result: Result<FixedDecimal, FeatureComputationError>)
    ensures
        result == executable_notional(*book, side, slippage_limit_bps, reference_price),
{
    require_spot_book(book)?;
    let (lower, upper) = scaled_price_bounds(reference_price, slippage_limit_bps)?;
    let denominator = FixedDecimal::whole(10_000);
    let levels = match side {
        SweepSide::Buy => &book.asks,
        SweepSide::Sell => &book.bids,
    };
    let mut executable = FixedDecimal::zero();
    let mut i: usize = 0;
    proof {
        assert(levels@.skip(0) =~= levels@);
    }
    while i < levels.len()
        invariant
            i <= levels@.len(),
            denominator == basis_points(),
            executable_notional(*book, side, slippage_limit_bps, reference_price) == exact(
                notional_within(levels@.skip(i as int), side, lower, upper, executable),
            ),
        decreases levels.len() - i,
    {
        let level = levels[i];
        proof {
            assert(levels@.skip(i as int)[0] == level);
            assert(levels@.skip(i as int).drop_first() =~= levels@.skip(i + 1));
        }
        let scaled = product_exact(level.price.value(), denominator)?;
        let within: bool = match side {
            SweepSide::Buy => !upper.less_than(&scaled),
            SweepSide::Sell => !scaled.less_than(&lower),
        };
        if !within {
            return Ok(executable);
        }
        let own = level_notional(&level)?;
        executable = sum_exact(executable, own)?;
        i += 1;
    }
    Ok(executable)
}

/// The points that the quadratic shapes of both sides are fitted to, bids first.
pub fn book_shape_quadratic(book: &BookSnapshotView, price_tick: Price, level_count: usize) -> (result:
    Result<(Vec<ShapePoint>, Vec<ShapePoint>), FeatureComputationError>)
    ensures
        match (
            side_curve(*book, book.bids@, price_tick, level_count, true),
            side_curve(*book, book.asks@, price_tick, level_count, false),
        ) {
            (Err(error), _) => result is Err && result->Err_0 == error,
            (Ok(_), Err(error)) => result is Err && result->Err_0 == error,
            (Ok(bid), Ok(ask)) => result is Ok && result->Ok_0.0@ == bid && result->Ok_0.1@ == ask,
        },
        result is Ok ==> bid_curve(*book, price_tick, level_count) is Ok && ask_curve(
            *book,
            price_tick,
            level_count,
        ) is Ok,
{
    let bid = bid_book_shape_quadratic(book, price_tick, level_count)?;
    let ask = ask_book_shape_quadratic(book, price_tick, level_count)?;
    Ok((bid, ask))
}

/// What a sweep costs: its exact notional, and by bit patterns the base quantity that it is
/// expected to fill, its average price and its cost relative to a reference price.
#[derive(Clone, Copy, Debug, PartialEq, Eq, Structural)]
pub struct SweepCost {
    pub executed_quote_notional: FixedDecimal,
    pub estimated_base_quantity_bits: u64,
    pub estimated_average_price_bits: u64,
    pub relative_cost_bits: u64,
}

impl SweepCost {
    /// The cost of a planned sweep as measured, where each part is finite.
    pub fn from_plan(
        plan: &SweepPlan,
        estimated_base_quantity_bits: u64,
        estimated_average_price_bits: u64,
        relative_cost_bits: u64,
    ) -> (result: Result<Self, FeatureComputationError>)
        ensures
            result == if finite_value(estimated_base_quantity_bits) is Ok && finite_value(
                estimated_average_price_bits,
            ) is Ok && finite_value(relative_cost_bits) is Ok {
                Ok::<Self, FeatureComputationError>(
                    (SweepCost {
                        executed_quote_notional: plan@.executed,
                        estimated_base_quantity_bits,
                        estimated_average_price_bits,
                        relative_cost_bits,
                    }),
                )
            } else {
                Err(FeatureComputationError::AnalyticalUnavailable)
            },
    {
        finite(estimated_base_quantity_bits)?;
        finite(estimated_average_price_bits)?;
        finite(relative_cost_bits)?;
        Ok(
            SweepCost {
                executed_quote_notional: plan.executed_quote_notional,
                estimated_base_quantity_bits,
                estimated_average_price_bits,
                relative_cost_bits,
            },
        )
    }

    pub fn executed_quote_notional(self) -> (notional: FixedDecimal)
        ensures
            notional == self.executed_quote_notional,
    {
        self.executed_quote_notional
    }
}

/// What holds of every level of a book.
pub open spec fn level_is_valid(level: BookLevel) -> bool {
    level.price.is_valid() && level.quantity.is_valid()
}

/// Every level of a list is valid.
pub open spec fn levels_are_valid(levels: Seq<BookLevel>) -> bool {
    forall|i: int| 0 <= i < levels.len() ==> level_is_valid(#[trigger] levels[i])
}

/// Both sides of a book hold valid levels.
pub open spec fn book_is_valid(book: BookSnapshotView) -> bool {
    levels_are_valid(book.bids@) && levels_are_valid(book.asks@)
}

/// The levels of a side lead away from the other side: bids go down and asks go up.
pub open spec fn leads_outward(levels: Seq<BookLevel>, bids: bool) -> bool {
    forall|i: int, j: int|
        0 <= i < j < levels.len() ==> if bids {
            (#[trigger] levels[i]).price.units() >= (#[trigger] levels[j]).price.units()
        } else {
            levels[i].price.units() <= levels[j].price.units()
        }
}

/// The quantities of levels, in units.
pub open spec fn quantity_units(levels: Seq<BookLevel>) -> Seq<int> {
    Seq::new(levels.len(), |i: int| levels[i].quantity.units())
}

/// Price times quantity of a level, in units of units.
pub open spec fn worth(level: BookLevel) -> int {
    level.price.units() * level.quantity.units()
}

/// Price times quantity of levels, in units of units.
pub open spec fn worths(levels: Seq<BookLevel>) -> Seq<int> {
    Seq::new(levels.len(), |i: int| worth(levels[i]))
}

/// A level's price differs from the reference by no more than so many ten-thousandths of it.
pub open spec fn lies_in_band(level: BookLevel, reference: Price, band_bps: u32) -> bool {
    &&& 10_000 * (level.price.units() - reference.units()) <= band_bps * reference.units()
    &&& 10_000 * (reference.units() - level.price.units()) <= band_bps * reference.units()
}

/// The quantities of the levels in a band, and nothing for the others.
pub open spec fn quantities_in_band(
    levels: Seq<BookLevel>,
    reference: Price,
    band_bps: u32,
) -> Seq<int> {
    Seq::new(
        levels.len(),
        |i: int|
            if lies_in_band(levels[i], reference, band_bps) {
                levels[i].quantity.units()
            } else {
                0
            },
    )
}

/// Price times quantity of the levels in a band, and nothing for the others.
pub open spec fn worths_in_band(levels: Seq<BookLevel>, reference: Price, band_bps: u32) -> Seq<
    int,
> {
    Seq::new(
        levels.len(),
        |i: int|
            if lies_in_band(levels[i], reference, band_bps) {
                worth(levels[i])
            } else {
                0
            },
    )
}

proof fn lemma_rest_is_valid(levels: Seq<BookLevel>, bids: bool)
    requires
        levels.len() > 0,
        levels_are_valid(levels),
    ensures
        levels_are_valid(levels.drop_first()),
        levels_are_valid(levels.drop_last()),
        leads_outward(levels, bids) ==> leads_outward(levels.drop_first(), bids),
{
    let rest = levels.drop_first();
    assert forall|i: int| 0 <= i < rest.len() implies level_is_valid(#[trigger] rest[i]) by {
        assert(rest[i] == levels[i + 1]);
    }
    let front = levels.drop_last();
    assert forall|i: int| 0 <= i < front.len() implies level_is_valid(#[trigger] front[i]) by {
        assert(front[i] == levels[i]);
    }
    if leads_outward(levels, bids) {
        assert forall|i: int, j: int| 0 <= i < j < rest.len() implies if bids {
            (#[trigger] rest[i]).price.units() >= (#[trigger] rest[j]).price.units()
        } else {
            rest[i].price.units() <= rest[j].price.units()
        } by {
            assert(rest[i] == levels[i + 1] && rest[j] == levels[j + 1]);
        }
    }
}

proof fn lemma_level_arithmetic(level: BookLevel)
    requires
        level_is_valid(level),
    ensures
        scaled_price(level) is Some ==> scaled_price(level)->Some_0.units() == 10_000
            * level.price.units() && scaled_price(level)->Some_0.in_scale(),
        notional_of(level) is Some ==> notional_of(level)->Some_0.units() * unit() == worth(level)
            && notional_of(level)->Some_0.in_scale() && notional_of(level)->Some_0.units() >= 0,
        worth(level) >= 0,
        unit() > 0,
{
    lemma_exact_arithmetic(level.price.amount(), level.quantity.amount());
    if scaled_price(level) is Some {
        lemma_times_whole(level.price.amount(), 10_000);
    }
    assert(worth(level) >= 0) by (nonlinear_arith)
        requires
            level.price.units() > 0,
            level.quantity.units() >= 0,
            worth(level) == level.price.units() * level.quantity.units(),
    ;
    if notional_of(level) is Some {
        let notional = notional_of(level)->Some_0.units();
        assert(notional >= 0) by (nonlinear_arith)
            requires
                notional * unit() == worth(level),
                worth(level) >= 0,
                unit() > 0,
        ;
    }
}

/// The bounds of a band lie as many ten-thousandths below and above the reference price as the band
/// is wide.
pub proof fn lemma_bands_surround_their_reference(reference: Price, band_bps: u32)
    requires
        reference.is_valid(),
        price_bounds(reference, band_bps) is Ok,
    ensures
        ({
            let (lower, upper) = price_bounds(reference, band_bps)->Ok_0;
            &&& lower.units() == 10_000 * reference.units() - band_bps * reference.units()
            &&& upper.units() == 10_000 * reference.units() + band_bps * reference.units()
            &&& lower.in_scale() && upper.in_scale()
            &&& band_bps <= 10_000
        }),
{
    lemma_times_whole(reference.amount(), 10_000 - band_bps);
    lemma_times_whole(reference.amount(), 10_000 + band_bps);
    let r = reference.units();
    let b = band_bps as int;
    assert(r * (10_000 - b) == 10_000 * r - b * r) by (nonlinear_arith);
    assert(r * (10_000 + b) == 10_000 * r + b * r) by (nonlinear_arith);
}

proof fn lemma_band_depth_sums(
    levels: Seq<BookLevel>,
    reference: Price,
    band_bps: u32,
    lower: FixedDecimal,
    upper: FixedDecimal,
    bids: bool,
    quantity: FixedDecimal,
    notional: FixedDecimal,
)
    requires
        levels_are_valid(levels),
        leads_outward(levels, bids),
        lower.units() == 10_000 * reference.units() - band_bps * reference.units(),
        upper.units() == 10_000 * reference.units() + band_bps * reference.units(),
        quantity.in_scale(),
        notional.in_scale(),
        band_depth(levels, lower, upper, bids, quantity, notional) is Some,
    ensures
        ({
            let depth = band_depth(levels, lower, upper, bids, quantity, notional)->Some_0;
            &&& depth.0.in_scale() && depth.1.in_scale()
            &&& depth.0.units() == quantity.units() + sum_of(
                quantities_in_band(levels, reference, band_bps),
            )
            &&& depth.1.units() * unit() == notional.units() * unit() + sum_of(
                worths_in_band(levels, reference, band_bps),
            )
        }),
    decreases levels.len(),
{
    if levels.len() > 0 {
        let level = levels[0];
        let rest = levels.drop_first();
        let amounts = quantities_in_band(levels, reference, band_bps);
        let sizes = worths_in_band(levels, reference, band_bps);
        lemma_rest_is_valid(levels, bids);
        assert(level_is_valid(level));
        lemma_level_arithmetic(level);
        assert(amounts.drop_first() =~= quantities_in_band(rest, reference, band_bps));
        assert(sizes.drop_first() =~= worths_in_band(rest, reference, band_bps));
        let scaled = scaled_price(level)->Some_0;
        match band_place(scaled, lower, upper, bids) {
            BandPlace::Behind => {
                assert forall|i: int| 0 <= i < levels.len() implies !lies_in_band(
                    #[trigger] levels[i],
                    reference,
                    band_bps,
                ) by {
                    if i > 0 {
                        assert(leads_outward(levels, bids));
                        if bids {
                            assert(levels[0].price.units() >= levels[i].price.units());
                        } else {
                            assert(levels[0].price.units() <= levels[i].price.units());
                        }
                    }
                }
                lemma_sum_of_zeros(amounts);
                lemma_sum_of_zeros(sizes);
            },
            BandPlace::Before => {
                lemma_band_depth_sums(
                    rest,
                    reference,
                    band_bps,
                    lower,
                    upper,
                    bids,
                    quantity,
                    notional,
                );
            },
            BandPlace::Within => {
                let own = notional_of(level)->Some_0;
                let more = quantity.plus(level.quantity.amount())->Some_0;
                let all = notional.plus(own)->Some_0;
                lemma_exact_arithmetic(quantity, level.quantity.amount());
                lemma_exact_arithmetic(notional, own);
                assert(lies_in_band(level, reference, band_bps));
                lemma_band_depth_sums(
                    rest,
                    reference,
                    band_bps,
                    lower,
                    upper,
                    bids,
                    more,
                    all,
                );
                assert(all.units() * unit() == notional.units() * unit() + own.units() * unit())
                    by (nonlinear_arith)
                    requires
                        all.units() == notional.units() + own.units(),
                ;
            },
        }
    }
}

/// The depth of a band is the quantity and the worth of the levels that lie in it, bids by the
/// bids and asks by the asks: those, and no others, whose price differs from the reference by no
/// more than the band.
pub proof fn lemma_depth_is_what_lies_in_the_band(
    book: BookSnapshotView,
    reference: Price,
    band_bps: u32,
)
    requires
        reference.is_valid(),
        book_is_valid(book),
        leads_outward(book.bids@, true),
        leads_outward(book.asks@, false),
        depth_in_band(book, reference, band_bps) is Ok,
    ensures
        ({
            let depth = depth_in_band(book, reference, band_bps)->Ok_0;
            &&& depth.0.units() == sum_of(quantities_in_band(book.bids@, reference, band_bps))
            &&& depth.1.units() * unit() == sum_of(worths_in_band(book.bids@, reference, band_bps))
            &&& depth.2.units() == sum_of(quantities_in_band(book.asks@, reference, band_bps))
            &&& depth.3.units() * unit() == sum_of(worths_in_band(book.asks@, reference, band_bps))
            &&& depth.0.in_scale() && depth.1.in_scale() && depth.2.in_scale()
                && depth.3.in_scale()
            &&& 0 < band_bps <= 10_000
        }),
{
    lemma_zero_units();
    lemma_bands_surround_their_reference(reference, band_bps);
    let (lower, upper) = price_bounds(reference, band_bps)->Ok_0;
    lemma_band_depth_sums(
        book.bids@,
        reference,
        band_bps,
        lower,
        upper,
        true,
        nothing(),
        nothing(),
    );
    lemma_band_depth_sums(
        book.asks@,
        reference,
        band_bps,
        lower,
        upper,
        false,
        nothing(),
        nothing(),
    );
}

/// A side's depth is fully observed just where its outermost level reaches the end of the band on
/// that side, and is the depth of the band there.
pub proof fn lemma_depth_is_observed_to_the_end_of_the_band(
    book: BookSnapshotView,
    reference: Price,
    band_bps: u32,
)
    requires
        reference.is_valid(),
        book_is_valid(book),
        observed_depth(book, reference, band_bps) is Ok,
    ensures
        ({
            let (bid, ask) = observed_depth(book, reference, band_bps)->Ok_0;
            let depth = depth_in_band(book, reference, band_bps)->Ok_0;
            &&& depth_in_band(book, reference, band_bps) is Ok
            &&& book.bids@.len() > 0 && book.asks@.len() > 0
            &&& bid is Ok <==> 10_000 * (reference.units() - book.bids@.last().price.units())
                >= band_bps * reference.units()
            &&& ask is Ok <==> 10_000 * (book.asks@.last().price.units() - reference.units())
                >= band_bps * reference.units()
            &&& bid is Ok ==> bid->Ok_0 == depth.0
            &&& ask is Ok ==> ask->Ok_0 == depth.2
        }),
{
    lemma_bands_surround_their_reference(reference, band_bps);
    assert(level_is_valid(book.bids@[book.bids@.len() - 1]));
    assert(level_is_valid(book.asks@[book.asks@.len() - 1]));
    lemma_level_arithmetic(book.bids@.last());
    lemma_level_arithmetic(book.asks@.last());
}

/// Features are taken only of a synchronized book in normal trading whose last update is at most
/// three seconds old, and notionals only of spot instruments.
pub proof fn lemma_only_live_books_are_measured(book: BookSnapshotView)
    ensures
        book_refusal(book) is None <==> book.quality.health_state == BookState::Synchronized
            && book.classification == BookClassification::Normal
            && book.quality.last_update_age_ms <= 3_000,
        book_refusal(book) is Some ==> book_refusal(book)->Some_0 == (
        if book.quality.last_update_age_ms > 3_000 && book.quality.health_state
            == BookState::Synchronized && book.classification == BookClassification::Normal {
            FeatureComputationError::Stale
        } else {
            FeatureComputationError::UntrustedInput
        }),
        spot_refusal(book) is None <==> book_refusal(book) is None && book.instrument.product_type
            == ProductType::Spot,
        inside(book) is Ok <==> book_refusal(book) is None && book.bids@.len() > 0
            && book.asks@.len() > 0,
{
}

/// The spread is what the best ask stands above the best bid, and the midpoint lies halfway between
/// the two.
pub proof fn lemma_spreads_lie_between_bid_and_ask(book: BookSnapshotView)
    requires
        book_is_valid(book),
        spread_terms(book) is Ok,
    ensures
        ({
            let terms = spread_terms(book)->Ok_0;
            let bid = book.bids@[0].price.units();
            let ask = book.asks@[0].price.units();
            &&& bid + terms.absolute.units() == ask
            &&& terms.midpoint_sum.units() - bid == ask
            &&& terms.absolute.units() > 0 <==> bid < ask
        }),
{
    assert(level_is_valid(book.bids@[0]) && level_is_valid(book.asks@[0]));
    lemma_exact_arithmetic(book.asks@[0].price.amount(), book.bids@[0].price.amount());
}

/// Every live book with moderate prices has a spread.
pub proof fn lemma_live_books_have_spreads(book: BookSnapshotView, places: nat, power: nat)
    requires
        inside(book) is Ok,
        book.bids@[0].price.amount().within(places, power),
        book.asks@[0].price.amount().within(places, power),
        places + power < 38,
    ensures
        spread_terms(book) is Ok,
{
    lemma_moderate_sums_exist(
        book.asks@[0].price.amount(),
        book.bids@[0].price.amount(),
        places,
        power,
    );
}

/// An imbalance lies between minus one and one. It is positive where there is more on the bid
/// side, and changes its sign where the sides change places.
pub proof fn lemma_imbalances_lean_to_the_greater_side(bid: FixedDecimal, ask: FixedDecimal)
    requires
        bid.in_scale(),
        ask.in_scale(),
        bid.units() >= 0,
        ask.units() >= 0,
        imbalance_of(bid, ask) is Ok,
    ensures
        ({
            let ratio = imbalance_of(bid, ask)->Ok_0;
            &&& ratio.denominator.units() == bid.units() + ask.units()
            &&& ratio.denominator.units() > 0
            &&& ratio.numerator.units() + ask.units() == bid.units()
            &&& -ratio.denominator.units() <= ratio.numerator.units() <= ratio.denominator.units()
            &&& ratio.numerator.units() > 0 <==> bid.units() > ask.units()
            &&& imbalance_of(ask, bid) is Ok ==> imbalance_of(ask, bid)->Ok_0.numerator.units()
                == -ratio.numerator.units() && imbalance_of(ask, bid)->Ok_0.denominator.units()
                == ratio.denominator.units()
        }),
{
    lemma_exact_arithmetic(bid, ask);
    lemma_exact_arithmetic(ask, bid);
}

/// The imbalance of a band compares what lies in the band on the bid side with what lies in it on
/// the ask side.
pub proof fn lemma_band_imbalances_compare_the_sides(
    book: BookSnapshotView,
    reference: Price,
    band_bps: u32,
)
    requires
        reference.is_valid(),
        book_is_valid(book),
        leads_outward(book.bids@, true),
        leads_outward(book.asks@, false),
        imbalance_in_band(book, reference, band_bps) is Ok,
    ensures
        ({
            let ratio = imbalance_in_band(book, reference, band_bps)->Ok_0;
            let bid = sum_of(quantities_in_band(book.bids@, reference, band_bps));
            let ask = sum_of(quantities_in_band(book.asks@, reference, band_bps));
            &&& ratio.numerator.units() == bid - ask
            &&& ratio.denominator.units() == bid + ask
            &&& bid + ask != 0
        }),
{
    lemma_depth_is_what_lies_in_the_band(book, reference, band_bps);
    let depth = depth_in_band(book, reference, band_bps)->Ok_0;
    lemma_exact_arithmetic(depth.0, depth.2);
}

proof fn lemma_weighted_price_units(
    first: Price,
    first_weight: FixedDecimal,
    second: Price,
    second_weight: FixedDecimal,
)
    requires
        first.is_valid(),
        second.is_valid(),
        first_weight.in_scale(),
        second_weight.in_scale(),
        weighted_price(
            first,
            first_weight,
            second,
            second_weight,
            first_weight.plus(second_weight),
        ) is Ok,
    ensures
        ({
            let ratio = weighted_price(
                first,
                first_weight,
                second,
                second_weight,
                first_weight.plus(second_weight),
            )->Ok_0;
            &&& ratio.denominator.units() == first_weight.units() + second_weight.units()
            &&& ratio.denominator.units() != 0
            &&& ratio.numerator.units() * unit() == first.units() * first_weight.units()
                + second.units() * second_weight.units()
        }),
{
    lemma_exact_arithmetic(first_weight, second_weight);
    lemma_exact_arithmetic(first.amount(), first_weight);
    lemma_exact_arithmetic(second.amount(), second_weight);
    let left = first.amount().times(first_weight)->Some_0;
    let right = second.amount().times(second_weight)->Some_0;
    lemma_exact_arithmetic(left, right);
    let sum = left.plus(right)->Some_0;
    assert(sum.units() * unit() == left.units() * unit() + right.units() * unit())
        by (nonlinear_arith)
        requires
            sum.units() == left.units() + right.units(),
    ;
}

/// The microprice leans away from the side with more quantity: from the bid, it is as large a share
/// of the spread away as the bid side has of the quantity at the inside.
pub proof fn lemma_microprices_lean_away_from_quantity(book: BookSnapshotView)
    requires
        book_is_valid(book),
        microprice_of(book) is Ok,
    ensures
        ({
            let ratio = microprice_of(book)->Ok_0;
            let bid = book.bids@[0];
            let ask = book.asks@[0];
            let above = ratio.numerator.units() * unit() - bid.price.units()
                * ratio.denominator.units();
            &&& ratio.denominator.units() == bid.quantity.units() + ask.quantity.units()
            &&& ratio.denominator.units() > 0
            &&& above == (ask.price.units() - bid.price.units()) * bid.quantity.units()
        }),
{
    let bid = book.bids@[0];
    let ask = book.asks@[0];
    assert(level_is_valid(bid) && level_is_valid(ask));
    lemma_exact_arithmetic(bid.quantity.amount(), ask.quantity.amount());
    lemma_weighted_price_units(
        ask.price,
        bid.quantity.amount(),
        bid.price,
        ask.quantity.amount(),
    );
    let (p, q) = (bid.price.units(), ask.price.units());
    let (b, a) = (bid.quantity.units(), ask.quantity.units());
    assert(q * b + p * a - p * (b + a) == (q - p) * b) by (nonlinear_arith);
}

/// The weighted midpoint leans to the side with more quantity: from the bid, it is as large a share
/// of the spread away as the ask side has of the quantity at the inside.
pub proof fn lemma_weighted_midpoints_lean_to_quantity(book: BookSnapshotView)
    requires
        book_is_valid(book),
        weighted_midpoint_of(book) is Ok,
    ensures
        ({
            let ratio = weighted_midpoint_of(book)->Ok_0;
            let bid = book.bids@[0];
            let ask = book.asks@[0];
            let above = ratio.numerator.units() * unit() - bid.price.units()
                * ratio.denominator.units();
            &&& ratio.denominator.units() == bid.quantity.units() + ask.quantity.units()
            &&& ratio.denominator.units() > 0
            &&& above == (ask.price.units() - bid.price.units()) * ask.quantity.units()
        }),
{
    let bid = book.bids@[0];
    let ask = book.asks@[0];
    assert(level_is_valid(bid) && level_is_valid(ask));
    lemma_exact_arithmetic(bid.quantity.amount(), ask.quantity.amount());
    lemma_weighted_price_units(
        bid.price,
        bid.quantity.amount(),
        ask.price,
        ask.quantity.amount(),
    );
    let (p, q) = (bid.price.units(), ask.price.units());
    let (b, a) = (bid.quantity.units(), ask.quantity.units());
    assert(p * b + q * a - p * (b + a) == (q - p) * a) by (nonlinear_arith);
}

/// The total of a book's distribution is all the quantity that its levels show, on both sides.
pub proof fn lemma_distributions_cover_both_sides(book: BookSnapshotView)
    requires
        book_is_valid(book),
        distribution_refusal(book) is None,
    ensures
        ({
            let total = total_quantity(
                quantities_of(book.bids@) + quantities_of(book.asks@),
                nothing(),
            );
            &&& total is Some
            &&& total->Some_0.units() == sum_of(quantity_units(book.bids@)) + sum_of(
                quantity_units(book.asks@),
            )
            &&& total->Some_0.units() > 0
            &&& forall|i: int| 0 <= i < book.bids@.len() ==> (
            #[trigger] book.bids@[i]).quantity.units() > 0
            &&& forall|i: int| 0 <= i < book.asks@.len() ==> (
            #[trigger] book.asks@[i]).quantity.units() > 0
            &&& book.bids@.len() + book.asks@.len() >= 2
        }),
{
    let levels = book.bids@ + book.asks@;
    let quantities = quantities_of(book.bids@) + quantities_of(book.asks@);
    assert(quantities =~= quantities_of(levels));
    assert(levels_are_valid(levels));
    assert forall|i: int| 0 <= i < book.bids@.len() implies (
    #[trigger] book.bids@[i]).quantity.units() > 0 by {
        assert(quantities[i] == book.bids@[i].quantity);
        assert(level_is_valid(book.bids@[i]));
    }
    assert forall|i: int| 0 <= i < book.asks@.len() implies (
    #[trigger] book.asks@[i]).quantity.units() > 0 by {
        assert(quantities[book.bids@.len() + i] == book.asks@[i].quantity);
        assert(level_is_valid(book.asks@[i]));
    }
    lemma_total_units(levels);
    assert(quantity_units(levels) =~= quantity_units(book.bids@) + quantity_units(book.asks@));
    lemma_sum_split(quantity_units(book.bids@), quantity_units(book.asks@));
    lemma_sum_is_not_negative(quantity_units(levels));
}

proof fn lemma_sum_is_not_negative(values: Seq<int>)
    requires
        forall|i: int| 0 <= i < values.len() ==> #[trigger] values[i] >= 0,
    ensures
        sum_of(values) >= 0,
    decreases values.len(),
{
    if values.len() > 0 {
        let rest = values.drop_first();
        assert forall|i: int| 0 <= i < rest.len() implies #[trigger] rest[i] >= 0 by {
            assert(rest[i] == values[i + 1]);
        }
        lemma_sum_is_not_negative(rest);
    }
}

proof fn lemma_total_units(levels: Seq<BookLevel>)
    requires
        levels_are_valid(levels),
        total_quantity(quantities_of(levels), nothing()) is Some,
    ensures
        total_quantity(quantities_of(levels), nothing())->Some_0.in_scale(),
        total_quantity(quantities_of(levels), nothing())->Some_0.units() == sum_of(
            quantity_units(levels),
        ),
    decreases levels.len(),
{
    lemma_zero_units();
    if levels.len() > 0 {
        let rest = levels.drop_last();
        lemma_rest_is_valid(levels, true);
        assert(quantities_of(levels).drop_last() =~= quantities_of(rest));
        assert(quantity_units(levels).drop_last() =~= quantity_units(rest));
        lemma_total_units(rest);
        lemma_sum_last(quantity_units(levels));
        assert(level_is_valid(levels[levels.len() - 1]));
        lemma_exact_arithmetic(
            total_quantity(quantities_of(rest), nothing())->Some_0,
            levels.last().quantity.amount(),
        );
    }
}

/// How far a level lies from the inside of its side, in units: bids below it and asks above it.
pub open spec fn distance_out(levels: Seq<BookLevel>, i: int, bids: bool) -> int {
    if bids {
        levels[0].price.units() - levels[i].price.units()
    } else {
        levels[i].price.units() - levels[0].price.units()
    }
}

proof fn lemma_shape_units(levels: Seq<BookLevel>, tick: Price, descending: bool)
    requires
        levels_are_valid(levels),
        tick.is_valid(),
        shape_points(levels, tick, descending) is Some,
    ensures
        ({
            let (points, depth) = shape_points(levels, tick, descending)->Some_0;
            &&& points.len() == levels.len()
            &&& depth.in_scale()
            &&& depth.units() == sum_of(quantity_units(levels))
            &&& forall|i: int|
                #![trigger points[i]]
                0 <= i < points.len() ==> {
                    &&& points[i].ticks.units() * tick.units() == distance_out(
                        levels,
                        i,
                        descending,
                    ) * unit()
                    &&& points[i].ticks.units() >= 0
                    &&& points[i].ticks.is_whole()
                    &&& points[i].cumulative_depth.units() == sum_of(
                        quantity_units(levels.take(i + 1)),
                    )
                }
        }),
    decreases levels.len(),
{
    lemma_zero_units();
    if levels.len() > 0 {
        let rest = levels.drop_last();
        let last = levels.len() - 1;
        lemma_rest_is_valid(levels, descending);
        lemma_shape_units(rest, tick, descending);
        let (before, depth) = shape_points(rest, tick, descending)->Some_0;
        let (points, total) = shape_points(levels, tick, descending)->Some_0;
        let level = levels.last();
        assert(level == levels[last]);
        assert(level_is_valid(levels[last]) && level_is_valid(levels[0]));
        assert(quantity_units(levels).drop_last() =~= quantity_units(rest));
        lemma_sum_last(quantity_units(levels));
        lemma_exact_arithmetic(depth, level.quantity.amount());
        lemma_exact_arithmetic(levels[0].price.amount(), level.price.amount());
        lemma_exact_arithmetic(level.price.amount(), levels[0].price.amount());
        let distance = outward_distance(levels[0].price, level.price, descending)->Some_0;
        lemma_over_units(distance, tick.amount());
        assert forall|i: int|
            #![trigger points[i]]
            0 <= i < points.len() implies {
            &&& points[i].ticks.units() * tick.units() == distance_out(levels, i, descending)
                * unit()
            &&& points[i].ticks.units() >= 0
            &&& points[i].ticks.is_whole()
            &&& points[i].cumulative_depth.units() == sum_of(quantity_units(levels.take(i + 1)))
        } by {
            if i < last {
                assert(points[i] == before[i]);
                assert(rest.take(i + 1) =~= levels.take(i + 1));
                assert(rest[i] == levels[i] && rest[0] == levels[0]);
            } else {
                assert(levels.take(i + 1) =~= levels);
            }
        }
    }
}

/// A depth curve has a point for each of the first levels of its own side: as many whole ticks out
/// from the inside as the level lies, and with the quantity of all levels up to it.
pub proof fn lemma_curves_follow_their_side(book: BookSnapshotView, tick: Price, level_count: usize)
    requires
        book_is_valid(book),
        tick.is_valid(),
    ensures
        bid_curve(book, tick, level_count) is Ok ==> curve_follows(
            bid_curve(book, tick, level_count)->Ok_0,
            book.bids@,
            tick,
            level_count,
            true,
        ),
        ask_curve(book, tick, level_count) is Ok ==> curve_follows(
            ask_curve(book, tick, level_count)->Ok_0,
            book.asks@,
            tick,
            level_count,
            false,
        ),
{
    if bid_curve(book, tick, level_count) is Ok {
        lemma_curve_follows(book.bids@, tick, level_count, true);
    }
    if ask_curve(book, tick, level_count) is Ok {
        lemma_curve_follows(book.asks@, tick, level_count, false);
    }
}

/// Each point lies as many ticks out as its level, with the quantity of all levels up to it.
pub open spec fn curve_follows(
    points: Seq<ShapePoint>,
    levels: Seq<BookLevel>,
    tick: Price,
    level_count: usize,
    bids: bool,
) -> bool {
    &&& points.len() == level_count <= levels.len()
    &&& 3 <= level_count <= 256
    &&& forall|i: int|
        #![trigger points[i]]
        0 <= i < points.len() ==> {
            &&& points[i].ticks.units() * tick.units() == distance_out(levels, i, bids) * unit()
            &&& points[i].ticks.units() >= 0
            &&& points[i].ticks.is_whole()
            &&& points[i].cumulative_depth.units() == sum_of(quantity_units(levels.take(i + 1)))
        }
}

proof fn lemma_curve_follows(levels: Seq<BookLevel>, tick: Price, level_count: usize, bids: bool)
    requires
        levels_are_valid(levels),
        tick.is_valid(),
        3 <= level_count <= MAX_BOOK_SHAPE_LEVELS,
        level_count <= levels.len(),
        shape_points(levels.take(level_count as int), tick, bids) is Some,
    ensures
        curve_follows(
            shape_points(levels.take(level_count as int), tick, bids)->Some_0.0,
            levels,
            tick,
            level_count,
            bids,
        ),
{
    let head = levels.take(level_count as int);
    assert forall|i: int| 0 <= i < head.len() implies level_is_valid(#[trigger] head[i]) by {
        assert(head[i] == levels[i]);
    }
    lemma_shape_units(head, tick, bids);
    let points = shape_points(head, tick, bids)->Some_0.0;
    assert forall|i: int|
        #![trigger points[i]]
        0 <= i < points.len() implies {
        &&& points[i].ticks.units() * tick.units() == distance_out(levels, i, bids) * unit()
        &&& points[i].cumulative_depth.units() == sum_of(quantity_units(levels.take(i + 1)))
    } by {
        assert(head[i] == levels[i] && head[0] == levels[0]);
        assert(head.take(i + 1) =~= levels.take(i + 1));
    }
}

proof fn lemma_gap_units(levels: Seq<BookLevel>, tick: Price, descending: bool)
    requires
        levels.len() > 0,
        levels_are_valid(levels),
        tick.is_valid(),
        gap_totals(levels, tick, descending) is Ok,
    ensures
        ({
            let (missing, intervals) = gap_totals(levels, tick, descending)->Ok_0;
            &&& intervals * tick.units() == distance_out(levels, levels.len() - 1, descending)
            &&& missing + (levels.len() - 1) == intervals
            &&& missing >= 0
        }),
    decreases levels.len(),
{
    if levels.len() > 1 {
        let rest = levels.drop_last();
        let last = levels.len() - 1;
        lemma_rest_is_valid(levels, descending);
        lemma_gap_units(rest, tick, descending);
        let inner = levels[last - 1];
        let outer = levels.last();
        assert(outer == levels[last]);
        assert(level_is_valid(levels[last]) && level_is_valid(inner));
        assert(rest[rest.len() - 1] == inner && rest[0] == levels[0]);
        lemma_exact_arithmetic(inner.price.amount(), outer.price.amount());
        lemma_exact_arithmetic(outer.price.amount(), inner.price.amount());
        let distance = outward_distance(inner.price, outer.price, descending)->Some_0;
        lemma_over_units(distance, tick.amount());
        let ticks = distance.over(tick.amount())->Some_0;
        let before = gap_totals(rest, tick, descending)->Ok_0;
        let count = ticks.digits();
        let t = tick.units();
        assert(ticks.units() == count * unit());
        assert(count * t == distance.units()) by (nonlinear_arith)
            requires
                (count * unit()) * t == distance.units() * unit(),
                unit() > 0,
        ;
        assert(count > 0) by (nonlinear_arith)
            requires
                count * unit() > 0,
                unit() > 0,
        ;
        assert((before.1 + count) * t == before.1 * t + count * t) by (nonlinear_arith);
    } else {
        assert(0 * tick.units() == 0);
    }
}

/// The intervals of a side span the ticks from its inside to its outermost level, and those that
/// no further level stands on are missing. Bids are counted downwards and asks upwards.
pub proof fn lemma_gaps_span_their_side(book: BookSnapshotView, tick: Price)
    requires
        book_is_valid(book),
        tick.is_valid(),
    ensures
        bid_gaps(book, tick) is Ok ==> {
            let (missing, intervals) = bid_gaps(book, tick)->Ok_0;
            let count = book.bids@.len();
            &&& intervals * tick.units() == book.bids@[0].price.units() - book.bids@[count
                - 1].price.units()
            &&& missing + (count - 1) == intervals
            &&& count >= 2 && missing >= 0
        },
        ask_gaps(book, tick) is Ok ==> {
            let (missing, intervals) = ask_gaps(book, tick)->Ok_0;
            let count = book.asks@.len();
            &&& intervals * tick.units() == book.asks@[count - 1].price.units()
                - book.asks@[0].price.units()
            &&& missing + (count - 1) == intervals
            &&& count >= 2 && missing >= 0
        },
{
    if bid_gaps(book, tick) is Ok {
        lemma_gap_units(book.bids@, tick, true);
    }
    if ask_gaps(book, tick) is Ok {
        lemma_gap_units(book.asks@, tick, false);
    }
}

/// The level is worth at least so much, and no level before it is.
pub open spec fn is_first_wall(levels: Seq<BookLevel>, i: int, material: FixedDecimal) -> bool {
    &&& 0 <= i < levels.len()
    &&& worth(levels[i]) >= material.units() * unit()
    &&& forall|k: int| 0 <= k < i ==> worth(#[trigger] levels[k]) < material.units() * unit()
}

/// The distance is that of a side's first wall from a reference, or there is no wall.
pub open spec fn measures_first_wall(
    distance: Option<FixedDecimal>,
    levels: Seq<BookLevel>,
    reference: Price,
    material: FixedDecimal,
) -> bool {
    match distance {
        None => forall|k: int|
            0 <= k < levels.len() ==> worth(#[trigger] levels[k]) < material.units() * unit(),
        Some(distance) => exists|i: int|
            #![trigger levels[i]]
            is_first_wall(levels, i, material) && distance.units() >= 0 && (distance.units()
                == levels[i].price.units() - reference.units() || distance.units()
                == reference.units() - levels[i].price.units()),
    }
}

proof fn lemma_first_material(levels: Seq<BookLevel>, material: FixedDecimal)
    requires
        levels_are_valid(levels),
        first_material(levels, material) is Ok,
    ensures
        match first_material(levels, material)->Ok_0 {
            None => forall|k: int|
                0 <= k < levels.len() ==> worth(#[trigger] levels[k]) < material.units() * unit(),
            Some(level) => exists|i: int|
                #![trigger levels[i]]
                is_first_wall(levels, i, material) && levels[i] == level,
        },
    decreases levels.len(),
{
    if levels.len() > 0 {
        let rest = levels.drop_first();
        assert(level_is_valid(levels[0]));
        lemma_level_arithmetic(levels[0]);
        let notional = notional_of(levels[0])->Some_0.units();
        let m = material.units();
        assert(notional >= m <==> notional * unit() >= m * unit()) by (nonlinear_arith)
            requires
                unit() > 0,
        ;
        if notional >= m {
            assert(is_first_wall(levels, 0, material));
        } else {
            lemma_rest_is_valid(levels, true);
            lemma_first_material(rest, material);
            match first_material(rest, material)->Ok_0 {
                None => {
                    assert forall|k: int| 0 <= k < levels.len() implies worth(
                        #[trigger] levels[k],
                    ) < m * unit() by {
                        if k > 0 {
                            assert(rest[k - 1] == levels[k]);
                        }
                    }
                },
                Some(level) => {
                    let i = choose|i: int|
                        #![trigger rest[i]]
                        is_first_wall(rest, i, material) && rest[i] == level;
                    assert(levels[i + 1] == rest[i]);
                    assert forall|k: int| 0 <= k < i + 1 implies worth(#[trigger] levels[k]) < m
                        * unit() by {
                        if k > 0 {
                            assert(rest[k - 1] == levels[k]);
                        }
                    }
                    assert(is_first_wall(levels, i + 1, material));
                },
            }
        }
    }
}

/// The nearest wall of a side is its first level that is worth enough, counted from the inside, and
/// its distance is measured from the reference, on whichever side of it the level lies.
pub proof fn lemma_walls_are_the_first_of_their_side(
    book: BookSnapshotView,
    reference: Price,
    material: FixedDecimal,
)
    requires
        book_is_valid(book),
        reference.is_valid(),
        wall_distances(book, reference, material) is Ok,
    ensures
        material.units() > 0,
        measures_first_wall(
            wall_distances(book, reference, material)->Ok_0.0,
            book.bids@,
            reference,
            material,
        ),
        measures_first_wall(
            wall_distances(book, reference, material)->Ok_0.1,
            book.asks@,
            reference,
            material,
        ),
{
    lemma_wall(book.bids@, reference, material);
    lemma_wall(book.asks@, reference, material);
}

proof fn lemma_wall(levels: Seq<BookLevel>, reference: Price, material: FixedDecimal)
    requires
        levels_are_valid(levels),
        reference.is_valid(),
        wall_distance(levels, reference, material) is Ok,
    ensures
        measures_first_wall(
            wall_distance(levels, reference, material)->Ok_0,
            levels,
            reference,
            material,
        ),
{
    lemma_first_material(levels, material);
    if first_material(levels, material)->Ok_0 is Some {
        let level = first_material(levels, material)->Ok_0->Some_0;
        let i = choose|i: int|
            #![trigger levels[i]]
            is_first_wall(levels, i, material) && levels[i] == level;
        assert(level_is_valid(levels[i]));
        lemma_exact_arithmetic(level.price.amount(), reference.amount());
        lemma_exact_arithmetic(reference.amount(), level.price.amount());
    }
}

/// The levels that an order meets: a buyer meets the asks, and a seller meets the bids.
pub open spec fn met_by(book: BookSnapshotView, side: SweepSide) -> Seq<BookLevel> {
    if side == SweepSide::Buy {
        book.asks@
    } else {
        book.bids@
    }
}

/// The plan takes the first levels in full and, where one is needed, a part of the next. What it
/// takes is worth just what was requested.
pub open spec fn takes_from(plan: SweepView, levels: Seq<BookLevel>, requested: int) -> bool {
    let count = plan.full_fills.len() as int;
    &&& count <= levels.len()
    &&& forall|i: int|
        0 <= i < count ==> #[trigger] plan.full_fills[i] == levels[i].quantity
    &&& match plan.partial_fill {
        None => sum_of(worths(levels.take(count))) == requested * unit(),
        Some((notional, price)) => {
            &&& count < levels.len()
            &&& price == levels[count].price
            &&& 0 < notional.units() * unit() < worth(levels[count])
            &&& sum_of(worths(levels.take(count))) + notional.units() * unit() == requested
                * unit()
        },
    }
}

#[verifier::spinoff_prover]
#[verifier::rlimit(60)]
proof fn lemma_swept_takes(levels: Seq<BookLevel>, remaining: FixedDecimal, so_far: SweepView)
    requires
        levels_are_valid(levels),
        remaining.in_scale(),
        remaining.units() >= 0,
        so_far.executed.in_scale(),
        so_far.partial_fill is None,
        swept(levels, remaining, so_far) is Ok,
    ensures
        ({
            let plan = swept(levels, remaining, so_far)->Ok_0;
            let before = so_far.full_fills.len() as int;
            &&& before <= plan.full_fills.len()
            &&& plan.full_fills.take(before) == so_far.full_fills
            &&& plan.executed.units() == so_far.executed.units() + remaining.units()
            &&& takes_from(
                SweepView { full_fills: plan.full_fills.skip(before), ..plan },
                levels,
                remaining.units(),
            )
        }),
    decreases levels.len(),
{
    let plan = swept(levels, remaining, so_far)->Ok_0;
    let before = so_far.full_fills.len() as int;
    if remaining.units() == 0 {
        assert(plan.full_fills.skip(before) =~= Seq::empty());
        assert(plan.full_fills.take(before) =~= so_far.full_fills);
        assert(levels.take(0) =~= Seq::empty());
        assert(worths(levels.take(0)) =~= Seq::empty());
        assert(0 * unit() == 0);
    } else {
        let level = levels[0];
        let rest = levels.drop_first();
        assert(level_is_valid(level));
        lemma_level_arithmetic(level);
        lemma_rest_is_valid(levels, true);
        let available = notional_of(level)->Some_0;
        if remaining.units() >= available.units() {
            lemma_exact_arithmetic(so_far.executed, available);
            lemma_exact_arithmetic(remaining, available);
            let left = remaining.minus(available)->Some_0;
            let next = SweepView {
                executed: so_far.executed.plus(available)->Some_0,
                full_fills: so_far.full_fills.push(level.quantity),
                partial_fill: so_far.partial_fill,
            };
            lemma_swept_takes(rest, left, next);
            let own = plan.full_fills.skip(before);
            let others = plan.full_fills.skip(before + 1);
            let count = own.len() as int;
            assert(plan.full_fills.take(before + 1) == next.full_fills);
            assert(plan.full_fills[before] == plan.full_fills.take(before + 1)[before]);
            assert(own[0] == level.quantity);
            assert(plan.full_fills.take(before) =~= plan.full_fills.take(before + 1).take(before));
            assert(next.full_fills.take(before) =~= so_far.full_fills);
            assert forall|i: int| 0 <= i < count implies #[trigger] own[i] == levels[i].quantity by {
                if i > 0 {
                    assert(others[i - 1] == own[i]);
                    assert(rest[i - 1] == levels[i]);
                }
            }
            let sizes = worths(levels.take(count));
            assert(sizes.drop_first() =~= worths(rest.take(count - 1)));
            assert(sizes[0] == worth(level));
            if count < levels.len() {
                assert(rest[count - 1] == levels[count]);
            }
            assert(left.units() * unit() == remaining.units() * unit() - available.units()
                * unit()) by (nonlinear_arith)
                requires
                    left.units() == remaining.units() - available.units(),
            ;
        } else {
            lemma_exact_arithmetic(so_far.executed, remaining);
            lemma_exact_arithmetic(remaining, remaining);
            assert(plan.full_fills.skip(before) =~= Seq::empty());
            assert(plan.full_fills.take(before) =~= so_far.full_fills);
            assert(levels.take(0) =~= Seq::empty());
            assert(worths(levels.take(0)) =~= Seq::empty());
            let r = remaining.units();
            assert(0 < r * unit() < available.units() * unit()) by (nonlinear_arith)
                requires
                    0 < r < available.units(),
                    unit() > 0,
            ;
        }
    }
}

/// A sweep fills on the side that its order meets: a seller's fills are bids and a buyer's are
/// asks. It takes levels in full from the inside out, a part of the next one where that is enough,
/// and executes what was requested.
pub proof fn lemma_sweeps_take_the_side_they_meet(
    book: BookSnapshotView,
    side: SweepSide,
    requested: FixedDecimal,
)
    requires
        book_is_valid(book),
        requested.in_scale(),
        sweep(book, side, requested) is Ok,
    ensures
        takes_from(
            sweep(book, side, requested)->Ok_0,
            if side == SweepSide::Sell {
                book.bids@
            } else {
                book.asks@
            },
            requested.units(),
        ),
        sweep(book, side, requested)->Ok_0.executed.units() == requested.units(),
        requested.units() > 0,
{
    lemma_zero_units();
    let empty = SweepView {
        executed: nothing(),
        full_fills: Seq::empty(),
        partial_fill: None,
    };
    lemma_swept_takes(met_by(book, side), requested, empty);
    let plan = sweep(book, side, requested)->Ok_0;
    assert(plan.full_fills.skip(0) =~= plan.full_fills);
}

/// A sweep is refused for want of liquidity only where all that its order meets is worth less than
/// what was requested.
pub proof fn lemma_sweeps_fail_only_on_thin_books(
    book: BookSnapshotView,
    side: SweepSide,
    requested: FixedDecimal,
)
    requires
        book_is_valid(book),
        requested.in_scale(),
        sweep(book, side, requested) == Err::<SweepView, FeatureComputationError>(
            FeatureComputationError::BelowLiquidityThreshold,
        ),
    ensures
        sum_of(worths(met_by(book, side))) < requested.units() * unit(),
{
    lemma_zero_units();
    let empty = SweepView {
        executed: nothing(),
        full_fills: Seq::empty(),
        partial_fill: None,
    };
    lemma_swept_fails(met_by(book, side), requested, empty);
}

proof fn lemma_swept_fails(levels: Seq<BookLevel>, remaining: FixedDecimal, so_far: SweepView)
    requires
        levels_are_valid(levels),
        remaining.in_scale(),
        so_far.executed.in_scale(),
        remaining.units() >= 0,
        swept(levels, remaining, so_far) == Err::<SweepView, FeatureComputationError>(
            FeatureComputationError::BelowLiquidityThreshold,
        ),
    ensures
        sum_of(worths(levels)) < remaining.units() * unit(),
    decreases levels.len(),
{
    lemma_exact_arithmetic(remaining, remaining);
    if levels.len() == 0 {
        assert(remaining.units() * unit() > 0) by (nonlinear_arith)
            requires
                remaining.units() > 0,
                unit() > 0,
        ;
    } else {
        let level = levels[0];
        let rest = levels.drop_first();
        assert(level_is_valid(level));
        lemma_level_arithmetic(level);
        lemma_rest_is_valid(levels, true);
        let available = notional_of(level)->Some_0;
        lemma_exact_arithmetic(so_far.executed, available);
        lemma_exact_arithmetic(so_far.executed, remaining);
        lemma_exact_arithmetic(remaining, available);
        assert(worths(levels).drop_first() =~= worths(rest));
        let left = remaining.minus(available)->Some_0;
        let next = SweepView {
            executed: so_far.executed.plus(available)->Some_0,
            full_fills: so_far.full_fills.push(level.quantity),
            partial_fill: so_far.partial_fill,
        };
        if remaining.units() < available.units() {
            let part = SweepView {
                executed: so_far.executed.plus(remaining)->Some_0,
                full_fills: so_far.full_fills,
                partial_fill: Some((remaining, level.price)),
            };
            assert(swept(rest, remaining.minus(remaining)->Some_0, part) is Ok);
        }
        lemma_swept_fails(rest, left, next);
        assert(left.units() * unit() == remaining.units() * unit() - available.units() * unit())
            by (nonlinear_arith)
            requires
                left.units() == remaining.units() - available.units(),
        ;
    }
}

/// A level is within a limit of slippage: a buyer pays no more than so many ten-thousandths above
/// the reference, and a seller gets no less than so many below it.
pub open spec fn within_slippage(
    level: BookLevel,
    side: SweepSide,
    reference: Price,
    limit_bps: u32,
) -> bool {
    match side {
        SweepSide::Buy => 10_000 * (level.price.units() - reference.units()) <= limit_bps
            * reference.units(),
        SweepSide::Sell => 10_000 * (reference.units() - level.price.units()) <= limit_bps
            * reference.units(),
    }
}

/// Price times quantity of the levels within a limit of slippage, and nothing for the others.
pub open spec fn executable_worths(
    levels: Seq<BookLevel>,
    side: SweepSide,
    reference: Price,
    limit_bps: u32,
) -> Seq<int> {
    Seq::new(
        levels.len(),
        |i: int|
            if within_slippage(levels[i], side, reference, limit_bps) {
                worth(levels[i])
            } else {
                0
            },
    )
}

proof fn lemma_notional_within(
    levels: Seq<BookLevel>,
    side: SweepSide,
    reference: Price,
    limit_bps: u32,
    lower: FixedDecimal,
    upper: FixedDecimal,
    so_far: FixedDecimal,
)
    requires
        levels_are_valid(levels),
        leads_outward(levels, side == SweepSide::Sell),
        lower.units() == 10_000 * reference.units() - limit_bps * reference.units(),
        upper.units() == 10_000 * reference.units() + limit_bps * reference.units(),
        so_far.in_scale(),
        notional_within(levels, side, lower, upper, so_far) is Some,
    ensures
        notional_within(levels, side, lower, upper, so_far)->Some_0.units() * unit()
            == so_far.units() * unit() + sum_of(
            executable_worths(levels, side, reference, limit_bps),
        ),
    decreases levels.len(),
{
    if levels.len() > 0 {
        let level = levels[0];
        let rest = levels.drop_first();
        let sizes = executable_worths(levels, side, reference, limit_bps);
        lemma_rest_is_valid(levels, side == SweepSide::Sell);
        assert(level_is_valid(level));
        lemma_level_arithmetic(level);
        assert(sizes.drop_first() =~= executable_worths(rest, side, reference, limit_bps));
        if within_slippage(level, side, reference, limit_bps) {
            let own = notional_of(level)->Some_0;
            lemma_exact_arithmetic(so_far, own);
            let more = so_far.plus(own)->Some_0;
            lemma_notional_within(rest, side, reference, limit_bps, lower, upper, more);
            assert(more.units() * unit() == so_far.units() * unit() + own.units() * unit())
                by (nonlinear_arith)
                requires
                    more.units() == so_far.units() + own.units(),
            ;
        } else {
            assert forall|i: int| 0 <= i < levels.len() implies !within_slippage(
                #[trigger] levels[i],
                side,
                reference,
                limit_bps,
            ) by {
                if i > 0 {
                    if side == SweepSide::Sell {
                        assert(levels[0].price.units() >= levels[i].price.units());
                    } else {
                        assert(levels[0].price.units() <= levels[i].price.units());
                    }
                }
            }
            lemma_sum_of_zeros(sizes);
        }
    }
}

/// What can be executed is the worth of the levels that an order meets within its limit of
/// slippage, and of no others: asks for a buyer and bids for a seller.
pub proof fn lemma_executable_notional_respects_the_limit(
    book: BookSnapshotView,
    side: SweepSide,
    limit_bps: u32,
    reference: Price,
)
    requires
        book_is_valid(book),
        leads_outward(book.bids@, true),
        leads_outward(book.asks@, false),
        reference.is_valid(),
        executable_notional(book, side, limit_bps, reference) is Ok,
    ensures
        executable_notional(book, side, limit_bps, reference)->Ok_0.units() * unit() == sum_of(
            executable_worths(met_by(book, side), side, reference, limit_bps),
        ),
        limit_bps <= 10_000,
{
    lemma_zero_units();
    lemma_bands_surround_their_reference(reference, limit_bps);
    let (lower, upper) = price_bounds(reference, limit_bps)->Ok_0;
    lemma_notional_within(
        met_by(book, side),
        side,
        reference,
        limit_bps,
        lower,
        upper,
        nothing(),
    );
    assert(0 * unit() == 0);
}

} // verus!
