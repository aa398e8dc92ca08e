//! What the trades of one final window add up to: totals, intensity, clusters and sweeps.

use vstd::prelude::*;

use super::book_evidence::{elapsed, elapsed_ns};
use super::orderbook::nothing;
use super::orderflow::{
    flow_views, AggressorSide, FlowTradeObservation, FlowTradeView, TradeFlowWindow,
    MAX_FLOW_TRADES,
};
use super::{
    difference_exact, exact, finite, finite_value, folded, lemma_fold_step, lemma_sum_last,
    lemma_sum_of_zeros, product_exact, sum_exact, sum_of, ExactRatio, FeatureComputationError,
};
use crate::decimal::{
    lemma_decimal_of_units_places, lemma_exact_arithmetic, lemma_plus_units,
    lemma_quantity_of_amount, lemma_zero_units, unit, FixedDecimal, Price, Quantity,
    MAX_DECIMAL_SCALE,
};
use crate::domain::{InstrumentId, InstrumentView, ProductType, UnixNanos};

verus! {

/// Why quote notional has no meaning for an instrument, if it has none.
pub open spec fn notional_refusal(instrument: InstrumentView) -> Option<FeatureComputationError> {
    if instrument.2 == ProductType::Spot {
        None
    } else {
        Some(FeatureComputationError::SourceNotSupported)
    }
}

pub(crate) fn require_spot_quote_notional(instrument: &InstrumentId) -> (result: Result<
    (),
    FeatureComputationError,
>)
    ensures
        result == match notional_refusal(instrument@) {
            None => Ok::<(), FeatureComputationError>(()),
            Some(error) => Err(error),
        },
{
    match instrument.product_type {
        ProductType::Spot => Ok(()),
        _ => Err(FeatureComputationError::SourceNotSupported),
    }
}

/// Price times quantity.
pub open spec fn trade_notional(trade: FlowTradeView) -> Option<FixedDecimal> {
    trade.price.amount().times(trade.quantity.amount())
}

pub(crate) fn notional_of_trade(trade: &FlowTradeObservation) -> (result: Result<
    FixedDecimal,
    FeatureComputationError,
>)
    ensures
        result == exact(trade_notional(trade@)),
{
    product_exact(trade.price().value(), trade.quantity().value())
}

/// Running totals of trades by aggressor.
#[derive(Clone, Copy, Debug, PartialEq, Eq, Structural)]
pub struct FlowSums {
    pub buy_count: usize,
    pub sell_count: usize,
    pub buy_quantity: FixedDecimal,
    pub sell_quantity: FixedDecimal,
    pub buy_notional: FixedDecimal,
    pub sell_notional: FixedDecimal,
    pub inferred_count: usize,
}

pub open spec fn empty_sums() -> FlowSums {
    FlowSums {
        buy_count: 0,
        sell_count: 0,
        buy_quantity: nothing(),
        sell_quantity: nothing(),
        buy_notional: nothing(),
        sell_notional: nothing(),
        inferred_count: 0,
    }
}

/// The totals with one more trade.
pub open spec fn sums_with(sums: FlowSums, trade: FlowTradeView) -> Result<
    FlowSums,
    FeatureComputationError,
> {
    let inferred_count = (sums.inferred_count + if trade.authority.2 {
        1int
    } else {
        0
    }) as usize;
    match trade_notional(trade) {
        None => Err(FeatureComputationError::InvalidInput),
        Some(notional) => match trade.side {
            AggressorSide::Buy => match (
                sums.buy_quantity.plus(trade.quantity.amount()),
                sums.buy_notional.plus(notional),
            ) {
                (Some(buy_quantity), Some(buy_notional)) => Ok(
                    FlowSums {
                        buy_count: (sums.buy_count + 1) as usize,
                        buy_quantity,
                        buy_notional,
                        inferred_count,
                        ..sums
                    },
                ),
                _ => Err(FeatureComputationError::InvalidInput),
            },
            AggressorSide::Sell => match (
                sums.sell_quantity.plus(trade.quantity.amount()),
                sums.sell_notional.plus(notional),
            ) {
                (Some(sell_quantity), Some(sell_notional)) => Ok(
                    FlowSums {
                        sell_count: (sums.sell_count + 1) as usize,
                        sell_quantity,
                        sell_notional,
                        inferred_count,
                        ..sums
                    },
                ),
                _ => Err(FeatureComputationError::InvalidInput),
            },
        },
    }
}

/// The totals of trades, or why there are none.
pub open spec fn sums_of(trades: Seq<FlowTradeView>) -> Result<FlowSums, FeatureComputationError> {
    folded(trades, empty_sums(), |sums: FlowSums, trade: FlowTradeView| sums_with(sums, trade))
}

/// The sums of a window's trades by aggressor.
#[derive(Clone, Copy, Debug, PartialEq, Eq, Structural)]
pub struct AggressiveTradeSums {
    pub buy_count: usize,
    pub sell_count: usize,
    pub buy_quantity: Quantity,
    pub sell_quantity: Quantity,
    pub buy_notional: FixedDecimal,
    pub sell_notional: FixedDecimal,
    pub inferred_count: usize,
}

impl AggressiveTradeSums {
    pub fn buy_count(self) -> (count: usize)
        ensures
            count == self.buy_count,
    {
        self.buy_count
    }

    pub fn sell_count(self) -> (count: usize)
        ensures
            count == self.sell_count,
    {
        self.sell_count
    }

    pub fn buy_quantity(self) -> (quantity: Quantity)
        ensures
            quantity == self.buy_quantity,
    {
        self.buy_quantity
    }

    pub fn sell_quantity(self) -> (quantity: Quantity)
        ensures
            quantity == self.sell_quantity,
    {
        self.sell_quantity
    }

    pub fn buy_notional(self) -> (notional: FixedDecimal)
        ensures
            notional == self.buy_notional,
    {
        self.buy_notional
    }

    pub fn sell_notional(self) -> (notional: FixedDecimal)
        ensures
            notional == self.sell_notional,
    {
        self.sell_notional
    }

    pub fn inferred_count(self) -> (count: usize)
        ensures
            count == self.inferred_count,
    {
        self.inferred_count
    }
}

/// The sums of a window, or why it has none.
pub open spec fn window_sums(instrument: InstrumentView, trades: Seq<FlowTradeView>) -> Result<
    AggressiveTradeSums,
    FeatureComputationError,
> {
    match notional_refusal(instrument) {
        Some(error) => Err(error),
        None => match sums_of(trades) {
            Err(error) => Err(error),
            Ok(sums) => if sums.buy_quantity.units() < 0 || sums.sell_quantity.units() < 0 {
                Err(FeatureComputationError::InvalidInput)
            } else {
                Ok(
                    AggressiveTradeSums {
                        buy_count: sums.buy_count,
                        sell_count: sums.sell_count,
                        buy_quantity: Quantity::of_amount(sums.buy_quantity),
                        sell_quantity: Quantity::of_amount(sums.sell_quantity),
                        buy_notional: sums.buy_notional,
                        sell_notional: sums.sell_notional,
                        inferred_count: sums.inferred_count,
                    },
                )
            },
        },
    }
}

fn sum_with(sums: FlowSums, trade: &FlowTradeObservation) -> (result: Result<
    FlowSums,
    FeatureComputationError,
>)
    requires
        sums.buy_count < usize::MAX,
        sums.sell_count < usize::MAX,
        sums.inferred_count < usize::MAX,
    ensures
        result == sums_with(sums, trade@),
{
    let notional = notional_of_trade(trade)?;
    let inferred_count: usize = if trade.authority().is_inferred() {
        sums.inferred_count + 1
    } else {
        sums.inferred_count
    };
    match trade.side() {
        AggressorSide::Buy => {
            let buy_quantity = sum_exact(sums.buy_quantity, trade.quantity().value())?;
            let buy_notional = sum_exact(sums.buy_notional, notional)?;
            Ok(
                FlowSums {
                    buy_count: sums.buy_count + 1,
                    buy_quantity,
                    buy_notional,
                    inferred_count,
                    ..sums
                },
            )
        },
        AggressorSide::Sell => {
            let sell_quantity = sum_exact(sums.sell_quantity, trade.quantity().value())?;
            let sell_notional = sum_exact(sums.sell_notional, notional)?;
            Ok(
                FlowSums {
                    sell_count: sums.sell_count + 1,
                    sell_quantity,
                    sell_notional,
                    inferred_count,
                    ..sums
                },
            )
        },
    }
}

pub fn aggressive_trade_sums(window: &TradeFlowWindow) -> (result: Result<
    AggressiveTradeSums,
    FeatureComputationError,
>)
    ensures
        result == window_sums(window@.instrument, window@.trades),
        result is Ok ==> result->Ok_0.buy_count + result->Ok_0.sell_count
            == window@.trades.len() <= usize::MAX,
{
    require_spot_quote_notional(window.instrument())?;
    let trades = window.observations();
    let ghost views = window@.trades;
    let ghost step = |sums: FlowSums, trade: FlowTradeView| sums_with(sums, trade);
    let mut sums = FlowSums {
        buy_count: 0,
        sell_count: 0,
        buy_quantity: FixedDecimal::zero(),
        sell_quantity: FixedDecimal::zero(),
        buy_notional: FixedDecimal::zero(),
        sell_notional: FixedDecimal::zero(),
        inferred_count: 0,
    };
    let mut i: usize = 0;
    proof {
        assert(views.take(0) =~= Seq::empty());
    }
    while i < trades.len()
        invariant
            i <= trades@.len(),
            views == flow_views(trades@),
            views == window@.trades,
            notional_refusal(window@.instrument) is None,
            step == (|sums: FlowSums, trade: FlowTradeView| sums_with(sums, trade)),
            folded(views.take(i as int), empty_sums(), step) == Ok::<
                FlowSums,
                FeatureComputationError,
            >(sums),
            sums.buy_count + sums.sell_count == i,
            sums.inferred_count <= i,
        decreases trades.len() - i,
    {
        proof {
            lemma_fold_step(views, i as int, empty_sums(), step);
            assert(views[i as int] == trades@[i as int]@);
        }
        sums = sum_with(sums, &trades[i])?;
        i += 1;
    }
    proof {
        assert(views.take(trades@.len() as int) =~= views);
    }
    match (Quantity::new(sums.buy_quantity), Quantity::new(sums.sell_quantity)) {
        (Ok(buy_quantity), Ok(sell_quantity)) => Ok(
            AggressiveTradeSums {
                buy_count: sums.buy_count,
                sell_count: sums.sell_count,
                buy_quantity,
                sell_quantity,
                buy_notional: sums.buy_notional,
                sell_notional: sums.sell_notional,
                inferred_count: sums.inferred_count,
            },
        ),
        _ => Err(FeatureComputationError::InvalidInput),
    }
}

/// The units that trades moved, whichever side pressed.
pub open spec fn traded_units(trades: Seq<FlowTradeView>) -> int
    decreases trades.len(),
{
    if trades.len() == 0 {
        0
    } else {
        traded_units(trades.drop_last()) + trades.last().quantity.units()
    }
}

/// The sums lose no trade and no quantity: the counts of the two sides are the trades, and their
/// quantities are what was traded.
pub proof fn lemma_sums_conserve_trades(trades: Seq<FlowTradeView>)
    requires
        sums_of(trades) is Ok,
        trades.len() <= usize::MAX,
        forall|i: int|
            0 <= i < trades.len() ==> (#[trigger] trades[i]).quantity.amount().places()
                <= MAX_DECIMAL_SCALE,
    ensures
        sums_of(trades)->Ok_0.buy_count + sums_of(trades)->Ok_0.sell_count == trades.len(),
        sums_of(trades)->Ok_0.inferred_count <= trades.len(),
        sums_of(trades)->Ok_0.buy_quantity.units() + sums_of(trades)->Ok_0.sell_quantity.units()
            == traded_units(trades),
        sums_of(trades)->Ok_0.buy_quantity.places() <= MAX_DECIMAL_SCALE,
        sums_of(trades)->Ok_0.sell_quantity.places() <= MAX_DECIMAL_SCALE,
    decreases trades.len(),
{
    if trades.len() > 0 {
        let before = trades.drop_last();
        let quantity = trades.last().quantity.amount();
        lemma_sums_conserve_trades(before);
        let sums = sums_of(before)->Ok_0;
        assert(trades[trades.len() - 1].quantity.amount().places() <= MAX_DECIMAL_SCALE);
        lemma_decimal_of_units_places(sums.buy_quantity.units() + quantity.units());
        lemma_decimal_of_units_places(sums.sell_quantity.units() + quantity.units());
        match trades.last().side {
            AggressorSide::Buy => lemma_plus_units(sums.buy_quantity, quantity),
            AggressorSide::Sell => lemma_plus_units(sums.sell_quantity, quantity),
        }
    } else {
        lemma_zero_units();
    }
}

/// The exact terms of a window's three imbalances.
#[derive(Clone, Copy, Debug, PartialEq, Eq, Structural)]
pub struct ImbalanceTerms {
    pub buy_count: usize,
    pub sell_count: usize,
    pub quantity: ExactRatio,
    pub notional: ExactRatio,
}

/// The imbalance terms of sums, or why there are none.
pub open spec fn imbalance_terms(sums: AggressiveTradeSums) -> Result<
    ImbalanceTerms,
    FeatureComputationError,
> {
    let buy = sums.buy_quantity.amount();
    let sell = sums.sell_quantity.amount();
    match (buy.plus(sell), sums.buy_notional.plus(sums.sell_notional)) {
        (Some(quantity), Some(notional)) => if sums.buy_count + sums.sell_count == 0
            || quantity.units() == 0 || notional.units() == 0 {
            Err(FeatureComputationError::ZeroDenominator)
        } else {
            match (buy.minus(sell), sums.buy_notional.minus(sums.sell_notional)) {
                (Some(signed_quantity), Some(signed_notional)) => Ok(
                    ImbalanceTerms {
                        buy_count: sums.buy_count,
                        sell_count: sums.sell_count,
                        quantity: ExactRatio { numerator: signed_quantity, denominator: quantity },
                        notional: ExactRatio { numerator: signed_notional, denominator: notional },
                    },
                ),
                _ => Err(FeatureComputationError::InvalidInput),
            }
        },
        _ => Err(FeatureComputationError::InvalidInput),
    }
}

/// The imbalance terms of a window, or why it has none.
pub open spec fn window_imbalances(
    instrument: InstrumentView,
    trades: Seq<FlowTradeView>,
) -> Result<ImbalanceTerms, FeatureComputationError> {
    match window_sums(instrument, trades) {
        Err(error) => Err(error),
        Ok(sums) => imbalance_terms(sums),
    }
}

/// The exact terms of a window's imbalances.
pub fn aggressive_trade_imbalances(window: &TradeFlowWindow) -> (result: Result<
    ImbalanceTerms,
    FeatureComputationError,
>)
    ensures
        result == match window_sums(window@.instrument, window@.trades) {
            Err(error) => Err(error),
            Ok(sums) => imbalance_terms(sums),
        },
        result == window_imbalances(window@.instrument, window@.trades),
{
    let sums = aggressive_trade_sums(window)?;
    let buy = sums.buy_quantity.value();
    let sell = sums.sell_quantity.value();
    let quantity = sum_exact(buy, sell)?;
    let notional = sum_exact(sums.buy_notional, sums.sell_notional)?;
    if sums.buy_count + sums.sell_count == 0 || quantity.is_zero() || notional.is_zero() {
        return Err(FeatureComputationError::ZeroDenominator);
    }
    let signed_quantity = difference_exact(buy, sell)?;
    let signed_notional = difference_exact(sums.buy_notional, sums.sell_notional)?;
    Ok(
        ImbalanceTerms {
            buy_count: sums.buy_count,
            sell_count: sums.sell_count,
            quantity: ExactRatio { numerator: signed_quantity, denominator: quantity },
            notional: ExactRatio { numerator: signed_notional, denominator: notional },
        },
    )
}

/// The three imbalances of a window, by their bit patterns.
#[derive(Clone, Copy, Debug, PartialEq, Eq, Structural)]
pub struct AggressiveTradeImbalances {
    pub signed_count_imbalance_bits: u64,
    pub signed_quantity_imbalance_bits: u64,
    pub signed_notional_imbalance_bits: u64,
}

impl AggressiveTradeImbalances {
    /// The imbalances as measured, where each is finite.
    pub fn from_bits(count_bits: u64, quantity_bits: u64, notional_bits: u64) -> (result: Result<
        Self,
        FeatureComputationError,
    >)
        ensures
            result == if finite_value(count_bits) is Ok && finite_value(quantity_bits) is Ok
                && finite_value(notional_bits) is Ok {
                Ok::<Self, FeatureComputationError>(
                    (AggressiveTradeImbalances {
                        signed_count_imbalance_bits: count_bits,
                        signed_quantity_imbalance_bits: quantity_bits,
                        signed_notional_imbalance_bits: notional_bits,
                    }),
                )
            } else {
                Err(FeatureComputationError::AnalyticalUnavailable)
            },
    {
        Ok(
            AggressiveTradeImbalances {
                signed_count_imbalance_bits: finite(count_bits)?,
                signed_quantity_imbalance_bits: finite(quantity_bits)?,
                signed_notional_imbalance_bits: finite(notional_bits)?,
            },
        )
    }
}

/// The sums of a window with its imbalances.
#[derive(Clone, Copy, Debug, PartialEq, Eq, Structural)]
pub struct AggressiveTradeTotals {
    pub sums: AggressiveTradeSums,
    pub imbalances: AggressiveTradeImbalances,
}

/// The sums of a window with its measured imbalances.
pub fn aggressive_trade_totals(
    window: &TradeFlowWindow,
    imbalances: AggressiveTradeImbalances,
) -> (result: Result<AggressiveTradeTotals, FeatureComputationError>)
    ensures
        result == match window_sums(window@.instrument, window@.trades) {
            Err(error) => Err(error),
            Ok(sums) => match imbalance_terms(sums) {
                Err(error) => Err(error),
                Ok(_) => Ok((AggressiveTradeTotals { sums, imbalances })),
            },
        },
{
    let sums = aggressive_trade_sums(window)?;
    aggressive_trade_imbalances(window)?;
    Ok(AggressiveTradeTotals { sums, imbalances })
}

/// The trades of a window and the nanoseconds they took.
#[derive(Clone, Copy, Debug, PartialEq, Eq, Structural)]
pub struct CountPerDuration {
    pub count: usize,
    pub duration_ns: u64,
}

/// The trades of a window and its length, or why it has no intensity.
pub open spec fn intensity_of(
    trades: Seq<FlowTradeView>,
    start: UnixNanos,
    end: UnixNanos,
) -> Result<CountPerDuration, FeatureComputationError> {
    match elapsed(start, end) {
        Ok(duration_ns) => if duration_ns == 0 {
            Err(FeatureComputationError::InvalidParameter)
        } else {
            Ok(CountPerDuration { count: trades.len() as usize, duration_ns })
        },
        Err(_) => Err(FeatureComputationError::InvalidParameter),
    }
}

/// The exact terms of the trades per second.
pub fn trade_intensity_per_second(window: &TradeFlowWindow) -> (result: Result<
    CountPerDuration,
    FeatureComputationError,
>)
    ensures
        result == match elapsed(window@.start, window@.end) {
            Ok(duration_ns) => if duration_ns == 0 {
                Err(FeatureComputationError::InvalidParameter)
            } else {
                Ok(
                    (CountPerDuration { count: window@.trades.len() as usize, duration_ns }),
                )
            },
            Err(_) => Err::<CountPerDuration, FeatureComputationError>(
                FeatureComputationError::InvalidParameter,
            ),
        },
        window@.trades.len() <= usize::MAX,
        result == intensity_of(window@.trades, window@.start, window@.end),
{
    let count: usize = window.observations().len();
    match elapsed_ns(window.start(), window.end()) {
        Err(_) => Err(FeatureComputationError::InvalidParameter),
        Ok(duration_ns) => if duration_ns == 0 {
            Err(FeatureComputationError::InvalidParameter)
        } else {
            Ok(CountPerDuration { count, duration_ns })
        },
    }
}

/// The time between a trade and the one before it does not fit a signed count of nanoseconds.
pub open spec fn interval_overflows(trades: Seq<FlowTradeView>, i: int) -> bool {
    let gap = trades[i + 1].event_time.nanos - trades[i].event_time.nanos;
    gap > i64::MAX || gap < i64::MIN
}

/// The times between successive trades.
pub open spec fn interarrival_intervals(trades: Seq<FlowTradeView>) -> Seq<i64> {
    Seq::new(
        (trades.len() - 1) as nat,
        |i: int| (trades[i + 1].event_time.nanos - trades[i].event_time.nanos) as i64,
    )
}

/// The times between successive trades, whose coefficient of variation is reported.
pub fn interarrival_coefficient_of_variation(window: &TradeFlowWindow) -> (result: Result<
    Vec<i64>,
    FeatureComputationError,
>)
    ensures
        window@.trades.len() < 3 ==> result is Err && result->Err_0
            == FeatureComputationError::InsufficientHistory,
        window@.trades.len() >= 3 ==> (result is Err <==> exists|i: int|
            0 <= i < window@.trades.len() - 1 && #[trigger] interval_overflows(window@.trades, i)),
        window@.trades.len() >= 3 && result is Err ==> result->Err_0
            == FeatureComputationError::InvalidInput,
        result is Ok ==> result->Ok_0@ == interarrival_intervals(window@.trades),
{
    let trades = window.observations();
    let ghost views = window@.trades;
    if trades.len() < 3 {
        return Err(FeatureComputationError::InsufficientHistory);
    }
    let mut intervals: Vec<i64> = Vec::new();
    let mut i: usize = 0;
    while i < trades.len() - 1
        invariant
            3 <= trades@.len(),
            i <= trades@.len() - 1,
            views == flow_views(trades@),
            views == window@.trades,
            intervals@ == interarrival_intervals(views).take(i as int),
            forall|k: int| 0 <= k < i ==> !#[trigger] interval_overflows(views, k),
        decreases trades.len() - i,
    {
        proof {
            assert(views[i as int] == trades@[i as int]@);
            assert(views[i + 1] == trades@[i + 1]@);
        }
        match trades[i + 1].event_time().value().checked_sub(trades[i].event_time().value()) {
            None => {
                proof {
                    assert(interval_overflows(views, i as int));
                }
                return Err(FeatureComputationError::InvalidInput);
            },
            Some(gap) => {
                intervals.push(gap);
                proof {
                    assert(intervals@ =~= interarrival_intervals(views).take(i + 1));
                }
            },
        }
        i += 1;
    }
    proof {
        assert(interarrival_intervals(views).take(i as int) =~= interarrival_intervals(views));
    }
    Ok(intervals)
}

/// Where a price stands, or would stand, among prices in ascending order.
pub open spec fn price_slot(levels: Seq<(Price, FixedDecimal)>, price: Price) -> int
    decreases levels.len(),
{
    if levels.len() == 0 || levels.last().0.units() < price.units() {
        levels.len() as int
    } else {
        price_slot(levels.drop_last(), price)
    }
}

/// The price has a level of its own.
pub open spec fn has_level(levels: Seq<(Price, FixedDecimal)>, price: Price) -> bool {
    let slot = price_slot(levels, price);
    slot < levels.len() && levels[slot].0.units() == price.units()
}

/// The signed quantity of a trade: what buyers took less what sellers gave.
pub open spec fn signed_quantity(trade: FlowTradeView) -> Option<FixedDecimal> {
    match trade.side {
        AggressorSide::Buy => Some(trade.quantity.amount()),
        AggressorSide::Sell => trade.quantity.amount().negated(),
    }
}

/// The levels with one more trade.
pub open spec fn levels_with(levels: Seq<(Price, FixedDecimal)>, trade: FlowTradeView) -> Result<
    Seq<(Price, FixedDecimal)>,
    FeatureComputationError,
> {
    let slot = price_slot(levels, trade.price);
    let previous = if has_level(levels, trade.price) {
        levels[slot].1
    } else {
        nothing()
    };
    match signed_quantity(trade) {
        None => Err(FeatureComputationError::InvalidInput),
        Some(signed) => match previous.plus(signed) {
            None => Err(FeatureComputationError::InvalidInput),
            Some(total) => if has_level(levels, trade.price) {
                Ok(levels.update(slot, (trade.price, total)))
            } else {
                Ok(levels.insert(slot, (trade.price, total)))
            },
        },
    }
}

/// The signed volume of trades at each of their prices, in ascending order of price.
pub open spec fn signed_volume(trades: Seq<FlowTradeView>) -> Result<
    Seq<(Price, FixedDecimal)>,
    FeatureComputationError,
> {
    folded(
        trades,
        Seq::empty(),
        |levels: Seq<(Price, FixedDecimal)>, trade: FlowTradeView| levels_with(levels, trade),
    )
}

/// Prices in strictly ascending order.
pub open spec fn ascending_levels(levels: Seq<(Price, FixedDecimal)>) -> bool {
    forall|i: int, j: int|
        0 <= i < j < levels.len() ==> (#[trigger] levels[i]).0.units() < (
        #[trigger] levels[j]).0.units()
}

proof fn lemma_price_slot(levels: Seq<(Price, FixedDecimal)>, price: Price)
    requires
        ascending_levels(levels),
    ensures
        0 <= price_slot(levels, price) <= levels.len(),
        forall|i: int|
            0 <= i < price_slot(levels, price) ==> (#[trigger] levels[i]).0.units()
                < price.units(),
        forall|i: int|
            price_slot(levels, price) <= i < levels.len() ==> (#[trigger] levels[i]).0.units()
                >= price.units(),
    decreases levels.len(),
{
    if levels.len() > 0 {
        if levels.last().0.units() < price.units() {
            assert forall|i: int| 0 <= i < levels.len() implies (#[trigger] levels[i]).0.units()
                < price.units() by {
                if i < levels.len() - 1 {
                    assert(levels[i].0.units() < levels[levels.len() - 1].0.units());
                }
            }
        } else {
            let rest = levels.drop_last();
            lemma_price_slot(rest, price);
            assert forall|i: int|
                0 <= i < price_slot(levels, price) implies (#[trigger] levels[i]).0.units()
                < price.units() by {
                assert(rest[i].0.units() < price.units());
            }
            assert forall|i: int|
                price_slot(levels, price) <= i < levels.len() implies (
            #[trigger] levels[i]).0.units() >= price.units() by {
                if i < levels.len() - 1 {
                    assert(rest[i].0.units() >= price.units());
                }
            }
        }
    }
}

/// Every price is listed once: the levels of signed volume ascend strictly.
pub proof fn lemma_signed_volume_ascends(trades: Seq<FlowTradeView>)
    requires
        signed_volume(trades) is Ok,
    ensures
        ascending_levels(signed_volume(trades)->Ok_0),
    decreases trades.len(),
{
    if trades.len() > 0 {
        lemma_signed_volume_ascends(trades.drop_last());
        lemma_level_keeps_order(signed_volume(trades.drop_last())->Ok_0, trades.last());
    }
}

proof fn lemma_level_keeps_order(levels: Seq<(Price, FixedDecimal)>, trade: FlowTradeView)
    requires
        ascending_levels(levels),
        levels_with(levels, trade) is Ok,
    ensures
        ascending_levels(levels_with(levels, trade)->Ok_0),
{
    lemma_price_slot(levels, trade.price);
    let slot = price_slot(levels, trade.price);
    let after = levels_with(levels, trade)->Ok_0;
    if has_level(levels, trade.price) {
        assert forall|i: int, j: int| 0 <= i < j < after.len() implies (
        #[trigger] after[i]).0.units() < (#[trigger] after[j]).0.units() by {
            assert(levels[i].0.units() < levels[j].0.units());
        }
    } else {
        assert forall|i: int, j: int| 0 <= i < j < after.len() implies (
        #[trigger] after[i]).0.units() < (#[trigger] after[j]).0.units() by {
            if j < slot {
                assert(levels[i].0.units() < levels[j].0.units());
            } else if i == slot {
                assert(levels[j - 1].0.units() >= trade.price.units());
                assert(levels[slot].0.units() != trade.price.units());
                if slot < j - 1 {
                    assert(levels[slot].0.units() < levels[j - 1].0.units());
                }
            } else if j == slot {
                assert(levels[i].0.units() < trade.price.units());
            } else if i > slot {
                assert(levels[i - 1].0.units() < levels[j - 1].0.units());
            } else {
                assert(levels[i].0.units() < trade.price.units());
                assert(levels[j - 1].0.units() >= trade.price.units());
            }
        }
    }
}

fn find_price_slot(levels: &Vec<(Price, FixedDecimal)>, price: Price) -> (slot: usize)
    requires
        ascending_levels(levels@),
    ensures
        slot == price_slot(levels@, price),
        slot <= levels@.len(),
{
    proof {
        lemma_price_slot(levels@, price);
    }
    let mut low: usize = 0;
    let mut high: usize = levels.len();
    while low < high
        invariant
            low <= high <= levels@.len(),
            0 <= price_slot(levels@, price) <= levels@.len(),
            forall|i: int|
                0 <= i < price_slot(levels@, price) ==> (#[trigger] levels@[i]).0.units()
                    < price.units(),
            forall|i: int|
                price_slot(levels@, price) <= i < levels@.len() ==> (
                #[trigger] levels@[i]).0.units() >= price.units(),
            low <= price_slot(levels@, price) <= high,
        decreases high - low,
    {
        let middle: usize = low + (high - low) / 2;
        if levels[middle].0.is_below(&price) {
            low = middle + 1;
        } else {
            high = middle;
        }
    }
    low
}

pub fn signed_volume_at_price(window: &TradeFlowWindow) -> (result: Result<
    Vec<(Price, FixedDecimal)>,
    FeatureComputationError,
>)
    ensures
        match signed_volume(window@.trades) {
            Err(error) => result is Err && result->Err_0 == error,
            Ok(levels) => result is Ok && result->Ok_0@ == levels,
        },
{
    let trades = window.observations();
    let ghost views = window@.trades;
    let ghost step = |levels: Seq<(Price, FixedDecimal)>, trade: FlowTradeView|
        levels_with(levels, trade);
    let ghost none = Seq::<(Price, FixedDecimal)>::empty();
    let mut levels: Vec<(Price, FixedDecimal)> = Vec::new();
    let mut i: usize = 0;
    proof {
        assert(views.take(0) =~= Seq::empty());
        assert(levels@ =~= none);
    }
    while i < trades.len()
        invariant
            i <= trades@.len(),
            views == flow_views(trades@),
            views == window@.trades,
            none == Seq::<(Price, FixedDecimal)>::empty(),
            step == (|levels: Seq<(Price, FixedDecimal)>, trade: FlowTradeView|
                levels_with(levels, trade)),
            ascending_levels(levels@),
            folded(views.take(i as int), none, step) == Ok::<
                Seq<(Price, FixedDecimal)>,
                FeatureComputationError,
            >(levels@),
        decreases trades.len() - i,
    {
        proof {
            lemma_fold_step(views, i as int, none, step);
            assert(views[i as int] == trades@[i as int]@);
        }
        let trade = &trades[i];
        let quantity = trade.quantity().value();
        let signed = match trade.side() {
            AggressorSide::Buy => quantity,
            AggressorSide::Sell => match quantity.checked_neg() {
                Ok(negated) => negated,
                Err(_) => {
                    return Err(FeatureComputationError::InvalidInput);
                },
            },
        };
        let price = trade.price();
        let slot: usize = find_price_slot(&levels, price);
        let held: bool = slot < levels.len() && !price.is_below(&levels[slot].0);
        let ghost before = levels@;
        proof {
            lemma_price_slot(levels@, price);
            if levels_with(before, trade@) is Ok {
                lemma_level_keeps_order(before, trade@);
            }
        }
        if held {
            let total = sum_exact(levels[slot].1, signed)?;
            levels.set(slot, (price, total));
        } else {
            let total = sum_exact(FixedDecimal::zero(), signed)?;
            levels.insert(slot, (price, total));
        }
        i += 1;
    }
    proof {
        assert(views.take(trades@.len() as int) =~= views);
    }
    Ok(levels)
}

/// The trade is close enough behind the last one of its cluster.
pub open spec fn joins(previous: Option<UnixNanos>, time: UnixNanos, max_gap_ns: u64) -> bool {
    match previous {
        None => false,
        Some(earlier) => match elapsed(earlier, time) {
            Ok(gap) => gap <= max_gap_ns,
            Err(_) => false,
        },
    }
}

fn joins_cluster(previous: Option<UnixNanos>, time: UnixNanos, max_gap_ns: u64) -> (answer: bool)
    ensures
        answer == joins(previous, time, max_gap_ns),
{
    match previous {
        None => false,
        Some(earlier) => match elapsed_ns(earlier, time) {
            Ok(gap) => gap <= max_gap_ns,
            Err(_) => false,
        },
    }
}

/// Runs and clusters as far as trades have been read.
#[derive(Clone, Copy, Debug, PartialEq, Eq, Structural)]
pub struct ClusterProgress {
    pub longest_run: usize,
    pub run: usize,
    pub side: Option<AggressorSide>,
    pub large_count: usize,
    pub largest_cluster: usize,
    pub cluster: usize,
    pub last_large: Option<UnixNanos>,
}

pub open spec fn no_clusters() -> ClusterProgress {
    ClusterProgress {
        longest_run: 0,
        run: 0,
        side: None,
        large_count: 0,
        largest_cluster: 0,
        cluster: 0,
        last_large: None,
    }
}

pub open spec fn larger_count(left: usize, right: usize) -> usize {
    if left < right {
        right
    } else {
        left
    }
}

/// Runs and clusters with one more trade.
pub open spec fn clusters_with(
    progress: ClusterProgress,
    trade: FlowTradeView,
    threshold: FixedDecimal,
    max_gap_ns: u64,
) -> Result<ClusterProgress, FeatureComputationError> {
    let run = if progress.side == Some(trade.side) {
        (progress.run + 1) as usize
    } else {
        1
    };
    let read = ClusterProgress {
        longest_run: larger_count(progress.longest_run, run),
        run,
        side: Some(trade.side),
        ..progress
    };
    match trade_notional(trade) {
        None => Err(FeatureComputationError::InvalidInput),
        Some(notional) => if notional.units() < threshold.units() {
            Ok(read)
        } else {
            let cluster = if joins(progress.last_large, trade.event_time, max_gap_ns) {
                (progress.cluster + 1) as usize
            } else {
                1
            };
            Ok(
                ClusterProgress {
                    large_count: (progress.large_count + 1) as usize,
                    largest_cluster: larger_count(progress.largest_cluster, cluster),
                    cluster,
                    last_large: Some(trade.event_time),
                    ..read
                },
            )
        },
    }
}

/// How trades of a window bunch together.
#[derive(Clone, Copy, Debug, PartialEq, Eq, Structural)]
pub struct TradeClusterStatistics {
    pub longest_same_side_run: usize,
    pub largest_large_trade_cluster: usize,
    pub large_trade_count: usize,
}

impl TradeClusterStatistics {
    pub fn longest_same_side_run(self) -> (count: usize)
        ensures
            count == self.longest_same_side_run,
    {
        self.longest_same_side_run
    }

    pub fn largest_large_trade_cluster(self) -> (count: usize)
        ensures
            count == self.largest_large_trade_cluster,
    {
        self.largest_large_trade_cluster
    }

    pub fn large_trade_count(self) -> (count: usize)
        ensures
            count == self.large_trade_count,
    {
        self.large_trade_count
    }
}

/// The runs and clusters of trades.
pub open spec fn clusters_of(
    trades: Seq<FlowTradeView>,
    threshold: FixedDecimal,
    max_gap_ns: u64,
) -> Result<ClusterProgress, FeatureComputationError> {
    folded(
        trades,
        no_clusters(),
        |progress: ClusterProgress, trade: FlowTradeView|
            clusters_with(progress, trade, threshold, max_gap_ns),
    )
}

/// The cluster statistics of a window, or why it has none.
pub open spec fn cluster_statistics(
    instrument: InstrumentView,
    trades: Seq<FlowTradeView>,
    threshold: FixedDecimal,
    max_gap_ns: u64,
) -> Result<TradeClusterStatistics, FeatureComputationError> {
    match notional_refusal(instrument) {
        Some(error) => Err(error),
        None => if threshold.units() <= 0 || max_gap_ns == 0 {
            Err(FeatureComputationError::InvalidParameter)
        } else {
            match clusters_of(trades, threshold, max_gap_ns) {
                Err(error) => Err(error),
                Ok(progress) => Ok(
                    TradeClusterStatistics {
                        longest_same_side_run: progress.longest_run,
                        largest_large_trade_cluster: progress.largest_cluster,
                        large_trade_count: progress.large_count,
                    },
                ),
            }
        },
    }
}

/// The trades whose notional reaches a threshold.
pub open spec fn large_trades(trades: Seq<FlowTradeView>, threshold: FixedDecimal) -> nat
    decreases trades.len(),
{
    if trades.len() == 0 {
        0
    } else {
        large_trades(trades.drop_last(), threshold) + match trade_notional(trades.last()) {
            Some(notional) => if notional.units() >= threshold.units() {
                1nat
            } else {
                0
            },
            None => 0,
        }
    }
}

/// Every trade whose notional reaches the threshold is counted as large, no cluster has more
/// trades than there are large ones, and no run more than there are trades.
pub proof fn lemma_clusters_are_bounded(
    trades: Seq<FlowTradeView>,
    threshold: FixedDecimal,
    max_gap_ns: u64,
)
    requires
        clusters_of(trades, threshold, max_gap_ns) is Ok,
        trades.len() <= usize::MAX,
    ensures
        ({
            let progress = clusters_of(trades, threshold, max_gap_ns)->Ok_0;
            &&& progress.large_count == large_trades(trades, threshold)
            &&& progress.cluster <= progress.largest_cluster <= progress.large_count
            &&& progress.run <= progress.longest_run <= trades.len()
            &&& progress.large_count <= trades.len()
        }),
    decreases trades.len(),
{
    if trades.len() > 0 {
        lemma_clusters_are_bounded(trades.drop_last(), threshold, max_gap_ns);
    }
}

/// So many items from a place on are each linked with the next.
pub open spec fn is_linked<T>(
    items: Seq<T>,
    link: spec_fn(T, T) -> bool,
    start: int,
    count: nat,
) -> bool {
    &&& 0 <= start
    &&& start + count <= items.len()
    &&& forall|k: int|
        start <= k < start + count - 1 ==> #[trigger] link(items[k], items[k + 1])
}

/// So many items in a row are linked somewhere, and nowhere more.
pub open spec fn is_longest_linked<T>(
    items: Seq<T>,
    link: spec_fn(T, T) -> bool,
    longest: nat,
) -> bool {
    &&& exists|start: int| #[trigger] is_linked(items, link, start, longest)
    &&& forall|start: int, count: nat| #[trigger]
        is_linked(items, link, start, count) ==> count <= longest
}

/// So many items are linked up to the end, and no more.
spec fn is_last_linked<T>(items: Seq<T>, link: spec_fn(T, T) -> bool, run: nat) -> bool {
    &&& is_linked(items, link, items.len() - run, run)
    &&& forall|count: nat| #[trigger]
        is_linked(items, link, items.len() - count, count) ==> count <= run
}

proof fn lemma_no_items_are_linked<T>(items: Seq<T>, link: spec_fn(T, T) -> bool)
    requires
        items.len() == 0,
    ensures
        is_longest_linked(items, link, 0),
        is_last_linked(items, link, 0),
{
    assert(is_linked(items, link, 0, 0));
}

/// With one more item, the last run goes on or begins anew, and the longest is the longer one.
proof fn lemma_linked_with<T>(
    items: Seq<T>,
    item: T,
    link: spec_fn(T, T) -> bool,
    longest: nat,
    run: nat,
)
    requires
        is_longest_linked(items, link, longest),
        is_last_linked(items, link, run),
    ensures
        ({
            let next: nat = if items.len() > 0 && link(items.last(), item) {
                run + 1
            } else {
                1
            };
            &&& is_last_linked(items.push(item), link, next)
            &&& is_longest_linked(
                items.push(item),
                link,
                if longest < next {
                    next
                } else {
                    longest
                },
            )
        }),
{
    let whole = items.push(item);
    let count = items.len() as int;
    let linked = items.len() > 0 && link(items.last(), item);
    let next: nat = if linked {
        run + 1
    } else {
        1
    };
    let most: nat = if longest < next {
        next
    } else {
        longest
    };
    assert forall|k: int| whole.len() - next <= k < whole.len() - 1 implies #[trigger] link(
        whole[k],
        whole[k + 1],
    ) by {
        if k < count - 1 {
            assert(link(items[k], items[k + 1]));
        } else {
            assert(whole[k] == items.last());
        }
    }
    assert(is_linked(whole, link, whole.len() - next, next));
    assert forall|size: nat| #[trigger]
        is_linked(whole, link, whole.len() - size, size) implies size <= next by {
        if size >= 2 {
            let k = count - 1;
            assert(link(whole[k], whole[k + 1]));
            let before = (size - 1) as nat;
            assert forall|k: int| count - before <= k < count - 1 implies #[trigger] link(
                items[k],
                items[k + 1],
            ) by {
                assert(link(whole[k], whole[k + 1]));
            }
            assert(is_linked(items, link, items.len() - before, before));
        }
    }
    assert forall|start: int, size: nat| #[trigger]
        is_linked(whole, link, start, size) implies size <= most by {
        if start + size <= count {
            assert forall|k: int| start <= k < start + size - 1 implies #[trigger] link(
                items[k],
                items[k + 1],
            ) by {
                assert(link(whole[k], whole[k + 1]));
            }
            assert(is_linked(items, link, start, size));
        } else {
            assert(is_linked(whole, link, whole.len() - size, size));
        }
    }
    if most == longest {
        let start = choose|start: int| #[trigger] is_linked(items, link, start, longest);
        assert forall|k: int| start <= k < start + longest - 1 implies #[trigger] link(
            whole[k],
            whole[k + 1],
        ) by {
            assert(link(items[k], items[k + 1]));
        }
        assert(is_linked(whole, link, start, most));
    }
}

/// Two trades have the same aggressor.
pub open spec fn same_side() -> spec_fn(FlowTradeView, FlowTradeView) -> bool {
    |a: FlowTradeView, b: FlowTradeView| a.side == b.side
}

/// A trade follows another within a gap.
pub open spec fn within_gap(max_gap_ns: u64) -> spec_fn(FlowTradeView, FlowTradeView) -> bool {
    |a: FlowTradeView, b: FlowTradeView| joins(Some(a.event_time), b.event_time, max_gap_ns)
}

/// The trades whose notional reaches a threshold, in order.
pub open spec fn large_ones(trades: Seq<FlowTradeView>, threshold: FixedDecimal) -> Seq<
    FlowTradeView,
>
    decreases trades.len(),
{
    if trades.len() == 0 {
        Seq::empty()
    } else {
        let before = large_ones(trades.drop_last(), threshold);
        match trade_notional(trades.last()) {
            Some(notional) => if notional.units() >= threshold.units() {
                before.push(trades.last())
            } else {
                before
            },
            None => before,
        }
    }
}

/// The longest run is as long as the longest one of consecutive trades of one side. The largest
/// cluster is as large as the largest one of consecutive large trades within the gap of each other,
/// whatever smaller trades stand between them.
pub open spec fn clusters_are_greatest(
    trades: Seq<FlowTradeView>,
    threshold: FixedDecimal,
    max_gap_ns: u64,
    statistics: TradeClusterStatistics,
) -> bool {
    let large = large_ones(trades, threshold);
    &&& is_longest_linked(trades, same_side(), statistics.longest_same_side_run as nat)
    &&& is_longest_linked(
        large,
        within_gap(max_gap_ns),
        statistics.largest_large_trade_cluster as nat,
    )
    &&& statistics.large_trade_count == large.len()
}

proof fn lemma_progress_is_greatest(
    trades: Seq<FlowTradeView>,
    threshold: FixedDecimal,
    max_gap_ns: u64,
)
    requires
        clusters_of(trades, threshold, max_gap_ns) is Ok,
        trades.len() <= usize::MAX,
    ensures
        ({
            let progress = clusters_of(trades, threshold, max_gap_ns)->Ok_0;
            let large = large_ones(trades, threshold);
            &&& is_longest_linked(trades, same_side(), progress.longest_run as nat)
            &&& is_last_linked(trades, same_side(), progress.run as nat)
            &&& is_longest_linked(
                large,
                within_gap(max_gap_ns),
                progress.largest_cluster as nat,
            )
            &&& is_last_linked(large, within_gap(max_gap_ns), progress.cluster as nat)
            &&& progress.large_count == large.len() <= trades.len()
            &&& progress.side == if trades.len() == 0 {
                None
            } else {
                Some(trades.last().side)
            }
            &&& progress.last_large == if large.len() == 0 {
                None
            } else {
                Some(large.last().event_time)
            }
        }),
    decreases trades.len(),
{
    lemma_clusters_are_bounded(trades, threshold, max_gap_ns);
    if trades.len() == 0 {
        lemma_no_items_are_linked(trades, same_side());
        lemma_no_items_are_linked(large_ones(trades, threshold), within_gap(max_gap_ns));
    } else {
        let rest = trades.drop_last();
        let last = trades.last();
        lemma_progress_is_greatest(rest, threshold, max_gap_ns);
        lemma_clusters_are_bounded(rest, threshold, max_gap_ns);
        let before = clusters_of(rest, threshold, max_gap_ns)->Ok_0;
        let large = large_ones(rest, threshold);
        assert(trades =~= rest.push(last));
        lemma_linked_with(
            rest,
            last,
            same_side(),
            before.longest_run as nat,
            before.run as nat,
        );
        lemma_linked_with(
            large,
            last,
            within_gap(max_gap_ns),
            before.largest_cluster as nat,
            before.cluster as nat,
        );
    }
}

/// The statistics of a window's clusters are of its longest run and of its largest cluster: one of
/// that size is there, and none is larger. A window without trades has no run, and one without
/// large trades no cluster.
pub proof fn lemma_clusters_are_greatest(
    instrument: InstrumentView,
    trades: Seq<FlowTradeView>,
    threshold: FixedDecimal,
    max_gap_ns: u64,
)
    requires
        trades.len() <= usize::MAX,
        cluster_statistics(instrument, trades, threshold, max_gap_ns) is Ok,
    ensures
        ({
            let statistics = cluster_statistics(instrument, trades, threshold, max_gap_ns)->Ok_0;
            &&& clusters_are_greatest(trades, threshold, max_gap_ns, statistics)
            &&& statistics.longest_same_side_run == 0 <==> trades.len() == 0
            &&& statistics.largest_large_trade_cluster == 0 <==> large_ones(
                trades,
                threshold,
            ).len() == 0
            &&& statistics.largest_large_trade_cluster <= statistics.large_trade_count
        }),
{
    lemma_progress_is_greatest(trades, threshold, max_gap_ns);
    lemma_clusters_are_bounded(trades, threshold, max_gap_ns);
    let large = large_ones(trades, threshold);
    if trades.len() > 0 {
        assert(is_linked(trades, same_side(), 0, 1));
    }
    if large.len() > 0 {
        assert(is_linked(large, within_gap(max_gap_ns), 0, 1));
    }
}

pub fn trade_cluster_statistics(
    window: &TradeFlowWindow,
    large_trade_notional_threshold: FixedDecimal,
    max_cluster_gap_ns: u64,
) -> (result: Result<TradeClusterStatistics, FeatureComputationError>)
    ensures
        result == cluster_statistics(
            window@.instrument,
            window@.trades,
            large_trade_notional_threshold,
            max_cluster_gap_ns,
        ),
        result is Ok ==> clusters_are_greatest(
            window@.trades,
            large_trade_notional_threshold,
            max_cluster_gap_ns,
            result->Ok_0,
        ),
{
    require_spot_quote_notional(window.instrument())?;
    if !large_trade_notional_threshold.is_positive() || max_cluster_gap_ns == 0 {
        return Err(FeatureComputationError::InvalidParameter);
    }
    let trades = window.observations();
    let ghost views = window@.trades;
    let ghost step = |progress: ClusterProgress, trade: FlowTradeView|
        clusters_with(progress, trade, large_trade_notional_threshold, max_cluster_gap_ns);
    let mut progress = ClusterProgress {
        longest_run: 0,
        run: 0,
        side: None,
        large_count: 0,
        largest_cluster: 0,
        cluster: 0,
        last_large: None,
    };
    let mut i: usize = 0;
    proof {
        assert(views.take(0) =~= Seq::empty());
    }
    while i < trades.len()
        invariant
            i <= trades@.len(),
            views == flow_views(trades@),
            views == window@.trades,
            notional_refusal(window@.instrument) is None,
            large_trade_notional_threshold.units() > 0,
            max_cluster_gap_ns != 0,
            step == (|progress: ClusterProgress, trade: FlowTradeView|
                clusters_with(progress, trade, large_trade_notional_threshold, max_cluster_gap_ns)),
            folded(views.take(i as int), no_clusters(), step) == Ok::<
                ClusterProgress,
                FeatureComputationError,
            >(progress),
        decreases trades.len() - i,
    {
        proof {
            lemma_fold_step(views, i as int, no_clusters(), step);
            lemma_clusters_are_bounded(
                views.take(i as int),
                large_trade_notional_threshold,
                max_cluster_gap_ns,
            );
            assert(views[i as int] == trades@[i as int]@);
        }
        let trade = &trades[i];
        let run: usize = match (progress.side, trade.side()) {
            (Some(AggressorSide::Buy), AggressorSide::Buy) => progress.run + 1,
            (Some(AggressorSide::Sell), AggressorSide::Sell) => progress.run + 1,
            _ => 1,
        };
        let longest_run: usize = if progress.longest_run < run {
            run
        } else {
            progress.longest_run
        };
        let notional = notional_of_trade(trade)?;
        let side = Some(trade.side());
        progress = ClusterProgress { longest_run, run, side, ..progress };
        if !notional.less_than(&large_trade_notional_threshold) {
            let joined: bool = joins_cluster(
                progress.last_large,
                trade.event_time(),
                max_cluster_gap_ns,
            );
            let cluster: usize = if joined {
                progress.cluster + 1
            } else {
                1
            };
            let largest_cluster: usize = if progress.largest_cluster < cluster {
                cluster
            } else {
                progress.largest_cluster
            };
            progress =
            ClusterProgress {
                large_count: progress.large_count + 1,
                largest_cluster,
                cluster,
                last_large: Some(trade.event_time()),
                ..progress
            };
        }
        i += 1;
    }
    proof {
        assert(views.take(trades@.len() as int) =~= views);
        lemma_clusters_are_greatest(
            window@.instrument,
            views,
            large_trade_notional_threshold,
            max_cluster_gap_ns,
        );
    }
    Ok(
        TradeClusterStatistics {
            longest_same_side_run: progress.longest_run,
            largest_large_trade_cluster: progress.largest_cluster,
            large_trade_count: progress.large_count,
        },
    )
}

/// Whether a sweep may print one price twice in a row.
#[derive(Clone, Copy, Debug, PartialEq, Eq, Structural)]
pub enum SweepEqualPricePolicy {
    Allow,
    Reject,
}

/// What makes an episode of trades a sweep.
#[derive(Clone, Copy, Debug, PartialEq, Eq, Structural)]
pub struct SweepRule {
    pub max_intertrade_gap_ns: u64,
    pub min_trade_count: usize,
    pub min_distinct_prices: usize,
    pub min_quote_notional: FixedDecimal,
    pub equal_price_policy: SweepEqualPricePolicy,
}

/// The quote notional of trades.
pub open spec fn quote_notional(trades: Seq<FlowTradeView>) -> Result<
    FixedDecimal,
    FeatureComputationError,
> {
    folded(
        trades,
        nothing(),
        |total: FixedDecimal, trade: FlowTradeView| notional_with(total, trade),
    )
}

/// A notional with one more trade.
pub open spec fn notional_with(total: FixedDecimal, trade: FlowTradeView) -> Result<
    FixedDecimal,
    FeatureComputationError,
> {
    match trade_notional(trade) {
        None => Err(FeatureComputationError::InvalidInput),
        Some(notional) => exact(total.plus(notional)),
    }
}

/// The prices of trades.
pub open spec fn traded_prices(trades: Seq<FlowTradeView>) -> Seq<int> {
    Seq::new(trades.len(), |i: int| trades[i].price.units())
}

/// The trade moves on from the one before it the way its side presses.
pub open spec fn presses_on(
    trades: Seq<FlowTradeView>,
    i: int,
    policy: SweepEqualPricePolicy,
) -> bool {
    let previous = trades[i].price.units();
    let current = trades[i + 1].price.units();
    match (trades[i].side, policy) {
        (AggressorSide::Buy, SweepEqualPricePolicy::Allow) => current >= previous,
        (AggressorSide::Buy, SweepEqualPricePolicy::Reject) => current > previous,
        (AggressorSide::Sell, SweepEqualPricePolicy::Allow) => current <= previous,
        (AggressorSide::Sell, SweepEqualPricePolicy::Reject) => current < previous,
    }
}

/// Whether an episode of trades is a sweep, or why that cannot be told.
pub open spec fn is_sweep(episode: Seq<FlowTradeView>, rule: SweepRule) -> Result<
    bool,
    FeatureComputationError,
> {
    if episode.len() < rule.min_trade_count || traded_prices(episode).to_set().len()
        < rule.min_distinct_prices {
        Ok(false)
    } else {
        match quote_notional(episode) {
            Err(error) => Err(error),
            Ok(notional) => Ok(
                notional.units() >= rule.min_quote_notional.units() && forall|i: int|
                    0 <= i < episode.len() - 1 ==> #[trigger] presses_on(
                        episode,
                        i,
                        rule.equal_price_policy,
                    ),
            ),
        }
    }
}

/// The trade at an index belongs to the episode of the one before it.
pub open spec fn continues_episode(
    trades: Seq<FlowTradeView>,
    index: int,
    max_gap_ns: u64,
) -> bool {
    index < trades.len() && trades[index].side == trades[index - 1].side && joins(
        Some(trades[index - 1].event_time),
        trades[index].event_time,
        max_gap_ns,
    )
}

/// The sweeps found, by their side.
#[derive(Clone, Copy, Debug, PartialEq, Eq, Structural)]
pub struct SweepCounts {
    pub buy_episode_count: usize,
    pub sell_episode_count: usize,
}

/// The sweeps of trades from an index on, where the episode under way began at `start`.
pub open spec fn sweeps_from(
    trades: Seq<FlowTradeView>,
    rule: SweepRule,
    start: int,
    index: int,
    counts: SweepCounts,
) -> Result<SweepCounts, FeatureComputationError>
    decreases trades.len() + 1 - index,
{
    if index > trades.len() {
        Ok(counts)
    } else if continues_episode(trades, index, rule.max_intertrade_gap_ns) {
        sweeps_from(trades, rule, start, index + 1, counts)
    } else {
        match is_sweep(trades.subrange(start, index), rule) {
            Err(error) => Err(error),
            Ok(sweep) => sweeps_from(
                trades,
                rule,
                index,
                index + 1,
                if !sweep {
                    counts
                } else {
                    match trades[start].side {
                        AggressorSide::Buy => SweepCounts {
                            buy_episode_count: (counts.buy_episode_count + 1) as usize,
                            ..counts
                        },
                        AggressorSide::Sell => SweepCounts {
                            sell_episode_count: (counts.sell_episode_count + 1) as usize,
                            ..counts
                        },
                    }
                },
            ),
        }
    }
}

/// Why a sweep rule is no rule, if it is none.
pub open spec fn sweep_rule_refusal(rule: SweepRule) -> Option<FeatureComputationError> {
    if rule.max_intertrade_gap_ns == 0 || !(2 <= rule.min_trade_count <= MAX_FLOW_TRADES) || !(2
        <= rule.min_distinct_prices <= MAX_FLOW_TRADES) || rule.min_quote_notional.units() <= 0 {
        Some(FeatureComputationError::InvalidParameter)
    } else {
        None
    }
}

/// The sweeps of a window, or why it shows none.
pub open spec fn window_sweeps(
    instrument: InstrumentView,
    trades: Seq<FlowTradeView>,
    rule: SweepRule,
) -> Result<SweepCounts, FeatureComputationError> {
    match (notional_refusal(instrument), sweep_rule_refusal(rule)) {
        (Some(error), _) => Err(error),
        (None, Some(error)) => Err(error),
        (None, None) => match sweeps_from(
            trades,
            rule,
            0,
            1,
            SweepCounts { buy_episode_count: 0, sell_episode_count: 0 },
        ) {
            Err(error) => Err(error),
            Ok(counts) => if counts.buy_episode_count + counts.sell_episode_count == 0 {
                Err(FeatureComputationError::InsufficientHistory)
            } else {
                Ok(counts)
            },
        },
    }
}

/// The trades from one place up to another are an episode: each but the first continues it, and it
/// can be extended neither way.
pub open spec fn is_episode(
    trades: Seq<FlowTradeView>,
    start: int,
    end: int,
    max_gap_ns: u64,
) -> bool {
    &&& 0 <= start < end <= trades.len()
    &&& start == 0 || !continues_episode(trades, start, max_gap_ns)
    &&& !continues_episode(trades, end, max_gap_ns)
    &&& forall|k: int| start < k < end ==> #[trigger] continues_episode(trades, k, max_gap_ns)
}

/// An episode of a side that is a sweep.
pub open spec fn is_sweep_of(
    trades: Seq<FlowTradeView>,
    rule: SweepRule,
    side: AggressorSide,
    start: int,
    end: int,
) -> bool {
    &&& is_episode(trades, start, end, rule.max_intertrade_gap_ns)
    &&& trades[start].side == side
    &&& is_sweep(trades.subrange(start, end), rule) == Ok::<bool, FeatureComputationError>(true)
}

/// Where the sweeps of a side begin that begin before a place.
pub open spec fn sweep_starts(
    trades: Seq<FlowTradeView>,
    rule: SweepRule,
    side: AggressorSide,
    before: int,
) -> Set<int> {
    Set::new(
        |start: int| start < before && exists|end: int| #[trigger]
            is_sweep_of(trades, rule, side, start, end),
    )
}

/// So many sweeps of each side begin before a place.
pub open spec fn counts_sweeps(
    trades: Seq<FlowTradeView>,
    rule: SweepRule,
    before: int,
    counts: SweepCounts,
) -> bool {
    let buys = sweep_starts(trades, rule, AggressorSide::Buy, before);
    let sells = sweep_starts(trades, rule, AggressorSide::Sell, before);
    &&& buys.finite() && counts.buy_episode_count == buys.len()
    &&& sells.finite() && counts.sell_episode_count == sells.len()
}

proof fn lemma_starts_with_episode(
    trades: Seq<FlowTradeView>,
    rule: SweepRule,
    side: AggressorSide,
    start: int,
    end: int,
)
    requires
        is_episode(trades, start, end, rule.max_intertrade_gap_ns),
    ensures
        sweep_starts(trades, rule, side, end) == if is_sweep_of(trades, rule, side, start, end) {
            sweep_starts(trades, rule, side, start).insert(start)
        } else {
            sweep_starts(trades, rule, side, start)
        },
        !sweep_starts(trades, rule, side, start).contains(start),
{
    let before = sweep_starts(trades, rule, side, start);
    let after = sweep_starts(trades, rule, side, end);
    let gap = rule.max_intertrade_gap_ns;
    assert forall|at: int| after.contains(at) implies before.contains(at) || (at == start
        && is_sweep_of(trades, rule, side, start, end)) by {
        let other = choose|other: int| #[trigger] is_sweep_of(trades, rule, side, at, other);
        if at > start {
            assert(continues_episode(trades, at, gap));
        } else if at == start {
            if other < end {
                assert(continues_episode(trades, other, gap));
            } else if end < other {
                assert(continues_episode(trades, end, gap));
            }
        }
    }
    if is_sweep_of(trades, rule, side, start, end) {
        assert(after =~= before.insert(start));
    } else {
        assert(after =~= before);
    }
}

proof fn lemma_sweeps_are_counted(
    trades: Seq<FlowTradeView>,
    rule: SweepRule,
    start: int,
    index: int,
    counts: SweepCounts,
)
    requires
        trades.len() <= usize::MAX,
        0 <= start < index <= trades.len() + 1,
        index == trades.len() + 1 ==> start == trades.len(),
        start == 0 || !continues_episode(trades, start, rule.max_intertrade_gap_ns),
        forall|k: int|
            start < k < index ==> #[trigger] continues_episode(
                trades,
                k,
                rule.max_intertrade_gap_ns,
            ),
        counts.buy_episode_count <= start,
        counts.sell_episode_count <= start,
        counts_sweeps(trades, rule, start, counts),
        sweeps_from(trades, rule, start, index, counts) is Ok,
    ensures
        counts_sweeps(
            trades,
            rule,
            trades.len() as int,
            sweeps_from(trades, rule, start, index, counts)->Ok_0,
        ),
    decreases trades.len() + 1 - index,
{
    if index <= trades.len() {
        if continues_episode(trades, index, rule.max_intertrade_gap_ns) {
            lemma_sweeps_are_counted(trades, rule, start, index + 1, counts);
        } else {
            assert(is_episode(trades, start, index, rule.max_intertrade_gap_ns));
            lemma_starts_with_episode(trades, rule, AggressorSide::Buy, start, index);
            lemma_starts_with_episode(trades, rule, AggressorSide::Sell, start, index);
            let sweep = is_sweep(trades.subrange(start, index), rule)->Ok_0;
            let next = if !sweep {
                counts
            } else {
                match trades[start].side {
                    AggressorSide::Buy => SweepCounts {
                        buy_episode_count: (counts.buy_episode_count + 1) as usize,
                        ..counts
                    },
                    AggressorSide::Sell => SweepCounts {
                        sell_episode_count: (counts.sell_episode_count + 1) as usize,
                        ..counts
                    },
                }
            };
            assert(counts_sweeps(trades, rule, index, next));
            lemma_sweeps_are_counted(trades, rule, index, index + 1, next);
        }
    }
}

/// The sweeps of a window are counted by side: each maximal episode that is a sweep once, the one
/// that ends with the last trade among them. A window that shows sweeps shows at least one.
pub proof fn lemma_sweeps_are_the_maximal_episodes(
    instrument: InstrumentView,
    trades: Seq<FlowTradeView>,
    rule: SweepRule,
)
    requires
        trades.len() <= usize::MAX,
        window_sweeps(instrument, trades, rule) is Ok,
    ensures
        ({
            let counts = window_sweeps(instrument, trades, rule)->Ok_0;
            &&& counts_sweeps(trades, rule, trades.len() as int, counts)
            &&& counts.buy_episode_count + counts.sell_episode_count >= 1
        }),
{
    let none = SweepCounts { buy_episode_count: 0, sell_episode_count: 0 };
    assert(sweep_starts(trades, rule, AggressorSide::Buy, 0) =~= Set::empty());
    assert(sweep_starts(trades, rule, AggressorSide::Sell, 0) =~= Set::empty());
    lemma_sweeps_are_counted(trades, rule, 0, 1, none);
}

fn has_distinct_prices(
    trades: &Vec<FlowTradeObservation>,
    start: usize,
    end: usize,
    wanted: usize,
) -> (answer: bool)
    requires
        start <= end <= trades@.len(),
    ensures
        answer == (traded_prices(flow_views(trades@).subrange(start as int, end as int)).to_set().len()
            >= wanted),
{
    let ghost prices = traded_prices(flow_views(trades@).subrange(start as int, end as int));
    let mut distinct: Vec<Price> = Vec::new();
    let mut i: usize = start;
    proof {
        assert(prices.take(0) =~= Seq::empty());
        assert(prices.take(0).to_set() =~= Set::<int>::empty());
    }
    while i < end && distinct.len() < wanted
        invariant
            start <= i <= end <= trades@.len(),
            prices == traded_prices(flow_views(trades@).subrange(start as int, end as int)),
            forall|price: int| #[trigger]
                prices.take(i - start).contains(price) <==> exists|k: int|
                    0 <= k < distinct@.len() && (#[trigger] distinct@[k]).units() == price,
            prices.take(i - start).to_set().finite(),
            prices.take(i - start).to_set().len() == distinct@.len(),
        decreases end - i,
    {
        let price = trades[i].price();
        let ghost seen = prices.take(i - start);
        let ghost next = prices.take(i + 1 - start);
        let ghost before = distinct@;
        proof {
            assert(prices[i - start] == price.units());
            assert(next =~= seen.push(price.units()));
            assert(next.to_set() =~= seen.to_set().insert(price.units())) by {
                assert forall|p: int| next.contains(p) implies seen.contains(p) || p
                    == price.units() by {
                    let at = next.index_of(p);
                    if at < seen.len() {
                        assert(seen[at] == p);
                    }
                }
                assert forall|p: int| seen.contains(p) || p == price.units() implies next.contains(
                    p,
                ) by {
                    if seen.contains(p) {
                        let at = seen.index_of(p);
                        assert(next[at] == p);
                    } else {
                        assert(next[seen.len() as int] == p);
                    }
                }
            }
            assert(seen.to_set().contains(price.units()) == seen.contains(price.units()));
        }
        let mut known: bool = false;
        let mut k: usize = 0;
        while k < distinct.len() && !known
            invariant
                k <= distinct@.len(),
                distinct@ == before,
                known ==> exists|n: int|
                    0 <= n < distinct@.len() && (#[trigger] distinct@[n]).units() == price.units(),
                !known ==> forall|n: int|
                    0 <= n < k ==> (#[trigger] distinct@[n]).units() != price.units(),
            decreases distinct.len() - k + if known {
                0int
            } else {
                1
            },
        {
            if distinct[k].value().equals(&price.value()) {
                proof {
                    assert(distinct@[k as int].units() == price.units());
                }
                known = true;
            } else {
                k += 1;
            }
        }
        if !known {
            distinct.push(price);
        }
        proof {
            assert forall|p: int| #[trigger] next.contains(p) <==> exists|n: int|
                0 <= n < distinct@.len() && (#[trigger] distinct@[n]).units() == p by {
                assert(next.to_set().contains(p) == next.contains(p));
                assert(seen.to_set().contains(p) == seen.contains(p));
                if next.contains(p) {
                    if seen.contains(p) {
                        let n = choose|n: int|
                            0 <= n < before.len() && (#[trigger] before[n]).units() == p;
                        assert(distinct@[n] == before[n]);
                    } else if !known {
                        assert(distinct@[before.len() as int].units() == p);
                    }
                }
                if exists|n: int| 0 <= n < distinct@.len() && (#[trigger] distinct@[n]).units()
                    == p {
                    let n = choose|n: int|
                        0 <= n < distinct@.len() && (#[trigger] distinct@[n]).units() == p;
                    if n < before.len() {
                        assert(before[n].units() == p);
                        assert(seen.contains(p));
                    }
                }
            }
        }
        i += 1;
    }
    proof {
        let part = prices.take(i - start);
        assert(prices.take(end - start) =~= prices);
        assert(part.to_set().subset_of(prices.to_set())) by {
            assert forall|p: int| part.to_set().contains(p) implies prices.to_set().contains(p) by {
                let at = part.index_of(p);
                assert(prices[at] == p);
            }
        }
        vstd::set_lib::lemma_len_subset(part.to_set(), prices.to_set());
    }
    distinct.len() >= wanted
}

fn qualifies_trade_print_sweep(
    trades: &Vec<FlowTradeObservation>,
    start: usize,
    end: usize,
    rule: SweepRule,
) -> (result: Result<bool, FeatureComputationError>)
    requires
        start <= end <= trades@.len(),
    ensures
        result == is_sweep(flow_views(trades@).subrange(start as int, end as int), rule),
{
    let ghost episode = flow_views(trades@).subrange(start as int, end as int);
    if end - start < rule.min_trade_count {
        return Ok(false);
    }
    if !has_distinct_prices(trades, start, end, rule.min_distinct_prices) {
        return Ok(false);
    }
    let ghost step = |total: FixedDecimal, trade: FlowTradeView| notional_with(total, trade);
    let mut total = FixedDecimal::zero();
    let mut i: usize = start;
    proof {
        assert(episode.take(0) =~= Seq::empty());
    }
    while i < end
        invariant
            start <= i <= end <= trades@.len(),
            end - start >= rule.min_trade_count,
            episode == flow_views(trades@).subrange(start as int, end as int),
            traded_prices(episode).to_set().len() >= rule.min_distinct_prices,
            step == (|total: FixedDecimal, trade: FlowTradeView| notional_with(total, trade)),
            folded(episode.take(i - start), nothing(), step) == Ok::<
                FixedDecimal,
                FeatureComputationError,
            >(total),
        decreases end - i,
    {
        proof {
            lemma_fold_step(episode, i - start, nothing(), step);
            assert(episode[i - start] == trades@[i as int]@);
        }
        let notional = notional_of_trade(&trades[i])?;
        total = sum_exact(total, notional)?;
        i += 1;
    }
    proof {
        assert(episode.take(end - start) =~= episode);
    }
    if total.less_than(&rule.min_quote_notional) {
        return Ok(false);
    }
    let mut k: usize = start;
    while k < end && k + 1 < end
        invariant
            start <= k <= end <= trades@.len(),
            end - start >= rule.min_trade_count,
            episode == flow_views(trades@).subrange(start as int, end as int),
            traded_prices(episode).to_set().len() >= rule.min_distinct_prices,
            quote_notional(episode) == Ok::<FixedDecimal, FeatureComputationError>(total),
            forall|n: int|
                0 <= n < k - start ==> #[trigger] presses_on(episode, n, rule.equal_price_policy),
        decreases end - k,
    {
        proof {
            assert(episode[k - start] == trades@[k as int]@);
            assert(episode[k + 1 - start] == trades@[k + 1]@);
        }
        let previous = trades[k].price();
        let current = trades[k + 1].price();
        let pressing: bool = match (trades[k].side(), rule.equal_price_policy) {
            (AggressorSide::Buy, SweepEqualPricePolicy::Allow) => !current.is_below(&previous),
            (AggressorSide::Buy, SweepEqualPricePolicy::Reject) => previous.is_below(&current),
            (AggressorSide::Sell, SweepEqualPricePolicy::Allow) => !previous.is_below(&current),
            (AggressorSide::Sell, SweepEqualPricePolicy::Reject) => current.is_below(&previous),
        };
        if !pressing {
            proof {
                assert(!presses_on(episode, k - start, rule.equal_price_policy));
            }
            return Ok(false);
        }
        k += 1;
    }
    Ok(true)
}

/// The sweeps of a window, whose balance of sides is reported.
pub fn trade_print_sweep_direction(
    window: &TradeFlowWindow,
    max_intertrade_gap_ns: u64,
    min_trade_count: usize,
    min_distinct_prices: usize,
    min_quote_notional: FixedDecimal,
    equal_price_policy: SweepEqualPricePolicy,
) -> (result: Result<SweepCounts, FeatureComputationError>)
    ensures
        result == window_sweeps(
            window@.instrument,
            window@.trades,
            SweepRule {
                max_intertrade_gap_ns,
                min_trade_count,
                min_distinct_prices,
                min_quote_notional,
                equal_price_policy,
            },
        ),
        result is Ok ==> counts_sweeps(
            window@.trades,
            SweepRule {
                max_intertrade_gap_ns,
                min_trade_count,
                min_distinct_prices,
                min_quote_notional,
                equal_price_policy,
            },
            window@.trades.len() as int,
            result->Ok_0,
        ),
{
    require_spot_quote_notional(window.instrument())?;
    if max_intertrade_gap_ns == 0 || min_trade_count < 2 || min_trade_count > MAX_FLOW_TRADES
        || min_distinct_prices < 2 || min_distinct_prices > MAX_FLOW_TRADES
        || !min_quote_notional.is_positive() {
        return Err(FeatureComputationError::InvalidParameter);
    }
    let rule = SweepRule {
        max_intertrade_gap_ns,
        min_trade_count,
        min_distinct_prices,
        min_quote_notional,
        equal_price_policy,
    };
    let trades = window.observations();
    let ghost views = window@.trades;
    let ghost none = SweepCounts { buy_episode_count: 0, sell_episode_count: 0 };
    let ghost whole = sweeps_from(views, rule, 0, 1, none);
    let mut counts = SweepCounts { buy_episode_count: 0, sell_episode_count: 0 };
    let mut start: usize = 0;
    let mut index: usize = 0;
    while index < trades.len()
        invariant
            start <= index <= trades@.len(),
            index < trades@.len() ==> start <= index,
            views == flow_views(trades@),
            views == window@.trades,
            notional_refusal(window@.instrument) is None,
            sweep_rule_refusal(rule) is None,
            none == (SweepCounts { buy_episode_count: 0, sell_episode_count: 0 }),
            whole == sweeps_from(views, rule, 0, 1, none),
            rule == (SweepRule {
                max_intertrade_gap_ns,
                min_trade_count,
                min_distinct_prices,
                min_quote_notional,
                equal_price_policy,
            }),
            whole == sweeps_from(views, rule, start as int, index + 1, counts),
            counts.buy_episode_count + counts.sell_episode_count <= index,
        decreases trades.len() - index,
    {
        let next: usize = index + 1;
        let continued: bool = if next < trades.len() {
            proof {
                assert(views[index as int] == trades@[index as int]@);
                assert(views[next as int] == trades@[next as int]@);
            }
            let same_side: bool = match (trades[index].side(), trades[next].side()) {
                (AggressorSide::Buy, AggressorSide::Buy) => true,
                (AggressorSide::Sell, AggressorSide::Sell) => true,
                _ => false,
            };
            same_side && joins_cluster(
                Some(trades[index].event_time()),
                trades[next].event_time(),
                max_intertrade_gap_ns,
            )
        } else {
            false
        };
        if !continued {
            proof {
                assert(views[start as int] == trades@[start as int]@);
            }
            if qualifies_trade_print_sweep(trades, start, next, rule)? {
                counts =
                match trades[start].side() {
                    AggressorSide::Buy => SweepCounts {
                        buy_episode_count: counts.buy_episode_count + 1,
                        ..counts
                    },
                    AggressorSide::Sell => SweepCounts {
                        sell_episode_count: counts.sell_episode_count + 1,
                        ..counts
                    },
                };
            }
            start = next;
        }
        index = next;
    }
    if counts.buy_episode_count + counts.sell_episode_count == 0 {
        return Err(FeatureComputationError::InsufficientHistory);
    }
    proof {
        lemma_sweeps_are_the_maximal_episodes(window@.instrument, views, rule);
    }
    Ok(counts)
}

/// The balance of a window's sweeps.
#[derive(Clone, Copy, Debug, PartialEq, Eq, Structural)]
pub struct TradePrintSweepDirection {
    pub counts: SweepCounts,
    pub direction_bits: u64,
}

impl TradePrintSweepDirection {
    /// The balance as measured, where it is finite.
    pub fn from_counts(counts: SweepCounts, direction_bits: u64) -> (result: Result<
        Self,
        FeatureComputationError,
    >)
        ensures
            result == match finite_value(direction_bits) {
                Err(error) => Err(error),
                Ok(_) => Ok::<Self, FeatureComputationError>(
                    (TradePrintSweepDirection { counts, direction_bits }),
                ),
            },
    {
        finite(direction_bits)?;
        Ok(TradePrintSweepDirection { counts, direction_bits })
    }

    pub fn buy_episode_count(self) -> (count: usize)
        ensures
            count == self.counts.buy_episode_count,
    {
        self.counts.buy_episode_count
    }

    pub fn sell_episode_count(self) -> (count: usize)
        ensures
            count == self.counts.sell_episode_count,
    {
        self.counts.sell_episode_count
    }
}

/// Clusters of large trades as far as trades have been read.
#[derive(Clone, Copy, Debug, PartialEq, Eq, Structural)]
pub struct LargeClusterProgress {
    pub cluster_count: usize,
    pub clustered_count: usize,
    pub clustered_notional: FixedDecimal,
    pub open_count: usize,
    pub open_notional: FixedDecimal,
    pub last_large: Option<UnixNanos>,
}

pub open spec fn no_large_clusters() -> LargeClusterProgress {
    LargeClusterProgress {
        cluster_count: 0,
        clustered_count: 0,
        clustered_notional: nothing(),
        open_count: 0,
        open_notional: nothing(),
        last_large: None,
    }
}

/// The open cluster is closed, and counted where it has enough trades.
pub open spec fn cluster_closed(progress: LargeClusterProgress, min_cluster_trades: usize) -> Result<
    LargeClusterProgress,
    FeatureComputationError,
> {
    let closed = LargeClusterProgress { open_count: 0, open_notional: nothing(), ..progress };
    if progress.open_count == 0 || progress.open_count < min_cluster_trades {
        Ok(closed)
    } else {
        match progress.clustered_notional.plus(progress.open_notional) {
            None => Err(FeatureComputationError::InvalidInput),
            Some(clustered_notional) => Ok(
                LargeClusterProgress {
                    cluster_count: (progress.cluster_count + 1) as usize,
                    clustered_count: (progress.clustered_count + progress.open_count) as usize,
                    clustered_notional,
                    ..closed
                },
            ),
        }
    }
}

/// The large clusters with one more trade.
pub open spec fn large_clusters_with(
    progress: LargeClusterProgress,
    trade: FlowTradeView,
    threshold: FixedDecimal,
    max_gap_ns: u64,
    min_cluster_trades: usize,
) -> Result<LargeClusterProgress, FeatureComputationError> {
    match trade_notional(trade) {
        None => Err(FeatureComputationError::InvalidInput),
        Some(notional) => if notional.units() < threshold.units() {
            Ok(progress)
        } else {
            let opened = if joins(progress.last_large, trade.event_time, max_gap_ns) {
                Ok(progress)
            } else {
                cluster_closed(progress, min_cluster_trades)
            };
            match opened {
                Err(error) => Err(error),
                Ok(opened) => match opened.open_notional.plus(notional) {
                    None => Err(FeatureComputationError::InvalidInput),
                    Some(open_notional) => Ok(
                        LargeClusterProgress {
                            open_count: (opened.open_count + 1) as usize,
                            open_notional,
                            last_large: Some(trade.event_time),
                            ..opened
                        },
                    ),
                },
            }
        },
    }
}

/// The clusters of large trades and the time they took.
#[derive(Clone, Copy, Debug, PartialEq, Eq, Structural)]
pub struct LargeClusterTerms {
    pub cluster_count: usize,
    pub clustered_large_count: usize,
    pub clustered_large_notional: FixedDecimal,
    pub duration_ns: u64,
}

/// The large clusters of trades, the last one closed.
pub open spec fn large_clusters_of(
    trades: Seq<FlowTradeView>,
    threshold: FixedDecimal,
    max_gap_ns: u64,
    min_cluster_trades: usize,
) -> Result<LargeClusterProgress, FeatureComputationError> {
    match folded(
        trades,
        no_large_clusters(),
        |progress: LargeClusterProgress, trade: FlowTradeView|
            large_clusters_with(progress, trade, threshold, max_gap_ns, min_cluster_trades),
    ) {
        Err(error) => Err(error),
        Ok(progress) => cluster_closed(progress, min_cluster_trades),
    }
}

/// The large clusters of a window, or why it has none.
pub open spec fn large_cluster_terms(
    instrument: InstrumentView,
    trades: Seq<FlowTradeView>,
    start: UnixNanos,
    end: UnixNanos,
    threshold: FixedDecimal,
    max_gap_ns: u64,
    min_cluster_trades: usize,
) -> Result<LargeClusterTerms, FeatureComputationError> {
    match notional_refusal(instrument) {
        Some(error) => Err(error),
        None => if threshold.units() <= 0 || max_gap_ns == 0 || !(2 <= min_cluster_trades
            <= MAX_FLOW_TRADES) {
            Err(FeatureComputationError::InvalidParameter)
        } else {
            match (
                large_clusters_of(trades, threshold, max_gap_ns, min_cluster_trades),
                elapsed(start, end),
            ) {
                (Err(error), _) => Err(error),
                (Ok(_), Err(error)) => Err(error),
                (Ok(progress), Ok(duration_ns)) => Ok(
                    LargeClusterTerms {
                        cluster_count: progress.cluster_count,
                        clustered_large_count: progress.clustered_count,
                        clustered_large_notional: progress.clustered_notional,
                        duration_ns,
                    },
                ),
            }
        },
    }
}

/// So many linked items from a place on, which can be extended neither way.
pub open spec fn is_maximal<T>(
    items: Seq<T>,
    link: spec_fn(T, T) -> bool,
    start: int,
    count: nat,
) -> bool {
    &&& count > 0
    &&& is_linked(items, link, start, count)
    &&& start == 0 || !link(items[start - 1], items[start])
    &&& start + count == items.len() || !link(
        items[start + count - 1],
        items[start + count],
    )
}

/// A maximal run of enough items begins at a place.
pub open spec fn begins_cluster<T>(
    items: Seq<T>,
    link: spec_fn(T, T) -> bool,
    least: nat,
    start: int,
) -> bool {
    exists|count: nat| #[trigger] is_maximal(items, link, start, count) && count >= least
}

/// The item at a place belongs to a maximal run of enough items.
pub open spec fn is_clustered<T>(
    items: Seq<T>,
    link: spec_fn(T, T) -> bool,
    least: nat,
    at: int,
) -> bool {
    exists|start: int, count: nat| #[trigger]
        is_maximal(items, link, start, count) && count >= least && start <= at < start + count
}

/// Where maximal runs of enough items begin before a place.
pub open spec fn cluster_starts<T>(
    items: Seq<T>,
    link: spec_fn(T, T) -> bool,
    least: nat,
    before: int,
) -> Set<int> {
    Set::new(|start: int| 0 <= start < before && begins_cluster(items, link, least, start))
}

/// The places before one whose items belong to maximal runs of enough items.
pub open spec fn clustered_places<T>(
    items: Seq<T>,
    link: spec_fn(T, T) -> bool,
    least: nat,
    before: int,
) -> Set<int> {
    Set::new(|at: int| 0 <= at < before && is_clustered(items, link, least, at))
}

/// What the clustered trades before a place come to, in units.
pub open spec fn clustered_units(
    items: Seq<FlowTradeView>,
    link: spec_fn(FlowTradeView, FlowTradeView) -> bool,
    least: nat,
    before: nat,
) -> int
    decreases before,
{
    if before == 0 {
        0
    } else {
        clustered_units(items, link, least, (before - 1) as nat) + if is_clustered(
            items,
            link,
            least,
            before - 1,
        ) {
            notional_units(items[before - 1])
        } else {
            0
        }
    }
}

/// The notional of a trade, in units.
pub open spec fn notional_units(trade: FlowTradeView) -> int {
    match trade_notional(trade) {
        Some(notional) => notional.units(),
        None => 0,
    }
}

/// What trades from one place up to another come to, in units.
spec fn units_between(items: Seq<FlowTradeView>, from: nat, to: nat) -> int
    decreases to,
{
    if to <= from {
        0
    } else {
        units_between(items, from, (to - 1) as nat) + notional_units(items[to - 1])
    }
}

/// The counts and the notional are those of the maximal clusters before a place.
spec fn counts_clusters(
    items: Seq<FlowTradeView>,
    link: spec_fn(FlowTradeView, FlowTradeView) -> bool,
    least: nat,
    before: nat,
    progress: LargeClusterProgress,
) -> bool {
    let starts = cluster_starts(items, link, least, before as int);
    let places = clustered_places(items, link, least, before as int);
    &&& starts.finite() && progress.cluster_count == starts.len()
    &&& places.finite() && progress.clustered_count == places.len()
    &&& progress.cluster_count <= before
    &&& progress.clustered_count <= before
    &&& progress.clustered_notional.units() == clustered_units(items, link, least, before)
    &&& progress.clustered_notional.places() <= MAX_DECIMAL_SCALE
}

/// A maximal run that reaches into the last one is the last one.
proof fn lemma_last_is_maximal<T>(items: Seq<T>, link: spec_fn(T, T) -> bool, run: nat)
    requires
        is_last_linked(items, link, run),
    ensures
        run > 0 <==> items.len() > 0,
        run > 0 ==> is_maximal(items, link, items.len() - run, run),
        forall|start: int, count: nat| #[trigger]
            is_maximal(items, link, start, count) && start + count > items.len() - run ==> start
                == items.len() - run && count == run,
{
    let first = items.len() - run;
    if items.len() > 0 {
        assert(is_linked(items, link, items.len() - 1, 1));
        assert(run >= 1);
    }
    if first > 0 {
        if link(items[first - 1], items[first]) {
            assert forall|k: int| first - 1 <= k < items.len() - 1 implies #[trigger] link(
                items[k],
                items[k + 1],
            ) by {
                if k == first - 1 {
                    assert(items[k + 1] == items[first]);
                }
            }
            assert(is_linked(items, link, items.len() - (run + 1), run + 1));
        }
    }
    assert forall|start: int, count: nat| #[trigger]
        is_maximal(items, link, start, count) && start + count > first implies start == first
        && count == run by {
        let end = start + count;
        if start < first {
            let k = first - 1;
            assert(link(items[k], items[k + 1]));
        } else if start > first {
            let k = start - 1;
            assert(link(items[k], items[k + 1]));
        }
        if end < items.len() {
            let k = end - 1;
            assert(link(items[k], items[k + 1]));
        }
    }
}

/// One more item leaves the maximal runs that end before a place as they are, where the place is
/// not the end, or the item is not linked.
proof fn lemma_maximal_stays<T>(
    items: Seq<T>,
    item: T,
    link: spec_fn(T, T) -> bool,
    start: int,
    count: nat,
)
    requires
        start + count < items.len() || (start + count == items.len() && !link(items.last(), item)),
    ensures
        is_maximal(items, link, start, count) == is_maximal(
            items.push(item),
            link,
            start,
            count,
        ),
{
    let whole = items.push(item);
    if 0 <= start && count > 0 {
        assert forall|k: int| 0 <= k < items.len() implies #[trigger] whole[k] == items[k] by {
        }
        if is_linked(items, link, start, count) {
            assert forall|k: int| start <= k < start + count - 1 implies #[trigger] link(
                whole[k],
                whole[k + 1],
            ) by {
                assert(link(items[k], items[k + 1]));
            }
        }
        if is_linked(whole, link, start, count) {
            assert forall|k: int| start <= k < start + count - 1 implies #[trigger] link(
                items[k],
                items[k + 1],
            ) by {
                assert(link(whole[k], whole[k + 1]));
            }
        }
    }
}

/// The clusters before the last run are the same with one more item, where the last run goes on, or
/// where it ends before the item.
proof fn lemma_clusters_stay(
    items: Seq<FlowTradeView>,
    item: FlowTradeView,
    link: spec_fn(FlowTradeView, FlowTradeView) -> bool,
    least: nat,
    run: nat,
    before: nat,
    progress: LargeClusterProgress,
)
    requires
        is_last_linked(items, link, run),
        items.len() == 0 || if link(items.last(), item) {
            before == items.len() - run && is_last_linked(items.push(item), link, run + 1)
        } else {
            before == items.len() && is_last_linked(items.push(item), link, 1)
        },
        items.len() == 0 ==> before == 0,
        counts_clusters(items, link, least, before, progress),
    ensures
        counts_clusters(items.push(item), link, least, before, progress),
{
    let whole = items.push(item);
    if items.len() == 0 {
        assert(cluster_starts(whole, link, least, 0) =~= cluster_starts(items, link, least, 0));
        assert(clustered_places(whole, link, least, 0) =~= clustered_places(
            items,
            link,
            least,
            0,
        ));
    } else {
        let linked = link(items.last(), item);
        lemma_last_is_maximal(items, link, run);
        lemma_last_is_maximal(
            whole,
            link,
            if linked {
                run + 1
            } else {
                1
            },
        );
        assert forall|start: int, count: nat| start < before implies #[trigger] is_maximal(
            whole,
            link,
            start,
            count,
        ) == is_maximal(items, link, start, count) by {
            if start + count <= before {
                lemma_maximal_stays(items, item, link, start, count);
            }
        }
        assert forall|start: int, count: nat| #[trigger]
            is_maximal(whole, link, start, count) && start < before implies start + count
            <= before by {
        }
        assert forall|start: int| start < before implies begins_cluster(
            whole,
            link,
            least,
            start,
        ) == begins_cluster(items, link, least, start) by {
            if begins_cluster(items, link, least, start) {
                let count = choose|count: nat| #[trigger]
                    is_maximal(items, link, start, count) && count >= least;
                assert(is_maximal(whole, link, start, count));
            }
            if begins_cluster(whole, link, least, start) {
                let count = choose|count: nat| #[trigger]
                    is_maximal(whole, link, start, count) && count >= least;
                assert(is_maximal(items, link, start, count));
            }
        }
        assert forall|at: int| 0 <= at < before implies #[trigger] is_clustered(
            whole,
            link,
            least,
            at,
        ) == is_clustered(items, link, least, at) by {
            if is_clustered(items, link, least, at) {
                let (start, count) = choose|start: int, count: nat| #[trigger]
                    is_maximal(items, link, start, count) && count >= least && start <= at < start
                        + count;
                assert(is_maximal(whole, link, start, count));
            }
            if is_clustered(whole, link, least, at) {
                let (start, count) = choose|start: int, count: nat| #[trigger]
                    is_maximal(whole, link, start, count) && count >= least && start <= at < start
                        + count;
                assert(is_maximal(items, link, start, count));
            }
        }
        assert(cluster_starts(whole, link, least, before as int) =~= cluster_starts(
            items,
            link,
            least,
            before as int,
        ));
        assert(clustered_places(whole, link, least, before as int) =~= clustered_places(
            items,
            link,
            least,
            before as int,
        ));
        lemma_clustered_units_stay(items, item, link, least, before);
    }
}

proof fn lemma_clustered_units_stay(
    items: Seq<FlowTradeView>,
    item: FlowTradeView,
    link: spec_fn(FlowTradeView, FlowTradeView) -> bool,
    least: nat,
    before: nat,
)
    requires
        before <= items.len(),
        forall|at: int|
            0 <= at < before ==> #[trigger] is_clustered(items.push(item), link, least, at)
                == is_clustered(items, link, least, at),
    ensures
        clustered_units(items.push(item), link, least, before) == clustered_units(
            items,
            link,
            least,
            before,
        ),
    decreases before,
{
    if before > 0 {
        lemma_clustered_units_stay(items, item, link, least, (before - 1) as nat);
        assert(items.push(item)[before - 1] == items[before - 1]);
        assert(is_clustered(items.push(item), link, least, before - 1) == is_clustered(
            items,
            link,
            least,
            before - 1,
        ));
    }
}

proof fn lemma_units_of_last_run(
    items: Seq<FlowTradeView>,
    link: spec_fn(FlowTradeView, FlowTradeView) -> bool,
    least: nat,
    from: nat,
    to: nat,
    clustered: bool,
)
    requires
        from <= to <= items.len(),
        forall|at: int| from <= at < to ==> #[trigger] is_clustered(items, link, least, at)
            == clustered,
    ensures
        clustered_units(items, link, least, to) == clustered_units(items, link, least, from)
            + if clustered {
            units_between(items, from, to)
        } else {
            0
        },
    decreases to,
{
    if from < to {
        assert(is_clustered(items, link, least, to - 1) == clustered);
        lemma_units_of_last_run(items, link, least, from, (to - 1) as nat, clustered);
    }
}

/// Closing the last run counts it where it has enough items.
proof fn lemma_last_run_is_counted(
    items: Seq<FlowTradeView>,
    link: spec_fn(FlowTradeView, FlowTradeView) -> bool,
    least: usize,
    progress: LargeClusterProgress,
)
    requires
        items.len() <= usize::MAX,
        least > 0,
        is_last_linked(items, link, progress.open_count as nat),
        counts_clusters(
            items,
            link,
            least as nat,
            (items.len() - progress.open_count) as nat,
            progress,
        ),
        progress.open_notional.units() == units_between(
            items,
            (items.len() - progress.open_count) as nat,
            items.len(),
        ),
        progress.open_notional.places() <= MAX_DECIMAL_SCALE,
        cluster_closed(progress, least) is Ok,
    ensures
        counts_clusters(
            items,
            link,
            least as nat,
            items.len(),
            cluster_closed(progress, least)->Ok_0,
        ),
{
    let run = progress.open_count as nat;
    let first = (items.len() - run) as nat;
    let enough = run > 0 && run >= least;
    let starts = cluster_starts(items, link, least as nat, first as int);
    let places = clustered_places(items, link, least as nat, first as int);
    lemma_last_is_maximal(items, link, run);
    assert forall|at: int| first <= at < items.len() implies #[trigger] is_clustered(
        items,
        link,
        least as nat,
        at,
    ) == enough by {
        if enough {
            assert(is_maximal(items, link, first as int, run));
        }
        if is_clustered(items, link, least as nat, at) {
            let (start, count) = choose|start: int, count: nat| #[trigger]
                is_maximal(items, link, start, count) && count >= least && start <= at < start
                    + count;
            assert(start + count > first);
        }
    }
    assert forall|start: int| first <= start < items.len() implies #[trigger] begins_cluster(
        items,
        link,
        least as nat,
        start,
    ) == (enough && start == first) by {
        if enough {
            assert(is_maximal(items, link, first as int, run));
        }
        if begins_cluster(items, link, least as nat, start) {
            let count = choose|count: nat| #[trigger]
                is_maximal(items, link, start, count) && count >= least;
            assert(start + count > first);
        }
    }
    lemma_units_of_last_run(items, link, least as nat, first, items.len(), enough);
    let all_starts = cluster_starts(items, link, least as nat, items.len() as int);
    let all_places = clustered_places(items, link, least as nat, items.len() as int);
    if enough {
        assert(all_starts =~= starts.insert(first as int));
        let range = vstd::set_lib::set_int_range(first as int, items.len() as int);
        vstd::set_lib::lemma_int_range(first as int, items.len() as int);
        assert(all_places =~= places.union(range));
        assert(places.disjoint(range));
        vstd::set_lib::lemma_set_disjoint_lens(places, range);
        lemma_plus_units(progress.clustered_notional, progress.open_notional);
        lemma_decimal_of_units_places(
            progress.clustered_notional.units() + progress.open_notional.units(),
        );
    } else {
        assert(all_starts =~= starts);
        assert(all_places =~= places);
    }
}

spec fn follows_clusters(
    trades: Seq<FlowTradeView>,
    threshold: FixedDecimal,
    max_gap_ns: u64,
    least: usize,
    progress: LargeClusterProgress,
) -> bool {
    let large = large_ones(trades, threshold);
    let link = within_gap(max_gap_ns);
    &&& large.len() <= trades.len()
    &&& is_last_linked(large, link, progress.open_count as nat)
    &&& counts_clusters(
        large,
        link,
        least as nat,
        (large.len() - progress.open_count) as nat,
        progress,
    )
    &&& progress.open_notional.units() == units_between(
        large,
        (large.len() - progress.open_count) as nat,
        large.len(),
    )
    &&& progress.open_notional.places() <= MAX_DECIMAL_SCALE
    &&& progress.last_large == if large.len() == 0 {
        None
    } else {
        Some(large.last().event_time)
    }
}

proof fn lemma_units_between_stay(
    items: Seq<FlowTradeView>,
    item: FlowTradeView,
    from: nat,
    to: nat,
)
    requires
        to <= items.len(),
    ensures
        units_between(items.push(item), from, to) == units_between(items, from, to),
    decreases to,
{
    if from < to {
        lemma_units_between_stay(items, item, from, (to - 1) as nat);
        assert(items.push(item)[to - 1] == items[to - 1]);
    }
}

proof fn lemma_clusters_are_followed(
    trades: Seq<FlowTradeView>,
    threshold: FixedDecimal,
    max_gap_ns: u64,
    least: usize,
    step: spec_fn(LargeClusterProgress, FlowTradeView) -> Result<
        LargeClusterProgress,
        FeatureComputationError,
    >,
)
    requires
        trades.len() <= usize::MAX,
        least > 0,
        step == (|progress: LargeClusterProgress, trade: FlowTradeView|
            large_clusters_with(progress, trade, threshold, max_gap_ns, least)),
        folded(trades, no_large_clusters(), step) is Ok,
    ensures
        follows_clusters(
            trades,
            threshold,
            max_gap_ns,
            least,
            folded(trades, no_large_clusters(), step)->Ok_0,
        ),
    decreases trades.len(),
{
    let link = within_gap(max_gap_ns);
    lemma_zero_units();
    if trades.len() == 0 {
        let large = large_ones(trades, threshold);
        lemma_no_items_are_linked(large, link);
        assert(cluster_starts(large, link, least as nat, 0) =~= Set::empty());
        assert(clustered_places(large, link, least as nat, 0) =~= Set::empty());
    } else {
        let rest = trades.drop_last();
        let last = trades.last();
        lemma_clusters_are_followed(rest, threshold, max_gap_ns, least, step);
        let before = folded(rest, no_large_clusters(), step)->Ok_0;
        let large = large_ones(rest, threshold);
        let whole = large.push(last);
        let notional = trade_notional(last)->Some_0;
        if notional.units() >= threshold.units() {
            let linked = joins(before.last_large, last.event_time, max_gap_ns);
            lemma_linked_last(large, last, link, before.open_count as nat);
            let opened = if linked {
                before
            } else {
                lemma_last_run_is_counted(large, link, least, before);
                cluster_closed(before, least)->Ok_0
            };
            let start = (large.len() - opened.open_count) as nat;
            lemma_clusters_stay(
                large,
                last,
                link,
                least as nat,
                before.open_count as nat,
                start,
                opened,
            );
            lemma_units_between_stay(large, last, start, large.len());
            assert(whole[large.len() as int] == last);
            lemma_decimal_of_units_places(
                last.price.amount().units() * last.quantity.amount().units()
                    / crate::decimal::unit(),
            );
            lemma_plus_units(opened.open_notional, notional);
            lemma_decimal_of_units_places(opened.open_notional.units() + notional.units());
        }
    }
}

/// With one more item, the last run goes on or begins anew.
proof fn lemma_linked_last<T>(items: Seq<T>, item: T, link: spec_fn(T, T) -> bool, run: nat)
    requires
        is_last_linked(items, link, run),
    ensures
        is_last_linked(
            items.push(item),
            link,
            if items.len() > 0 && link(items.last(), item) {
                run + 1
            } else {
                1
            },
        ),
{
    lemma_longest_exists(items, link);
    let longest = choose|longest: nat| is_longest_linked(items, link, longest);
    lemma_linked_with(items, item, link, longest, run);
}

proof fn lemma_longest_exists<T>(items: Seq<T>, link: spec_fn(T, T) -> bool)
    ensures
        exists|longest: nat, run: nat| #[trigger]
            is_longest_linked(items, link, longest) && #[trigger] is_last_linked(
                items,
                link,
                run,
            ),
    decreases items.len(),
{
    if items.len() == 0 {
        lemma_no_items_are_linked(items, link);
    } else {
        let rest = items.drop_last();
        lemma_longest_exists(rest, link);
        let (longest, run) = choose|longest: nat, run: nat| #[trigger]
            is_longest_linked(rest, link, longest) && #[trigger] is_last_linked(rest, link, run);
        lemma_linked_with(rest, items.last(), link, longest, run);
        assert(items =~= rest.push(items.last()));
    }
}

/// The clusters of a window are the maximal ones of enough large trades, each within the gap of the
/// one before it: so many of them, so many trades in them, and their notional.
pub open spec fn clusters_are_maximal(
    trades: Seq<FlowTradeView>,
    threshold: FixedDecimal,
    max_gap_ns: u64,
    least: nat,
    terms: LargeClusterTerms,
) -> bool {
    let large = large_ones(trades, threshold);
    let link = within_gap(max_gap_ns);
    let starts = cluster_starts(large, link, least, large.len() as int);
    let places = clustered_places(large, link, least, large.len() as int);
    &&& starts.finite() && terms.cluster_count == starts.len()
    &&& places.finite() && terms.clustered_large_count == places.len()
    &&& terms.clustered_large_notional.units() == clustered_units(
        large,
        link,
        least,
        large.len(),
    )
}

/// The cluster activity of a window is that of its maximal clusters of enough large trades.
pub proof fn lemma_activity_is_of_maximal_clusters(
    instrument: InstrumentView,
    trades: Seq<FlowTradeView>,
    start: UnixNanos,
    end: UnixNanos,
    threshold: FixedDecimal,
    max_gap_ns: u64,
    min_cluster_trades: usize,
)
    requires
        trades.len() <= usize::MAX,
        large_cluster_terms(
            instrument,
            trades,
            start,
            end,
            threshold,
            max_gap_ns,
            min_cluster_trades,
        ) is Ok,
    ensures
        clusters_are_maximal(
            trades,
            threshold,
            max_gap_ns,
            min_cluster_trades as nat,
            large_cluster_terms(
                instrument,
                trades,
                start,
                end,
                threshold,
                max_gap_ns,
                min_cluster_trades,
            )->Ok_0,
        ),
{
    let step = |progress: LargeClusterProgress, trade: FlowTradeView|
        large_clusters_with(progress, trade, threshold, max_gap_ns, min_cluster_trades);
    lemma_clusters_are_followed(trades, threshold, max_gap_ns, min_cluster_trades, step);
    let progress = folded(trades, no_large_clusters(), step)->Ok_0;
    lemma_last_run_is_counted(
        large_ones(trades, threshold),
        within_gap(max_gap_ns),
        min_cluster_trades,
        progress,
    );
}

fn finalize_large_cluster(progress: LargeClusterProgress, min_cluster_trades: usize) -> (result:
    Result<LargeClusterProgress, FeatureComputationError>)
    requires
        progress.cluster_count <= progress.clustered_count,
        progress.clustered_count + progress.open_count <= usize::MAX,
    ensures
        result == cluster_closed(progress, min_cluster_trades),
        result is Ok ==> result->Ok_0.open_count == 0,
        result is Ok ==> result->Ok_0.clustered_count <= progress.clustered_count
            + progress.open_count,
        result is Ok ==> result->Ok_0.cluster_count <= result->Ok_0.clustered_count,
{
    let open_notional = FixedDecimal::zero();
    if progress.open_count == 0 || progress.open_count < min_cluster_trades {
        return Ok(LargeClusterProgress { open_count: 0, open_notional, ..progress });
    }
    let clustered_notional = sum_exact(progress.clustered_notional, progress.open_notional)?;
    Ok(
        LargeClusterProgress {
            cluster_count: progress.cluster_count + 1,
            clustered_count: progress.clustered_count + progress.open_count,
            clustered_notional,
            open_count: 0,
            open_notional,
            ..progress
        },
    )
}

/// The clusters of a window's large trades, whose rate is reported.
pub fn large_trade_cluster_activity(
    window: &TradeFlowWindow,
    large_quote_notional: FixedDecimal,
    cluster_gap_ns: u64,
    min_cluster_trades: usize,
) -> (result: Result<LargeClusterTerms, FeatureComputationError>)
    ensures
        result == large_cluster_terms(
            window@.instrument,
            window@.trades,
            window@.start,
            window@.end,
            large_quote_notional,
            cluster_gap_ns,
            min_cluster_trades,
        ),
        result is Ok ==> clusters_are_maximal(
            window@.trades,
            large_quote_notional,
            cluster_gap_ns,
            min_cluster_trades as nat,
            result->Ok_0,
        ),
{
    require_spot_quote_notional(window.instrument())?;
    if !large_quote_notional.is_positive() || cluster_gap_ns == 0 || min_cluster_trades < 2
        || min_cluster_trades > MAX_FLOW_TRADES {
        return Err(FeatureComputationError::InvalidParameter);
    }
    let trades = window.observations();
    let ghost views = window@.trades;
    let ghost step = |progress: LargeClusterProgress, trade: FlowTradeView|
        large_clusters_with(
            progress,
            trade,
            large_quote_notional,
            cluster_gap_ns,
            min_cluster_trades,
        );
    let mut progress = LargeClusterProgress {
        cluster_count: 0,
        clustered_count: 0,
        clustered_notional: FixedDecimal::zero(),
        open_count: 0,
        open_notional: FixedDecimal::zero(),
        last_large: None,
    };
    let mut i: usize = 0;
    proof {
        assert(views.take(0) =~= Seq::empty());
    }
    while i < trades.len()
        invariant
            i <= trades@.len(),
            views == flow_views(trades@),
            views == window@.trades,
            notional_refusal(window@.instrument) is None,
            large_quote_notional.units() > 0,
            cluster_gap_ns != 0,
            2 <= min_cluster_trades <= MAX_FLOW_TRADES,
            step == (|progress: LargeClusterProgress, trade: FlowTradeView|
                large_clusters_with(
                    progress,
                    trade,
                    large_quote_notional,
                    cluster_gap_ns,
                    min_cluster_trades,
                )),
            folded(views.take(i as int), no_large_clusters(), step) == Ok::<
                LargeClusterProgress,
                FeatureComputationError,
            >(progress),
            progress.clustered_count + progress.open_count <= i,
            progress.cluster_count <= progress.clustered_count,
        decreases trades.len() - i,
    {
        proof {
            lemma_fold_step(views, i as int, no_large_clusters(), step);
            assert(views[i as int] == trades@[i as int]@);
        }
        let trade = &trades[i];
        let notional = notional_of_trade(trade)?;
        if !notional.less_than(&large_quote_notional) {
            if !joins_cluster(progress.last_large, trade.event_time(), cluster_gap_ns) {
                progress = finalize_large_cluster(progress, min_cluster_trades)?;
            }
            let open_notional = sum_exact(progress.open_notional, notional)?;
            progress =
            LargeClusterProgress {
                open_count: progress.open_count + 1,
                open_notional,
                last_large: Some(trade.event_time()),
                ..progress
            };
        }
        i += 1;
    }
    proof {
        assert(views.take(trades@.len() as int) =~= views);
    }
    let closed = finalize_large_cluster(progress, min_cluster_trades)?;
    let duration_ns: u64 = elapsed_ns(window.start(), window.end())?;
    proof {
        lemma_activity_is_of_maximal_clusters(
            window@.instrument,
            views,
            window@.start,
            window@.end,
            large_quote_notional,
            cluster_gap_ns,
            min_cluster_trades,
        );
    }
    Ok(
        LargeClusterTerms {
            cluster_count: closed.cluster_count,
            clustered_large_count: closed.clustered_count,
            clustered_large_notional: closed.clustered_notional,
            duration_ns,
        },
    )
}

/// The clusters of a window's large trades with their rate.
#[derive(Clone, Copy, Debug, PartialEq, Eq, Structural)]
pub struct LargeTradeClusterActivity {
    pub cluster_count: usize,
    pub clustered_large_count: usize,
    pub clustered_large_notional: FixedDecimal,
    pub cluster_activity_rate_per_second_bits: u64,
}

impl LargeTradeClusterActivity {
    /// The clusters with the rate as measured, where it is finite.
    pub fn from_terms(terms: LargeClusterTerms, rate_bits: u64) -> (result: Result<
        Self,
        FeatureComputationError,
    >)
        ensures
            result == match finite_value(rate_bits) {
                Err(error) => Err(error),
                Ok(_) => Ok::<Self, FeatureComputationError>(
                    (LargeTradeClusterActivity {
                        cluster_count: terms.cluster_count,
                        clustered_large_count: terms.clustered_large_count,
                        clustered_large_notional: terms.clustered_large_notional,
                        cluster_activity_rate_per_second_bits: rate_bits,
                    }),
                ),
            },
    {
        finite(rate_bits)?;
        Ok(
            LargeTradeClusterActivity {
                cluster_count: terms.cluster_count,
                clustered_large_count: terms.clustered_large_count,
                clustered_large_notional: terms.clustered_large_notional,
                cluster_activity_rate_per_second_bits: rate_bits,
            },
        )
    }

    pub fn cluster_count(self) -> (count: usize)
        ensures
            count == self.cluster_count,
    {
        self.cluster_count
    }

    pub fn clustered_large_count(self) -> (count: usize)
        ensures
            count == self.clustered_large_count,
    {
        self.clustered_large_count
    }

    pub fn clustered_large_notional(self) -> (notional: FixedDecimal)
        ensures
            notional == self.clustered_large_notional,
    {
        self.clustered_large_notional
    }
}

/// What holds of the price and quantity of every trade.
pub open spec fn trades_are_valid(trades: Seq<FlowTradeView>) -> bool {
    forall|i: int|
        0 <= i < trades.len() ==> (#[trigger] trades[i]).price.is_valid()
            && trades[i].quantity.is_valid()
}

/// One for each trade of a side, and nothing for the others.
pub open spec fn marks_of(trades: Seq<FlowTradeView>, side: AggressorSide) -> Seq<int> {
    Seq::new(
        trades.len(),
        |i: int|
            if trades[i].side == side {
                1int
            } else {
                0
            },
    )
}

/// One for each trade whose aggressor was inferred, and nothing for the others.
pub open spec fn inferred_marks(trades: Seq<FlowTradeView>) -> Seq<int> {
    Seq::new(
        trades.len(),
        |i: int|
            if trades[i].authority.2 {
                1int
            } else {
                0
            },
    )
}

/// The quantities of a side's trades, and nothing for the others.
pub open spec fn quantities_by(trades: Seq<FlowTradeView>, side: AggressorSide) -> Seq<int> {
    Seq::new(
        trades.len(),
        |i: int|
            if trades[i].side == side {
                trades[i].quantity.units()
            } else {
                0
            },
    )
}

/// Price times quantity of a side's trades, and nothing for the others.
pub open spec fn worths_by(trades: Seq<FlowTradeView>, side: AggressorSide) -> Seq<int> {
    Seq::new(
        trades.len(),
        |i: int|
            if trades[i].side == side {
                trades[i].price.units() * trades[i].quantity.units()
            } else {
                0
            },
    )
}

/// The sums are those of each side's own trades.
pub open spec fn sums_are_by_side(sums: FlowSums, trades: Seq<FlowTradeView>) -> bool {
    let (buy, sell) = (AggressorSide::Buy, AggressorSide::Sell);
    &&& sums.buy_count == sum_of(marks_of(trades, buy))
    &&& sums.sell_count == sum_of(marks_of(trades, sell))
    &&& sums.buy_quantity.units() == sum_of(quantities_by(trades, buy))
    &&& sums.sell_quantity.units() == sum_of(quantities_by(trades, sell))
    &&& sums.buy_notional.units() * unit() == sum_of(worths_by(trades, buy))
    &&& sums.sell_notional.units() * unit() == sum_of(worths_by(trades, sell))
    &&& sums.inferred_count == sum_of(inferred_marks(trades))
    &&& sums.buy_quantity.in_scale() && sums.sell_quantity.in_scale()
        && sums.buy_notional.in_scale() && sums.sell_notional.in_scale()
}

proof fn lemma_valid_prefix(trades: Seq<FlowTradeView>)
    requires
        trades.len() > 0,
        trades_are_valid(trades),
    ensures
        trades_are_valid(trades.drop_last()),
        trades.last().price.is_valid(),
        trades.last().quantity.is_valid(),
{
    let rest = trades.drop_last();
    assert(trades.last() == trades[trades.len() - 1]);
    assert forall|i: int| 0 <= i < rest.len() implies (#[trigger] rest[i]).price.is_valid()
        && rest[i].quantity.is_valid() by {
        assert(rest[i] == trades[i]);
    }
}

proof fn lemma_marks_are_bounded(trades: Seq<FlowTradeView>)
    ensures
        0 <= sum_of(marks_of(trades, AggressorSide::Buy)) <= trades.len(),
        0 <= sum_of(marks_of(trades, AggressorSide::Sell)) <= trades.len(),
        0 <= sum_of(inferred_marks(trades)) <= trades.len(),
    decreases trades.len(),
{
    if trades.len() > 0 {
        lemma_side_sums_step(trades);
        lemma_marks_are_bounded(trades.drop_last());
    }
}

proof fn lemma_side_sums_step(trades: Seq<FlowTradeView>)
    requires
        trades.len() > 0,
    ensures
        forall|side: AggressorSide| #[trigger]
            sum_of(marks_of(trades, side)) == sum_of(marks_of(trades.drop_last(), side)) + if
                trades.last().side == side {
                1int
            } else {
                0
            },
        forall|side: AggressorSide| #[trigger]
            sum_of(quantities_by(trades, side)) == sum_of(quantities_by(trades.drop_last(), side))
                + if trades.last().side == side {
                trades.last().quantity.units()
            } else {
                0
            },
        forall|side: AggressorSide| #[trigger]
            sum_of(worths_by(trades, side)) == sum_of(worths_by(trades.drop_last(), side)) + if
                trades.last().side == side {
                trades.last().price.units() * trades.last().quantity.units()
            } else {
                0
            },
        sum_of(inferred_marks(trades)) == sum_of(inferred_marks(trades.drop_last())) + if
            trades.last().authority.2 {
            1int
        } else {
            0
        },
{
    let rest = trades.drop_last();
    assert forall|side: AggressorSide| #[trigger]
        sum_of(marks_of(trades, side)) == sum_of(marks_of(rest, side)) + if trades.last().side
            == side {
            1int
        } else {
            0
        } by {
        lemma_sum_last(marks_of(trades, side));
        assert(marks_of(trades, side).drop_last() =~= marks_of(rest, side));
    }
    assert forall|side: AggressorSide| #[trigger]
        sum_of(quantities_by(trades, side)) == sum_of(quantities_by(rest, side)) + if
            trades.last().side == side {
            trades.last().quantity.units()
        } else {
            0
        } by {
        lemma_sum_last(quantities_by(trades, side));
        assert(quantities_by(trades, side).drop_last() =~= quantities_by(rest, side));
    }
    assert forall|side: AggressorSide| #[trigger]
        sum_of(worths_by(trades, side)) == sum_of(worths_by(rest, side)) + if trades.last().side
            == side {
            trades.last().price.units() * trades.last().quantity.units()
        } else {
            0
        } by {
        lemma_sum_last(worths_by(trades, side));
        assert(worths_by(trades, side).drop_last() =~= worths_by(rest, side));
    }
    lemma_sum_last(inferred_marks(trades));
    assert(inferred_marks(trades).drop_last() =~= inferred_marks(rest));
}

proof fn lemma_fold_by_side(
    trades: Seq<FlowTradeView>,
    step: spec_fn(FlowSums, FlowTradeView) -> Result<FlowSums, FeatureComputationError>,
)
    requires
        trades.len() <= usize::MAX,
        trades_are_valid(trades),
        forall|sums: FlowSums, trade: FlowTradeView| #[trigger]
            step(sums, trade) == sums_with(sums, trade),
        folded(trades, empty_sums(), step) is Ok,
    ensures
        sums_are_by_side(folded(trades, empty_sums(), step)->Ok_0, trades),
    decreases trades.len(),
{
    lemma_zero_units();
    if trades.len() == 0 {
        assert(0 * unit() == 0);
    } else {
        let rest = trades.drop_last();
        let trade = trades.last();
        lemma_valid_prefix(trades);
        lemma_fold_by_side(rest, step);
        lemma_side_sums_step(trades);
        lemma_marks_are_bounded(trades);
        let sums = folded(rest, empty_sums(), step)->Ok_0;
        assert(step(sums, trade) == sums_with(sums, trade));
        let notional = trade_notional(trade)->Some_0;
        lemma_exact_arithmetic(trade.price.amount(), trade.quantity.amount());
        lemma_exact_arithmetic(sums.buy_quantity, trade.quantity.amount());
        lemma_exact_arithmetic(sums.sell_quantity, trade.quantity.amount());
        lemma_exact_arithmetic(sums.buy_notional, notional);
        lemma_exact_arithmetic(sums.sell_notional, notional);
        let u = unit();
        let (b, s, n) = (sums.buy_notional.units(), sums.sell_notional.units(), notional.units());
        assert((b + n) * u == b * u + n * u) by (nonlinear_arith);
        assert((s + n) * u == s * u + n * u) by (nonlinear_arith);
    }
}

/// The sums of a window are those of each side's own trades: what buyers took is counted with the
/// buys, and what sellers gave with the sells, in number, quantity and notional.
pub proof fn lemma_sums_are_by_side(instrument: InstrumentView, trades: Seq<FlowTradeView>)
    requires
        trades.len() <= usize::MAX,
        trades_are_valid(trades),
        window_sums(instrument, trades) is Ok,
    ensures
        ({
            let sums = window_sums(instrument, trades)->Ok_0;
            let (buy, sell) = (AggressorSide::Buy, AggressorSide::Sell);
            &&& instrument.2 == ProductType::Spot
            &&& sums.buy_count == sum_of(marks_of(trades, buy))
            &&& sums.sell_count == sum_of(marks_of(trades, sell))
            &&& sums.buy_quantity.units() == sum_of(quantities_by(trades, buy))
            &&& sums.sell_quantity.units() == sum_of(quantities_by(trades, sell))
            &&& sums.buy_notional.units() * unit() == sum_of(worths_by(trades, buy))
            &&& sums.sell_notional.units() * unit() == sum_of(worths_by(trades, sell))
            &&& sums.inferred_count == sum_of(inferred_marks(trades))
        }),
{
    lemma_fold_by_side(
        trades,
        |sums: FlowSums, trade: FlowTradeView| sums_with(sums, trade),
    );
    let sums = sums_of(trades)->Ok_0;
    lemma_quantity_of_amount(sums.buy_quantity);
    lemma_quantity_of_amount(sums.sell_quantity);
}

/// The imbalances of a window lean to the buys: each is what the buys exceed the sells by, over
/// what both come to, in quantity and in notional.
pub proof fn lemma_imbalances_lean_to_the_buys(
    instrument: InstrumentView,
    trades: Seq<FlowTradeView>,
)
    requires
        trades.len() <= usize::MAX,
        trades_are_valid(trades),
        window_imbalances(instrument, trades) is Ok,
    ensures
        ({
            let terms = window_imbalances(instrument, trades)->Ok_0;
            let (buy, sell) = (AggressorSide::Buy, AggressorSide::Sell);
            let bought = sum_of(quantities_by(trades, buy));
            let sold = sum_of(quantities_by(trades, sell));
            &&& terms.buy_count == sum_of(marks_of(trades, buy))
            &&& terms.sell_count == sum_of(marks_of(trades, sell))
            &&& terms.quantity.numerator.units() + sold == bought
            &&& terms.quantity.denominator.units() == bought + sold
            &&& terms.notional.numerator.units() * unit() + sum_of(worths_by(trades, sell))
                == sum_of(worths_by(trades, buy))
            &&& terms.notional.denominator.units() * unit() == sum_of(worths_by(trades, buy))
                + sum_of(worths_by(trades, sell))
            &&& trades.len() > 0
        }),
{
    lemma_sums_are_by_side(instrument, trades);
    lemma_fold_by_side(
        trades,
        |sums: FlowSums, trade: FlowTradeView| sums_with(sums, trade),
    );
    let own = sums_of(trades)->Ok_0;
    let sums = window_sums(instrument, trades)->Ok_0;
    lemma_quantity_of_amount(own.buy_quantity);
    lemma_quantity_of_amount(own.sell_quantity);
    lemma_exact_arithmetic(sums.buy_quantity.amount(), sums.sell_quantity.amount());
    lemma_exact_arithmetic(sums.buy_notional, sums.sell_notional);
    let (b, s, u) = (sums.buy_notional.units(), sums.sell_notional.units(), unit());
    assert((b + s) * u == b * u + s * u) by (nonlinear_arith);
    assert((b - s) * u == b * u - s * u) by (nonlinear_arith);
    lemma_marks_are_bounded(trades);
}

/// Where buyers and sellers change places, an imbalance changes its sign and nothing else.
pub proof fn lemma_imbalances_change_sign_with_the_sides(
    sums: AggressiveTradeSums,
    mirrored: AggressiveTradeSums,
)
    requires
        sums.buy_quantity.is_valid(),
        sums.sell_quantity.is_valid(),
        sums.buy_notional.in_scale(),
        sums.sell_notional.in_scale(),
        mirrored.buy_quantity == sums.sell_quantity,
        mirrored.sell_quantity == sums.buy_quantity,
        mirrored.buy_notional == sums.sell_notional,
        mirrored.sell_notional == sums.buy_notional,
        imbalance_terms(sums) is Ok,
        imbalance_terms(mirrored) is Ok,
    ensures
        ({
            let terms = imbalance_terms(sums)->Ok_0;
            let other = imbalance_terms(mirrored)->Ok_0;
            &&& other.quantity.numerator.units() == -terms.quantity.numerator.units()
            &&& other.notional.numerator.units() == -terms.notional.numerator.units()
            &&& other.quantity.denominator.units() == terms.quantity.denominator.units()
            &&& other.notional.denominator.units() == terms.notional.denominator.units()
        }),
{
    let (buy, sell) = (sums.buy_quantity.amount(), sums.sell_quantity.amount());
    lemma_exact_arithmetic(buy, sell);
    lemma_exact_arithmetic(sell, buy);
    lemma_exact_arithmetic(sums.buy_notional, sums.sell_notional);
    lemma_exact_arithmetic(sums.sell_notional, sums.buy_notional);
}

/// Intensity counts every trade of a window over the time from its start to its end, which is
/// never nothing.
pub proof fn lemma_intensity_is_over_the_whole_window(
    trades: Seq<FlowTradeView>,
    start: UnixNanos,
    end: UnixNanos,
)
    requires
        trades.len() <= usize::MAX,
    ensures
        intensity_of(trades, start, end) is Ok <==> 0 < end.nanos - start.nanos <= i64::MAX,
        intensity_of(trades, start, end) is Ok ==> {
            let terms = intensity_of(trades, start, end)->Ok_0;
            &&& terms.count == trades.len()
            &&& start.nanos + terms.duration_ns == end.nanos
        },
{
}

/// The times between trades lead from the first trade to the last: each brings a trade's time to
/// the next one's, and together they bring the first to the last.
pub proof fn lemma_intervals_lead_from_trade_to_trade(trades: Seq<FlowTradeView>)
    requires
        trades.len() >= 1,
        forall|i: int|
            0 <= i < trades.len() - 1 ==> !#[trigger] interval_overflows(trades, i),
    ensures
        interarrival_intervals(trades).len() == trades.len() - 1,
        forall|i: int|
            #![trigger interarrival_intervals(trades)[i]]
            0 <= i < trades.len() - 1 ==> trades[i].event_time.nanos + interarrival_intervals(
                trades,
            )[i] == trades[i + 1].event_time.nanos,
        trades[0].event_time.nanos + sum_of(
            Seq::new(
                interarrival_intervals(trades).len(),
                |i: int| interarrival_intervals(trades)[i] as int,
            ),
        ) == trades.last().event_time.nanos,
    decreases trades.len(),
{
    let gaps = interarrival_intervals(trades);
    let values = Seq::new(gaps.len(), |i: int| gaps[i] as int);
    assert forall|i: int|
        #![trigger gaps[i]]
        0 <= i < trades.len() - 1 implies trades[i].event_time.nanos + gaps[i] == trades[i
        + 1].event_time.nanos by {
        assert(!interval_overflows(trades, i));
    }
    if trades.len() > 1 {
        let rest = trades.drop_last();
        assert forall|i: int| 0 <= i < rest.len() - 1 implies !#[trigger] interval_overflows(
            rest,
            i,
        ) by {
            assert(!interval_overflows(trades, i));
            assert(rest[i] == trades[i] && rest[i + 1] == trades[i + 1]);
        }
        lemma_intervals_lead_from_trade_to_trade(rest);
        let others = interarrival_intervals(rest);
        let earlier = Seq::new(others.len(), |i: int| others[i] as int);
        assert forall|i: int| 0 <= i < others.len() implies #[trigger] earlier[i] == values[i] by {
            assert(rest[i] == trades[i] && rest[i + 1] == trades[i + 1]);
            assert(others[i] == gaps[i]);
        }
        assert(values.drop_last() =~= earlier);
        lemma_sum_last(values);
        assert(rest[0] == trades[0]);
        let last = trades.len() - 2;
        assert(rest.last() == trades[last]);
        assert(trades[last].event_time.nanos + gaps[last] == trades[last + 1].event_time.nanos);
    }
}

/// What trades at one price come to: bought quantities count up, and sold ones count down.
pub open spec fn net_at(trades: Seq<FlowTradeView>, price_units: int) -> Seq<int> {
    Seq::new(
        trades.len(),
        |i: int|
            if trades[i].price.units() != price_units {
                0
            } else if trades[i].side == AggressorSide::Sell {
                -trades[i].quantity.units()
            } else {
                trades[i].quantity.units()
            },
    )
}

/// Each level holds what its price's trades come to, and every traded price has a level.
pub open spec fn levels_hold_net_volume(
    levels: Seq<(Price, FixedDecimal)>,
    trades: Seq<FlowTradeView>,
) -> bool {
    &&& forall|i: int|
        #![trigger levels[i]]
        0 <= i < levels.len() ==> levels[i].1.units() == sum_of(
            net_at(trades, levels[i].0.units()),
        ) && levels[i].1.in_scale()
    &&& forall|k: int|
        #![trigger trades[k]]
        0 <= k < trades.len() ==> exists|i: int|
            #![trigger levels[i]]
            0 <= i < levels.len() && levels[i].0.units() == trades[k].price.units()
}

proof fn lemma_net_step(trades: Seq<FlowTradeView>, price_units: int)
    requires
        trades.len() > 0,
    ensures
        sum_of(net_at(trades, price_units)) == sum_of(net_at(trades.drop_last(), price_units)) + (
        if trades.last().price.units() != price_units {
            0
        } else if trades.last().side == AggressorSide::Sell {
            -trades.last().quantity.units()
        } else {
            trades.last().quantity.units()
        }),
{
    lemma_sum_last(net_at(trades, price_units));
    assert(net_at(trades, price_units).drop_last() =~= net_at(trades.drop_last(), price_units));
}

proof fn lemma_untraded_prices_net_nothing(trades: Seq<FlowTradeView>, price_units: int)
    requires
        forall|k: int|
            0 <= k < trades.len() ==> (#[trigger] trades[k]).price.units() != price_units,
    ensures
        sum_of(net_at(trades, price_units)) == 0,
{
    lemma_sum_of_zeros(net_at(trades, price_units));
}

proof fn lemma_fold_net_volume(
    trades: Seq<FlowTradeView>,
    step: spec_fn(Seq<(Price, FixedDecimal)>, FlowTradeView) -> Result<
        Seq<(Price, FixedDecimal)>,
        FeatureComputationError,
    >,
)
    requires
        trades_are_valid(trades),
        forall|levels: Seq<(Price, FixedDecimal)>, trade: FlowTradeView| #[trigger]
            step(levels, trade) == levels_with(levels, trade),
        folded(trades, Seq::empty(), step) is Ok,
    ensures
        ascending_levels(folded(trades, Seq::empty(), step)->Ok_0),
        levels_hold_net_volume(folded(trades, Seq::empty(), step)->Ok_0, trades),
    decreases trades.len(),
{
    lemma_zero_units();
    if trades.len() > 0 {
        let rest = trades.drop_last();
        let trade = trades.last();
        lemma_valid_prefix(trades);
        lemma_fold_net_volume(rest, step);
        let levels = folded(rest, Seq::empty(), step)->Ok_0;
        assert(step(levels, trade) == levels_with(levels, trade));
        let after = levels_with(levels, trade)->Ok_0;
        lemma_level_keeps_order(levels, trade);
        lemma_price_slot(levels, trade.price);
        let slot = price_slot(levels, trade.price);
        let price = trade.price.units();
        let present = has_level(levels, trade.price);
        let previous = if present {
            levels[slot].1
        } else {
            nothing()
        };
        if !present {
            assert forall|k: int| 0 <= k < rest.len() implies (
            #[trigger] rest[k]).price.units() != price by {
                if rest[k].price.units() == price {
                    let i = choose|i: int|
                        #![trigger levels[i]]
                        0 <= i < levels.len() && levels[i].0.units() == rest[k].price.units();
                    if i >= slot && slot < levels.len() {
                        assert(levels[slot].0.units() >= price);
                        if slot < i {
                            assert(levels[slot].0.units() < levels[i].0.units());
                        }
                    }
                }
            }
            lemma_untraded_prices_net_nothing(rest, price);
        }
        assert(previous.units() == sum_of(net_at(rest, price)));
        let signed = signed_quantity(trade)->Some_0;
        lemma_exact_arithmetic(trade.quantity.amount(), trade.quantity.amount());
        lemma_exact_arithmetic(previous, signed);
        lemma_net_step(trades, price);
        assert forall|i: int|
            #![trigger after[i]]
            0 <= i < after.len() implies after[i].1.units() == sum_of(
            net_at(trades, after[i].0.units()),
        ) && after[i].1.in_scale() by {
            let own = after[i].0.units();
            lemma_net_step(trades, own);
            if i == slot {
                assert(after[i].0 == trade.price);
            } else {
                if i < slot {
                    assert(after[i] == levels[i]);
                    assert(after[i].0.units() < after[slot].0.units());
                } else {
                    assert(after[slot].0.units() < after[i].0.units());
                    if present {
                        assert(after[i] == levels[i]);
                    } else {
                        assert(after[i] == levels[i - 1]);
                    }
                }
            }
        }
        assert(after[slot].0.units() == price);
        assert forall|k: int|
            #![trigger trades[k]]
            0 <= k < trades.len() implies exists|i: int|
            #![trigger after[i]]
            0 <= i < after.len() && after[i].0.units() == trades[k].price.units() by {
            if k < rest.len() {
                assert(rest[k] == trades[k]);
                let i = choose|i: int|
                    #![trigger levels[i]]
                    0 <= i < levels.len() && levels[i].0.units() == rest[k].price.units();
                if present || i < slot {
                    assert(after[i].0.units() == levels[i].0.units());
                } else {
                    assert(after[i + 1] == levels[i]);
                }
            } else {
                assert(after[slot].0.units() == trades[k].price.units());
            }
        }
    }
}

/// Signed volume lists every traded price once, with what was bought at it less what was sold at
/// it.
pub proof fn lemma_signed_volume_is_bought_less_sold(trades: Seq<FlowTradeView>)
    requires
        trades_are_valid(trades),
        signed_volume(trades) is Ok,
    ensures
        ascending_levels(signed_volume(trades)->Ok_0),
        levels_hold_net_volume(signed_volume(trades)->Ok_0, trades),
{
    lemma_fold_net_volume(
        trades,
        |levels: Seq<(Price, FixedDecimal)>, trade: FlowTradeView| levels_with(levels, trade),
    );
}

/// A trade joins a cluster where it comes no earlier than the last of the cluster, and no later
/// than the gap behind it.
pub proof fn lemma_clusters_are_joined_within_the_gap(
    earlier: UnixNanos,
    time: UnixNanos,
    max_gap_ns: u64,
)
    ensures
        joins(Some(earlier), time, max_gap_ns) <==> 0 <= time.nanos - earlier.nanos <= i64::MAX
            && time.nanos - earlier.nanos <= max_gap_ns,
        !joins(None, time, max_gap_ns),
{
}

/// A trade is large where its price times its quantity reaches the threshold, and not otherwise.
pub proof fn lemma_large_trades_reach_the_threshold(
    trades: Seq<FlowTradeView>,
    threshold: FixedDecimal,
)
    requires
        trades_are_valid(trades),
        forall|i: int|
            0 <= i < trades.len() ==> trade_notional(#[trigger] trades[i]) is Some,
    ensures
        forall|i: int|
            #![trigger trades[i]]
            0 <= i < trades.len() ==> (large_ones(trades, threshold).contains(trades[i])
                <==> trades[i].price.units() * trades[i].quantity.units() >= threshold.units()
                * unit()),
        forall|k: int|
            #![trigger large_ones(trades, threshold)[k]]
            0 <= k < large_ones(trades, threshold).len() ==> trades.contains(
                large_ones(trades, threshold)[k],
            ) && reaches(large_ones(trades, threshold)[k], threshold),
    decreases trades.len(),
{
    if trades.len() > 0 {
        let rest = trades.drop_last();
        let last = trades.last();
        let before = large_ones(rest, threshold);
        let large = large_ones(trades, threshold);
        lemma_valid_prefix(trades);
        assert(last == trades[trades.len() - 1]);
        assert forall|i: int| 0 <= i < rest.len() implies trade_notional(#[trigger] rest[i])
            is Some by {
            assert(rest[i] == trades[i]);
        }
        lemma_large_trades_reach_the_threshold(rest, threshold);
        lemma_exact_arithmetic(last.price.amount(), last.quantity.amount());
        let notional = trade_notional(last)->Some_0.units();
        let t = threshold.units();
        assert(notional >= t <==> notional * unit() >= t * unit()) by (nonlinear_arith)
            requires
                unit() > 0,
        ;
        assert forall|k: int|
            #![trigger large[k]]
            0 <= k < large.len() implies trades.contains(large[k]) && reaches(
            large[k],
            threshold,
        ) by {
            if k < before.len() {
                assert(large[k] == before[k]);
                let at = rest.index_of(before[k]);
                assert(trades[at] == before[k]);
            } else {
                assert(large[k] == last);
            }
        }
        assert forall|i: int|
            #![trigger trades[i]]
            0 <= i < trades.len() implies (large.contains(trades[i]) <==> trades[i].price.units()
            * trades[i].quantity.units() >= t * unit()) by {
            if large.contains(trades[i]) {
                let k = large.index_of(trades[i]);
                assert(reaches(large[k], threshold));
            } else if i < rest.len() {
                assert(rest[i] == trades[i]);
                if before.contains(rest[i]) {
                    let k = before.index_of(rest[i]);
                    assert(large[k] == rest[i]);
                }
            } else if reaches(trades[i], threshold) {
                assert(large[large.len() - 1] == last);
            }
        }
    }
}

/// Price times quantity reaches a threshold.
pub open spec fn reaches(trade: FlowTradeView, threshold: FixedDecimal) -> bool {
    trade.price.units() * trade.quantity.units() >= threshold.units() * unit()
}

/// A sweep goes the way its side presses: a buyer's prints never go down and a seller's never go up,
/// and where one price may not be printed twice, each moves on. It has enough trades at enough
/// prices, and its notional is enough.
pub proof fn lemma_sweeps_press_on(episode: Seq<FlowTradeView>, rule: SweepRule, side: AggressorSide)
    requires
        is_sweep(episode, rule) == Ok::<bool, FeatureComputationError>(true),
        trades_are_valid(episode),
        forall|i: int| 0 <= i < episode.len() ==> (#[trigger] episode[i]).side == side,
    ensures
        episode.len() >= rule.min_trade_count,
        traded_prices(episode).to_set().len() >= rule.min_distinct_prices,
        sum_of(worths_by(episode, side)) >= rule.min_quote_notional.units() * unit(),
        forall|i: int|
            #![trigger episode[i]]
            0 <= i < episode.len() - 1 ==> match side {
                AggressorSide::Buy => episode[i].price.units() <= episode[i + 1].price.units(),
                AggressorSide::Sell => episode[i].price.units() >= episode[i + 1].price.units(),
            },
        rule.equal_price_policy == SweepEqualPricePolicy::Reject ==> forall|i: int|
            #![trigger episode[i]]
            0 <= i < episode.len() - 1 ==> episode[i].price.units() != episode[i
                + 1].price.units(),
{
    assert forall|i: int|
        #![trigger episode[i]]
        0 <= i < episode.len() - 1 implies presses_on(episode, i, rule.equal_price_policy) by {}
    lemma_notional_adds_up(
        episode,
        side,
        |total: FixedDecimal, trade: FlowTradeView| notional_with(total, trade),
    );
    let notional = quote_notional(episode)->Ok_0.units();
    let least = rule.min_quote_notional.units();
    lemma_zero_units();
    lemma_exact_arithmetic(nothing(), nothing());
    assert(notional * unit() >= least * unit()) by (nonlinear_arith)
        requires
            notional >= least,
            unit() > 0,
    ;
}

proof fn lemma_notional_adds_up(
    trades: Seq<FlowTradeView>,
    side: AggressorSide,
    step: spec_fn(FixedDecimal, FlowTradeView) -> Result<FixedDecimal, FeatureComputationError>,
)
    requires
        trades_are_valid(trades),
        forall|i: int| 0 <= i < trades.len() ==> (#[trigger] trades[i]).side == side,
        forall|total: FixedDecimal, trade: FlowTradeView| #[trigger]
            step(total, trade) == notional_with(total, trade),
        folded(trades, nothing(), step) is Ok,
    ensures
        folded(trades, nothing(), step)->Ok_0.in_scale(),
        folded(trades, nothing(), step)->Ok_0.units() * unit() == sum_of(worths_by(trades, side)),
    decreases trades.len(),
{
    lemma_zero_units();
    if trades.len() == 0 {
        assert(0 * unit() == 0);
    } else {
        let rest = trades.drop_last();
        let trade = trades.last();
        lemma_valid_prefix(trades);
        assert forall|i: int| 0 <= i < rest.len() implies (#[trigger] rest[i]).side == side by {
            assert(rest[i] == trades[i]);
        }
        assert(trade == trades[trades.len() - 1]);
        lemma_notional_adds_up(rest, side, step);
        lemma_side_sums_step(trades);
        assert(sum_of(worths_by(trades, side)) == sum_of(worths_by(rest, side))
            + trade.price.units() * trade.quantity.units());
        let total = folded(rest, nothing(), step)->Ok_0;
        assert(step(total, trade) == notional_with(total, trade));
        let notional = trade_notional(trade)->Some_0;
        lemma_exact_arithmetic(trade.price.amount(), trade.quantity.amount());
        lemma_exact_arithmetic(total, notional);
        let (t, n, u) = (total.units(), notional.units(), unit());
        assert((t + n) * u == t * u + n * u) by (nonlinear_arith);
    }
}

} // verus!
