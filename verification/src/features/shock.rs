//! Shocks of same-sided trades, and how the inside quotes answer them.

use vstd::prelude::*;

use super::book_evidence::{elapsed, elapsed_ns};
use super::orderbook::nothing;
use super::orderflow::{
    flow_lineages, flow_views, AggressorSide, FlowTradeObservation, FlowTradeView, FlowWindowView,
    TradeFlowWindow,
};
use super::top_of_book::{
    quote_is_valid, quote_views, QuoteView, QuoteWindowView, TopOfBookObservation, TopOfBookWindow,
};
use super::trade_flow::{
    notional_of_trade, notional_refusal, require_spot_quote_notional, trade_notional,
    trades_are_valid,
};
use super::{
    difference_exact, exact, finite, finite_value, folded, lemma_fold_step, lemma_sum_last,
    product_exact, sum_exact, sum_of, ExactRatio, FeatureComputationError,
};
use crate::decimal::{
    decimal_of_units, lemma_exact_arithmetic, lemma_times_whole, lemma_zero_units, unit,
    FixedDecimal, Quantity,
};
use crate::digest::same_digest;
use crate::domain::{InstrumentId, InstrumentView, UnixNanos};
use crate::ordering::{digest_views, first_repeated_digest};

verus! {

/// How much makes a shock.
#[derive(Clone, Copy, Debug, PartialEq, Eq, Structural)]
pub enum TradeShockThreshold {
    QuoteNotional(FixedDecimal),
    BaseQuantity(Quantity),
}

/// By what the trades of a shock weigh.
#[derive(Clone, Copy, Debug, PartialEq, Eq, Structural)]
pub enum TradeShockWeighting {
    BaseQuantity,
    QuoteNotional,
}

/// The contents of a [`TradeShock`].
pub struct ShockView {
    pub instrument: InstrumentView,
    pub side: AggressorSide,
    pub threshold: TradeShockThreshold,
    pub trades: Seq<FlowTradeView>,
    pub start_event_time: UnixNanos,
    pub end_event_time: UnixNanos,
    pub availability_at: UnixNanos,
    pub evaluation_time: UnixNanos,
    pub realized_base_quantity: FixedDecimal,
    pub realized_quote_notional: FixedDecimal,
}

/// The shortest run of same-sided trades at a window's start that reaches a threshold.
#[derive(Debug)]
pub struct TradeShock {
    instrument: InstrumentId,
    side: AggressorSide,
    threshold: TradeShockThreshold,
    observations: Vec<FlowTradeObservation>,
    start_event_time: UnixNanos,
    end_event_time: UnixNanos,
    availability_at: UnixNanos,
    evaluation_time: UnixNanos,
    realized_base_quantity: FixedDecimal,
    realized_quote_notional: FixedDecimal,
}

impl View for TradeShock {
    type V = ShockView;

    closed spec fn view(&self) -> ShockView {
        ShockView {
            instrument: self.instrument@,
            side: self.side,
            threshold: self.threshold,
            trades: flow_views(self.observations@),
            start_event_time: self.start_event_time,
            end_event_time: self.end_event_time,
            availability_at: self.availability_at,
            evaluation_time: self.evaluation_time,
            realized_base_quantity: self.realized_base_quantity,
            realized_quote_notional: self.realized_quote_notional,
        }
    }
}

/// What a threshold asks for.
pub open spec fn target_of(threshold: TradeShockThreshold) -> FixedDecimal {
    match threshold {
        TradeShockThreshold::QuoteNotional(value) => value,
        TradeShockThreshold::BaseQuantity(value) => value.amount(),
    }
}

/// A run of trades: how many, what base quantity and what quote notional.
pub type ShockReach = (int, FixedDecimal, FixedDecimal);

/// Where the run of a window's trades reaches its threshold, from an index on.
pub open spec fn shock_reach(
    trades: Seq<FlowTradeView>,
    threshold: TradeShockThreshold,
    i: int,
    base: FixedDecimal,
    quote: FixedDecimal,
) -> Result<ShockReach, FeatureComputationError>
    decreases trades.len() - i,
{
    if i >= trades.len() || trades[i].side != trades[0].side {
        Err(FeatureComputationError::BelowLiquidityThreshold)
    } else {
        match (base.plus(trades[i].quantity.amount()), trade_notional(trades[i])) {
            (Some(next_base), Some(notional)) => match quote.plus(notional) {
                None => Err(FeatureComputationError::InvalidInput),
                Some(next_quote) => {
                    let realized = match threshold {
                        TradeShockThreshold::QuoteNotional(_) => next_quote,
                        TradeShockThreshold::BaseQuantity(_) => next_base,
                    };
                    if realized.units() >= target_of(threshold).units() {
                        Ok((i + 1, next_base, next_quote))
                    } else {
                        shock_reach(trades, threshold, i + 1, next_base, next_quote)
                    }
                },
            },
            _ => Err(FeatureComputationError::InvalidInput),
        }
    }
}

/// The shock at a window's start, or why there is none.
pub open spec fn shock_of(window: FlowWindowView, threshold: TradeShockThreshold) -> Result<
    ShockView,
    FeatureComputationError,
> {
    let trades = window.trades;
    if notional_refusal(window.instrument) is Some {
        Err(notional_refusal(window.instrument)->Some_0)
    } else if target_of(threshold).units() <= 0 {
        Err(FeatureComputationError::InvalidParameter)
    } else if trades.len() == 0 {
        Err(FeatureComputationError::InsufficientHistory)
    } else {
        match shock_reach(trades, threshold, 0, nothing(), nothing()) {
            Err(error) => Err(error),
            Ok((count, base, quote)) => Ok(
                ShockView {
                    instrument: trades[0].instrument,
                    side: trades[0].side,
                    threshold,
                    trades: trades.take(count),
                    start_event_time: trades[0].event_time,
                    end_event_time: trades[count - 1].event_time,
                    availability_at: trades[count - 1].as_known_at,
                    evaluation_time: window.evaluation_time,
                    realized_base_quantity: base,
                    realized_quote_notional: quote,
                },
            ),
        }
    }
}

/// What a run of trades realizes of its threshold's measure: the base quantity or the quote
/// notional of its first trades, summed in order.
pub open spec fn realized_by(
    trades: Seq<FlowTradeView>,
    threshold: TradeShockThreshold,
    count: int,
) -> Option<FixedDecimal>
    decreases count,
{
    if count <= 0 {
        Some(nothing())
    } else {
        let part = match threshold {
            TradeShockThreshold::QuoteNotional(_) => trade_notional(trades[count - 1]),
            TradeShockThreshold::BaseQuantity(_) => Some(trades[count - 1].quantity.amount()),
        };
        match (realized_by(trades, threshold, count - 1), part) {
            (Some(sum), Some(amount)) => sum.plus(amount),
            _ => None,
        }
    }
}

/// The first trades of a run fall short of the threshold.
pub open spec fn falls_short(
    trades: Seq<FlowTradeView>,
    threshold: TradeShockThreshold,
    count: int,
) -> bool {
    &&& realized_by(trades, threshold, count) is Some
    &&& realized_by(trades, threshold, count)->Some_0.units() < target_of(threshold).units()
}

/// A shock is the shortest run that begins its window, keeps to one side and reaches its
/// threshold: with any number of trades fewer, it falls short.
pub proof fn lemma_shocks_reach_their_threshold(
    window: FlowWindowView,
    threshold: TradeShockThreshold,
)
    requires
        shock_of(window, threshold) is Ok,
    ensures
        ({
            let shock = shock_of(window, threshold)->Ok_0;
            &&& 0 < shock.trades.len() <= window.trades.len()
            &&& shock.trades == window.trades.take(shock.trades.len() as int)
            &&& forall|i: int|
                0 <= i < shock.trades.len() ==> (#[trigger] shock.trades[i]).side == shock.side
            &&& match threshold {
                TradeShockThreshold::QuoteNotional(target) => shock.realized_quote_notional.units()
                    >= target.units(),
                TradeShockThreshold::BaseQuantity(target) => shock.realized_base_quantity.units()
                    >= target.units(),
            }
            &&& realized_by(window.trades, threshold, shock.trades.len() as int) == Some(
                match threshold {
                    TradeShockThreshold::QuoteNotional(_) => shock.realized_quote_notional,
                    TradeShockThreshold::BaseQuantity(_) => shock.realized_base_quantity,
                },
            )
            &&& forall|count: int|
                0 <= count < shock.trades.len() ==> #[trigger] falls_short(
                    window.trades,
                    threshold,
                    count,
                )
        }),
{
    lemma_zero_units();
    assert(falls_short(window.trades, threshold, 0));
    lemma_reach_is_a_run(window.trades, threshold, 0, nothing(), nothing());
}

proof fn lemma_reach_is_a_run(
    trades: Seq<FlowTradeView>,
    threshold: TradeShockThreshold,
    i: int,
    base: FixedDecimal,
    quote: FixedDecimal,
)
    requires
        0 <= i,
        shock_reach(trades, threshold, i, base, quote) is Ok,
        forall|k: int| 0 <= k < i ==> (#[trigger] trades[k]).side == trades[0].side,
        realized_by(trades, threshold, i) == Some(
            match threshold {
                TradeShockThreshold::QuoteNotional(_) => quote,
                TradeShockThreshold::BaseQuantity(_) => base,
            },
        ),
        forall|k: int| 0 <= k <= i ==> #[trigger] falls_short(trades, threshold, k),
    ensures
        ({
            let (count, reached_base, reached_quote) = shock_reach(
                trades,
                threshold,
                i,
                base,
                quote,
            )->Ok_0;
            &&& i < count <= trades.len()
            &&& forall|k: int| 0 <= k < count ==> (#[trigger] trades[k]).side == trades[0].side
            &&& match threshold {
                TradeShockThreshold::QuoteNotional(target) => reached_quote.units()
                    >= target.units(),
                TradeShockThreshold::BaseQuantity(target) => reached_base.units() >= target.units(),
            }
            &&& realized_by(trades, threshold, count) == Some(
                match threshold {
                    TradeShockThreshold::QuoteNotional(_) => reached_quote,
                    TradeShockThreshold::BaseQuantity(_) => reached_base,
                },
            )
            &&& forall|k: int| 0 <= k < count ==> #[trigger] falls_short(trades, threshold, k)
        }),
    decreases trades.len() - i,
{
    let next_base = base.plus(trades[i].quantity.amount())->Some_0;
    let next_quote = quote.plus(trade_notional(trades[i])->Some_0)->Some_0;
    let realized = match threshold {
        TradeShockThreshold::QuoteNotional(_) => next_quote,
        TradeShockThreshold::BaseQuantity(_) => next_base,
    };
    if realized.units() < target_of(threshold).units() {
        lemma_reach_is_a_run(trades, threshold, i + 1, next_base, next_quote);
    }
}

impl TradeShock {
    pub fn from_prefix(window: &TradeFlowWindow, threshold: TradeShockThreshold) -> (result: Result<
        Self,
        FeatureComputationError,
    >)
        ensures
            match shock_of(window@, threshold) {
                Err(error) => result is Err && result->Err_0 == error,
                Ok(shock) => result is Ok && result->Ok_0@ == shock,
            },
    {
        require_spot_quote_notional(window.instrument())?;
        let target = match threshold {
            TradeShockThreshold::QuoteNotional(value) => value,
            TradeShockThreshold::BaseQuantity(value) => value.value(),
        };
        if !target.is_positive() {
            return Err(FeatureComputationError::InvalidParameter);
        }
        let trades = window.observations();
        let ghost views = window@.trades;
        if trades.len() == 0 {
            return Err(FeatureComputationError::InsufficientHistory);
        }
        let first = &trades[0];
        let side = first.side();
        let mut observations: Vec<FlowTradeObservation> = Vec::new();
        let mut base = FixedDecimal::zero();
        let mut quote = FixedDecimal::zero();
        let mut i: usize = 0;
        while i < trades.len()
            invariant
                i <= trades@.len(),
                trades@.len() > 0,
                views == flow_views(trades@),
                views == window@.trades,
                *first == trades@[0],
                side == views[0].side,
                target == target_of(threshold),
                target.units() > 0,
                notional_refusal(window@.instrument) is None,
                flow_views(observations@) == views.take(i as int),
                shock_reach(views, threshold, 0, nothing(), nothing()) == shock_reach(
                    views,
                    threshold,
                    i as int,
                    base,
                    quote,
                ),
            decreases trades.len() - i,
        {
            let trade = &trades[i];
            proof {
                assert(views[i as int] == trade@);
                assert(views[0] == trades@[0]@);
            }
            let same_side: bool = match (trade.side(), side) {
                (AggressorSide::Buy, AggressorSide::Buy) => true,
                (AggressorSide::Sell, AggressorSide::Sell) => true,
                _ => false,
            };
            if !same_side {
                return Err(FeatureComputationError::BelowLiquidityThreshold);
            }
            base = sum_exact(base, trade.quantity().value())?;
            let notional = notional_of_trade(trade)?;
            quote = sum_exact(quote, notional)?;
            let ghost before = observations@;
            observations.push(trade.clone());
            proof {
                assert(flow_views(observations@) =~= flow_views(before).push(trade@));
                assert(views.take(i + 1) =~= views.take(i as int).push(trade@));
            }
            let realized = match threshold {
                TradeShockThreshold::QuoteNotional(_) => quote,
                TradeShockThreshold::BaseQuantity(_) => base,
            };
            if !realized.less_than(&target) {
                return Ok(
                    TradeShock {
                        instrument: first.instrument().clone(),
                        side,
                        threshold,
                        start_event_time: first.event_time(),
                        end_event_time: trade.event_time(),
                        availability_at: trade.as_known_at(),
                        evaluation_time: window.evaluation_time(),
                        observations,
                        realized_base_quantity: base,
                        realized_quote_notional: quote,
                    },
                );
            }
            i += 1;
        }
        Err(FeatureComputationError::BelowLiquidityThreshold)
    }

    pub fn side(&self) -> (side: AggressorSide)
        ensures
            side == self@.side,
    {
        self.side
    }

    pub fn threshold(&self) -> (threshold: TradeShockThreshold)
        ensures
            threshold == self@.threshold,
    {
        self.threshold
    }

    pub fn realized_base_quantity(&self) -> (quantity: FixedDecimal)
        ensures
            quantity == self@.realized_base_quantity,
    {
        self.realized_base_quantity
    }

    pub fn realized_quote_notional(&self) -> (notional: FixedDecimal)
        ensures
            notional == self@.realized_quote_notional,
    {
        self.realized_quote_notional
    }
}

/// A trade of the shock and a quote of the window share a lineage.
pub open spec fn lineages_meet(shock: ShockView, quotes: Seq<QuoteView>) -> bool {
    exists|i: int|
        0 <= i < quotes.len() && flow_lineages(shock.trades).contains(
            (#[trigger] quotes[i]).lineage,
        )
}

/// The quote stood before the shock, was known by its end, and was not too old.
pub open spec fn stood_before(shock: ShockView, quote: QuoteView, max_pre_age_ns: u64) -> bool {
    &&& quote.event_time.nanos <= shock.start_event_time.nanos
    &&& quote.as_known_at.nanos <= shock.availability_at.nanos
    &&& match elapsed(quote.event_time, shock.start_event_time) {
        Ok(age) => age <= max_pre_age_ns,
        Err(_) => false,
    }
}

/// The last quote before a shock, if there is one.
pub open spec fn quote_before(shock: ShockView, quotes: Seq<QuoteView>, max_pre_age_ns: u64) -> Option<
    QuoteView,
>
    decreases quotes.len(),
{
    if quotes.len() == 0 {
        None
    } else if stood_before(shock, quotes.last(), max_pre_age_ns) {
        Some(quotes.last())
    } else {
        quote_before(shock, quotes.drop_last(), max_pre_age_ns)
    }
}

/// The first quote inside a closed interval of time, from a place on, if there is one.
pub open spec fn quote_within(
    quotes: Seq<QuoteView>,
    from: int,
    start: UnixNanos,
    end: UnixNanos,
) -> Option<QuoteView>
    decreases quotes.len() - from,
{
    if from >= quotes.len() {
        None
    } else if start.nanos <= quotes[from].event_time.nanos <= end.nanos {
        Some(quotes[from])
    } else {
        quote_within(quotes, from + 1, start, end)
    }
}

/// A time some nanoseconds later, or why there is none.
pub open spec fn time_after(time: UnixNanos, offset_ns: u64) -> Result<
    UnixNanos,
    FeatureComputationError,
> {
    if offset_ns > i64::MAX || time.nanos + offset_ns > i64::MAX {
        Err(FeatureComputationError::InvalidParameter)
    } else {
        Ok(UnixNanos { nanos: (time.nanos + offset_ns) as i64 })
    }
}

fn add_ns(time: UnixNanos, offset_ns: u64) -> (result: Result<UnixNanos, FeatureComputationError>)
    ensures
        result == time_after(time, offset_ns),
{
    if offset_ns > 9_223_372_036_854_775_807 {
        return Err(FeatureComputationError::InvalidParameter);
    }
    match time.value().checked_add(offset_ns as i64) {
        None => Err(FeatureComputationError::InvalidParameter),
        Some(nanos) => Ok(UnixNanos { nanos }),
    }
}

/// Twice the midpoint of a quote.
pub open spec fn twice_midpoint(quote: QuoteView) -> Option<FixedDecimal> {
    quote.bid_price.amount().plus(quote.ask_price.amount())
}

fn midpoint_numerator(quote: &TopOfBookObservation) -> (result: Result<
    FixedDecimal,
    FeatureComputationError,
>)
    ensures
        result == exact(twice_midpoint(quote@)),
{
    let (bid, ask) = quote.inside_prices();
    sum_exact(bid.value(), ask.value())
}

/// A value as a buyer counts it: a seller's has the other sign.
pub open spec fn signed_by(value: FixedDecimal, side: AggressorSide) -> Option<FixedDecimal> {
    match side {
        AggressorSide::Buy => Some(value),
        AggressorSide::Sell => value.negated(),
    }
}

fn apply_side_sign(value: FixedDecimal, side: AggressorSide) -> (result: Result<
    FixedDecimal,
    FeatureComputationError,
>)
    ensures
        result == exact(signed_by(value, side)),
{
    match side {
        AggressorSide::Buy => Ok(value),
        AggressorSide::Sell => match value.checked_neg() {
            Ok(negated) => Ok(negated),
            Err(_) => Err(FeatureComputationError::InvalidInput),
        },
    }
}

pub open spec fn two() -> FixedDecimal {
    decimal_of_units(2 * unit())
}

/// The weight of a trade of a shock.
pub open spec fn weight_of(trade: FlowTradeView, weighting: TradeShockWeighting) -> Option<
    FixedDecimal,
> {
    match weighting {
        TradeShockWeighting::BaseQuantity => Some(trade.quantity.amount()),
        TradeShockWeighting::QuoteNotional => trade_notional(trade),
    }
}

/// Four times the weighted distance of a trade from a midpoint, as the shock's side counts it.
pub open spec fn weighted_distance(
    trade: FlowTradeView,
    twice_midpoint: FixedDecimal,
    side: AggressorSide,
    weight: FixedDecimal,
) -> Option<FixedDecimal> {
    match trade.price.amount().times(two()) {
        None => None,
        Some(twice_price) => match twice_price.minus(twice_midpoint) {
            None => None,
            Some(distance) => match distance.times(two()) {
                None => None,
                Some(doubled) => match signed_by(doubled, side) {
                    None => None,
                    Some(signed) => signed.times(weight),
                },
            },
        },
    }
}

fn weighted_component(
    trade: &FlowTradeObservation,
    midpoint: FixedDecimal,
    side: AggressorSide,
    weight: FixedDecimal,
) -> (result: Result<FixedDecimal, FeatureComputationError>)
    ensures
        result == exact(weighted_distance(trade@, midpoint, side, weight)),
{
    let twice_price = product_exact(trade.price().value(), FixedDecimal::whole(2))?;
    let distance = difference_exact(twice_price, midpoint)?;
    let doubled = product_exact(distance, FixedDecimal::whole(2))?;
    let signed = apply_side_sign(doubled, side)?;
    product_exact(signed, weight)
}

/// Sums over the trades of a shock: weights, effective and realized distances.
#[derive(Clone, Copy, Debug, PartialEq, Eq, Structural)]
pub struct SpreadSums {
    pub total_weight: FixedDecimal,
    pub effective: FixedDecimal,
    pub realized: FixedDecimal,
}

pub open spec fn no_spreads() -> SpreadSums {
    SpreadSums { total_weight: nothing(), effective: nothing(), realized: nothing() }
}

/// The sums with one more trade.
pub open spec fn spreads_with(
    sums: SpreadSums,
    trade: FlowTradeView,
    before: FixedDecimal,
    after: FixedDecimal,
    side: AggressorSide,
    weighting: TradeShockWeighting,
) -> Result<SpreadSums, FeatureComputationError> {
    match weight_of(trade, weighting) {
        None => Err(FeatureComputationError::InvalidInput),
        Some(weight) => match (
            weighted_distance(trade, before, side, weight),
            weighted_distance(trade, after, side, weight),
        ) {
            (Some(effective), Some(realized)) => match (
                sums.total_weight.plus(weight),
                sums.effective.plus(effective),
                sums.realized.plus(realized),
            ) {
                (Some(total_weight), Some(effective), Some(realized)) => Ok(
                    SpreadSums { total_weight, effective, realized },
                ),
                _ => Err(FeatureComputationError::InvalidInput),
            },
            _ => Err(FeatureComputationError::InvalidInput),
        },
    }
}

/// The sums over the trades of a shock.
pub open spec fn spread_sums(
    shock: ShockView,
    before: FixedDecimal,
    after: FixedDecimal,
    weighting: TradeShockWeighting,
) -> Result<SpreadSums, FeatureComputationError> {
    folded(
        shock.trades,
        no_spreads(),
        |sums: SpreadSums, trade: FlowTradeView|
            spreads_with(sums, trade, before, after, shock.side, weighting),
    )
}

/// The exact terms of a response: signed impact, effective spread and realized spread.
#[derive(Clone, Copy, Debug, PartialEq, Eq, Structural)]
pub struct ShockResponseTerms {
    pub signed_impact: ExactRatio,
    pub effective_spread: ExactRatio,
    pub realized_spread: ExactRatio,
}

/// The response terms around the two quotes, or why there are none.
pub open spec fn response_terms(
    shock: ShockView,
    before: QuoteView,
    after: QuoteView,
    weighting: TradeShockWeighting,
) -> Result<ShockResponseTerms, FeatureComputationError> {
    match (twice_midpoint(before), twice_midpoint(after)) {
        (Some(pre), Some(post)) => match post.minus(pre) {
            None => Err(FeatureComputationError::InvalidInput),
            Some(change) => match signed_by(change, shock.side) {
                None => Err(FeatureComputationError::InvalidInput),
                Some(signed_change) => match spread_sums(shock, pre, post, weighting) {
                    Err(error) => Err(error),
                    Ok(sums) => match pre.times(sums.total_weight) {
                        None => Err(FeatureComputationError::InvalidInput),
                        Some(denominator) => if denominator.units() == 0 {
                            Err(FeatureComputationError::ZeroDenominator)
                        } else {
                            Ok(
                                ShockResponseTerms {
                                    signed_impact: ExactRatio {
                                        numerator: signed_change,
                                        denominator: pre,
                                    },
                                    effective_spread: ExactRatio {
                                        numerator: sums.effective,
                                        denominator,
                                    },
                                    realized_spread: ExactRatio {
                                        numerator: sums.realized,
                                        denominator,
                                    },
                                },
                            )
                        },
                    },
                },
            },
        },
        _ => Err(FeatureComputationError::InvalidInput),
    }
}

/// The response of quotes to a shock, or why it cannot be told.
pub open spec fn shock_response(
    shock: ShockView,
    window: QuoteWindowView,
    max_pre_age_ns: u64,
    response_horizon_ns: u64,
    response_tolerance_ns: u64,
    weighting: TradeShockWeighting,
) -> Result<ShockResponseTerms, FeatureComputationError> {
    let quotes = window.0;
    if max_pre_age_ns == 0 || window.1 != shock.evaluation_time {
        Err(FeatureComputationError::InvalidParameter)
    } else if quotes[0].instrument != shock.instrument {
        Err(FeatureComputationError::MixedEntity)
    } else if lineages_meet(shock, quotes) {
        Err(FeatureComputationError::DuplicateLineage)
    } else {
        match quote_before(shock, quotes, max_pre_age_ns) {
            None => Err(FeatureComputationError::InsufficientHistory),
            Some(before) => match time_after(shock.end_event_time, response_horizon_ns) {
                Err(error) => Err(error),
                Ok(start) => match time_after(start, response_tolerance_ns) {
                    Err(error) => Err(error),
                    Ok(end) => match quote_within(quotes, 0, start, end) {
                        None => Err(FeatureComputationError::InsufficientHistory),
                        Some(after) => response_terms(shock, before, after, weighting),
                    },
                },
            },
        }
    }
}

/// No response rests on a quote that was known only after the shock was complete, nor on one
/// from before its horizon.
pub proof fn lemma_responses_respect_time(
    shock: ShockView,
    quotes: Seq<QuoteView>,
    max_pre_age_ns: u64,
    start: UnixNanos,
    end: UnixNanos,
)
    ensures
        match quote_before(shock, quotes, max_pre_age_ns) {
            Some(before) => stood_before(shock, before, max_pre_age_ns) && quotes.contains(before),
            None => forall|i: int|
                0 <= i < quotes.len() ==> !stood_before(
                    shock,
                    #[trigger] quotes[i],
                    max_pre_age_ns,
                ),
        },
        match quote_within(quotes, 0, start, end) {
            Some(after) => start.nanos <= after.event_time.nanos <= end.nanos && quotes.contains(
                after,
            ),
            None => forall|i: int|
                0 <= i < quotes.len() ==> !(start.nanos <= (#[trigger] quotes[i]).event_time.nanos
                    <= end.nanos),
        },
    decreases quotes.len(),
{
    lemma_within_respects_time(quotes, 0, start, end);
    if quotes.len() > 0 {
        let rest = quotes.drop_last();
        lemma_responses_respect_time(shock, rest, max_pre_age_ns, start, end);
        if stood_before(shock, quotes.last(), max_pre_age_ns) {
            assert(quotes[quotes.len() - 1] == quotes.last());
        } else {
            match quote_before(shock, rest, max_pre_age_ns) {
                Some(before) => {
                    assert(quotes[rest.index_of(before)] == before);
                },
                None => {
                    assert forall|i: int| 0 <= i < quotes.len() implies !stood_before(
                        shock,
                        #[trigger] quotes[i],
                        max_pre_age_ns,
                    ) by {
                        if i < rest.len() {
                            assert(rest[i] == quotes[i]);
                        }
                    }
                },
            }
        }
    }
}

proof fn lemma_within_respects_time(
    quotes: Seq<QuoteView>,
    from: int,
    start: UnixNanos,
    end: UnixNanos,
)
    requires
        0 <= from,
    ensures
        match quote_within(quotes, from, start, end) {
            Some(after) => start.nanos <= after.event_time.nanos <= end.nanos && quotes.contains(
                after,
            ),
            None => forall|i: int|
                from <= i < quotes.len() ==> !(start.nanos <= (
                #[trigger] quotes[i]).event_time.nanos <= end.nanos),
        },
    decreases quotes.len() - from,
{
    if from < quotes.len() {
        lemma_within_respects_time(quotes, from + 1, start, end);
    }
}

fn lineages_overlap(shock: &TradeShock, quotes: &Vec<TopOfBookObservation>) -> (answer: bool)
    ensures
        answer == lineages_meet(shock@, quote_views(quotes@)),
{
    let ghost views = quote_views(quotes@);
    let ghost own = flow_lineages(shock@.trades);
    let mut all: Vec<[u8; 32]> = Vec::new();
    let mut n: usize = 0;
    while n < shock.observations.len()
        invariant
            n <= shock.observations@.len(),
            all@.len() == n,
            forall|k: int|
                0 <= k < n ==> (#[trigger] all@[k])@ == shock.observations@[k]@.lineage,
        decreases shock.observations.len() - n,
    {
        all.push(shock.observations[n].lineage());
        n += 1;
    }
    let offset: usize = n;
    let mut m: usize = 0;
    while m < quotes.len()
        invariant
            m <= quotes@.len(),
            offset == shock.observations@.len(),
            all@.len() == offset + m,
            forall|k: int|
                0 <= k < offset ==> (#[trigger] all@[k])@ == shock.observations@[k]@.lineage,
            forall|k: int|
                offset <= k < offset + m ==> (#[trigger] all@[k])@ == quotes@[k - offset]@.lineage,
        decreases quotes.len() - m,
    {
        all.push(quotes[m].lineage());
        m += 1;
    }
    let repeated: Option<usize> = first_repeated_digest(&all);
    proof {
        assert(own.len() == offset);
        let names = digest_views(all@);
        if repeated is None && lineages_meet(shock@, views) {
            let i = choose|i: int|
                0 <= i < views.len() && own.contains((#[trigger] views[i]).lineage);
            let at = own.index_of(views[i].lineage);
            assert(names[at] == own[at]);
            assert(names[offset + i] == views[i].lineage);
        }
    }
    if repeated.is_none() {
        return false;
    }
    let mut i: usize = 0;
    while i < quotes.len()
        invariant
            i <= quotes@.len(),
            views == quote_views(quotes@),
            own == flow_lineages(shock@.trades),
            own.len() == shock.observations@.len(),
            forall|k: int| 0 <= k < i ==> !own.contains((#[trigger] views[k]).lineage),
        decreases quotes.len() - i,
    {
        let lineage = quotes[i].lineage();
        proof {
            assert(views[i as int] == quotes@[i as int]@);
        }
        let mut k: usize = 0;
        while k < shock.observations.len()
            invariant
                k <= shock.observations@.len(),
                own == flow_lineages(shock@.trades),
                own.len() == shock.observations@.len(),
                i < views.len(),
                lineage@ == views[i as int].lineage,
                views == quote_views(quotes@),
                forall|j: int| 0 <= j < k ==> own[j] != lineage@,
            decreases shock.observations.len() - k,
        {
            proof {
                assert(own[k as int] == shock.observations@[k as int]@.lineage);
            }
            let other = shock.observations[k].lineage();
            if same_digest(&lineage, &other) {
                proof {
                    assert(own.contains(views[i as int].lineage));
                }
                return true;
            }
            k += 1;
        }
        i += 1;
    }
    false
}

fn sum_spreads(
    shock: &TradeShock,
    before: FixedDecimal,
    after: FixedDecimal,
    weighting: TradeShockWeighting,
) -> (result: Result<SpreadSums, FeatureComputationError>)
    ensures
        result == spread_sums(shock@, before, after, weighting),
{
    let trades = &shock.observations;
    let ghost views = shock@.trades;
    let side = shock.side;
    let ghost step = |sums: SpreadSums, trade: FlowTradeView|
        spreads_with(sums, trade, before, after, shock@.side, weighting);
    let mut sums = SpreadSums {
        total_weight: FixedDecimal::zero(),
        effective: FixedDecimal::zero(),
        realized: FixedDecimal::zero(),
    };
    let mut i: usize = 0;
    proof {
        assert(views.take(0) =~= Seq::empty());
    }
    while i < trades.len()
        invariant
            i <= trades@.len(),
            views == flow_views(trades@),
            views == shock@.trades,
            side == shock@.side,
            step == (|sums: SpreadSums, trade: FlowTradeView|
                spreads_with(sums, trade, before, after, shock@.side, weighting)),
            folded(views.take(i as int), no_spreads(), step) == Ok::<
                SpreadSums,
                FeatureComputationError,
            >(sums),
        decreases trades.len() - i,
    {
        let trade = &trades[i];
        proof {
            lemma_fold_step(views, i as int, no_spreads(), step);
            assert(views[i as int] == trade@);
        }
        let weight = match weighting {
            TradeShockWeighting::BaseQuantity => trade.quantity().value(),
            TradeShockWeighting::QuoteNotional => notional_of_trade(trade)?,
        };
        let effective = weighted_component(trade, before, side, weight)?;
        let realized = weighted_component(trade, after, side, weight)?;
        sums =
        SpreadSums {
            total_weight: sum_exact(sums.total_weight, weight)?,
            effective: sum_exact(sums.effective, effective)?,
            realized: sum_exact(sums.realized, realized)?,
        };
        i += 1;
    }
    proof {
        assert(views.take(trades@.len() as int) =~= views);
    }
    Ok(sums)
}

fn find_quote_before(
    shock: &TradeShock,
    quotes: &Vec<TopOfBookObservation>,
    max_pre_age_ns: u64,
) -> (found: Option<usize>)
    ensures
        match quote_before(shock@, quote_views(quotes@), max_pre_age_ns) {
            None => found is None,
            Some(quote) => found is Some && found->Some_0 < quotes@.len() && quote
                == quotes@[found->Some_0 as int]@,
        },
{
    let ghost views = quote_views(quotes@);
    let mut i: usize = quotes.len();
    proof {
        assert(views.take(i as int) =~= views);
    }
    while i > 0
        invariant
            i <= quotes@.len(),
            views == quote_views(quotes@),
            quote_before(shock@, views, max_pre_age_ns) == quote_before(
                shock@,
                views.take(i as int),
                max_pre_age_ns,
            ),
        decreases i,
    {
        let quote = &quotes[i - 1];
        proof {
            assert(views.take(i as int).last() == quote@);
            assert(views.take(i as int).drop_last() =~= views.take(i - 1));
        }
        let young: bool = match elapsed_ns(quote.event_time(), shock.start_event_time) {
            Ok(age) => age <= max_pre_age_ns,
            Err(_) => false,
        };
        if quote.event_time().value() <= shock.start_event_time.value()
            && quote.as_known_at().value() <= shock.availability_at.value() && young {
            return Some(i - 1);
        }
        i -= 1;
    }
    None
}

fn find_quote_within(quotes: &Vec<TopOfBookObservation>, start: UnixNanos, end: UnixNanos) -> (found:
    Option<usize>)
    ensures
        match quote_within(quote_views(quotes@), 0, start, end) {
            None => found is None,
            Some(quote) => found is Some && found->Some_0 < quotes@.len() && quote
                == quotes@[found->Some_0 as int]@,
        },
{
    let ghost views = quote_views(quotes@);
    let mut i: usize = 0;
    while i < quotes.len()
        invariant
            i <= quotes@.len(),
            views == quote_views(quotes@),
            quote_within(views, 0, start, end) == quote_within(views, i as int, start, end),
        decreases quotes.len() - i,
    {
        let time = quotes[i].event_time();
        proof {
            assert(views[i as int] == quotes@[i as int]@);
        }
        if time.value() >= start.value() && time.value() <= end.value() {
            return Some(i);
        }
        i += 1;
    }
    None
}

/// The exact terms of the quotes' response to a shock.
pub fn trade_shock_response(
    shock: &TradeShock,
    quotes: &TopOfBookWindow,
    max_pre_age_ns: u64,
    response_horizon_ns: u64,
    response_tolerance_ns: u64,
    weighting: TradeShockWeighting,
) -> (result: Result<ShockResponseTerms, FeatureComputationError>)
    ensures
        result == shock_response(
            shock@,
            quotes@,
            max_pre_age_ns,
            response_horizon_ns,
            response_tolerance_ns,
            weighting,
        ),
{
    if max_pre_age_ns == 0 || quotes.evaluation_time() != shock.evaluation_time {
        return Err(FeatureComputationError::InvalidParameter);
    }
    let listed = quotes.observations();
    proof {
        assert(quotes@.0[0] == listed@[0]@);
    }
    if !listed[0].instrument().same(&shock.instrument) {
        return Err(FeatureComputationError::MixedEntity);
    }
    if lineages_overlap(shock, listed) {
        return Err(FeatureComputationError::DuplicateLineage);
    }
    let before: usize = match find_quote_before(shock, listed, max_pre_age_ns) {
        None => {
            return Err(FeatureComputationError::InsufficientHistory);
        },
        Some(before) => before,
    };
    let start = add_ns(shock.end_event_time, response_horizon_ns)?;
    let end = add_ns(start, response_tolerance_ns)?;
    let after: usize = match find_quote_within(listed, start, end) {
        None => {
            return Err(FeatureComputationError::InsufficientHistory);
        },
        Some(after) => after,
    };
    let pre = midpoint_numerator(&listed[before])?;
    let post = midpoint_numerator(&listed[after])?;
    let change = difference_exact(post, pre)?;
    let signed_change = apply_side_sign(change, shock.side)?;
    let sums = sum_spreads(shock, pre, post, weighting)?;
    let denominator = product_exact(pre, sums.total_weight)?;
    if denominator.is_zero() {
        return Err(FeatureComputationError::ZeroDenominator);
    }
    Ok(
        ShockResponseTerms {
            signed_impact: ExactRatio { numerator: signed_change, denominator: pre },
            effective_spread: ExactRatio { numerator: sums.effective, denominator },
            realized_spread: ExactRatio { numerator: sums.realized, denominator },
        },
    )
}

/// The response of quotes to a shock, by bit patterns.
#[derive(Clone, Copy, Debug, PartialEq, Eq, Structural)]
pub struct TradeShockResponse {
    pub signed_impact_bits: u64,
    pub effective_spread_bits: u64,
    pub realized_spread_bits: u64,
    pub adverse_selection_proxy_bits: u64,
}

impl TradeShockResponse {
    /// The response as measured, where each part is finite.
    pub fn from_bits(
        signed_impact_bits: u64,
        effective_spread_bits: u64,
        realized_spread_bits: u64,
        adverse_selection_proxy_bits: u64,
    ) -> (result: Result<Self, FeatureComputationError>)
        ensures
            result == if finite_value(signed_impact_bits) is Ok && finite_value(
                effective_spread_bits,
            ) is Ok && finite_value(realized_spread_bits) is Ok && finite_value(
                adverse_selection_proxy_bits,
            ) is Ok {
                Ok::<Self, FeatureComputationError>(
                    (TradeShockResponse {
                        signed_impact_bits,
                        effective_spread_bits,
                        realized_spread_bits,
                        adverse_selection_proxy_bits,
                    }),
                )
            } else {
                Err(FeatureComputationError::AnalyticalUnavailable)
            },
    {
        finite(signed_impact_bits)?;
        finite(effective_spread_bits)?;
        finite(realized_spread_bits)?;
        finite(adverse_selection_proxy_bits)?;
        Ok(
            TradeShockResponse {
                signed_impact_bits,
                effective_spread_bits,
                realized_spread_bits,
                adverse_selection_proxy_bits,
            },
        )
    }
}

/// The quantities of trades, in units.
pub open spec fn traded_units(trades: Seq<FlowTradeView>) -> Seq<int> {
    Seq::new(trades.len(), |i: int| trades[i].quantity.units())
}

/// Price times quantity of trades, in units of units.
pub open spec fn traded_worths(trades: Seq<FlowTradeView>) -> Seq<int> {
    Seq::new(trades.len(), |i: int| trades[i].price.units() * trades[i].quantity.units())
}

/// What a trade weighs, in units of units: its quantity, or its price times its quantity.
pub open spec fn weighs(trade: FlowTradeView, weighting: TradeShockWeighting) -> int {
    if weighting == TradeShockWeighting::BaseQuantity {
        trade.quantity.units() * unit()
    } else {
        trade.price.units() * trade.quantity.units()
    }
}

pub open spec fn trade_weights(trades: Seq<FlowTradeView>, weighting: TradeShockWeighting) -> Seq<
    int,
> {
    Seq::new(trades.len(), |i: int| weighs(trades[i], weighting))
}

/// How far trades were made above a midpoint, twice over, each by its weight.
pub open spec fn paid_above(
    trades: Seq<FlowTradeView>,
    bid_plus_ask: int,
    weighting: TradeShockWeighting,
) -> Seq<int> {
    Seq::new(
        trades.len(),
        |i: int| (2 * trades[i].price.units() - bid_plus_ask) * weighs(trades[i], weighting),
    )
}

/// A value from the side's own point of view: what a buyer loses, a seller gains.
pub open spec fn seen_by(side: AggressorSide, value: int) -> int {
    if side == AggressorSide::Sell {
        -value
    } else {
        value
    }
}

proof fn lemma_signed_units(value: FixedDecimal, side: AggressorSide)
    requires
        value.in_scale(),
        signed_by(value, side) is Some,
    ensures
        signed_by(value, side)->Some_0.units() == seen_by(side, value.units()),
        signed_by(value, side)->Some_0.in_scale(),
{
    lemma_exact_arithmetic(value, value);
}

proof fn lemma_weight_units(trade: FlowTradeView, weighting: TradeShockWeighting)
    requires
        trade.price.is_valid(),
        trade.quantity.is_valid(),
        weight_of(trade, weighting) is Some,
    ensures
        weight_of(trade, weighting)->Some_0.units() * unit() == weighs(trade, weighting),
        weight_of(trade, weighting)->Some_0.in_scale(),
{
    lemma_exact_arithmetic(trade.price.amount(), trade.quantity.amount());
}

proof fn lemma_distance_units(
    trade: FlowTradeView,
    midpoint: FixedDecimal,
    side: AggressorSide,
    weight: FixedDecimal,
    own: int,
)
    requires
        trade.price.is_valid(),
        midpoint.in_scale(),
        weight.in_scale(),
        weight.units() * unit() == own,
        weighted_distance(trade, midpoint, side, weight) is Some,
    ensures
        ({
            let distance = weighted_distance(trade, midpoint, side, weight)->Some_0;
            &&& distance.in_scale()
            &&& distance.units() * unit() * unit() == seen_by(
                side,
                2 * ((2 * trade.price.units() - midpoint.units()) * own),
            )
        }),
{
    let price = trade.price.amount();
    let twice = price.times(two())->Some_0;
    lemma_times_whole(price, 2);
    lemma_exact_arithmetic(twice, midpoint);
    let gap = twice.minus(midpoint)->Some_0;
    lemma_times_whole(gap, 2);
    let doubled = gap.times(two())->Some_0;
    lemma_signed_units(doubled, side);
    let signed = signed_by(doubled, side)->Some_0;
    lemma_exact_arithmetic(signed, weight);
    let distance = weighted_distance(trade, midpoint, side, weight)->Some_0;
    let g = 2 * trade.price.units() - midpoint.units();
    let u = unit();
    let (d, s, w) = (distance.units(), signed.units(), weight.units());
    assert(gap.units() == g);
    assert(s == seen_by(side, g * 2));
    assert(d * u * u == s * own) by (nonlinear_arith)
        requires
            d * u == s * w,
            w * u == own,
    ;
    assert((g * 2) * own == 2 * (g * own)) by (nonlinear_arith);
    assert((-(g * 2)) * own == -(2 * (g * own))) by (nonlinear_arith);
}

proof fn lemma_spread_sum_units(
    trades: Seq<FlowTradeView>,
    before: FixedDecimal,
    after: FixedDecimal,
    side: AggressorSide,
    weighting: TradeShockWeighting,
    step: spec_fn(SpreadSums, FlowTradeView) -> Result<SpreadSums, FeatureComputationError>,
)
    requires
        trades_are_valid(trades),
        before.in_scale(),
        after.in_scale(),
        forall|sums: SpreadSums, trade: FlowTradeView| #[trigger]
            step(sums, trade) == spreads_with(sums, trade, before, after, side, weighting),
        folded(trades, no_spreads(), step) is Ok,
    ensures
        ({
            let sums = folded(trades, no_spreads(), step)->Ok_0;
            let u = unit();
            &&& sums.total_weight.in_scale() && sums.effective.in_scale()
                && sums.realized.in_scale()
            &&& sums.total_weight.units() * u == sum_of(trade_weights(trades, weighting))
            &&& sums.effective.units() * u * u == seen_by(
                side,
                2 * sum_of(paid_above(trades, before.units(), weighting)),
            )
            &&& sums.realized.units() * u * u == seen_by(
                side,
                2 * sum_of(paid_above(trades, after.units(), weighting)),
            )
        }),
    decreases trades.len(),
{
    lemma_zero_units();
    let u = unit();
    if trades.len() == 0 {
        assert(0 * u == 0 && 0 * u * u == 0);
    } else {
        let rest = trades.drop_last();
        let trade = trades.last();
        assert(trade == trades[trades.len() - 1]);
        assert forall|i: int| 0 <= i < rest.len() implies (#[trigger] rest[i]).price.is_valid()
            && rest[i].quantity.is_valid() by {
            assert(rest[i] == trades[i]);
        }
        lemma_spread_sum_units(rest, before, after, side, weighting, step);
        let old_sums = folded(rest, no_spreads(), step)->Ok_0;
        let sums = folded(trades, no_spreads(), step)->Ok_0;
        assert(step(old_sums, trade) == spreads_with(
            old_sums,
            trade,
            before,
            after,
            side,
            weighting,
        ));
        lemma_weight_units(trade, weighting);
        let weight = weight_of(trade, weighting)->Some_0;
        let own = weighs(trade, weighting);
        lemma_distance_units(trade, before, side, weight, own);
        lemma_distance_units(trade, after, side, weight, own);
        let effective = weighted_distance(trade, before, side, weight)->Some_0;
        let realized = weighted_distance(trade, after, side, weight)->Some_0;
        lemma_exact_arithmetic(old_sums.total_weight, weight);
        lemma_exact_arithmetic(old_sums.effective, effective);
        lemma_exact_arithmetic(old_sums.realized, realized);
        let weights = trade_weights(trades, weighting);
        let earlier = paid_above(trades, before.units(), weighting);
        let later = paid_above(trades, after.units(), weighting);
        assert(weights.drop_last() =~= trade_weights(rest, weighting));
        assert(earlier.drop_last() =~= paid_above(rest, before.units(), weighting));
        assert(later.drop_last() =~= paid_above(rest, after.units(), weighting));
        lemma_sum_last(weights);
        lemma_sum_last(earlier);
        lemma_sum_last(later);
        lemma_added(old_sums.total_weight.units(), weight.units(), u);
        lemma_added(old_sums.effective.units(), effective.units(), u);
        lemma_added(old_sums.realized.units(), realized.units(), u);
    }
}

proof fn lemma_added(a: int, b: int, u: int)
    ensures
        (a + b) * u == a * u + b * u,
        (a + b) * u * u == a * u * u + b * u * u,
{
    assert((a + b) * u == a * u + b * u) by (nonlinear_arith);
    assert((a * u + b * u) * u == a * u * u + b * u * u) by (nonlinear_arith);
}

/// A response is counted from the aggressor's side. A buyer's impact is what the midpoint rose by,
/// and a seller's what it fell by; a buyer's spread is what was paid above the midpoint, and a
/// seller's what was taken below it, each trade by its weight, against the midpoint before the
/// shock and against the one after it.
pub proof fn lemma_responses_count_for_the_aggressor(
    shock: ShockView,
    before: QuoteView,
    after: QuoteView,
    weighting: TradeShockWeighting,
)
    requires
        quote_is_valid(before),
        quote_is_valid(after),
        trades_are_valid(shock.trades),
        response_terms(shock, before, after, weighting) is Ok,
    ensures
        ({
            let terms = response_terms(shock, before, after, weighting)->Ok_0;
            let pre = before.bid_price.units() + before.ask_price.units();
            let post = after.bid_price.units() + after.ask_price.units();
            let trades = shock.trades;
            let u = unit();
            &&& terms.signed_impact.denominator.units() == pre
            &&& terms.effective_spread.denominator == terms.realized_spread.denominator
            &&& terms.effective_spread.denominator.units() * u * u == pre * sum_of(
                trade_weights(trades, weighting),
            )
            &&& shock.side == AggressorSide::Buy ==> {
                &&& terms.signed_impact.numerator.units() == post - pre
                &&& terms.effective_spread.numerator.units() * u * u == 2 * sum_of(
                    paid_above(trades, pre, weighting),
                )
                &&& terms.realized_spread.numerator.units() * u * u == 2 * sum_of(
                    paid_above(trades, post, weighting),
                )
            }
            &&& shock.side == AggressorSide::Sell ==> {
                &&& terms.signed_impact.numerator.units() == pre - post
                &&& terms.effective_spread.numerator.units() * u * u == -2 * sum_of(
                    paid_above(trades, pre, weighting),
                )
                &&& terms.realized_spread.numerator.units() * u * u == -2 * sum_of(
                    paid_above(trades, post, weighting),
                )
            }
        }),
{
    lemma_exact_arithmetic(before.bid_price.amount(), before.ask_price.amount());
    lemma_exact_arithmetic(after.bid_price.amount(), after.ask_price.amount());
    let pre = twice_midpoint(before)->Some_0;
    let post = twice_midpoint(after)->Some_0;
    lemma_exact_arithmetic(post, pre);
    let change = post.minus(pre)->Some_0;
    lemma_signed_units(change, shock.side);
    let step = |sums: SpreadSums, trade: FlowTradeView|
        spreads_with(sums, trade, pre, post, shock.side, weighting);
    lemma_spread_sum_units(shock.trades, pre, post, shock.side, weighting, step);
    let sums = spread_sums(shock, pre, post, weighting)->Ok_0;
    lemma_exact_arithmetic(pre, sums.total_weight);
    let denominator = pre.times(sums.total_weight)->Some_0;
    let total = sum_of(trade_weights(shock.trades, weighting));
    assert(denominator.units() * unit() * unit() == pre.units() * total) by (nonlinear_arith)
        requires
            denominator.units() * unit() == pre.units() * sums.total_weight.units(),
            sums.total_weight.units() * unit() == total,
    ;
}

/// A sell below the midpoint and a buy above it cost the aggressor something: where every trade of
/// a shock is of that kind, the effective spread is positive.
pub proof fn lemma_crossing_the_midpoint_costs(
    shock: ShockView,
    before: QuoteView,
    after: QuoteView,
    weighting: TradeShockWeighting,
)
    requires
        quote_is_valid(before),
        quote_is_valid(after),
        trades_are_valid(shock.trades),
        response_terms(shock, before, after, weighting) is Ok,
        shock.trades.len() > 0,
        forall|i: int|
            0 <= i < shock.trades.len() ==> (#[trigger] shock.trades[i]).quantity.units() > 0
                && match shock.side {
                AggressorSide::Buy => 2 * shock.trades[i].price.units() > before.bid_price.units()
                    + before.ask_price.units(),
                AggressorSide::Sell => 2 * shock.trades[i].price.units() < before.bid_price.units()
                    + before.ask_price.units(),
            },
    ensures
        response_terms(shock, before, after, weighting)->Ok_0.effective_spread.numerator.units()
            > 0,
        response_terms(shock, before, after, weighting)->Ok_0.effective_spread.denominator.units()
            > 0,
{
    lemma_responses_count_for_the_aggressor(shock, before, after, weighting);
    lemma_exact_arithmetic(before.bid_price.amount(), before.ask_price.amount());
    let terms = response_terms(shock, before, after, weighting)->Ok_0;
    let pre = before.bid_price.units() + before.ask_price.units();
    let u = unit();
    lemma_sum_has_sign(shock.trades, pre, weighting, shock.side);
    let n = terms.effective_spread.numerator.units();
    let d = terms.effective_spread.denominator.units();
    let total = sum_of(trade_weights(shock.trades, weighting));
    assert(n > 0) by (nonlinear_arith)
        requires
            n * u * u > 0,
            u > 0,
    ;
    assert(d > 0) by (nonlinear_arith)
        requires
            d * u * u == pre * total,
            pre > 0,
            total > 0,
            u > 0,
    ;
}

proof fn lemma_sum_has_sign(
    trades: Seq<FlowTradeView>,
    bid_plus_ask: int,
    weighting: TradeShockWeighting,
    side: AggressorSide,
)
    requires
        trades.len() > 0,
        unit() > 0,
        trades_are_valid(trades),
        forall|i: int|
            0 <= i < trades.len() ==> (#[trigger] trades[i]).quantity.units() > 0 && match side {
                AggressorSide::Buy => 2 * trades[i].price.units() > bid_plus_ask,
                AggressorSide::Sell => 2 * trades[i].price.units() < bid_plus_ask,
            },
    ensures
        seen_by(side, sum_of(paid_above(trades, bid_plus_ask, weighting))) > 0,
        sum_of(trade_weights(trades, weighting)) > 0,
    decreases trades.len(),
{
    let rest = trades.drop_last();
    let trade = trades.last();
    assert(trade == trades[trades.len() - 1]);
    let distances = paid_above(trades, bid_plus_ask, weighting);
    let weights = trade_weights(trades, weighting);
    lemma_sum_last(distances);
    lemma_sum_last(weights);
    assert(distances.drop_last() =~= paid_above(rest, bid_plus_ask, weighting));
    assert(weights.drop_last() =~= trade_weights(rest, weighting));
    let g = 2 * trade.price.units() - bid_plus_ask;
    let (p, q) = (trade.price.units(), trade.quantity.units());
    assert(q * unit() > 0 && p * q > 0) by (nonlinear_arith)
        requires
            p > 0,
            q > 0,
            unit() > 0,
    ;
    let w = weighs(trade, weighting);
    assert(seen_by(side, g * w) > 0) by (nonlinear_arith)
        requires
            w > 0,
            seen_by(side, g) > 0,
            seen_by(side, g) == g || seen_by(side, g) == -g,
            seen_by(side, g * w) == g * w || seen_by(side, g * w) == -(g * w),
            seen_by(side, g) == g <==> side == AggressorSide::Buy || g == 0,
            seen_by(side, g * w) == g * w <==> side == AggressorSide::Buy || g * w == 0,
    ;
    if rest.len() > 0 {
        assert forall|i: int| 0 <= i < rest.len() implies (#[trigger] rest[i]).quantity.units() > 0
            && rest[i].price.is_valid() && rest[i].quantity.is_valid() && match side {
            AggressorSide::Buy => 2 * rest[i].price.units() > bid_plus_ask,
            AggressorSide::Sell => 2 * rest[i].price.units() < bid_plus_ask,
        } by {
            assert(rest[i] == trades[i]);
        }
        lemma_sum_has_sign(rest, bid_plus_ask, weighting, side);
    } else {
        assert(distances.drop_last() =~= Seq::empty());
        assert(weights.drop_last() =~= Seq::empty());
    }
}

/// What a shock realizes is what its trades add up to, in base quantity and in quote notional. It
/// lasts from its first trade to its last, and is known when its last trade is.
pub proof fn lemma_shocks_realize_their_trades(
    window: FlowWindowView,
    threshold: TradeShockThreshold,
)
    requires
        trades_are_valid(window.trades),
        shock_of(window, threshold) is Ok,
    ensures
        ({
            let shock = shock_of(window, threshold)->Ok_0;
            let last = shock.trades.len() - 1;
            &&& shock.realized_base_quantity.units() == sum_of(traded_units(shock.trades))
            &&& shock.realized_quote_notional.units() * unit() == sum_of(
                traded_worths(shock.trades),
            )
            &&& last >= 0
            &&& shock.start_event_time == shock.trades[0].event_time
            &&& shock.end_event_time == shock.trades[last].event_time
            &&& shock.availability_at == shock.trades[last].as_known_at
            &&& shock.evaluation_time == window.evaluation_time
            &&& shock.side == shock.trades[0].side
            &&& shock.instrument == shock.trades[0].instrument
        }),
{
    lemma_zero_units();
    lemma_shocks_reach_their_threshold(window, threshold);
    let trades = window.trades;
    assert(traded_units(trades.take(0)) =~= Seq::empty());
    assert(traded_worths(trades.take(0)) =~= Seq::empty());
    assert(0 * unit() == 0);
    lemma_reach_sums(trades, threshold, 0, nothing(), nothing());
    let shock = shock_of(window, threshold)->Ok_0;
    assert(shock.trades[0] == trades[0]);
    assert(shock.trades[shock.trades.len() - 1] == trades[shock.trades.len() - 1]);
}

proof fn lemma_reach_sums(
    trades: Seq<FlowTradeView>,
    threshold: TradeShockThreshold,
    i: int,
    base: FixedDecimal,
    quote: FixedDecimal,
)
    requires
        0 <= i <= trades.len(),
        trades_are_valid(trades),
        base.in_scale(),
        quote.in_scale(),
        base.units() == sum_of(traded_units(trades.take(i))),
        quote.units() * unit() == sum_of(traded_worths(trades.take(i))),
        shock_reach(trades, threshold, i, base, quote) is Ok,
    ensures
        ({
            let (count, all_base, all_quote) = shock_reach(
                trades,
                threshold,
                i,
                base,
                quote,
            )->Ok_0;
            &&& i < count <= trades.len()
            &&& all_base.units() == sum_of(traded_units(trades.take(count)))
            &&& all_quote.units() * unit() == sum_of(traded_worths(trades.take(count)))
        }),
    decreases trades.len() - i,
{
    let trade = trades[i];
    let notional = trade_notional(trade)->Some_0;
    lemma_exact_arithmetic(base, trade.quantity.amount());
    lemma_exact_arithmetic(trade.price.amount(), trade.quantity.amount());
    lemma_exact_arithmetic(quote, notional);
    let next_base = base.plus(trade.quantity.amount())->Some_0;
    let next_quote = quote.plus(notional)->Some_0;
    let amounts = traded_units(trades.take(i + 1));
    let sizes = traded_worths(trades.take(i + 1));
    assert(amounts.drop_last() =~= traded_units(trades.take(i)));
    assert(sizes.drop_last() =~= traded_worths(trades.take(i)));
    lemma_sum_last(amounts);
    lemma_sum_last(sizes);
    lemma_added(quote.units(), notional.units(), unit());
    let realized = match threshold {
        TradeShockThreshold::QuoteNotional(_) => next_quote,
        TradeShockThreshold::BaseQuantity(_) => next_base,
    };
    if realized.units() < target_of(threshold).units() {
        lemma_reach_sums(trades, threshold, i + 1, next_base, next_quote);
    }
}

/// A window has too little liquidity for a shock only where its first run of one side falls short
/// of the threshold as a whole.
pub proof fn lemma_shocks_are_missed_only_where_the_run_falls_short(
    window: FlowWindowView,
    threshold: TradeShockThreshold,
)
    requires
        shock_of(window, threshold) == Err::<ShockView, FeatureComputationError>(
            FeatureComputationError::BelowLiquidityThreshold,
        ),
    ensures
        exists|count: int| #[trigger]
            falls_short(window.trades, threshold, count) && 0 < count <= window.trades.len() && (
            count < window.trades.len() ==> window.trades[count].side != window.trades[0].side),
{
    lemma_zero_units();
    assert(falls_short(window.trades, threshold, 0));
    lemma_reach_falls_short(window.trades, threshold, 0, nothing(), nothing());
}

proof fn lemma_reach_falls_short(
    trades: Seq<FlowTradeView>,
    threshold: TradeShockThreshold,
    i: int,
    base: FixedDecimal,
    quote: FixedDecimal,
)
    requires
        0 <= i <= trades.len(),
        trades.len() > 0,
        realized_by(trades, threshold, i) == Some(
            match threshold {
                TradeShockThreshold::QuoteNotional(_) => quote,
                TradeShockThreshold::BaseQuantity(_) => base,
            },
        ),
        falls_short(trades, threshold, i),
        shock_reach(trades, threshold, i, base, quote) == Err::<
            ShockReach,
            FeatureComputationError,
        >(FeatureComputationError::BelowLiquidityThreshold),
    ensures
        exists|count: int| #[trigger]
            falls_short(trades, threshold, count) && 0 < count <= trades.len() && (count
                < trades.len() ==> trades[count].side != trades[0].side),
    decreases trades.len() - i,
{
    if i >= trades.len() || trades[i].side != trades[0].side {
        assert(falls_short(trades, threshold, i));
    } else {
        let next_base = base.plus(trades[i].quantity.amount())->Some_0;
        let next_quote = quote.plus(trade_notional(trades[i])->Some_0)->Some_0;
        lemma_reach_falls_short(trades, threshold, i + 1, next_base, next_quote);
    }
}

/// Of the quotes that stood before a shock the last one counts, and of those within the horizon the
/// first.
pub proof fn lemma_responses_compare_the_nearest_quotes(
    shock: ShockView,
    quotes: Seq<QuoteView>,
    max_pre_age_ns: u64,
    start: UnixNanos,
    end: UnixNanos,
)
    ensures
        match quote_before(shock, quotes, max_pre_age_ns) {
            Some(before) => exists|i: int|
                #![trigger quotes[i]]
                0 <= i < quotes.len() && before == quotes[i] && before.event_time.nanos
                    <= shock.start_event_time.nanos && before.as_known_at.nanos
                    <= shock.availability_at.nanos && shock.start_event_time.nanos
                    - before.event_time.nanos <= max_pre_age_ns && forall|k: int|
                    i < k < quotes.len() ==> !stood_before(
                        shock,
                        #[trigger] quotes[k],
                        max_pre_age_ns,
                    ),
            None => true,
        },
        match quote_within(quotes, 0, start, end) {
            Some(after) => exists|i: int|
                #![trigger quotes[i]]
                0 <= i < quotes.len() && after == quotes[i] && start.nanos
                    <= after.event_time.nanos <= end.nanos && forall|k: int|
                    0 <= k < i ==> !(start.nanos <= (#[trigger] quotes[k]).event_time.nanos
                        <= end.nanos),
            None => true,
        },
    decreases quotes.len(),
{
    lemma_within_is_first(quotes, 0, start, end);
    if quotes.len() > 0 {
        let rest = quotes.drop_last();
        let end_place = quotes.len() - 1;
        assert(quotes[end_place] == quotes.last());
        if !stood_before(shock, quotes.last(), max_pre_age_ns) {
            lemma_responses_compare_the_nearest_quotes(shock, rest, max_pre_age_ns, start, end);
            if quote_before(shock, rest, max_pre_age_ns) is Some {
                let before = quote_before(shock, rest, max_pre_age_ns)->Some_0;
                let i = choose|i: int|
                    #![trigger rest[i]]
                    0 <= i < rest.len() && before == rest[i] && before.event_time.nanos
                        <= shock.start_event_time.nanos && before.as_known_at.nanos
                        <= shock.availability_at.nanos && shock.start_event_time.nanos
                        - before.event_time.nanos <= max_pre_age_ns && forall|k: int|
                        i < k < rest.len() ==> !stood_before(
                            shock,
                            #[trigger] rest[k],
                            max_pre_age_ns,
                        );
                assert(quotes[i] == rest[i]);
                assert forall|k: int| i < k < quotes.len() implies !stood_before(
                    shock,
                    #[trigger] quotes[k],
                    max_pre_age_ns,
                ) by {
                    if k < end_place {
                        assert(rest[k] == quotes[k]);
                    }
                }
            }
        }
    }
}

proof fn lemma_within_is_first(
    quotes: Seq<QuoteView>,
    from: int,
    start: UnixNanos,
    end: UnixNanos,
)
    requires
        0 <= from,
        forall|k: int|
            0 <= k < from && k < quotes.len() ==> !(start.nanos <= (
            #[trigger] quotes[k]).event_time.nanos <= end.nanos),
    ensures
        match quote_within(quotes, from, start, end) {
            Some(after) => exists|i: int|
                #![trigger quotes[i]]
                0 <= i < quotes.len() && after == quotes[i] && start.nanos
                    <= after.event_time.nanos <= end.nanos && forall|k: int|
                    0 <= k < i ==> !(start.nanos <= (#[trigger] quotes[k]).event_time.nanos
                        <= end.nanos),
            None => true,
        },
    decreases quotes.len() - from,
{
    if from < quotes.len() {
        if start.nanos <= quotes[from].event_time.nanos <= end.nanos {
            assert(quotes[from] == quotes[from]);
        } else {
            lemma_within_is_first(quotes, from + 1, start, end);
        }
    }
}

/// A response lies behind the shock by its horizon, and no further than its tolerance; the quotes
/// are of the shock's own instrument and rest on none of its trades.
pub proof fn lemma_responses_lie_in_their_horizon(
    shock: ShockView,
    window: QuoteWindowView,
    max_pre_age_ns: u64,
    response_horizon_ns: u64,
    response_tolerance_ns: u64,
    weighting: TradeShockWeighting,
)
    requires
        shock_response(
            shock,
            window,
            max_pre_age_ns,
            response_horizon_ns,
            response_tolerance_ns,
            weighting,
        ) is Ok,
    ensures
        max_pre_age_ns > 0,
        window.1 == shock.evaluation_time,
        window.0[0].instrument == shock.instrument,
        exists|i: int, j: int|
            #![trigger window.0[i], window.0[j]]
            {
                let horizon = shock.end_event_time.nanos + response_horizon_ns;
                &&& 0 <= i < window.0.len()
                &&& 0 <= j < window.0.len()
                &&& window.0[i].event_time.nanos <= shock.start_event_time.nanos
                &&& horizon <= window.0[j].event_time.nanos <= horizon + response_tolerance_ns
                &&& response_terms(shock, window.0[i], window.0[j], weighting) == shock_response(
                    shock,
                    window,
                    max_pre_age_ns,
                    response_horizon_ns,
                    response_tolerance_ns,
                    weighting,
                )
            },
{
    let start = time_after(shock.end_event_time, response_horizon_ns)->Ok_0;
    let end = time_after(start, response_tolerance_ns)->Ok_0;
    lemma_responses_compare_the_nearest_quotes(shock, window.0, max_pre_age_ns, start, end);
    let before = quote_before(shock, window.0, max_pre_age_ns)->Some_0;
    let after = quote_within(window.0, 0, start, end)->Some_0;
    let i = choose|i: int|
        #![trigger window.0[i]]
        0 <= i < window.0.len() && before == window.0[i];
    let j = choose|j: int|
        #![trigger window.0[j]]
        0 <= j < window.0.len() && after == window.0[j];
    assert(window.0[i] == before && window.0[j] == after);
}

/// An offset from a time leads to a later time, and fails only where that time cannot be counted.
pub proof fn lemma_offsets_lead_forward(time: UnixNanos, offset_ns: u64)
    ensures
        time_after(time, offset_ns) is Ok ==> time_after(time, offset_ns)->Ok_0.nanos - offset_ns
            == time.nanos,
        offset_ns <= i64::MAX && time.nanos + offset_ns <= i64::MAX ==> time_after(
            time,
            offset_ns,
        ) is Ok,
{
}

} // verus!
