use feature_engine::book::BookSession;
use feature_engine::decimal::{FixedDecimal, Price, Quantity};
use feature_engine::domain::{
    InstrumentId, ProductType, SourceId, SourceKind, UnixNanos, VenueId,
};
use feature_engine::event::{EventMetadata, EventPayload, NormalizedEvent, TradeSide};
use feature_engine::features::lifecycle::{
    certified_lifecycle_metrics, certified_lifecycle_rates, certified_lifecycle_ratios,
    require_order_lifecycle_semantics, LifecycleAction, LifecycleCapability,
    LifecycleObservation, LifecycleObservationInput, LifecycleRates, LifecycleRatios,
    LifecycleSemantics, LifecycleWindow,
};
use feature_engine::features::orderflow::{
    AggressorAuthority, AggressorSide, BinanceTradeReceipt, FlowTradeObservation,
    TradeFlowWindow,
};
use feature_engine::features::trade_flow::{
    aggressive_trade_imbalances, aggressive_trade_sums, aggressive_trade_totals,
    interarrival_coefficient_of_variation, large_trade_cluster_activity, signed_volume_at_price,
    trade_cluster_statistics, trade_intensity_per_second, trade_print_sweep_direction,
    AggressiveTradeImbalances, LargeTradeClusterActivity, SweepEqualPricePolicy,
    TradePrintSweepDirection,
};
use feature_engine::features::FeatureComputationError;

fn at(nanos: i64) -> UnixNanos {
    UnixNanos::new(nanos)
}

fn decimal(text: &str) -> FixedDecimal {
    FixedDecimal::parse_canonical(text.as_bytes()).unwrap()
}

fn price(text: &str) -> Price {
    Price::new(decimal(text)).unwrap()
}

fn quantity(text: &str) -> Quantity {
    Quantity::new(decimal(text)).unwrap()
}

fn instrument(symbol: &str) -> InstrumentId {
    InstrumentId {
        venue: VenueId { name: "binance".to_owned() },
        venue_symbol: symbol.to_owned(),
        product_type: ProductType::Spot,
        generation: 1,
    }
}

fn authority(inferred: bool) -> AggressorAuthority {
    if inferred {
        AggressorAuthority::inferred("tick-rule".to_owned(), 2).unwrap()
    } else {
        AggressorAuthority::supplied("venue".to_owned(), 1).unwrap()
    }
}

fn trade(
    event: i64,
    at_price: &str,
    size: &str,
    side: AggressorSide,
    inferred: bool,
) -> FlowTradeObservation {
    FlowTradeObservation::new(
        instrument("BTCUSDT"),
        at(event),
        at(event + 1),
        [event as u8; 32],
        price(at_price),
        quantity(size),
        side,
        authority(inferred),
    )
    .unwrap()
}

fn window_of(trades: Vec<FlowTradeObservation>) -> TradeFlowWindow {
    TradeFlowWindow::new(trades, 16, at(100), at(1_000), at(2_000)).unwrap()
}

fn window() -> TradeFlowWindow {
    window_of(vec![
        trade(110, "10", "2", AggressorSide::Buy, false),
        trade(120, "11", "1", AggressorSide::Buy, true),
        trade(140, "11", "4", AggressorSide::Sell, false),
        trade(200, "12", "1", AggressorSide::Buy, false),
    ])
}

#[test]
fn sums_keep_the_two_sides_apart() {
    let sums = aggressive_trade_sums(&window()).unwrap();
    assert_eq!((sums.buy_count(), sums.sell_count(), sums.inferred_count()), (3, 1, 1));
    assert_eq!(sums.buy_quantity(), quantity("4"));
    assert_eq!(sums.sell_quantity(), quantity("4"));
    assert_eq!(sums.buy_notional(), decimal("43"));
    assert_eq!(sums.sell_notional(), decimal("44"));
}

#[test]
fn imbalances_are_exact_ratios() {
    let terms = aggressive_trade_imbalances(&window()).unwrap();
    assert_eq!((terms.buy_count, terms.sell_count), (3, 1));
    assert_eq!(terms.quantity.numerator, decimal("0"));
    assert_eq!(terms.quantity.denominator, decimal("8"));
    assert_eq!(terms.notional.numerator, decimal("-1"));
    assert_eq!(terms.notional.denominator, decimal("87"));
    let measured = AggressiveTradeImbalances::from_bits(
        0.5f64.to_bits(),
        0.0f64.to_bits(),
        (-1.0f64 / 87.0).to_bits(),
    )
    .unwrap();
    let totals = aggressive_trade_totals(&window(), measured).unwrap();
    assert_eq!(totals.sums.buy_count, 3);
    assert_eq!(totals.imbalances, measured);
    assert!(AggressiveTradeImbalances::from_bits(f64::NAN.to_bits(), 0, 0).is_err());
}

#[test]
fn intensity_counts_trades_over_the_window() {
    let terms = trade_intensity_per_second(&window()).unwrap();
    assert_eq!((terms.count, terms.duration_ns), (4, 900));
    assert_eq!(interarrival_coefficient_of_variation(&window()), Ok(vec![10, 20, 60]));
}

#[test]
fn signed_volume_ascends_by_price() {
    assert_eq!(
        signed_volume_at_price(&window()),
        Ok(vec![
            (price("10"), decimal("2")),
            (price("11"), decimal("-3")),
            (price("12"), decimal("1")),
        ])
    );
}

#[test]
fn clusters_are_bounded_by_gap_and_size() {
    let statistics = trade_cluster_statistics(&window(), decimal("11"), 20).unwrap();
    assert_eq!(statistics.longest_same_side_run(), 2);
    assert_eq!(statistics.large_trade_count(), 4);
    assert_eq!(statistics.largest_large_trade_cluster(), 3);
    let terms = large_trade_cluster_activity(&window(), decimal("11"), 20, 2).unwrap();
    assert_eq!((terms.cluster_count, terms.clustered_large_count), (1, 3));
    assert_eq!(terms.clustered_large_notional, decimal("75"));
    let activity = LargeTradeClusterActivity::from_terms(terms, 1.5f64.to_bits()).unwrap();
    assert_eq!(activity.cluster_count(), 1);
    assert!(large_trade_cluster_activity(&window(), decimal("0"), 20, 2).is_err());
}

#[test]
fn sweeps_climb_through_prices() {
    let sweep = window_of(vec![
        trade(110, "10", "2", AggressorSide::Buy, false),
        trade(115, "11", "1", AggressorSide::Buy, false),
        trade(120, "12", "4", AggressorSide::Buy, false),
        trade(200, "12", "4", AggressorSide::Sell, false),
    ]);
    let counts = trade_print_sweep_direction(
        &sweep,
        10,
        3,
        3,
        decimal("50"),
        SweepEqualPricePolicy::Reject,
    )
    .unwrap();
    assert_eq!((counts.buy_episode_count, counts.sell_episode_count), (1, 0));
    let direction = TradePrintSweepDirection::from_counts(counts, 1.0f64.to_bits()).unwrap();
    assert_eq!(direction.buy_episode_count(), 1);
}

#[test]
fn the_longest_run_and_the_largest_cluster_are_found() {
    let window = window_of(vec![
        trade(110, "10", "2", AggressorSide::Buy, false),
        trade(115, "10", "1", AggressorSide::Buy, false),
        trade(118, "10", "3", AggressorSide::Sell, false),
        trade(121, "10", "1", AggressorSide::Sell, false),
        trade(125, "10", "4", AggressorSide::Sell, false),
        trade(160, "10", "5", AggressorSide::Buy, false),
        trade(165, "10", "5", AggressorSide::Sell, false),
    ]);
    let statistics = trade_cluster_statistics(&window, decimal("20"), 8).unwrap();
    assert_eq!(statistics.longest_same_side_run(), 3);
    assert_eq!(statistics.large_trade_count(), 5);
    assert_eq!(statistics.largest_large_trade_cluster(), 3);
    let other = trade_cluster_statistics(&window, decimal("1000"), 1).unwrap();
    assert_eq!(other.longest_same_side_run(), 3);
    assert_eq!((other.large_trade_count(), other.largest_large_trade_cluster()), (0, 0));
}

#[test]
fn each_maximal_episode_counts_once() {
    let window = window_of(vec![
        trade(110, "10", "2", AggressorSide::Buy, false),
        trade(115, "11", "2", AggressorSide::Buy, false),
        trade(120, "12", "2", AggressorSide::Buy, false),
        trade(140, "12", "2", AggressorSide::Buy, false),
        trade(145, "13", "2", AggressorSide::Buy, false),
        trade(150, "13", "2", AggressorSide::Sell, false),
        trade(155, "12", "2", AggressorSide::Sell, false),
    ]);
    let count = |least: usize| {
        trade_print_sweep_direction(
            &window,
            10,
            least,
            2,
            decimal("1"),
            SweepEqualPricePolicy::Reject,
        )
        .map(|counts| (counts.buy_episode_count, counts.sell_episode_count))
    };
    assert_eq!(count(2), Ok((2, 1)));
    assert_eq!(count(3), Ok((1, 0)));
    assert_eq!(count(4), Err(FeatureComputationError::InsufficientHistory));
}

#[test]
fn windows_order_their_trades_and_refuse_strangers() {
    let late = trade(200, "10", "1", AggressorSide::Buy, false);
    let early = trade(110, "10", "1", AggressorSide::Buy, false);
    let sorted = window_of(vec![late, early]);
    assert_eq!(sorted.observations()[0].event_time().value(), 110);
    let make = |trades: Vec<FlowTradeObservation>, evaluation: i64| {
        TradeFlowWindow::new(trades, 16, at(100), at(1_000), at(evaluation)).map(|_| ())
    };
    let one = || trade(110, "10", "1", AggressorSide::Buy, false);
    assert_eq!(make(vec![one(), one()], 2_000), Err(FeatureComputationError::DuplicateLineage));
    assert_eq!(make(vec![one()], 999), Err(FeatureComputationError::WindowNotFinal));
    assert_eq!(
        make(vec![trade(1_000, "10", "1", AggressorSide::Buy, false)], 2_000),
        Err(FeatureComputationError::OutsideWindow)
    );
    assert_eq!(make(Vec::new(), 2_000), Err(FeatureComputationError::InsufficientHistory));
    assert!(TradeFlowWindow::new(vec![one()], 0, at(100), at(1_000), at(2_000)).is_err());
    let empty = TradeFlowWindow::observed_empty(
        instrument("BTCUSDT"),
        16,
        at(100),
        at(1_000),
        at(2_000),
    )
    .unwrap();
    assert_eq!(empty.observations().len(), 0);
}

#[test]
fn authorities_are_listed_once_each() {
    let authorities = window().authorities();
    assert_eq!(authorities.len(), 2);
    assert!(!window().is_authenticated());
    assert_eq!(window().minimum_quality_score_ppm().is_some(), true);
    assert_eq!(window().maximum_as_known_at().unwrap().value(), 201);
    assert!(AggressorAuthority::supplied("".to_owned(), 1).is_err());
}

fn trade_event(side: TradeSide) -> NormalizedEvent {
    NormalizedEvent {
        id: [7; 32],
        verified: true,
        metadata: EventMetadata {
            source: SourceId::new(
                SourceKind::Exchange,
                "binance".to_owned(),
                1,
                "exchange:binance:1".to_owned(),
            ),
            instrument_id: Some(instrument("BTCUSDT")),
            exchange_timestamp: Some(at(110)),
            exchange_transaction_timestamp: None,
            normalization_timestamp: at(115),
            receive_monotonic_ns: 1,
            connection_epoch: 1,
            subscription_epoch: 1,
            sequence_number: Some(1),
            quality_flags: 0,
            quality_score_ppm: 950_000,
        },
        payload: EventPayload::Trade { price: price("10"), quantity: quantity("2"), side },
    }
}

#[test]
fn authenticated_trades_come_from_verified_events() {
    let trade = FlowTradeObservation::try_from_authenticated_event(
        &trade_event(TradeSide::Sell),
        authority(false),
    )
    .unwrap();
    assert!(trade.is_authenticated());
    assert!(trade.side() == AggressorSide::Sell);
    assert_eq!(trade.quality_score_ppm(), 950_000);
    assert_eq!(trade.lineage(), [7; 32]);
    assert!(FlowTradeObservation::try_from_authenticated_event(
        &trade_event(TradeSide::Unknown),
        authority(false)
    )
    .is_err());
    let receipt = BinanceTradeReceipt { event: trade_event(TradeSide::Buy) };
    let trade = FlowTradeObservation::try_from_binance_receipt(&receipt).unwrap();
    assert!(trade.side() == AggressorSide::Buy);
    assert!(!trade.authority().is_inferred());
}

fn capability() -> LifecycleCapability {
    LifecycleCapability::new(
        "schema".to_owned(),
        1,
        "certificate".to_owned(),
        1,
        "license".to_owned(),
        1,
    )
    .unwrap()
}

fn order(sequence: u64, action: LifecycleAction) -> LifecycleObservation {
    LifecycleObservation::try_new(LifecycleObservationInput {
        instrument: instrument("BTCUSDT"),
        session: BookSession {
            connection_epoch: 1,
            subscription_epoch: 1,
            instrument_generation: 1,
        },
        source_sequence: sequence,
        order_id: format!("order-{sequence}"),
        capability: capability(),
        event_time: at(100 + sequence as i64),
        as_known_at: at(101 + sequence as i64),
        lineage: [sequence as u8; 32],
        action,
    })
    .unwrap()
}

#[test]
fn lifecycles_need_certified_semantics() {
    assert!(require_order_lifecycle_semantics(LifecycleSemantics::CertifiedL3).is_ok());
    assert_eq!(
        require_order_lifecycle_semantics(LifecycleSemantics::AggregateL2),
        Err(FeatureComputationError::SourceNotSupported)
    );
    assert_eq!(
        require_order_lifecycle_semantics(LifecycleSemantics::LicenseRestrictedL3),
        Err(FeatureComputationError::PrivacyOrLicenseRestriction)
    );
}

#[test]
fn lifecycle_windows_count_actions_without_gaps() {
    let lifecycle = LifecycleWindow::new(
        vec![
            order(1, LifecycleAction::Place),
            order(2, LifecycleAction::Modify),
            order(3, LifecycleAction::Cancel),
            order(4, LifecycleAction::Place),
        ],
        16,
        at(100),
        at(1_000),
        at(2_000),
    )
    .unwrap();
    let terms = certified_lifecycle_rates(&lifecycle).unwrap();
    assert_eq!(
        (terms.counts.placements, terms.counts.cancellations, terms.counts.modifications),
        (2, 1, 1)
    );
    assert_eq!(terms.duration_ns, 900);
    let ratios = certified_lifecycle_ratios(&lifecycle, &window()).unwrap();
    assert_eq!((ratios.cancellations, ratios.quote_events, ratios.trade_count), (1, 4, 4));
    let metrics = certified_lifecycle_metrics(
        &lifecycle,
        &window(),
        LifecycleRates::from_bits(1.0f64.to_bits(), 2.0f64.to_bits(), 3.0f64.to_bits()).unwrap(),
        LifecycleRatios::from_bits(0.25f64.to_bits(), 1.0f64.to_bits()).unwrap(),
    )
    .unwrap();
    assert_eq!(metrics.ratios.cancellation_to_trade_ratio_bits, 0.25f64.to_bits());
    assert_eq!(
        LifecycleWindow::new(
            vec![order(1, LifecycleAction::Place), order(3, LifecycleAction::Cancel)],
            16,
            at(100),
            at(1_000),
            at(2_000),
        )
        .map(|_| ()),
        Err(FeatureComputationError::SequenceGap)
    );
}
