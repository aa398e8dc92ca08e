use feature_engine::decimal::{FixedDecimal, Price, Quantity};
use feature_engine::domain::{
    AssetId, AssetNamespace, DurationNanos, FeatureEntity, FinalityState, InstrumentId,
    MissingnessReason, ProductType, RegistryError, SourceHealthState, SourceId, SourceKind,
    UnixNanos, VenueId,
};
use feature_engine::event::{
    EventMetadata, EventPayload, InstrumentDefinition, NormalizedEvent, TradeSide,
};
use feature_engine::features::admission::Candidate;
use feature_engine::features::catalog::{task_four_definitions, Task4FeatureKind};
use feature_engine::features::computed::{
    compute_missing_task_four_feature, ComputedAnalyticalFeature, PairSide,
};
use feature_engine::features::emission::{
    emit_float_feature, FeatureEmissionError, FloatFeatureEmissionInput,
};
use feature_engine::features::price::{
    closing_and_opening_price, finalized_interval_gap, highest_and_lowest_price,
    multi_horizon_prices, plan_consolidated_fair_price_distance, plan_vwap_distance,
    trend_intervals, window_path, FinalizedTradeWindow, PriceObservation, PriceObservationInput,
    PriceWindow, TradeObservation,
};
use feature_engine::features::volatility::{
    compute_price_path_feature, compute_realized_pair_feature, plan_price_path,
    realized_volatility_v2_policy, FinalizedOhlcWindow, PriceOhlcBar, VolatilityFormulaPolicy,
};
use feature_engine::features::{AnalyticalFeature, FeatureComputationError};
use feature_engine::market::{FairPrice, IncludedVenue};
use feature_engine::registry::{FeatureDatum, FeatureObservation, FeatureValue};
use feature_engine::watermark::{
    FinalizationDecision, PartitionConfig, PartitionId, WatermarkKey, WatermarkTracker,
    WatermarkUpdate,
};
use feature_engine::window::TimeWindow;

const MINUTE: i64 = 60_000_000_000;

fn at(nanos: i64) -> UnixNanos {
    UnixNanos::new(nanos)
}

fn price(text: &str) -> Price {
    Price::new(FixedDecimal::parse_canonical(text.as_bytes()).unwrap()).unwrap()
}

fn quantity(text: &str) -> Quantity {
    Quantity::new(FixedDecimal::parse_canonical(text.as_bytes()).unwrap()).unwrap()
}

fn source() -> SourceId {
    SourceId::new(SourceKind::Exchange, "binance".to_owned(), 1, "exchange:binance:1".to_owned())
}

fn asset(symbol: &str) -> AssetId {
    AssetId {
        namespace: AssetNamespace::Native,
        chain_id: "main".to_owned(),
        contract_or_mint: "native".to_owned(),
        canonical_symbol: symbol.to_owned(),
        generation: 1,
    }
}

fn entity(symbol: &str) -> FeatureEntity {
    FeatureEntity::Asset(asset(symbol))
}

fn fair(symbol: &str, text: &str, event: i64, known: i64, mark: u8) -> FairPrice {
    FairPrice {
        base_asset: asset(symbol),
        price: price(text),
        event_time: at(event),
        as_of: at(known),
        lineage_digest: [mark; 32],
        eligible_sources: Some(vec![source()]),
        included: vec![IncludedVenue {
            source: source(),
            health: SourceHealthState::Healthy,
            adjusted_price: price(text),
            adjusted_depth: quantity("1"),
            has_book_provenance: true,
            is_catalog_bound: true,
        }],
        excluded: Vec::new(),
        minimum_included_quality: 990_000,
    }
}

fn consolidated(symbol: &str, text: &str, event: i64, mark: u8) -> PriceObservation {
    PriceObservation::from_consolidated(&fair(symbol, text, event, event + 1, mark)).unwrap()
}

fn bare(symbol: &str, text: &str, event: i64, finalized: bool, mark: u8) -> PriceObservation {
    PriceObservation::try_new(PriceObservationInput {
        entity: entity(symbol),
        price: price(text),
        event_time: at(event),
        as_known_at: at(event + 1),
        finalized,
        lineage_hash: [mark; 32],
    })
    .unwrap()
}

fn tracker(symbol: &str) -> WatermarkTracker {
    let key = WatermarkKey::new(source(), PartitionId::new("fair").unwrap());
    let mut tracker = WatermarkTracker::try_new_for_entity(
        vec![PartitionConfig::required(key.clone())],
        DurationNanos::new(0),
        vec![SourceHealthState::Healthy],
        entity(symbol),
    )
    .unwrap();
    tracker
        .advance(
            &key,
            WatermarkUpdate::new(
                at(10 * MINUTE),
                at(10 * MINUTE + 5),
                SourceHealthState::Healthy,
            ),
        )
        .unwrap();
    tracker
}

fn five_minutes() -> TimeWindow {
    TimeWindow::try_new(at(5 * MINUTE), at(10 * MINUTE)).unwrap()
}

fn samples(symbol: &str) -> Vec<PriceObservation> {
    let texts = ["100", "101", "99.5", "102", "101.5"];
    let mut observations: Vec<PriceObservation> = Vec::new();
    let mut minute: i64 = 5;
    for text in texts {
        observations.push(consolidated(symbol, text, minute * MINUTE, minute as u8));
        minute += 1;
    }
    observations
}

fn finalized(symbol: &str) -> (WatermarkTracker, FinalizationDecision, PriceWindow) {
    let tracker = tracker(symbol);
    let decision = tracker.decision(five_minutes());
    let window =
        PriceWindow::try_from_finalization(entity(symbol), &tracker, decision, samples(symbol))
            .unwrap();
    (tracker, decision, window)
}

fn closing(symbol: &str) -> PriceObservation {
    consolidated(symbol, "103", 10 * MINUTE, 77)
}

#[test]
fn price_windows_refuse_unfit_observations() {
    let window = five_minutes();
    let one = |event: i64, mark: u8| bare("BTC", "1", event, true, mark);
    let make = |observations: Vec<PriceObservation>| {
        PriceWindow::try_new(window, entity("BTC"), at(11 * MINUTE), observations).map(|_| ())
    };
    assert_eq!(make(Vec::new()), Err(FeatureComputationError::InsufficientHistory));
    assert_eq!(
        make(vec![one(10 * MINUTE, 1)]),
        Err(FeatureComputationError::OutsideWindow)
    );
    assert_eq!(
        make(vec![bare("ETH", "1", 6 * MINUTE, true, 1)]),
        Err(FeatureComputationError::MixedEntity)
    );
    assert_eq!(
        make(vec![one(7 * MINUTE, 1), one(6 * MINUTE, 2)]),
        Err(FeatureComputationError::NonMonotonicTime)
    );
    assert_eq!(
        make(vec![one(6 * MINUTE, 1), one(7 * MINUTE, 1)]),
        Err(FeatureComputationError::DuplicateLineage)
    );
    assert_eq!(
        PriceWindow::try_new(window, entity("BTC"), at(6 * MINUTE), vec![one(6 * MINUTE, 1)])
            .map(|_| ()),
        Err(FeatureComputationError::FutureKnowledge)
    );
    assert_eq!(make(vec![one(6 * MINUTE, 1), one(7 * MINUTE, 2)]), Ok(()));
}

#[test]
fn observations_must_carry_a_lineage() {
    let result = PriceObservation::try_new(PriceObservationInput {
        entity: entity("BTC"),
        price: price("1"),
        event_time: at(1),
        as_known_at: at(1),
        finalized: true,
        lineage_hash: [0; 32],
    });
    assert!(matches!(result, Err(FeatureComputationError::InvalidInput)));
}

#[test]
fn returns_and_ranges_rest_on_exact_prices() {
    let (_, _, window) = finalized("BTC");
    assert_eq!(window.observation_count(), 5);
    assert_eq!(closing_and_opening_price(&window), Ok((price("101.5"), price("100"))));
    assert_eq!(highest_and_lowest_price(&window), Ok((price("102"), price("99.5"))));
    assert_eq!(
        multi_horizon_prices(&window, &vec![1, 4]),
        Ok(vec![(1, price("101.5"), price("102")), (4, price("101.5"), price("100"))])
    );
    assert!(multi_horizon_prices(&window, &vec![0]).is_err());
}

#[test]
fn trends_rest_on_exact_times() {
    let (_, _, window) = finalized("BTC");
    let path = window_path(&window, 3).unwrap();
    assert_eq!(path.elapsed_nanos, vec![0, MINUTE, 2 * MINUTE, 3 * MINUTE, 4 * MINUTE]);
    assert_eq!(path.prices[2], price("99.5"));
    assert!(matches!(
        window_path(&window, 6),
        Err(FeatureComputationError::InsufficientHistory)
    ));
    let intervals = trend_intervals(&vec![0, 5, 12]).unwrap();
    let parts: Vec<(i64, i64)> = intervals
        .iter()
        .map(|interval| (interval.elapsed_nanos, interval.midpoint_nanos))
        .collect();
    assert_eq!(parts, vec![(5, 2), (7, 8)]);
    assert_eq!(
        trend_intervals(&vec![0, 5, 5]),
        Err(FeatureComputationError::NonMonotonicTime)
    );
    assert_eq!(
        trend_intervals(&vec![i64::MIN, 1]),
        Err(FeatureComputationError::InvalidInput)
    );
}

#[test]
fn windows_carry_the_evidence_of_their_prices() {
    let (_, decision, window) = finalized("BTC");
    assert_eq!(window.quality_score().unwrap().millionths, 990_000);
    assert!(window.source_coverage().unwrap().expected[0].same(&source()));
    assert_eq!(
        window.finalization().unwrap().evidence_digest(),
        decision.evidence_digest()
    );
    assert!(window.finalized_lineage_digest().unwrap() != window.input_lineage_digest());
}

#[test]
fn a_foreign_tracker_cannot_finalise_a_window() {
    let decision = tracker("ETH").decision(five_minutes());
    assert_eq!(
        PriceWindow::try_from_finalization(
            entity("BTC"),
            &tracker("BTC"),
            decision,
            samples("BTC")
        )
        .map(|_| ()),
        Err(FeatureComputationError::UntrustedInput)
    );
}

#[test]
fn windows_close_on_their_end_only() {
    let (_, _, window) = finalized("BTC");
    assert!(window.validates_consolidated_closing_observation(&closing("BTC")).is_ok());
    assert_eq!(
        window.validates_consolidated_closing_observation(&consolidated(
            "BTC",
            "103",
            9 * MINUTE,
            77
        )),
        Err(FeatureComputationError::InvalidInput)
    );
    assert_eq!(
        window.validates_consolidated_closing_observation(&bare(
            "BTC",
            "103",
            10 * MINUTE,
            true,
            77
        )),
        Err(FeatureComputationError::UntrustedInput)
    );
}

#[test]
fn gaps_join_two_finalised_prices() {
    let before = bare("BTC", "100", MINUTE, true, 1);
    let after = bare("BTC", "110", 2 * MINUTE, true, 2);
    let open = bare("BTC", "110", 2 * MINUTE, false, 3);
    assert_eq!(finalized_interval_gap(&before, &after), Ok((price("110"), price("100"))));
    assert_eq!(
        finalized_interval_gap(&before, &open),
        Err(FeatureComputationError::WindowNotFinal)
    );
    assert_eq!(
        finalized_interval_gap(&after, &before),
        Err(FeatureComputationError::NonMonotonicTime)
    );
}

#[test]
fn paths_are_sampled_once_a_minute() {
    let (tracker, decision, window) = finalized("BTC");
    let path = plan_price_path(Task4FeatureKind::LogReturn, &window, &closing("BTC")).unwrap();
    assert_eq!(path.prices.len(), 6);
    assert_eq!(path.prices[0], price("100"));
    assert_eq!(path.prices[5], price("103"));
    assert_eq!(
        plan_price_path(Task4FeatureKind::RealizedVolatility, &window, &closing("BTC"))
            .map(|_| ()),
        Err(FeatureComputationError::InvalidParameter)
    );
    let mut gapped = samples("BTC");
    gapped.remove(2);
    let gapped =
        PriceWindow::try_from_finalization(entity("BTC"), &tracker, decision, gapped).unwrap();
    assert_eq!(
        plan_price_path(Task4FeatureKind::LogReturn, &gapped, &closing("BTC")).map(|_| ()),
        Err(FeatureComputationError::SequenceGap)
    );
}

fn log_return() -> ComputedAnalyticalFeature {
    let (tracker, _, window) = finalized("BTC");
    compute_price_path_feature(
        Task4FeatureKind::LogReturn,
        &window,
        &closing("BTC"),
        &tracker,
        Ok((103.0f64 / 100.0).ln().to_bits()),
    )
    .unwrap()
}

fn stamp() -> FloatFeatureEmissionInput {
    FloatFeatureEmissionInput {
        computed_at: at(11 * MINUTE),
        revision: 1,
        code_commit: "abc".to_owned(),
    }
}

fn admitted(result: Result<Candidate, FeatureEmissionError>) -> FeatureObservation {
    let emitted: Result<FeatureObservation, FeatureEmissionError> = result.unwrap().emitted(Ok(()));
    emitted.unwrap()
}

#[test]
fn a_feature_is_emitted_where_the_registry_takes_it() {
    let candidate = emit_float_feature(&task_four_definitions(), stamp(), log_return()).unwrap();
    assert_eq!(candidate.observation().feature_id, "log_return");
    let refused: Result<FeatureObservation, FeatureEmissionError> =
        candidate.emitted(Err(RegistryError::UnregisteredObservation));
    assert!(matches!(
        refused,
        Err(FeatureEmissionError::Registry(RegistryError::UnregisteredObservation))
    ));
}

#[test]
fn a_measured_feature_is_emitted_with_its_evidence() {
    let computed = log_return();
    assert_eq!(computed.window_id(), "rolling_5m");
    assert_eq!(computed.input_count(), 6);
    assert!(computed.finality_state() == FinalityState::Final);
    let emitted = admitted(emit_float_feature(&task_four_definitions(), stamp(), computed));
    assert_eq!(emitted.feature_id, "log_return");
    assert_eq!(emitted.as_known_at.value(), 10 * MINUTE + 5);
    assert!(emitted.computed_at.value() >= emitted.as_known_at.value());
    assert_eq!(emitted.quality_score.millionths, 990_000);
    match emitted.datum {
        FeatureDatum::Present(FeatureValue::Float64(value)) => {
            assert_eq!(f64::from_bits(value.bits()), (1.03f64).ln());
        }
        _ => panic!("a value is present"),
    }
}

#[test]
fn a_feature_is_missing_where_its_value_cannot_be_measured() {
    let (tracker, decision, window) = finalized("BTC");
    let computed = compute_price_path_feature(
        Task4FeatureKind::TrendSlope,
        &window,
        &closing("BTC"),
        &tracker,
        Err(FeatureComputationError::InsufficientHistory),
    )
    .unwrap();
    assert!(
        computed.analytical()
            == AnalyticalFeature::Missing(MissingnessReason::InsufficientHistory)
    );
    let missing = compute_missing_task_four_feature(
        Task4FeatureKind::TrendSlope,
        entity("BTC"),
        &tracker,
        decision,
        FeatureComputationError::SequenceGap,
    )
    .unwrap();
    assert!(missing.analytical() == AnalyticalFeature::Missing(MissingnessReason::SequenceGap));
    let emitted = admitted(emit_float_feature(&task_four_definitions(), stamp(), missing));
    assert!(matches!(emitted.datum, FeatureDatum::Missing(MissingnessReason::SequenceGap)));
    assert!(emitted.finality_state == FinalityState::Invalid);
}

#[test]
fn values_that_are_not_finite_are_not_emitted() {
    let (tracker, _, window) = finalized("BTC");
    assert_eq!(
        compute_price_path_feature(
            Task4FeatureKind::LogReturn,
            &window,
            &closing("BTC"),
            &tracker,
            Ok(f64::NAN.to_bits()),
        )
        .map(|_| ()),
        Err(FeatureComputationError::InvalidInput)
    );
}

#[test]
fn emission_needs_a_registered_definition() {
    assert!(matches!(
        emit_float_feature(&Vec::new(), stamp(), log_return()),
        Err(FeatureEmissionError::UnknownDefinition)
    ));
    let mut definitions = task_four_definitions();
    for definition in definitions.iter_mut() {
        definition.formula_hash = [9; 32];
    }
    assert!(matches!(
        emit_float_feature(&definitions, stamp(), log_return()),
        Err(FeatureEmissionError::FormulaMismatch)
    ));
    let mut definitions = task_four_definitions();
    for definition in definitions.iter_mut() {
        definition.windows.clear();
    }
    assert!(matches!(
        emit_float_feature(&definitions, stamp(), log_return()),
        Err(FeatureEmissionError::WindowMismatch)
    ));
}

#[test]
fn pairs_do_not_depend_on_their_order() {
    let (bitcoin_tracker, _, bitcoin) = finalized("BTC");
    let (ether_tracker, _, ether) = finalized("ETH");
    let bitcoin_close = closing("BTC");
    let ether_close = closing("ETH");
    let left = || PairSide {
        window: &bitcoin,
        closing: &bitcoin_close,
        tracker: &bitcoin_tracker,
    };
    let right =
        || PairSide { window: &ether, closing: &ether_close, tracker: &ether_tracker };
    let measured = Ok(0.25f64.to_bits());
    let kind = Task4FeatureKind::RealizedCorrelation;
    let one = compute_realized_pair_feature(kind, left(), right(), measured).unwrap();
    let other = compute_realized_pair_feature(kind, right(), left(), measured).unwrap();
    assert_eq!(one.input_lineage_digest(), other.input_lineage_digest());
    assert!(one.entity().same(other.entity()));
    assert_eq!(one.input_count(), 12);
}

fn instrument() -> InstrumentDefinition {
    InstrumentDefinition {
        id: InstrumentId {
            venue: VenueId { name: "binance".to_owned() },
            venue_symbol: "BTCUSDT".to_owned(),
            product_type: ProductType::Spot,
            generation: 1,
        },
        base_asset: asset("BTC"),
        price_tick: price("0.01"),
        quantity_step: quantity("0.001"),
        listing_time: at(1),
        delisting_time: None,
    }
}

fn trade(text: &str, size: &str, event: i64, mark: u8) -> NormalizedEvent {
    NormalizedEvent {
        id: [mark; 32],
        verified: true,
        metadata: EventMetadata {
            source: source(),
            instrument_id: Some(instrument().id),
            exchange_timestamp: Some(at(event)),
            exchange_transaction_timestamp: None,
            normalization_timestamp: at(event + 2),
            receive_monotonic_ns: 1,
            connection_epoch: 1,
            subscription_epoch: 1,
            sequence_number: Some(1),
            quality_flags: 0,
            quality_score_ppm: 980_000,
        },
        payload: EventPayload::Trade {
            price: price(text),
            quantity: quantity(size),
            side: TradeSide::Buy,
        },
    }
}

#[test]
fn distances_to_traded_prices_rest_on_the_trades() {
    let (tracker, decision, window) = finalized("BTC");
    let trades: Vec<TradeObservation> = vec![
        TradeObservation::try_from_event(&trade("100", "2", 6 * MINUTE, 1), &instrument())
            .unwrap(),
        TradeObservation::try_from_event(&trade("104", "1", 7 * MINUTE, 2), &instrument())
            .unwrap(),
    ];
    let trades =
        FinalizedTradeWindow::try_from_finalization(asset("BTC"), &tracker, decision, trades)
            .unwrap();
    assert_eq!(
        plan_vwap_distance(
            Task4FeatureKind::RollingVwapDistance,
            &trades,
            &window,
            &closing("BTC")
        ),
        Ok(vec![(price("100"), quantity("2")), (price("104"), quantity("1"))])
    );
    let (left, right) =
        plan_consolidated_fair_price_distance(&trades, &window, &closing("BTC")).unwrap();
    assert!(left == price("104") || right == price("104"));
    assert!(left == price("103") || right == price("103"));
    assert_eq!(
        plan_vwap_distance(Task4FeatureKind::LogReturn, &trades, &window, &closing("BTC"))
            .map(|_| ()),
        Err(FeatureComputationError::MixedEntity)
    );
}

#[test]
fn trades_are_taken_from_verified_events_only() {
    let mut event = trade("100", "2", 6 * MINUTE, 1);
    event.verified = false;
    assert!(TradeObservation::try_from_event(&event, &instrument()).is_err());
    let mut event = trade("100", "2", 6 * MINUTE, 1);
    event.metadata.normalization_timestamp = at(1);
    assert_eq!(
        TradeObservation::try_from_event(&event, &instrument()).map(|_| ()),
        Err(FeatureComputationError::FutureKnowledge)
    );
}

#[test]
fn bars_hold_their_extremes() {
    assert!(PriceOhlcBar::try_new(price("2"), price("3"), price("1"), price("2")).is_ok());
    assert!(PriceOhlcBar::try_new(price("2"), price("1"), price("3"), price("2")).is_err());
    let (tracker, _, window) = finalized("BTC");
    let bar =
        FinalizedOhlcWindow::try_from_prices(&window, &closing("BTC"), &tracker).unwrap().bar();
    assert_eq!(
        bar.prices(),
        (price("100"), price("103"), price("99.5"), price("103"))
    );
}

#[test]
fn volatility_policies_are_told_apart_by_their_hash() {
    let one = realized_volatility_v2_policy();
    assert_eq!(one.sampling_interval_nanos(), 60_000_000_000);
    let other = VolatilityFormulaPolicy::try_new(60_000_000_000, Some(365)).unwrap();
    assert!(one.formula_hash() != other.formula_hash());
    assert!(VolatilityFormulaPolicy::try_new(0, None).is_err());
}
