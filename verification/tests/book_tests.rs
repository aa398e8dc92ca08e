use feature_engine::book::{
    book_state_digest, BookClassification, BookQuality, BookSession, BookSnapshotView, BookState,
    ChecksumStatus,
};
use feature_engine::decimal::{FixedDecimal, Price, Quantity};
use feature_engine::domain::{
    InstrumentId, ProductType, SourceId, SourceKind, UnixNanos, VenueId,
};
use feature_engine::event::{BookLevel, EventMetadata, EventPayload, NormalizedEvent};
use feature_engine::features::book_evidence::{
    book_depth_and_spread_change, valid_policy_id, BookEvidencePolicy, BookMetricObservation,
    BookStateEvidence, DisplayedDepthRecoveryEpisode,
};
use feature_engine::features::orderbook::{
    active_level_counts, ask_level_gap_density, bid_book_shape_quadratic, bid_level_gap_density,
    book_distribution, book_quote_age_ms, book_shape_quadratic, depth_within_band,
    expected_sweep_cost, fully_observed_depth_within_band, liquidity_wall_distance_bps,
    maximum_executable_quote_notional, microprice, normalized_imbalance, require_normal_book,
    spread, weighted_midpoint, BookDistribution, SpreadMetrics, SweepCost, SweepSide,
};
use feature_engine::features::orderflow::{
    AggressorAuthority, AggressorSide, FlowTradeObservation, TradeFlowWindow,
};
use feature_engine::features::shock::{
    trade_shock_response, TradeShock, TradeShockThreshold, TradeShockWeighting,
};
use feature_engine::features::top_of_book::{
    top_of_book_ofi, top_of_book_side_staleness, top_of_book_staleness_for_side, BookQuoteSide,
    TopOfBookObservation, TopOfBookWindow,
};
use feature_engine::features::FeatureComputationError;

fn at(nanos: i64) -> UnixNanos {
    UnixNanos::new(nanos)
}

fn decimal(text: &str) -> FixedDecimal {
    FixedDecimal::parse_canonical(text.as_bytes()).unwrap()
}

fn price(text: &str) -> Price {
    Price::new(decimal(text)).unwrap()
}

fn quantity(text: &str) -> Quantity {
    Quantity::new(decimal(text)).unwrap()
}

fn instrument() -> InstrumentId {
    InstrumentId {
        venue: VenueId { name: "binance".to_owned() },
        venue_symbol: "BTCUSDT".to_owned(),
        product_type: ProductType::Spot,
        generation: 1,
    }
}

fn levels(side: &[(&str, &str)]) -> Vec<BookLevel> {
    side.iter()
        .map(|(p, q)| BookLevel { price: price(p), quantity: quantity(q), order_count: None })
        .collect()
}

fn book_at(sequence: u64, bids: &[(&str, &str)], asks: &[(&str, &str)]) -> BookSnapshotView {
    BookSnapshotView {
        instrument: instrument(),
        price_tick: price("1"),
        quantity_step: quantity("0.1"),
        session: BookSession {
            connection_epoch: 1,
            subscription_epoch: 1,
            instrument_generation: 1,
        },
        last_source_sequence: sequence,
        updated_monotonic_ns: 5,
        classification: BookClassification::Normal,
        bids: levels(bids),
        asks: levels(asks),
        quality: BookQuality {
            health_state: BookState::Synchronized,
            last_source_sequence: sequence,
            last_update_age_ms: 12,
            checksum_status: ChecksumStatus::NotSupported,
            resync_count_1h: 0,
            missing_sequence_count_1h: 0,
            checksum_failure_count_1h: 0,
            crossed_state_count_1h: 0,
            latency_p50_ms: None,
            latency_p95_ms: None,
            latency_p99_ms: None,
            latency_sample_count: 0,
            trusted_depth_levels: 3,
            quality_score_ppm: 970_000,
        },
    }
}

fn book() -> BookSnapshotView {
    book_at(
        10,
        &[("99", "2"), ("98", "3"), ("95", "5")],
        &[("101", "1"), ("102", "4"), ("105", "6")],
    )
}

fn policy() -> BookEvidencePolicy {
    BookEvidencePolicy::new(
        price("1"),
        "quality".to_owned(),
        1,
        "ordering".to_owned(),
        1,
        "reference".to_owned(),
        1,
    )
    .unwrap()
}

fn ratio(value: feature_engine::features::ExactRatio) -> f64 {
    let of = |d: FixedDecimal| d.mantissa() as f64 / 10f64.powi(d.scale() as i32);
    of(value.numerator) / of(value.denominator)
}

#[test]
fn only_fresh_synchronised_books_are_measured() {
    assert!(require_normal_book(&book()).is_ok());
    let mut crossed = book();
    crossed.classification = BookClassification::Crossed;
    assert_eq!(require_normal_book(&crossed), Err(FeatureComputationError::UntrustedInput));
    let mut stale = book();
    stale.quality.last_update_age_ms = 3_001;
    assert_eq!(require_normal_book(&stale), Err(FeatureComputationError::Stale));
    stale.quality.last_update_age_ms = 3_000;
    assert_eq!(book_quote_age_ms(&stale), Ok(3_000));
}

#[test]
fn spreads_are_exact() {
    let terms = spread(&book()).unwrap();
    assert_eq!(terms.absolute, decimal("2"));
    assert_eq!(terms.midpoint_sum, decimal("200"));
    let metrics = SpreadMetrics::from_terms(terms, 0.02f64.to_bits()).unwrap();
    assert_eq!(metrics.absolute(), decimal("2"));
    assert!(SpreadMetrics::from_terms(terms, f64::INFINITY.to_bits()).is_err());
}

#[test]
fn depth_is_summed_within_its_band() {
    let band = depth_within_band(&book(), price("100"), 200).unwrap();
    assert_eq!(band.bid_quantity(), quantity("5"));
    assert_eq!(band.ask_quantity(), quantity("5"));
    assert_eq!(band.bid_notional(), decimal("492"));
    assert_eq!(band.ask_notional(), decimal("509"));
    assert!(depth_within_band(&book(), price("100"), 10_001).is_err());
}

#[test]
fn depth_is_observed_in_full_only_behind_the_last_level() {
    let within = fully_observed_depth_within_band(&book(), price("100"), 200).unwrap();
    assert_eq!(within.bid_quantity(), Ok(quantity("5")));
    let beyond = fully_observed_depth_within_band(&book(), price("100"), 1_000).unwrap();
    assert!(beyond.bid_quantity().is_err());
    assert!(beyond.ask_quantity().is_err());
}

#[test]
fn inside_prices_are_weighted_by_the_other_side() {
    assert!((ratio(microprice(&book()).unwrap()) - 301.0 / 3.0).abs() < 1e-12);
    assert!((ratio(weighted_midpoint(&book()).unwrap()) - 299.0 / 3.0).abs() < 1e-12);
    assert_eq!(ratio(normalized_imbalance(&book(), price("100"), 200).unwrap()), 0.0);
}

#[test]
fn levels_are_counted_and_summed() {
    let counts = active_level_counts(&book()).unwrap();
    assert_eq!((counts.bid(), counts.ask(), counts.total()), (3, 3, 6));
    let quantities = book_distribution(&book()).unwrap();
    assert_eq!(quantities.total, decimal("21"));
    assert_eq!(quantities.quantities.len(), 6);
    assert!(BookDistribution::from_bits(0.5f64.to_bits(), f64::NAN.to_bits()).is_err());
}

#[test]
fn shapes_accumulate_depth_by_tick() {
    let points = bid_book_shape_quadratic(&book(), price("1"), 3).unwrap();
    let ticks: Vec<FixedDecimal> = points.iter().map(|p| p.ticks).collect();
    let depth: Vec<FixedDecimal> = points.iter().map(|p| p.cumulative_depth).collect();
    assert_eq!(ticks, vec![decimal("0"), decimal("1"), decimal("4")]);
    assert_eq!(depth, vec![decimal("2"), decimal("5"), decimal("10")]);
    let (bids, asks) = book_shape_quadratic(&book(), price("1"), 3).unwrap();
    assert_eq!(bids, points);
    assert_eq!(asks[2].cumulative_depth, decimal("11"));
    assert!(bid_book_shape_quadratic(&book(), price("1"), 2).is_err());
}

#[test]
fn gaps_count_the_missing_ticks() {
    let bids = bid_level_gap_density(&book(), price("1")).unwrap();
    let asks = ask_level_gap_density(&book(), price("1")).unwrap();
    assert_eq!((bids.missing, bids.intervals), (2, 4));
    assert_eq!((asks.missing, asks.intervals), (2, 4));
}

#[test]
fn walls_are_the_first_material_levels() {
    assert_eq!(
        liquidity_wall_distance_bps(&book(), price("100"), decimal("290")),
        Ok((Some(decimal("2")), Some(decimal("2"))))
    );
    assert_eq!(
        liquidity_wall_distance_bps(&book(), price("100"), decimal("100000")),
        Ok((None, None))
    );
}

#[test]
fn sweeps_execute_exactly_what_was_asked() {
    let plan = expected_sweep_cost(&book(), SweepSide::Buy, decimal("305")).unwrap();
    assert_eq!(plan.executed_quote_notional, decimal("305"));
    assert_eq!(plan.full_fills, vec![quantity("1")]);
    assert_eq!(plan.partial_fill, Some((decimal("204"), price("102"))));
    assert_eq!(
        expected_sweep_cost(&book(), SweepSide::Buy, decimal("100000")).map(|_| ()),
        Err(FeatureComputationError::BelowLiquidityThreshold)
    );
    assert!(expected_sweep_cost(&book(), SweepSide::Sell, decimal("0")).is_err());
    let cost = SweepCost::from_plan(
        &plan,
        3.0f64.to_bits(),
        (305.0f64 / 3.0).to_bits(),
        0.01f64.to_bits(),
    )
    .unwrap();
    assert_eq!(cost.executed_quote_notional(), decimal("305"));
}

#[test]
fn capacity_stops_at_the_slippage_limit() {
    assert_eq!(
        maximum_executable_quote_notional(&book(), SweepSide::Buy, 200, price("100")),
        Ok(decimal("509"))
    );
    assert_eq!(
        maximum_executable_quote_notional(&book(), SweepSide::Sell, 100, price("100")),
        Ok(decimal("198"))
    );
}

#[test]
fn policies_are_named() {
    assert!(valid_policy_id("quality-v1"));
    assert!(!valid_policy_id(""));
    assert!(BookEvidencePolicy::new(
        price("1"),
        "".to_owned(),
        1,
        "ordering".to_owned(),
        1,
        "reference".to_owned(),
        1,
    )
    .is_err());
    assert_eq!(policy().quality_policy_id(), "quality");
}

fn snapshot_event(book: &BookSnapshotView, event: i64, mark: u8) -> NormalizedEvent {
    NormalizedEvent {
        id: [mark; 32],
        verified: true,
        metadata: EventMetadata {
            source: SourceId::new(
                SourceKind::Exchange,
                "binance".to_owned(),
                1,
                "exchange:binance:1".to_owned(),
            ),
            instrument_id: Some(instrument()),
            exchange_timestamp: Some(at(event)),
            exchange_transaction_timestamp: None,
            normalization_timestamp: at(event + 3),
            receive_monotonic_ns: 5,
            connection_epoch: 1,
            subscription_epoch: 1,
            sequence_number: Some(book.last_source_sequence),
            quality_flags: 0,
            quality_score_ppm: 960_000,
        },
        payload: EventPayload::BookSnapshot {
            bids: book.bids.clone(),
            asks: book.asks.clone(),
            last_sequence: book.last_source_sequence,
        },
    }
}

#[test]
fn evidence_matches_its_own_book_only() {
    let book = book();
    let evidence =
        BookStateEvidence::try_from_event(&book, &snapshot_event(&book, 100, 3)).unwrap();
    assert!(evidence.matches(&book));
    assert_eq!(evidence.state_digest(), book_state_digest(&book));
    assert_eq!(evidence.event_time().value(), 100);
    assert_eq!(evidence.as_known_at().value(), 103);
    assert_eq!(evidence.lineage(), [3; 32]);
    let mut other = book_at(10, &[("99", "2")], &[("101", "1")]);
    assert!(!evidence.matches(&other));
    other.session.connection_epoch = 2;
    assert!(BookStateEvidence::try_from_event(&other, &snapshot_event(&other, 100, 3)).is_err());
}

fn metric(sequence: u64, bid: &str, ask: &str, event: i64, mark: u8) -> BookMetricObservation {
    let book = book_at(sequence, &[("99", bid), ("98", "3")], &[("101", ask), ("102", "4")]);
    BookMetricObservation::from_snapshot(
        &book,
        policy(),
        price("100"),
        100,
        at(event),
        at(event + 1),
        [mark; 32],
    )
    .unwrap()
}

#[test]
fn changes_between_books_are_exact() {
    let before = metric(1, "2", "3", 100, 1);
    let after = metric(2, "5", "1", 200, 2);
    let change = book_depth_and_spread_change(&before, &after).unwrap();
    assert_eq!(change.bid_quantity(), decimal("3"));
    assert_eq!(change.ask_quantity(), decimal("-2"));
    assert_eq!(change.absolute_spread(), decimal("0"));
    assert_eq!(
        book_depth_and_spread_change(&after, &before).map(|_| ()),
        Err(FeatureComputationError::NonMonotonicTime)
    );
}

fn flow_trade(event: i64, size: &str, side: AggressorSide, mark: u8) -> FlowTradeObservation {
    FlowTradeObservation::new(
        instrument(),
        at(event),
        at(event + 1),
        [mark; 32],
        price("101"),
        quantity(size),
        side,
        AggressorAuthority::supplied("venue".to_owned(), 1).unwrap(),
    )
    .unwrap()
}

#[test]
fn displayed_depth_recovers() {
    let trade = flow_trade(150, "4", AggressorSide::Buy, 9);
    let episode = DisplayedDepthRecoveryEpisode::new(
        metric(1, "2", "5", 100, 1),
        metric(2, "2", "1", 200, 2),
        trade,
        at(1_000),
        100,
    )
    .unwrap();
    assert_eq!(ratio(episode.recovery_fraction(&metric(3, "2", "4", 300, 3)).unwrap()), 0.75);
    let later = vec![metric(3, "2", "2", 300, 3), metric(4, "2", "3", 400, 4)];
    assert_eq!(episode.time_to_fraction_ns(&later, 16, 1, 2, 900), Ok(200));
}

fn quote(sequence: u64, bid: (&str, &str), ask: (&str, &str), event: i64) -> TopOfBookObservation {
    TopOfBookObservation::from_snapshot(
        &book_at(sequence, &[bid], &[ask]),
        policy(),
        at(event),
        at(event + 1),
        [sequence as u8; 32],
    )
    .unwrap()
}

fn quotes() -> TopOfBookWindow {
    TopOfBookWindow::new(
        vec![
            quote(1, ("99", "2"), ("101", "3"), 100),
            quote(2, ("99", "5"), ("101", "3"), 200),
            quote(3, ("100", "1"), ("102", "4"), 300),
        ],
        16,
        at(1_000),
    )
    .unwrap()
}

#[test]
fn imbalance_follows_the_inside_quotes() {
    // The bid grows by 3 at its price, then moves up with 1; the ask of 3 is taken away.
    assert_eq!(top_of_book_ofi(&quotes()), Ok(decimal("7")));
    let still = TopOfBookWindow::new(
        vec![
            quote(1, ("99", "2"), ("101", "3"), 100),
            quote(2, ("99", "2"), ("101", "3"), 200),
        ],
        16,
        at(1_000),
    )
    .unwrap();
    assert_eq!(top_of_book_ofi(&still), Ok(decimal("0")));
}

#[test]
fn quotes_age_from_their_last_change() {
    let bid =
        top_of_book_staleness_for_side(&quotes(), BookQuoteSide::Bid, at(900), 500).unwrap();
    assert_eq!((bid.quote_age_ns(), bid.stale_duration_ns()), (600, 100));
    let both = top_of_book_side_staleness(&quotes(), at(900), 700).unwrap();
    assert_eq!((both.bid_quote_age_ns(), both.ask_quote_age_ns()), (600, 600));
    assert_eq!((both.bid_stale_duration_ns(), both.ask_stale_duration_ns()), (0, 0));
}

#[test]
fn quote_windows_refuse_unordered_quotes() {
    let one = || quote(2, ("99", "2"), ("101", "3"), 100);
    let other = || quote(1, ("99", "2"), ("101", "3"), 200);
    assert_eq!(
        TopOfBookWindow::new(vec![one(), other()], 16, at(1_000)).map(|_| ()),
        Err(FeatureComputationError::NonMonotonicTime)
    );
    assert_eq!(
        TopOfBookWindow::new(vec![one()], 16, at(1_000)).map(|_| ()),
        Err(FeatureComputationError::InsufficientHistory)
    );
}

fn buys() -> TradeFlowWindow {
    TradeFlowWindow::new(
        vec![
            flow_trade(310, "1", AggressorSide::Buy, 21),
            flow_trade(320, "2", AggressorSide::Buy, 22),
        ],
        16,
        at(300),
        at(400),
        at(500),
    )
    .unwrap()
}

#[test]
fn shocks_reach_their_threshold() {
    let threshold = TradeShockThreshold::BaseQuantity(quantity("3"));
    let shock = TradeShock::from_prefix(&buys(), threshold).unwrap();
    assert!(shock.side() == AggressorSide::Buy);
    assert_eq!(shock.realized_base_quantity(), decimal("3"));
    assert_eq!(shock.realized_quote_notional(), decimal("303"));
    let near = TradeShockThreshold::BaseQuantity(quantity("0.5"));
    let shortest = TradeShock::from_prefix(&buys(), near).unwrap();
    assert_eq!(shortest.realized_base_quantity(), decimal("1"));
    let far = TradeShockThreshold::BaseQuantity(quantity("4"));
    assert!(TradeShock::from_prefix(&buys(), far).is_err());
}

#[test]
fn responses_compare_the_quotes_around_a_shock() {
    let shock =
        TradeShock::from_prefix(&buys(), TradeShockThreshold::BaseQuantity(quantity("3")))
            .unwrap();
    let window = TopOfBookWindow::new(
        vec![
            quote(1, ("99", "2"), ("101", "3"), 300),
            quote(2, ("101", "2"), ("103", "3"), 420),
        ],
        16,
        at(500),
    )
    .unwrap();
    let terms = trade_shock_response(
        &shock,
        &window,
        100,
        100,
        50,
        TradeShockWeighting::BaseQuantity,
    )
    .unwrap();
    // The midpoint moves from 100 to 102 while the trades were made at 101.
    assert!((ratio(terms.signed_impact) - 0.02).abs() < 1e-12);
    assert!((ratio(terms.effective_spread) - 0.02).abs() < 1e-12);
    assert!((ratio(terms.realized_spread) + 0.02).abs() < 1e-12);
}
