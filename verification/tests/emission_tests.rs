use feature_engine::book::{
    BookClassification, BookQuality, BookSession, BookSnapshotView, BookState, ChecksumStatus,
};
use feature_engine::decimal::{FixedDecimal, Price, Quantity};
use feature_engine::domain::{
    AssetId, AssetNamespace, DurationNanos, FeatureEntity, InstrumentId, MissingnessReason,
    ProductType, RegistryError, SourceHealthState, SourceId, SourceKind, UnixNanos, VenueId,
};
use feature_engine::event::{
    BookLevel, EventMetadata, EventPayload, InstrumentDefinition, NormalizedEvent, TradeSide,
    QUALITY_PARTIAL,
};
use feature_engine::features::admission::{
    admitted, Candidate, Candidates, EmissionError, Verdict,
};
use feature_engine::features::book_evidence::{BookStateEvidence, InstrumentDefinitionEvidence};
use feature_engine::features::bound::EmissionStamp;
use feature_engine::features::cross_venue::{
    cross_venue_terms, indicative_price_dispersion, venue_depth_concentration,
    CrossVenueMeasures, CrossVenueSnapshot, DispersionClassification, IndicativePriceDispersion,
};
use feature_engine::features::derivative_emission::{
    emit_derivative_change_features, emit_derivative_snapshot_features,
    emit_liquidation_completeness_feature, emit_liquidation_features,
};
use feature_engine::features::derivatives::{
    annualized_basis, funding_change, liquidation_velocity, mark_index_divergence,
    open_interest_change, predicted_funding_rate, LiquidationNotionalInterpretation,
    LiquidationVelocity, OpenInterestChange,
};
use feature_engine::features::microstructure_catalog::task_five_definitions;
use feature_engine::features::microstructure_emission::{
    emit_book_snapshot_core_features, emit_book_spread_features, emit_trade_flow_core_features,
    BookMeasures, FlowMeasures, Task5EmissionError,
};
use feature_engine::features::orderflow::{
    AggressorAuthority, FlowTradeObservation, TradeFlowWindow,
};
use feature_engine::features::quality::operational_quality_snapshot;
use feature_engine::features::task6_catalog::task_six_definitions;
use feature_engine::features::task6_emission::{
    emit_cascade_eligibility_gate, emit_cross_venue_aggregate_features,
    emit_cross_venue_source_features, emit_operational_source_features,
    emit_storage_pressure_feature, emit_unavailable_task_six_feature, Task6EmissionError,
};
use feature_engine::features::{ExactRatio, FeatureComputationError};
use feature_engine::market::{FairPrice, IncludedVenue, VenueExclusionReason};
use feature_engine::receipt::{
    CatalogAuthority, Completeness, DerivativeNormalizationReceipt, DerivativeStream,
    OperationalQualityReceipt, OperationalQualitySample, StoragePressureReceipt, StreamClass,
};
use feature_engine::registry::{
    FeatureDatum, FeatureDefinition, FeatureObservation, FeatureValue,
};
use feature_engine::watermark::{
    FinalizationDecision, PartitionConfig, PartitionId, WatermarkKey, WatermarkTracker,
    WatermarkUpdate,
};
use feature_engine::window::TimeWindow;

const SECOND: i64 = 1_000_000_000;

fn at(nanos: i64) -> UnixNanos {
    UnixNanos::new(nanos)
}

fn decimal(text: &str) -> FixedDecimal {
    FixedDecimal::parse_canonical(text.as_bytes()).unwrap()
}

fn price(text: &str) -> Price {
    Price::new(decimal(text)).unwrap()
}

fn quantity(text: &str) -> Quantity {
    Quantity::new(decimal(text)).unwrap()
}

fn source(name: &str) -> SourceId {
    SourceId::new(SourceKind::Exchange, name.to_owned(), 1, format!("exchange:{name}:1"))
}

fn asset() -> AssetId {
    AssetId {
        namespace: AssetNamespace::Native,
        chain_id: "main".to_owned(),
        contract_or_mint: "native".to_owned(),
        canonical_symbol: "BTC".to_owned(),
        generation: 1,
    }
}

fn instrument_id() -> InstrumentId {
    InstrumentId {
        venue: VenueId { name: "binance".to_owned() },
        venue_symbol: "BTCUSDT".to_owned(),
        product_type: ProductType::Spot,
        generation: 1,
    }
}

fn instrument() -> InstrumentDefinition {
    InstrumentDefinition {
        id: instrument_id(),
        base_asset: asset(),
        price_tick: price("1"),
        quantity_step: quantity("0.1"),
        listing_time: at(1),
        delisting_time: None,
    }
}

fn snapshot_window() -> TimeWindow {
    TimeWindow::try_new(at(60 * SECOND), at(61 * SECOND)).unwrap()
}

fn flow_window() -> TimeWindow {
    TimeWindow::try_new(at(60 * SECOND), at(120 * SECOND)).unwrap()
}

fn tracker(entity: FeatureEntity, names: &[&str]) -> WatermarkTracker {
    let key = |name: &str| WatermarkKey::new(source(name), PartitionId::new("all").unwrap());
    let mut tracker = WatermarkTracker::try_new_for_entity(
        names.iter().map(|name| PartitionConfig::required(key(name))).collect(),
        DurationNanos::new(0),
        vec![SourceHealthState::Healthy],
        entity,
    )
    .unwrap();
    for name in names {
        tracker
            .advance(
                &key(name),
                WatermarkUpdate::new(
                    at(130 * SECOND),
                    at(131 * SECOND),
                    SourceHealthState::Healthy,
                ),
            )
            .unwrap();
    }
    tracker
}

fn decided(
    entity: FeatureEntity,
    names: &[&str],
    window: TimeWindow,
) -> (WatermarkTracker, FinalizationDecision) {
    let tracker = tracker(entity, names);
    let decision = tracker.decision(window);
    (tracker, decision)
}

fn stamp() -> EmissionStamp {
    EmissionStamp { computed_at: at(140 * SECOND), revision: 1, code_commit: "abc".to_owned() }
}

fn metadata(event: i64) -> EventMetadata {
    EventMetadata {
        source: source("binance"),
        instrument_id: Some(instrument_id()),
        exchange_timestamp: Some(at(event)),
        exchange_transaction_timestamp: None,
        normalization_timestamp: at(event + 3),
        receive_monotonic_ns: 5,
        connection_epoch: 1,
        subscription_epoch: 1,
        sequence_number: Some(10),
        quality_flags: 0,
        quality_score_ppm: 960_000,
    }
}

fn event(time: i64, mark: u8, payload: EventPayload) -> NormalizedEvent {
    NormalizedEvent { id: [mark; 32], verified: true, metadata: metadata(time), payload }
}

fn level(p: &str, q: &str) -> BookLevel {
    BookLevel { price: price(p), quantity: quantity(q), order_count: None }
}

fn book() -> BookSnapshotView {
    BookSnapshotView {
        instrument: instrument_id(),
        price_tick: price("1"),
        quantity_step: quantity("0.1"),
        session: BookSession {
            connection_epoch: 1,
            subscription_epoch: 1,
            instrument_generation: 1,
        },
        last_source_sequence: 10,
        updated_monotonic_ns: 5,
        classification: BookClassification::Normal,
        bids: vec![level("99", "2"), level("98", "3"), level("95", "5")],
        asks: vec![level("101", "1"), level("102", "4"), level("105", "6")],
        quality: BookQuality {
            health_state: BookState::Synchronized,
            last_source_sequence: 10,
            last_update_age_ms: 12,
            checksum_status: ChecksumStatus::NotSupported,
            resync_count_1h: 0,
            missing_sequence_count_1h: 0,
            checksum_failure_count_1h: 0,
            crossed_state_count_1h: 0,
            latency_p50_ms: None,
            latency_p95_ms: None,
            latency_p99_ms: None,
            latency_sample_count: 0,
            trusted_depth_levels: 3,
            quality_score_ppm: 970_000,
        },
    }
}

fn book_evidence() -> BookStateEvidence {
    let book = book();
    let definition = InstrumentDefinitionEvidence::try_from_event(&event(
        59 * SECOND,
        1,
        EventPayload::InstrumentDefinition(instrument()),
    ))
    .unwrap();
    BookStateEvidence::try_from_event_with_definition(
        &book,
        &event(
            60 * SECOND + 5,
            2,
            EventPayload::BookSnapshot {
                bids: book.bids.clone(),
                asks: book.asks.clone(),
                last_sequence: 10,
            },
        ),
        &definition,
    )
    .unwrap()
}

fn present_decimal(observation: &FeatureObservation) -> FixedDecimal {
    match &observation.datum {
        FeatureDatum::Present(FeatureValue::FixedDecimal(value)) => *value,
        _ => panic!("a decimal is present"),
    }
}

fn named<'a>(observations: &'a [FeatureObservation], id: &str) -> &'a FeatureObservation {
    observations.iter().find(|observation| observation.feature_id == id).unwrap()
}

fn of_ratio(value: ExactRatio) -> f64 {
    let of = |d: FixedDecimal| d.mantissa() as f64 / 10f64.powi(d.scale() as i32);
    of(value.numerator) / of(value.denominator)
}

fn measures() -> BookMeasures {
    let half = Ok(0.5f64.to_bits());
    BookMeasures {
        relative_spread: Ok(0.02f64.to_bits()),
        imbalances: [half; 7],
        weighted_midpoint: half,
        microprice: half,
        bid_shape: Ok((0.5f64.to_bits(), 0.25f64.to_bits())),
        ask_shape: Ok((0.5f64.to_bits(), 0.25f64.to_bits())),
        bid_gap_density: half,
        ask_gap_density: half,
        distribution: Ok((0.5f64.to_bits(), 0.25f64.to_bits())),
    }
}

/// A registry that refuses nothing.
trait Admitted<T> {
    fn admitted(self) -> T;
}

impl<E: EmissionError> Admitted<Result<Vec<FeatureObservation>, E>>
    for Result<Candidates<E>, E>
{
    fn admitted(self) -> Result<Vec<FeatureObservation>, E> {
        let candidates = self?;
        let verdicts: Vec<Verdict> = candidates.observations().iter().map(|_| Ok(())).collect();
        candidates.emitted(&verdicts)
    }
}

impl<E: EmissionError> Admitted<Result<FeatureObservation, E>> for Result<Candidate, E> {
    fn admitted(self) -> Result<FeatureObservation, E> {
        self?.emitted(Ok(()))
    }
}

#[test]
fn spreads_are_emitted_under_their_evidence() {
    let (tracker, decision) =
        decided(FeatureEntity::Instrument(instrument_id()), &["binance"], snapshot_window());
    let emitted = emit_book_spread_features(
        &task_five_definitions(),
        &stamp(),
        &book(),
        &book_evidence(),
        Ok(0.02f64.to_bits()),
        &tracker,
        decision,
    )
    .admitted()
    .unwrap();
    assert_eq!(emitted.len(), 2);
    assert_eq!(present_decimal(named(&emitted, "absolute_spread")), decimal("2"));
    let relative = named(&emitted, "relative_spread");
    assert!(matches!(
        &relative.datum,
        FeatureDatum::Present(FeatureValue::Float64(value)) if value.bits() == 0.02f64.to_bits()
    ));
    assert_eq!(relative.quality_score.millionths, 960_000);
    assert_eq!(relative.as_known_at.value(), 131 * SECOND);
    assert_eq!(relative.window_id, "tumbling_1s");
    assert!(emitted[0].lineage_hash != emitted[1].lineage_hash);
}

#[test]
fn snapshots_emit_every_core_feature() {
    let (tracker, decision) =
        decided(FeatureEntity::Instrument(instrument_id()), &["binance"], snapshot_window());
    let emitted = emit_book_snapshot_core_features(
        &task_five_definitions(),
        &stamp(),
        &book(),
        &book_evidence(),
        &measures(),
        &tracker,
        decision,
    )
    .admitted()
    .unwrap();
    assert_eq!(emitted.len(), 37);
    for observation in &emitted {
        assert!(observation.as_known_at.value() <= observation.computed_at.value());
    }
}

#[test]
fn books_without_evidence_emit_nothing() {
    let (tracker, decision) =
        decided(FeatureEntity::Instrument(instrument_id()), &["binance"], snapshot_window());
    let emit = |book: &BookSnapshotView, definitions: &Vec<_>, decision: FinalizationDecision| {
        emit_book_spread_features(
            definitions,
            &stamp(),
            book,
            &book_evidence(),
            Ok(0.02f64.to_bits()),
            &tracker,
            decision,
        )
        .admitted()
        .map(|_| ())
    };
    let mut changed = book();
    changed.bids = vec![level("99", "9")];
    assert_eq!(
        emit(&changed, &task_five_definitions(), decision),
        Err(Task5EmissionError::Computation(FeatureComputationError::UntrustedInput))
    );
    assert_eq!(
        emit(&book(), &Vec::new(), decision),
        Err(Task5EmissionError::UnknownDefinition)
    );
    assert_eq!(
        emit(&book(), &task_five_definitions(), tracker.decision(flow_window())),
        Err(Task5EmissionError::DefinitionMismatch)
    );
}

#[test]
fn trade_flow_is_emitted_for_authenticated_trades() {
    let (tracker, decision) =
        decided(FeatureEntity::Instrument(instrument_id()), &["binance"], flow_window());
    let trade = |time: i64, mark: u8, side: TradeSide| {
        FlowTradeObservation::try_from_authenticated_event(
            &event(
                time,
                mark,
                EventPayload::Trade { price: price("10"), quantity: quantity("2"), side },
            ),
            AggressorAuthority::supplied("venue".to_owned(), 1).unwrap(),
        )
        .unwrap()
    };
    let window = TradeFlowWindow::new(
        vec![
            trade(61 * SECOND, 1, TradeSide::Buy),
            trade(62 * SECOND, 2, TradeSide::Sell),
            trade(64 * SECOND, 3, TradeSide::Buy),
        ],
        16,
        at(60 * SECOND),
        at(120 * SECOND),
        at(130 * SECOND),
    )
    .unwrap();
    let flow = FlowMeasures {
        imbalances: Ok((0.25f64.to_bits(), 0.25f64.to_bits(), 0.25f64.to_bits())),
        intensity: Ok(0.05f64.to_bits()),
        interarrival_variation: Ok(0.3f64.to_bits()),
    };
    let emitted = emit_trade_flow_core_features(
        &task_five_definitions(),
        &stamp(),
        &window,
        &flow,
        &tracker,
        decision,
    )
    .admitted()
    .unwrap();
    let volume = named(&emitted, "signed_volume_at_price");
    match &volume.datum {
        FeatureDatum::Present(FeatureValue::FixedDecimalMap(pairs)) => {
            assert_eq!(*pairs, vec![(decimal("10"), decimal("2"))]);
        }
        _ => panic!("a map is present"),
    }
}

fn fair_price() -> FairPrice {
    let venue = |name: &str, p: &str| IncludedVenue {
        source: source(name),
        health: SourceHealthState::Healthy,
        adjusted_price: price(p),
        adjusted_depth: quantity("5"),
        has_book_provenance: true,
        is_catalog_bound: true,
    };
    FairPrice {
        base_asset: asset(),
        price: price("100"),
        event_time: at(60 * SECOND + 1),
        as_of: at(60 * SECOND + 2),
        lineage_digest: [5; 32],
        eligible_sources: Some(vec![source("binance"), source("kraken")]),
        included: vec![venue("binance", "99"), venue("kraken", "101")],
        excluded: vec![VenueExclusionReason::QuoteStale],
        minimum_included_quality: 940_000,
    }
}

fn cross_measures() -> CrossVenueMeasures {
    CrossVenueMeasures {
        deviations: vec![
            ((-0.01f64).to_bits(), 0.5f64.to_bits()),
            (0.01f64.to_bits(), 0.5f64.to_bits()),
        ],
        relative_mad_bits: 0.01f64.to_bits(),
        relative_range_bits: 0.02f64.to_bits(),
        depth_concentration_bits: 0.5f64.to_bits(),
        healthy_fraction_bits: 1.0f64.to_bits(),
    }
}

#[test]
fn venues_are_compared_to_the_fair_price() {
    let terms = cross_venue_terms(&fair_price()).unwrap();
    assert_eq!((terms.healthy_count, terms.eligible_count), (2, 2));
    assert_eq!(terms.stale_quote_count, 1);
    let snapshot = CrossVenueSnapshot::from_terms(&terms, &cross_measures()).unwrap();
    assert_eq!(snapshot.venues().len(), 2);
    assert!(!snapshot.is_executable());
    assert_eq!(snapshot.lineage_digest(), [5; 32]);
    let mut few = fair_price();
    few.included.truncate(1);
    assert_eq!(
        cross_venue_terms(&few).map(|_| ()),
        Err(FeatureComputationError::UntrustedInput)
    );
}

#[test]
fn dispersion_is_indicative_only() {
    assert_eq!(
        indicative_price_dispersion(&vec![price("3"), price("1"), price("2")]),
        Ok(vec![decimal("1"), decimal("2"), decimal("3")])
    );
    assert!(indicative_price_dispersion(&vec![price("3")]).is_err());
    let dispersion =
        IndicativePriceDispersion::from_bits(1.0f64.to_bits(), 0.5f64.to_bits()).unwrap();
    assert!(!dispersion.is_executable());
    assert!(
        dispersion.classification() == DispersionClassification::IndicativeMidpriceOnly
    );
    assert_eq!(
        venue_depth_concentration(&vec![decimal("0"), decimal("0")]),
        Err(FeatureComputationError::ZeroDenominator)
    );
    assert!(venue_depth_concentration(&vec![decimal("1"), decimal("0")]).is_ok());
}

#[test]
fn cross_venue_features_are_emitted_for_the_asset() {
    let names = ["binance", "kraken"];
    let (tracker, decision) =
        decided(FeatureEntity::Asset(asset()), &names, snapshot_window());
    let emitted = emit_cross_venue_aggregate_features(
        &task_six_definitions(),
        &stamp(),
        &fair_price(),
        &cross_measures(),
        1.0f64.to_bits(),
        &tracker,
        decision,
    )
    .admitted()
    .unwrap();
    assert_eq!(emitted.len(), 6);
    let gate = emit_cascade_eligibility_gate(
        &task_six_definitions(),
        &stamp(),
        &fair_price(),
        &tracker,
        tracker.decision(flow_window()),
    )
    .admitted()
    .unwrap();
    assert_eq!(gate.feature_id, "cascade_eligibility_gate");
    assert!(matches!(gate.datum, FeatureDatum::Present(FeatureValue::Boolean(true))));
    let pair = FeatureEntity::AssetSource(asset(), source("kraken"));
    let (tracker, decision) = decided(pair, &names, snapshot_window());
    let emitted = emit_cross_venue_source_features(
        &task_six_definitions(),
        &stamp(),
        &fair_price(),
        &cross_measures(),
        &source("kraken"),
        &tracker,
        decision,
    )
    .admitted()
    .unwrap();
    assert!(matches!(
        &named(&emitted, "venue_midprice_deviation").datum,
        FeatureDatum::Present(FeatureValue::Float64(value)) if value.bits() == 0.01f64.to_bits()
    ));
    assert_eq!(
        emit_cross_venue_aggregate_features(
            &task_six_definitions(),
            &stamp(),
            &fair_price(),
            &cross_measures(),
            1.0f64.to_bits(),
            &tracker,
            decision,
        )
        .admitted()
        .map(|_| ()),
        Err(Task6EmissionError::UntrustedFinality)
    );
}

fn receipt(
    stream: DerivativeStream,
    time: i64,
    mark: u8,
    payload: EventPayload,
) -> DerivativeNormalizationReceipt {
    DerivativeNormalizationReceipt {
        event: event(time, mark, payload),
        stream,
        completeness: Completeness::SampledLargestPerSymbolWindow { window_ms: 1_000 },
        connector_version: "1.0.0".to_owned(),
        catalog_authority: CatalogAuthority { catalog_revision: 1, definition_revision: 1 },
        catalog_digest: [8; 32],
        definition_hash: [9; 32],
        catalog_as_known_at: at(1),
        instrument_definition: instrument(),
    }
}

fn funding(time: i64, mark: u8, rate: &str) -> DerivativeNormalizationReceipt {
    receipt(
        DerivativeStream::Funding,
        time,
        mark,
        EventPayload::FundingObservation {
            funding_rate: decimal(rate),
            observed_at: at(time),
            next_funding_time: Some(at(time + SECOND)),
        },
    )
}

fn open_interest(time: i64, mark: u8, size: &str) -> DerivativeNormalizationReceipt {
    receipt(
        DerivativeStream::OpenInterest,
        time,
        mark,
        EventPayload::OpenInterestObservation {
            quantity: quantity(size),
            quote_notional: Some(decimal("1000")),
            observed_at: at(time),
        },
    )
}

fn liquidation(time: i64, mark: u8, notional: &str) -> DerivativeNormalizationReceipt {
    let mut receipt = receipt(
        DerivativeStream::Liquidation,
        time,
        mark,
        EventPayload::LiquidationObservation {
            price: price("10"),
            quantity: quantity("1"),
            quote_notional: Some(decimal(notional)),
            observed_at: at(time),
        },
    );
    receipt.event.metadata.quality_flags = QUALITY_PARTIAL;
    receipt
}

fn mark_index() -> DerivativeNormalizationReceipt {
    receipt(
        DerivativeStream::MarkIndex,
        60 * SECOND + 1,
        1,
        EventPayload::MarkIndexObservation {
            mark_price: price("101"),
            index_price: price("100"),
            observed_at: at(60 * SECOND + 1),
        },
    )
}

#[test]
fn pure_annualized_basis_kernel_rejects_expired_contracts() {
    let terms = annualized_basis(price("101"), price("100"), 30 * 86_400).unwrap();
    let basis = of_ratio(terms.prices) - 1.0;
    let years = terms.seconds_to_expiry as f64 / (365.0 * 86_400.0);
    assert!((basis / years - 0.121_666_666_666_666_77).abs() < 1e-12);
    assert!(annualized_basis(price("101"), price("100"), 0).is_err());
}

#[test]
fn derivative_terms_are_exact() {
    assert!((of_ratio(mark_index_divergence(&mark_index()).unwrap()) - 1.01).abs() < 1e-12);
    let predicted = predicted_funding_rate(&funding(60 * SECOND, 1, "0.0001")).unwrap();
    assert_eq!(predicted.rate(), decimal("0.0001"));
    assert_eq!(predicted.next_funding_time().value(), 61 * SECOND);
    assert_eq!(
        funding_change(&funding(60 * SECOND, 1, "0.0001"), &funding(61 * SECOND, 2, "0.0003")),
        Ok(decimal("0.0002"))
    );
    let terms = open_interest_change(
        &open_interest(60 * SECOND, 1, "8"),
        &open_interest(61 * SECOND, 2, "10"),
        &instrument(),
    )
    .unwrap();
    assert_eq!(terms.native_change, decimal("2"));
    let change = OpenInterestChange::from_terms(terms, 0.25f64.to_bits()).unwrap();
    assert_eq!(change.native_change(), decimal("2"));
    assert!(mark_index_divergence(&funding(60 * SECOND, 1, "0.1")).is_err());
}

#[test]
fn sampled_liquidations_are_lower_bounds() {
    let (tracker, decision) =
        decided(FeatureEntity::Instrument(instrument_id()), &["binance"], flow_window());
    let receipts =
        vec![liquidation(61 * SECOND, 1, "100"), liquidation(62 * SECOND, 2, "50")];
    let terms = liquidation_velocity(&receipts, &instrument(), &tracker, decision).unwrap();
    assert_eq!((terms.observed_count, terms.duration_ns), (2, 60 * SECOND));
    assert_eq!(terms.observed_quote_notional, decimal("150"));
    let velocity = LiquidationVelocity::from_terms(terms, (2.0f64 / 60.0).to_bits()).unwrap();
    assert!(
        velocity.notional_interpretation()
            == LiquidationNotionalInterpretation::ObservedLowerBound
    );
    assert!(velocity.coverage().is_sampled());
    assert_eq!(velocity.coverage().sampling_window_ms(), Some(1_000));
    let twice = vec![liquidation(61 * SECOND, 1, "100"), liquidation(62 * SECOND, 1, "50")];
    assert_eq!(
        liquidation_velocity(&twice, &instrument(), &tracker, decision).map(|_| ()),
        Err(FeatureComputationError::DuplicateLineage)
    );
    let emitted = emit_liquidation_features(
        &task_six_definitions(),
        &stamp(),
        &receipts,
        &instrument(),
        (2.0f64 / 60.0).to_bits(),
        &tracker,
        decision,
    )
    .admitted()
    .unwrap();
    assert!(!emitted.is_empty());
}

#[test]
fn liquidation_completeness_belongs_to_the_source() {
    let (tracker, decision) =
        decided(FeatureEntity::Source(source("binance")), &["binance"], flow_window());
    let emitted = emit_liquidation_completeness_feature(
        &task_six_definitions(),
        &stamp(),
        &vec![liquidation(61 * SECOND, 1, "100")],
        &tracker,
        decision,
    )
    .admitted()
    .unwrap();
    assert_eq!(emitted.feature_id, "liquidation_source_completeness_flag");
    assert!(matches!(emitted.datum, FeatureDatum::Present(FeatureValue::Integer(_))));
}

#[test]
fn derivative_snapshots_and_changes_are_emitted() {
    let (tracker, decision) =
        decided(FeatureEntity::Instrument(instrument_id()), &["binance"], snapshot_window());
    let emitted = emit_derivative_snapshot_features(
        &task_six_definitions(),
        &stamp(),
        &funding(60 * SECOND + 1, 1, "0.0001"),
        0,
        &tracker,
        decision,
    )
    .admitted()
    .unwrap();
    assert_eq!(present_decimal(named(&emitted, "predicted_funding_rate")), decimal("0.0001"));
    let (tracker, decision) =
        decided(FeatureEntity::Instrument(instrument_id()), &["binance"], flow_window());
    let emitted = emit_derivative_change_features(
        &task_six_definitions(),
        &stamp(),
        &funding(61 * SECOND, 1, "0.0001"),
        &funding(62 * SECOND, 2, "0.0003"),
        0,
        &tracker,
        decision,
    )
    .admitted()
    .unwrap();
    assert_eq!(emitted.len(), 1);
    assert_eq!(present_decimal(&emitted[0]), decimal("0.0002"));
}

fn operational() -> OperationalQualityReceipt {
    OperationalQualityReceipt {
        source: source("binance"),
        connection_epoch: 1,
        source_health: SourceHealthState::Healthy,
        stream: StreamClass::Liquidations,
        completeness: Completeness::VenueReportedComplete { delivery_uncertainty: false },
        sample: OperationalQualitySample {
            window_start: at(60 * SECOND),
            window_end: at(61 * SECOND),
            last_trusted_event_time: at(60 * SECOND + 100),
            receive_wall_time: at(60 * SECOND + 150),
            as_known_at: at(61 * SECOND + 100),
            stale_after_ns: 2_000_000_000,
            feed_jitter_ns: 7,
            clock_skew_estimate_ns: -3,
        },
        sequence_gap_count: 0,
        checksum_failure_count: 0,
        reconnect_count: 1,
        recovery_count: 1,
        correction_count: 0,
        revision_count: 0,
        raw_to_normalized_rejection_count: 0,
    }
}

#[test]
fn quality_gates_fail_closed() {
    let snapshot = operational_quality_snapshot(&operational()).unwrap();
    assert_eq!(snapshot.uncertainty_fields().source_latency_ns(), 50);
    assert_eq!(snapshot.uncertainty_fields().event_age_ns(), SECOND as u64);
    assert_eq!(snapshot.uncertainty_fields().clock_skew_estimate_ns(), -3);
    assert!(snapshot.gating_fields().eligible());
    assert!(snapshot.gating_fields().complete_for_cascade());
    let mut stale = operational();
    stale.sample.stale_after_ns = 10;
    let snapshot = operational_quality_snapshot(&stale).unwrap();
    assert!(snapshot.uncertainty_fields().stale());
    assert!(!snapshot.gating_fields().eligible());
    let mut gapped = operational();
    gapped.sequence_gap_count = 1;
    assert!(
        !operational_quality_snapshot(&gapped).unwrap().gating_fields().complete_for_cascade()
    );
    let mut backwards = operational();
    backwards.sample.receive_wall_time = at(1);
    assert_eq!(
        operational_quality_snapshot(&backwards).map(|_| ()),
        Err(FeatureComputationError::InvalidInput)
    );
}

#[test]
fn operational_features_are_emitted_for_the_source() {
    let (tracker, decision) =
        decided(FeatureEntity::Source(source("binance")), &["binance"], snapshot_window());
    let emitted = emit_operational_source_features(
        &task_six_definitions(),
        &stamp(),
        &operational(),
        &tracker,
        decision,
    )
    .admitted()
    .unwrap();
    assert_eq!(emitted.len(), 7);
    assert!(matches!(
        named(&emitted, "source_latency_ns").datum,
        FeatureDatum::Present(FeatureValue::Integer(50))
    ));
    assert!(matches!(
        named(&emitted, "source_health_gate").datum,
        FeatureDatum::Present(FeatureValue::Boolean(true))
    ));
}

#[test]
fn storage_pressure_is_global() {
    let (tracker, decision) = decided(FeatureEntity::Global, &["binance"], snapshot_window());
    let receipt = StoragePressureReceipt {
        used_bytes: 1,
        capacity_bytes: 4,
        as_known_at: at(60 * SECOND + 1),
    };
    let emit = |bits: u64| {
        emit_storage_pressure_feature(
            &task_six_definitions(),
            &stamp(),
            receipt,
            bits,
            &tracker,
            decision,
        )
        .admitted()
    };
    assert!(matches!(emit(0.25f64.to_bits()).unwrap().entity, FeatureEntity::Global));
    assert!(matches!(emit(f64::NAN.to_bits()), Err(Task6EmissionError::Registry(_))));
}

#[test]
fn unflagged_samples_are_not_trusted() {
    let (tracker, decision) =
        decided(FeatureEntity::Instrument(instrument_id()), &["binance"], flow_window());
    let mut receipt = liquidation(61 * SECOND, 1, "100");
    receipt.event.metadata.quality_flags = 0;
    assert_eq!(
        emit_liquidation_features(
            &task_six_definitions(),
            &stamp(),
            &vec![receipt],
            &instrument(),
            0.5f64.to_bits(),
            &tracker,
            decision,
        )
        .admitted()
        .map(|_| ()),
        Err(Task6EmissionError::Computation(FeatureComputationError::UntrustedInput))
    );
}

#[test]
fn unimplemented_recipes_are_explicitly_absent() {
    let entity = || FeatureEntity::AssetSource(asset(), source("binance"));
    let (tracker, decision) = decided(entity(), &["binance"], flow_window());
    let emit = |id: &str| {
        emit_unavailable_task_six_feature(
            &task_six_definitions(),
            &stamp(),
            id,
            entity(),
            &tracker,
            decision,
        )
        .admitted()
    };
    let emitted = emit("venue_volume_share").unwrap();
    assert!(matches!(
        emitted.datum,
        FeatureDatum::Missing(MissingnessReason::ModelNotApplicable)
    ));
    assert_eq!(emitted.quality_score.millionths, 1_000_000);
    assert!(matches!(emit("venue_lead_lag"), Err(Task6EmissionError::UntrustedFinality)));
    assert!(matches!(emit("source_health_gate"), Err(Task6EmissionError::ImplementedRecipe)));
    assert!(matches!(emit("nothing"), Err(Task6EmissionError::UnknownRecipe)));
}

#[test]
fn the_registry_has_the_last_word_on_candidates() {
    let (tracker, decision) =
        decided(FeatureEntity::Instrument(instrument_id()), &["binance"], snapshot_window());
    let spreads = |definitions: &Vec<FeatureDefinition>| {
        emit_book_spread_features(
            definitions,
            &stamp(),
            &book(),
            &book_evidence(),
            Ok(0.02f64.to_bits()),
            &tracker,
            decision,
        )
        .unwrap()
    };
    let unsound = RegistryError::UnsoundObservation;
    let unregistered = RegistryError::UnregisteredObservation;
    let candidates = spreads(&task_five_definitions());
    assert_eq!(candidates.observations().len(), 2);
    assert_eq!(*candidates.stopped(), None);
    assert_eq!(
        candidates.emitted(&vec![Ok(()), Err(unregistered)]).map(|_| ()),
        Err(Task5EmissionError::Registry(unregistered))
    );
    assert_eq!(
        spreads(&task_five_definitions())
            .emitted(&vec![Err(unsound), Err(unregistered)])
            .map(|_| ()),
        Err(Task5EmissionError::Registry(unsound))
    );
    let absolute_only = || {
        let definitions: Vec<FeatureDefinition> = task_five_definitions()
            .into_iter()
            .filter(|definition| definition.id != "relative_spread")
            .collect();
        spreads(&definitions)
    };
    assert_eq!(absolute_only().observations().len(), 1);
    assert_eq!(
        absolute_only().emitted(&vec![Ok(())]).map(|_| ()),
        Err(Task5EmissionError::UnknownDefinition)
    );
    assert_eq!(
        absolute_only().emitted(&vec![Err(unsound)]).map(|_| ()),
        Err(Task5EmissionError::Registry(unsound))
    );
    let (tracker, decision) = decided(FeatureEntity::Global, &["binance"], snapshot_window());
    let receipt = StoragePressureReceipt {
        used_bytes: 1,
        capacity_bytes: 4,
        as_known_at: at(60 * SECOND + 1),
    };
    let pressure = || {
        emit_storage_pressure_feature(
            &task_six_definitions(),
            &stamp(),
            receipt,
            0.25f64.to_bits(),
            &tracker,
            decision,
        )
        .unwrap()
    };
    let refused: Result<FeatureObservation, Task6EmissionError> =
        pressure().emitted(Err(unsound));
    assert!(matches!(
        refused,
        Err(Task6EmissionError::Registry(RegistryError::UnsoundObservation))
    ));
    let hash = pressure().observation().lineage_hash;
    let kept: Result<FeatureObservation, Task6EmissionError> = pressure().emitted(Ok(()));
    let kept = kept.unwrap();
    assert_eq!(kept.lineage_hash, hash);
    assert!(admitted(kept, Err(unregistered)).is_err());
}
