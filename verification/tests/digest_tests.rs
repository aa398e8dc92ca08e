use feature_engine::book::{
    book_state_digest, BookClassification, BookQuality, BookSession, BookSnapshotView, BookState,
    ChecksumStatus,
};
use feature_engine::decimal::{FixedDecimal, Price, Quantity};
use feature_engine::domain::{
    AssetId, AssetNamespace, DurationNanos, FeatureEntity, InstrumentId, ProductType,
    SourceHealthState, SourceId, SourceKind, UnixNanos, VenueId,
};
use feature_engine::event::{BookLevel, EventMetadata, EventPayload, NormalizedEvent, TradeSide};
use feature_engine::features::catalog::Task4FeatureKind;
use feature_engine::features::orderflow::{
    AggressorAuthority, FlowTradeObservation, TradeFlowWindow,
};
use feature_engine::features::price::{PriceObservation, PriceObservationInput, PriceWindow};
use feature_engine::features::task6_catalog::task_six_recipe;
use feature_engine::features::volatility::VolatilityFormulaPolicy;
use feature_engine::lineage::{FeatureLineage, FeatureLineageInput};
use feature_engine::materialize::report::MaterializationReport;
use feature_engine::materialize::row::{MaterializedFeatureRow, RowFields};
use feature_engine::registry::{FeatureVersion, ParsedVersion};
use feature_engine::watermark::{
    PartitionConfig, PartitionId, WatermarkKey, WatermarkTracker, WatermarkUpdate,
};
use feature_engine::window::TimeWindow;

struct Bytes(Vec<u8>);

impl Bytes {
    fn of(domain: &str) -> Self {
        Bytes(domain.as_bytes().to_vec())
    }

    fn raw(mut self, bytes: &[u8]) -> Self {
        self.0.extend_from_slice(bytes);
        self
    }

    fn framed(self, bytes: &[u8]) -> Self {
        let length = (bytes.len() as u64).to_be_bytes();
        self.raw(&length).raw(bytes)
    }

    fn digest(&self) -> [u8; 32] {
        *blake3::hash(&self.0).as_bytes()
    }
}

fn at(nanos: i64) -> UnixNanos {
    UnixNanos::new(nanos)
}

fn decimal(text: &str) -> FixedDecimal {
    FixedDecimal::parse_canonical(text.as_bytes()).unwrap()
}

fn price(text: &str) -> Price {
    Price::new(decimal(text)).unwrap()
}

fn quantity(text: &str) -> Quantity {
    Quantity::new(decimal(text)).unwrap()
}

fn source() -> SourceId {
    SourceId::new(SourceKind::Chain, "kraken".to_owned(), 3, "chain:kraken:3".to_owned())
}

fn asset() -> AssetId {
    AssetId {
        namespace: AssetNamespace::Evm,
        chain_id: "main".to_owned(),
        contract_or_mint: "0x0".to_owned(),
        canonical_symbol: "ETH".to_owned(),
        generation: 2,
    }
}

fn instrument() -> InstrumentId {
    InstrumentId {
        venue: VenueId { name: "kraken".to_owned() },
        venue_symbol: "ETHUSD".to_owned(),
        product_type: ProductType::Perpetual,
        generation: 4,
    }
}

fn with_asset(bytes: Bytes) -> Bytes {
    bytes
        .raw(&[2, AssetNamespace::Evm.code()])
        .framed(b"main")
        .framed(b"0x0")
        .framed(b"ETH")
        .raw(&2u32.to_be_bytes())
}

#[test]
fn formulas_are_framed_with_their_limits() {
    let expected = Bytes::of("crypto-intelligence/task4-feature-formula/v1")
        .framed(b"log_return")
        .framed(b"1.0.0")
        .framed(Task4FeatureKind::LogReturn.formula().as_bytes())
        .raw(&60_000_000_000u64.to_be_bytes())
        .raw(&300_000_000_000u64.to_be_bytes())
        .raw(&900_000_000_000u64.to_be_bytes())
        .raw(&3_600_000_000_000u64.to_be_bytes())
        .raw(&65_536u64.to_be_bytes())
        .raw(&65_536u64.to_be_bytes());
    assert_eq!(Task4FeatureKind::LogReturn.formula_hash(), expected.digest());
}

#[test]
fn quality_formulas_bind_their_gate() {
    let expected = Bytes::of("crypto-intelligence/task6-cross-venue-derivatives-formula/v1")
        .framed(b"source_health_gate")
        .framed(b"1.0.0")
        .framed(b"collector-owned-source-health-eligibility-decision")
        .framed(b"tumbling_1s")
        .raw(&1_000_000_000u64.to_be_bytes())
        .raw(&[5, 5, 3, 1])
        .raw(&1_000_000_000u64.to_be_bytes())
        .raw(&5_000_000_000u64.to_be_bytes())
        .raw(&86_400_000_000_000u64.to_be_bytes())
        .framed(b"normalization:none@1.0.0")
        .raw(&0u32.to_be_bytes())
        .raw(&0u32.to_be_bytes())
        .raw(&5u64.to_be_bytes())
        .raw(&[1, 2, 3, 4, 5])
        .raw(&[1])
        .framed(b"collector.quality_gate_receipt")
        .framed(b"required-input-contract-v1")
        .framed(b"completeness-is-source-bound-lineage-not-observed-source-count")
        .framed(
            b"typed-emitter-quality-is-minimum-validated-input-score;flags-and-completeness-are-lineage-bound;registry-gate-is-exact",
        );
    let recipe = task_six_recipe("source_health_gate").unwrap();
    assert_eq!(recipe.formula_hash(), expected.digest());
}

#[test]
fn volatility_policies_bind_their_parameters() {
    let policy = VolatilityFormulaPolicy::try_new(5, Some(365)).unwrap();
    let expected = Bytes::of("crypto-intelligence/realized-volatility/v2")
        .raw(b"return=consecutive-log")
        .raw(b"rv=sum-squared-returns")
        .raw(b"vol=sqrt-rv-times-annualization-periods")
        .raw(b"bv=pi-over-2-adjacent-absolute-products")
        .raw(b"jump=max-rv-minus-bv-zero")
        .raw(b"output=float64-finite-canonical-zero")
        .raw(&5u64.to_be_bytes())
        .raw(&[1])
        .raw(&365u32.to_be_bytes())
        .raw(&65_536u64.to_be_bytes())
        .raw(&65_536u64.to_be_bytes());
    assert_eq!(policy.formula_hash(), expected.digest());
}

#[test]
fn policies_and_decisions_bind_their_evidence() {
    let key = WatermarkKey::new(source(), PartitionId::new("trades").unwrap());
    let mut tracker = WatermarkTracker::try_new_for_entity(
        vec![PartitionConfig::required(key.clone())],
        DurationNanos::new(7),
        vec![SourceHealthState::Healthy, SourceHealthState::Recovering],
        FeatureEntity::Asset(asset()),
    )
    .unwrap();
    let entity = with_asset(Bytes::of("crypto-intelligence/watermark-entity/v1")).digest();
    let policy = Bytes::of("crypto-intelligence/watermark-policy/v1")
        .raw(&7u64.to_be_bytes())
        .raw(&[SourceKind::Chain.code()])
        .framed(b"kraken")
        .raw(&3u32.to_be_bytes())
        .framed(b"trades")
        .raw(&[1])
        .raw(&[0, 4])
        .raw(&[1])
        .raw(&entity)
        .digest();
    assert_eq!(tracker.policy_id(), policy);
    tracker
        .advance(&key, WatermarkUpdate::new(at(40), at(41), SourceHealthState::Healthy))
        .unwrap();
    let required = Bytes::of("crypto-intelligence/watermark-required-sources/v1")
        .raw(&[SourceKind::Chain.code()])
        .framed(b"kraken")
        .raw(&3u32.to_be_bytes())
        .digest();
    let decision = tracker.decision(TimeWindow::try_new(at(10), at(30)).unwrap());
    let expected = Bytes::of("crypto-intelligence/finalization-decision/v1")
        .raw(&10i64.to_be_bytes())
        .raw(&30i64.to_be_bytes())
        .raw(&[2])
        .raw(&[1])
        .raw(&decision.watermark().unwrap().value().to_be_bytes())
        .raw(&41i64.to_be_bytes())
        .raw(&[1])
        .raw(&entity)
        .raw(&1u64.to_be_bytes())
        .raw(&required)
        .raw(&decision.evaluation_sequence().to_be_bytes())
        .raw(&policy);
    assert_eq!(decision.evidence_digest(), expected.digest());
}

#[test]
fn price_windows_bind_every_observation() {
    let observation = PriceObservation::try_new(PriceObservationInput {
        entity: FeatureEntity::Asset(asset()),
        price: price("12.5"),
        event_time: at(20),
        as_known_at: at(21),
        finalized: true,
        lineage_hash: [6; 32],
    })
    .unwrap();
    let window = PriceWindow::try_new(
        TimeWindow::try_new(at(10), at(30)).unwrap(),
        FeatureEntity::Asset(asset()),
        at(35),
        vec![observation],
    )
    .unwrap();
    let head = Bytes::of("crypto-intelligence/price-window-input/v1")
        .raw(&10i64.to_be_bytes())
        .raw(&30i64.to_be_bytes())
        .raw(&35i64.to_be_bytes());
    let expected = with_asset(head)
        .raw(&1u64.to_be_bytes())
        .raw(&20i64.to_be_bytes())
        .raw(&21i64.to_be_bytes())
        .raw(&[1])
        .framed(b"12.5")
        .raw(&[6; 32]);
    assert_eq!(window.input_lineage_digest(), expected.digest());
}

#[test]
fn books_are_bound_level_by_level() {
    let level = |p: &str, q: &str, count: Option<u32>| BookLevel {
        price: price(p),
        quantity: quantity(q),
        order_count: count,
    };
    let book = BookSnapshotView {
        instrument: instrument(),
        price_tick: price("0.1"),
        quantity_step: quantity("0.01"),
        session: BookSession {
            connection_epoch: 11,
            subscription_epoch: 12,
            instrument_generation: 4,
        },
        last_source_sequence: 13,
        updated_monotonic_ns: 14,
        classification: BookClassification::Normal,
        bids: vec![level("9.9", "2", Some(3))],
        asks: vec![level("10.1", "1", None)],
        quality: BookQuality {
            health_state: BookState::Synchronized,
            last_source_sequence: 13,
            last_update_age_ms: 15,
            checksum_status: ChecksumStatus::Valid,
            resync_count_1h: 16,
            missing_sequence_count_1h: 17,
            checksum_failure_count_1h: 18,
            crossed_state_count_1h: 19,
            latency_p50_ms: Some(20),
            latency_p95_ms: None,
            latency_p99_ms: Some(22),
            latency_sample_count: 23,
            trusted_depth_levels: 24,
            quality_score_ppm: 990_000,
        },
    };
    let expected = Bytes::of("crypto-intelligence/trusted-book-feature-state/v2")
        .framed(b"kraken")
        .framed(b"ETHUSD")
        .raw(&[ProductType::Perpetual.code()])
        .raw(&4u32.to_be_bytes())
        .framed(b"0.1")
        .framed(b"0.01")
        .raw(&11u64.to_be_bytes())
        .raw(&12u64.to_be_bytes())
        .raw(&4u32.to_be_bytes())
        .raw(&13u64.to_be_bytes())
        .raw(&14u64.to_be_bytes())
        .raw(&[1])
        .raw(&[1])
        .raw(&1u64.to_be_bytes())
        .framed(b"9.9")
        .framed(b"2")
        .raw(&[1])
        .raw(&3u32.to_be_bytes())
        .raw(&[2])
        .raw(&1u64.to_be_bytes())
        .framed(b"10.1")
        .framed(b"1")
        .raw(&[0])
        .raw(&[5])
        .raw(&13u64.to_be_bytes())
        .raw(&15u64.to_be_bytes())
        .raw(&[3])
        .raw(&16u64.to_be_bytes())
        .raw(&17u64.to_be_bytes())
        .raw(&18u64.to_be_bytes())
        .raw(&19u64.to_be_bytes())
        .raw(&[1])
        .raw(&20u64.to_be_bytes())
        .raw(&[0])
        .raw(&[1])
        .raw(&22u64.to_be_bytes())
        .raw(&23u64.to_be_bytes())
        .raw(&24u64.to_be_bytes())
        .raw(&990_000u32.to_be_bytes());
    assert_eq!(book_state_digest(&book), expected.digest());
}

#[test]
fn flow_windows_bind_every_trade() {
    let event = NormalizedEvent {
        id: [9; 32],
        verified: true,
        metadata: EventMetadata {
            source: SourceId::new(
                SourceKind::Exchange,
                "kraken".to_owned(),
                1,
                "exchange:kraken:1".to_owned(),
            ),
            instrument_id: Some(instrument()),
            exchange_timestamp: Some(at(110)),
            exchange_transaction_timestamp: None,
            normalization_timestamp: at(115),
            receive_monotonic_ns: 1,
            connection_epoch: 1,
            subscription_epoch: 1,
            sequence_number: Some(1),
            quality_flags: 0,
            quality_score_ppm: 950_000,
        },
        payload: EventPayload::Trade {
            price: price("10"),
            quantity: quantity("2"),
            side: TradeSide::Sell,
        },
    };
    let trade = FlowTradeObservation::try_from_authenticated_event(
        &event,
        AggressorAuthority::supplied("venue".to_owned(), 5).unwrap(),
    )
    .unwrap();
    assert_eq!(trade.source().unwrap().label(), "exchange:kraken:1");
    let window =
        TradeFlowWindow::new(vec![trade], 4, at(100), at(200), at(300)).unwrap();
    let expected = Bytes::of("crypto-intelligence/trade-flow-window-evidence/v1")
        .raw(&100i64.to_be_bytes())
        .raw(&200i64.to_be_bytes())
        .raw(&300i64.to_be_bytes())
        .raw(&[9; 32])
        .raw(&110i64.to_be_bytes())
        .raw(&115i64.to_be_bytes())
        .framed(b"10")
        .framed(b"2")
        .raw(&[2])
        .framed(b"venue")
        .raw(&5u32.to_be_bytes())
        .raw(&[0])
        .framed(b"exchange:kraken:1")
        .raw(&950_000u32.to_be_bytes());
    assert_eq!(window.canonical_evidence_digest(), Ok(expected.digest()));
}

#[test]
fn lineages_bind_their_encodings() {
    let lineage = FeatureLineage::try_new(FeatureLineageInput {
        feature_id: "absolute_spread".to_owned(),
        feature_version: ParsedVersion {
            release: FeatureVersion::new(1, 0, 0),
            pre_release: String::new(),
            build: String::new(),
        },
        formula_hash: [1; 32],
        input_event_hashes: vec![[3; 32], [2; 32]],
        source_coverage_json: b"{\"a\":1}".to_vec(),
        code_commit: "abc".to_owned(),
    })
    .unwrap();
    assert_eq!(
        lineage.source_coverage_hash(),
        Bytes::of("cmti:feature-source-coverage:v1\0").raw(b"{\"a\":1}").digest()
    );
    let list = |digest: [u8; 32]| {
        let items: Vec<String> = digest.iter().map(|byte| byte.to_string()).collect();
        format!("[{}]", items.join(","))
    };
    let encoded = format!(
        "{{\"feature_id\":\"f\",\"feature_version\":\"1.0.0\",\"formula_hash\":\"h\",\
\"input_event_hashes\":[{},{}],\"source_coverage_hash\":{},\"code_commit\":\"c\"}}",
        list([2; 32]),
        list([3; 32]),
        list(lineage.source_coverage_hash()),
    );
    assert_eq!(
        lineage.digest(b"\"f\"", b"\"h\"", b"\"c\""),
        Bytes::of("cmti:feature-lineage:v1\0").raw(encoded.as_bytes()).digest()
    );
}

#[test]
fn reports_bind_rows_lineage_and_finality() {
    let fields = RowFields {
        effective_event_time_ns: 100,
        exchange_event_time_ns: Some(100),
        receive_wall_time_ns: 300,
        event_type: "feature-observation".to_owned(),
        venue: "kraken".to_owned(),
        instrument_generation: 1,
        connection_epoch: 2,
        subscription_epoch: 3,
        wal_record_sequence: 4,
        feature_id: "absolute_spread".to_owned(),
        feature_version: "1.0.0".to_owned(),
        entity_json: "{\"a\":1}".to_owned(),
        window_id: "tumbling_1s".to_owned(),
        resolution_ns: 5,
        datum_json: "\"1.25\"".to_owned(),
        value_type: "fixed_decimal".to_owned(),
        event_time_start_ns: 50,
        event_time_end_ns: 100,
        as_known_at_ns: 200,
        computed_at_ns: 300,
        watermark_ns: None,
        finality_as_known_at_ns: 150,
        finality_state: "final".to_owned(),
        revision: 1,
        source_coverage_json: "{}".to_owned(),
        quality_millionths: 990_000,
        normalization_version: "1.0.0".to_owned(),
        formula_hash: "ab".repeat(32),
        code_commit: "abc".to_owned(),
        lineage_hash: "cd".repeat(32),
        float_bits: None,
    };
    let row = MaterializedFeatureRow::try_new(fields, true).unwrap();
    let report = MaterializationReport::try_new(vec![row], None, None).unwrap();
    let json = format!(
        "[{{\"effective_event_time_ns\":100,\"exchange_event_time_ns\":100,\
\"receive_wall_time_ns\":300,\"event_type\":\"feature-observation\",\"venue\":\"kraken\",\
\"instrument_generation\":1,\"connection_epoch\":2,\"subscription_epoch\":3,\
\"wal_record_sequence\":4,\"feature_id\":\"absolute_spread\",\"feature_version\":\"1.0.0\",\
\"entity_json\":\"{{\\\"a\\\":1}}\",\"window_id\":\"tumbling_1s\",\"resolution_ns\":5,\
\"datum_json\":\"\\\"1.25\\\"\",\"value_type\":\"fixed_decimal\",\"event_time_start_ns\":50,\
\"event_time_end_ns\":100,\"as_known_at_ns\":200,\"computed_at_ns\":300,\"watermark_ns\":null,\
\"finality_as_known_at_ns\":150,\"finality_state\":\"final\",\"revision\":1,\
\"source_coverage_json\":\"{{}}\",\"quality_millionths\":990000,\
\"normalization_version\":\"1.0.0\",\"formula_hash\":\"{}\",\"code_commit\":\"abc\",\
\"lineage_hash\":\"{}\",\"float_bits\":null}}]",
        "ab".repeat(32),
        "cd".repeat(32)
    );
    assert_eq!(
        report.fixed_point_digest(),
        Bytes::of("cmti:materialized-fixed-features:v1\0").raw(json.as_bytes()).digest()
    );
    assert_eq!(
        report.lineage_digest(),
        Bytes::of("cmti:materialized-lineage:v1\0")
            .raw(format!("[\"{}\"]", "cd".repeat(32)).as_bytes())
            .digest()
    );
    assert_eq!(
        report.finality_quality_digest(),
        Bytes::of("cmti:materialized-finality-quality:v1\0")
            .raw(b"[[\"absolute_spread\",\"final\",1,990000]]")
            .digest()
    );
}
