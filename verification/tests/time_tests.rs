use feature_engine::clock::{
    ClockBasis, ClockError, LogicalClock, RecordedClock, RecordedTimestamp, TimerId,
};
use feature_engine::decimal::FixedDecimal;
use feature_engine::domain::{
    DurationNanos, FeatureEntity, FinalityState, FiniteF64, SourceHealthState, SourceId,
    SourceKind, UnixNanos,
};
use feature_engine::ewma::{Compaction, EwmaReplay, HalfLifeEwmaState};
use feature_engine::watermark::{
    Finalization, PartitionConfig, PartitionId, WatermarkError, WatermarkKey, WatermarkTracker,
    WatermarkUpdate,
};
use feature_engine::window::{
    EmissionAction, EventCountState, PositiveCount, ThresholdWindowState, TimeWindow,
    TimeWindowSpec, WindowDefinition, WindowError, WindowKind, WindowLifecycle, WindowParameter,
};

fn at(nanos: i64) -> UnixNanos {
    UnixNanos::new(nanos)
}

fn source(name: &str) -> SourceId {
    SourceId::new(SourceKind::Exchange, name.to_owned(), 1, format!("exchange:{name}:1"))
}

fn key(name: &str, partition: &str) -> WatermarkKey {
    WatermarkKey::new(source(name), PartitionId::new(partition).unwrap())
}

fn healthy(event: i64, known: i64) -> WatermarkUpdate {
    WatermarkUpdate::new(at(event), at(known), SourceHealthState::Healthy)
}

fn tracker(names: &[&str], lateness: u64) -> WatermarkTracker {
    let configs = names.iter().map(|name| PartitionConfig::required(key(name, "trades"))).collect();
    WatermarkTracker::try_new(
        configs,
        DurationNanos::new(lateness),
        vec![SourceHealthState::Healthy],
    )
    .unwrap()
}

fn window(start: i64, end: i64) -> TimeWindow {
    TimeWindow::try_new(at(start), at(end)).unwrap()
}

#[test]
fn timers_fire_in_deadline_order() {
    let mut clock = LogicalClock::try_new(at(10), 4).unwrap();
    let late = TimerId::new(7).unwrap();
    let early = TimerId::new(9).unwrap();
    clock.schedule(late, at(30)).unwrap();
    clock.schedule(early, at(20)).unwrap();
    assert_eq!(clock.advance_to(at(15)).unwrap().len(), 0);
    let fired = clock.advance_to(at(30)).unwrap();
    assert_eq!(fired.iter().map(|id| id.value()).collect::<Vec<u64>>(), vec![9, 7]);
    assert_eq!(clock.now().value(), 30);
}

#[test]
fn clock_refuses_what_it_must() {
    assert!(matches!(TimerId::new(0), Err(ClockError::InvalidTimerId)));
    assert!(matches!(LogicalClock::try_new(at(0), 4), Err(ClockError::InvalidClock)));
    let mut clock = LogicalClock::try_new(at(10), 1).unwrap();
    let id = TimerId::new(1).unwrap();
    assert!(matches!(clock.schedule(id, at(9)), Err(ClockError::DeadlineBeforeNow)));
    clock.schedule(id, at(11)).unwrap();
    assert!(matches!(clock.schedule(id, at(12)), Err(ClockError::DuplicateTimer)));
    assert!(matches!(
        clock.schedule(TimerId::new(2).unwrap(), at(12)),
        Err(ClockError::TimerCapacity)
    ));
    assert!(matches!(clock.advance_to(at(9)), Err(ClockError::Regression { .. })));
    assert!(clock.cancel(id));
    assert!(!clock.cancel(id));
    assert!(matches!(
        RecordedTimestamp::try_new(at(0), at(1)),
        Err(ClockError::InvalidRecordedTimestamp)
    ));
}

#[test]
fn recorded_clock_follows_its_basis() {
    let logical = LogicalClock::try_new(at(1), 2).unwrap();
    let mut clock = RecordedClock::try_new(logical, ClockBasis::ReceiveTime);
    clock.schedule(TimerId::new(3).unwrap(), at(50)).unwrap();
    let stamp = RecordedTimestamp::try_new(at(60), at(40)).unwrap();
    assert_eq!(clock.advance(stamp).unwrap().len(), 0);
    assert_eq!(clock.now().value(), 40);
}

fn time_definition(kind: WindowKind, extent: u64, advance: Option<u64>) -> WindowDefinition {
    WindowDefinition {
        id: "w".to_owned(),
        kind,
        parameter: WindowParameter::Time {
            extent: DurationNanos::new(extent),
            advance: advance.map(DurationNanos::new),
        },
    }
}

#[test]
fn tumbling_windows_do_not_overlap() {
    let definition = time_definition(WindowKind::Tumbling, 10, None);
    let spec = TimeWindowSpec::try_from_definition(&definition).unwrap();
    let windows = spec.windows_for(at(25)).unwrap();
    assert_eq!(windows.len(), 1);
    assert_eq!((windows[0].start().value(), windows[0].end().value()), (20, 30));
    assert!(matches!(spec.windows_for(at(0)), Err(WindowError::InvalidEventTime)));
}

#[test]
fn sliding_windows_hold_each_event_several_times() {
    let definition = time_definition(WindowKind::Sliding, 30, Some(10));
    let spec = TimeWindowSpec::try_from_definition(&definition).unwrap();
    let windows = spec.windows_for(at(105)).unwrap();
    let bounds: Vec<(i64, i64)> =
        windows.iter().map(|w| (w.start().value(), w.end().value())).collect();
    assert_eq!(bounds, vec![(80, 110), (90, 120), (100, 130)]);
}

#[test]
fn window_kinds_must_match_their_parameters() {
    let definition = time_definition(WindowKind::EventCount, 10, None);
    assert!(matches!(
        TimeWindowSpec::try_from_definition(&definition),
        Err(WindowError::DefinitionKindMismatch)
    ));
}

#[test]
fn count_windows_close_at_their_count() {
    let definition = WindowDefinition {
        id: "count".to_owned(),
        kind: WindowKind::EventCount,
        parameter: WindowParameter::EventCount {
            events: PositiveCount::new(3).unwrap(),
            advance: None,
        },
    };
    let mut state = EventCountState::try_from_definition(&definition).unwrap();
    assert!(state.observe().unwrap().is_none());
    assert!(state.observe().unwrap().is_none());
    let closed = state.observe().unwrap().unwrap();
    assert_eq!((closed.index, closed.start_event, closed.end_event), (0, 1, 3));
}

#[test]
fn threshold_windows_close_at_their_total() {
    let definition = WindowDefinition {
        id: "volume".to_owned(),
        kind: WindowKind::Volume,
        parameter: WindowParameter::Threshold { threshold: FixedDecimal::whole(10) },
    };
    let mut state = ThresholdWindowState::try_from_definition(&definition).unwrap();
    assert!(state.observe(FixedDecimal::whole(4)).unwrap().is_none());
    let closed = state.observe(FixedDecimal::whole(7)).unwrap().unwrap();
    assert_eq!(closed.total, FixedDecimal::whole(11));
    assert!(matches!(state.observe(FixedDecimal::zero()), Err(WindowError::InvalidAmount)));
}

#[test]
fn a_window_is_final_once_every_source_has_passed_it() {
    let mut tracker = tracker(&["binance", "kraken"], 5);
    tracker.advance(&key("binance", "trades"), healthy(40, 41)).unwrap();
    assert!(tracker.decision(window(10, 30)).state() != Finalization::Final);
    tracker.advance(&key("kraken", "trades"), healthy(36, 42)).unwrap();
    let decision = tracker.decision(window(10, 30));
    assert!(decision.state() == Finalization::Final);
    assert!(tracker.decision(window(10, 40)).state() != Finalization::Final);
    assert!(tracker.coverage_for_decision(decision).is_some());
    tracker.advance(&key("kraken", "trades"), healthy(37, 43)).unwrap();
    assert!(tracker.coverage_for_decision(decision).is_none());
}

#[test]
fn watermarks_never_go_back() {
    let mut tracker = tracker(&["binance"], 0);
    tracker.advance(&key("binance", "trades"), healthy(40, 41)).unwrap();
    assert!(matches!(
        tracker.advance(&key("binance", "trades"), healthy(39, 42)),
        Err(WatermarkError::Regression { .. })
    ));
    assert!(matches!(
        tracker.advance(&key("okx", "trades"), healthy(50, 51)),
        Err(WatermarkError::UnknownPartition)
    ));
    assert!(matches!(
        tracker.advance(&key("binance", "trades"), healthy(0, 51)),
        Err(WatermarkError::InvalidWatermark)
    ));
    assert_eq!(tracker.watermark(&key("binance", "trades")).unwrap().value(), 40);
}

#[test]
fn trackers_refuse_bad_configurations() {
    assert!(matches!(PartitionId::new(""), Err(WatermarkError::InvalidPartitionId)));
    let twice = vec![
        PartitionConfig::required(key("binance", "trades")),
        PartitionConfig::required(key("binance", "trades")),
    ];
    assert!(matches!(
        WatermarkTracker::try_new(
            twice,
            DurationNanos::new(1),
            vec![SourceHealthState::Healthy]
        ),
        Err(WatermarkError::DuplicatePartition)
    ));
    assert!(matches!(
        WatermarkTracker::try_new(
            Vec::new(),
            DurationNanos::new(1),
            vec![SourceHealthState::Healthy]
        ),
        Err(WatermarkError::InvalidTracker)
    ));
}

#[test]
fn policies_do_not_depend_on_the_order_of_partitions() {
    let one = tracker(&["binance", "kraken"], 5);
    let other = tracker(&["kraken", "binance"], 5);
    assert_eq!(one.policy_id(), other.policy_id());
    assert!(one.policy_id() != tracker(&["binance"], 5).policy_id());
}

#[test]
fn decisions_are_bound_to_their_entity() {
    let configs = vec![PartitionConfig::required(key("binance", "trades"))];
    let mut tracker = WatermarkTracker::try_new_for_entity(
        configs,
        DurationNanos::new(0),
        vec![SourceHealthState::Healthy],
        FeatureEntity::Source(source("binance")),
    )
    .unwrap();
    tracker.advance(&key("binance", "trades"), healthy(40, 41)).unwrap();
    let decision = tracker.decision(window(10, 30));
    assert!(tracker.validates_decision(decision, &FeatureEntity::Source(source("binance"))));
    assert!(!tracker.validates_decision(decision, &FeatureEntity::Global));
    assert!(decision.matches_required_sources(&vec![source("binance")]));
    assert!(!decision.matches_required_sources(&vec![source("kraken")]));
}

#[test]
fn lifecycles_number_their_revisions() {
    let mut tracker = tracker(&["binance"], 0);
    let mut lifecycle = WindowLifecycle::try_new(&tracker, 4, 4).unwrap();
    tracker.advance(&key("binance", "trades"), healthy(20, 21)).unwrap();
    let early = tracker.decision(window(10, 30));
    assert!(matches!(
        lifecycle.apply(early).unwrap(),
        EmissionAction::Provisional { revision: 1 }
    ));
    assert!(matches!(
        lifecycle.apply(early),
        Err(WindowError::StaleFinalizationDecision)
    ));
    tracker.advance(&key("binance", "trades"), healthy(40, 41)).unwrap();
    let last = tracker.decision(window(10, 30));
    assert!(matches!(lifecycle.apply(last).unwrap(), EmissionAction::Final { revision: 2 }));
    let history = lifecycle.history(window(10, 30)).unwrap();
    assert_eq!(history.len(), 2);
    assert!(history[1].finality() == FinalityState::Final);
    let correction =
        tracker.correction(&key("binance", "trades"), window(10, 30), at(15)).unwrap();
    assert!(matches!(
        lifecycle.correct(correction).unwrap(),
        EmissionAction::Corrected { replaces_revision: 2, revision: 3 }
    ));
}

#[test]
fn averages_replay_in_event_order() {
    let mut tracker = tracker(&["binance"], 0);
    let definition = WindowDefinition {
        id: "ewma".to_owned(),
        kind: WindowKind::ExponentiallyWeighted,
        parameter: WindowParameter::ExponentiallyWeighted { half_life: DurationNanos::new(10) },
    };
    let mut state = HalfLifeEwmaState::try_from_definition(&definition, 8, &tracker).unwrap();
    let one = FiniteF64::from_bits(1.0f64.to_bits()).unwrap();
    let three = FiniteF64::from_bits(3.0f64.to_bits()).unwrap();
    let first = state.plan_update(at(20), three).unwrap();
    assert_eq!(first.steps.len(), 0);
    state.record_update(at(20), three, three).unwrap();
    let replay = state.plan_update(at(10), one).unwrap();
    assert_eq!(replay.initial.event_time.value(), 10);
    assert_eq!(replay.steps.len(), 1);
    assert_eq!(replay.steps[0].elapsed_nanos, 10);
    assert_eq!(replay.half_life_nanos, 10);
    let average = FiniteF64::from_bits(2.0f64.to_bits()).unwrap();
    state.record_update(at(10), one, average).unwrap();
    assert_eq!(state.buffered_samples(), 2);
    assert_eq!(state.value().unwrap().bits(), 2.0f64.to_bits());
    tracker.advance(&key("binance", "trades"), healthy(15, 16)).unwrap();
    assert!(matches!(state.plan_compaction(&tracker).unwrap(), Compaction::Replay(_)));
    state.compact(&tracker, one).unwrap();
    assert_eq!(state.buffered_samples(), 1);
    assert!(matches!(
        state.plan_update(at(15), one),
        Err(WindowError::EwmaBeforeWatermark)
    ));
}

#[test]
fn not_a_number_is_not_finite() {
    assert!(FiniteF64::from_bits(f64::NAN.to_bits()).is_err());
    assert!(FiniteF64::from_bits(f64::INFINITY.to_bits()).is_err());
    assert!(FiniteF64::from_bits((-0.5f64).to_bits()).unwrap().is_negative());
}

#[test]
fn advancing_in_two_steps_fires_the_same_timers() {
    let make = || {
        let mut clock = LogicalClock::try_new(at(10), 4).unwrap();
        clock.schedule(TimerId::new(1).unwrap(), at(20)).unwrap();
        clock.schedule(TimerId::new(2).unwrap(), at(20)).unwrap();
        clock.schedule(TimerId::new(3).unwrap(), at(30)).unwrap();
        clock
    };
    let values = |fired: Vec<TimerId>| fired.iter().map(|id| id.value()).collect::<Vec<u64>>();
    let mut once = make();
    let whole = values(once.advance_to(at(30)).unwrap());
    let mut twice = make();
    let mut parts = values(twice.advance_to(at(20)).unwrap());
    parts.extend(values(twice.advance_to(at(30)).unwrap()));
    assert_eq!(whole, vec![1, 2, 3]);
    assert_eq!(whole, parts);
}

#[test]
fn cancelling_undoes_scheduling() {
    let mut clock = LogicalClock::try_new(at(10), 1).unwrap();
    let id = TimerId::new(1).unwrap();
    clock.schedule(id, at(20)).unwrap();
    assert!(clock.cancel(id));
    assert_eq!(clock.advance_to(at(30)).unwrap().len(), 0);
    clock.schedule(id, at(40)).unwrap();
}

#[test]
fn earlier_windows_are_final_too() {
    let mut tracker = tracker(&["binance"], 5);
    tracker.advance(&key("binance", "trades"), healthy(40, 41)).unwrap();
    assert!(tracker.decision(window(20, 35)).state() == Finalization::Final);
    assert!(tracker.decision(window(10, 20)).state() == Finalization::Final);
    tracker.advance(&key("binance", "trades"), healthy(60, 61)).unwrap();
    assert!(tracker.decision(window(20, 35)).state() == Finalization::Final);
    tracker
        .advance(
            &key("binance", "trades"),
            WatermarkUpdate::new(at(61), at(62), SourceHealthState::Unhealthy),
        )
        .unwrap();
    assert!(tracker.decision(window(20, 35)).state() != Finalization::Final);
}

#[test]
fn samples_are_replayed_alike_in_either_order_of_arrival() {
    let tracker = tracker(&["binance"], 0);
    let definition = WindowDefinition {
        id: "ewma".to_owned(),
        kind: WindowKind::ExponentiallyWeighted,
        parameter: WindowParameter::ExponentiallyWeighted { half_life: DurationNanos::new(10) },
    };
    let one = FiniteF64::from_bits(1.0f64.to_bits()).unwrap();
    let two = FiniteF64::from_bits(2.0f64.to_bits()).unwrap();
    let steps = |first: (i64, FiniteF64), second: (i64, FiniteF64)| {
        let mut state =
            HalfLifeEwmaState::try_from_definition(&definition, 4, &tracker).unwrap();
        state.record_update(at(first.0), first.1, one).unwrap();
        let replay = state.plan_update(at(second.0), second.1).unwrap();
        let elapsed: Vec<(i64, u64)> =
            replay.steps.iter().map(|step| (step.elapsed_nanos, step.value.bits())).collect();
        (replay.initial.event_time.value(), replay.initial.value.bits(), elapsed)
    };
    assert_eq!(steps((10, one), (25, two)), steps((25, two), (10, one)));
}

fn ewma_state(tracker: &WatermarkTracker) -> HalfLifeEwmaState {
    let definition = WindowDefinition {
        id: "ewma".to_owned(),
        kind: WindowKind::ExponentiallyWeighted,
        parameter: WindowParameter::ExponentiallyWeighted { half_life: DurationNanos::new(10) },
    };
    HalfLifeEwmaState::try_from_definition(&definition, 8, tracker).unwrap()
}

fn measured(value: f64) -> FiniteF64 {
    FiniteF64::from_bits(value.to_bits()).unwrap()
}

fn average_of(replay: &EwmaReplay) -> f64 {
    let mut value = f64::from_bits(replay.initial.value.bits());
    for step in &replay.steps {
        let decay =
            2.0f64.powf(-(step.elapsed_nanos as f64) / replay.half_life_nanos as f64);
        value = decay.mul_add(value, (1.0 - decay) * f64::from_bits(step.value.bits()));
    }
    value
}

fn update(state: &mut HalfLifeEwmaState, time: i64, value: f64) -> u64 {
    let average = average_of(&state.plan_update(at(time), measured(value)).unwrap());
    state.record_update(at(time), measured(value), measured(average)).unwrap();
    state.value().unwrap().bits()
}

#[test]
fn every_order_of_arrival_leaves_the_same_average() {
    let tracker = tracker(&["binance"], 0);
    let samples = [(10, 1.0), (17, 4.0), (25, 2.5), (40, 3.0)];
    let orders = [[0, 1, 2, 3], [3, 2, 1, 0], [2, 0, 3, 1], [1, 3, 0, 2]];
    let results: Vec<u64> = orders
        .iter()
        .map(|order| {
            let mut state = ewma_state(&tracker);
            order
                .iter()
                .map(|index: &usize| update(&mut state, samples[*index].0, samples[*index].1))
                .last()
                .unwrap()
        })
        .collect();
    assert!(results.iter().all(|bits| *bits == results[0]));
}

#[test]
fn compaction_keeps_later_averages() {
    let mut tracker = tracker(&["binance"], 0);
    let mut whole = ewma_state(&tracker);
    let mut compacted = ewma_state(&tracker);
    for (time, value) in [(10, 1.0), (17, 4.0), (25, 2.5)] {
        update(&mut whole, time, value);
        update(&mut compacted, time, value);
    }
    let before = compacted.value();
    tracker.advance(&key("binance", "trades"), healthy(20, 21)).unwrap();
    let replayed = match compacted.plan_compaction(&tracker).unwrap() {
        Compaction::Replay(replay) => average_of(&replay),
        _ => unreachable!(),
    };
    compacted.compact(&tracker, measured(replayed)).unwrap();
    assert_eq!(compacted.compacted_through(), Some(at(20)));
    assert_eq!(compacted.buffered_samples(), 1);
    assert_eq!(compacted.value(), before);
    assert!(matches!(
        compacted.plan_update(at(20), measured(1.0)),
        Err(WindowError::EwmaBeforeWatermark)
    ));
    for (time, value) in [(40, 3.0), (22, 7.0)] {
        assert_eq!(update(&mut whole, time, value), update(&mut compacted, time, value));
    }
}

#[test]
fn windows_are_refused_before_they_are_counted_in_steps() {
    let still = TimeWindowSpec::Sliding {
        extent: DurationNanos::new(10),
        advance: DurationNanos::new(0),
        anchor: at(0),
    };
    assert!(matches!(still.windows_for(at(0)), Err(WindowError::InvalidEventTime)));
    let huge = TimeWindowSpec::Sliding {
        extent: DurationNanos::new(u64::MAX),
        advance: DurationNanos::new(0),
        anchor: at(0),
    };
    assert!(matches!(huge.windows_for(at(5)), Err(WindowError::InvalidWindowSpec)));
    let far = TimeWindowSpec::Tumbling { extent: DurationNanos::new(0), anchor: at(i64::MIN) };
    assert!(matches!(far.windows_for(at(5)), Err(WindowError::ArithmeticOverflow)));
}
