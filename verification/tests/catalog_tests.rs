use feature_engine::domain::UnixNanos;
use feature_engine::features::catalog::{task_four_definitions, Task4FeatureKind};
use feature_engine::features::microstructure_catalog::{
    task_five_definitions, task_five_recipe, task_five_recipes,
};
use feature_engine::features::task6_catalog::{
    task_six_definitions, task_six_recipe, task_six_recipes, Task6ComputationAvailability,
};
use feature_engine::features::FeatureComputationError;
use feature_engine::registry::{
    find_definition, valid_release_version, EntityScope, FeatureConsumptionRole, FeatureValueType,
    FeatureVersion,
};
use feature_engine::window::TimeWindow;
use std::collections::BTreeSet;

#[test]
fn catalogues_are_closed_and_distinct() {
    let five = task_five_recipes();
    let six = task_six_recipes();
    assert_eq!(five.len(), 77);
    assert_eq!(six.len(), 63);
    let mut ids: BTreeSet<&str> = BTreeSet::new();
    let mut formulas: BTreeSet<&str> = BTreeSet::new();
    for kind in Task4FeatureKind::all() {
        assert!(ids.insert(kind.id()));
        assert!(formulas.insert(kind.formula()));
    }
    for recipe in &five {
        assert!(ids.insert(recipe.id()));
    }
    for recipe in &six {
        assert!(ids.insert(recipe.id()));
    }
}

#[test]
fn recipes_are_found_under_their_own_ids() {
    for recipe in task_five_recipes() {
        assert_eq!(task_five_recipe(recipe.id()).unwrap().formula_identity(), recipe.formula_identity());
    }
    for recipe in task_six_recipes() {
        assert_eq!(task_six_recipe(recipe.id()).unwrap().id(), recipe.id());
    }
    assert!(task_five_recipe("no_such_recipe").is_none());
    assert!(task_six_recipe("no_such_recipe").is_none());
}

#[test]
fn microstructure_recipes_say_what_they_are() {
    let volume = task_five_recipe("signed_volume_at_price").unwrap();
    assert!(volume.value_type() == FeatureValueType::FixedDecimalMap);
    assert_eq!(volume.window_id(), "rolling_1m");
    assert_eq!(
        task_five_recipe("book_half_life_ns").unwrap().window_id(),
        "rolling_15m"
    );
    assert_eq!(
        task_five_recipe("microprice").unwrap().formula_identity(),
        "(ask-price*bid-qty+bid-price*ask-qty)/(bid-qty+ask-qty)"
    );
}

#[test]
fn quality_recipes_say_what_they_are() {
    let implemented = task_six_recipes()
        .iter()
        .filter(|recipe| {
            recipe.computation_availability() == Task6ComputationAvailability::Implemented
        })
        .count();
    assert_eq!(implemented, 35);
    let gate = task_six_recipe("source_health_gate").unwrap();
    assert!(gate.consumption_role() == FeatureConsumptionRole::GatingOnly);
    assert!(gate.entity() == EntityScope::Source);
    assert!(gate.value_type() == FeatureValueType::Boolean);
    assert_eq!(gate.required_inputs(), vec!["collector.quality_gate_receipt"]);
    assert_eq!(task_six_recipe("venue_lead_lag").unwrap().window_id(), "rolling_1h");
}

#[test]
fn formula_hashes_tell_recipes_apart() {
    let mut hashes: BTreeSet<[u8; 32]> = BTreeSet::new();
    for recipe in task_five_recipes() {
        assert!(hashes.insert(recipe.formula_hash()));
    }
    for recipe in task_six_recipes() {
        assert!(hashes.insert(recipe.formula_hash()));
    }
    for kind in Task4FeatureKind::all() {
        assert!(hashes.insert(kind.formula_hash()));
    }
}

#[test]
fn a_formula_hash_is_the_digest_of_its_framed_parts() {
    let recipe = task_five_recipe("relative_spread").unwrap();
    let mut bytes: Vec<u8> = b"crypto-intelligence/task5-microstructure-formula/v1".to_vec();
    let mut frame = |part: &[u8]| {
        bytes.extend_from_slice(&(part.len() as u64).to_be_bytes());
        bytes.extend_from_slice(part);
    };
    frame(b"relative_spread");
    frame(b"1.0.0");
    frame(b"absolute-spread/same-venue-midpoint");
    frame(b"tumbling_1s");
    bytes.extend_from_slice(&1_000_000_000u64.to_be_bytes());
    bytes.extend_from_slice(&3u64.to_be_bytes());
    let mut frame = |part: &[u8]| {
        bytes.extend_from_slice(&(part.len() as u64).to_be_bytes());
        bytes.extend_from_slice(part);
    };
    frame(b"instrument.definition");
    frame(b"orderbook.trusted_l2");
    frame(b"quality.trusted_book_state");
    bytes.extend_from_slice(&256u64.to_be_bytes());
    bytes.extend_from_slice(&4_096u64.to_be_bytes());
    bytes.extend_from_slice(&100_000u64.to_be_bytes());
    assert_eq!(recipe.formula_hash(), *blake3::hash(&bytes).as_bytes());
}

#[test]
fn definitions_are_registered_under_their_versions() {
    let four = task_four_definitions();
    let five = task_five_definitions();
    let six = task_six_definitions();
    assert_eq!(four.len(), Task4FeatureKind::all().len());
    let version = FeatureVersion::new(1, 0, 0);
    let place = find_definition(&five, "microprice", version);
    assert!(five[place].same(&task_five_recipe("microprice").unwrap().definition()));
    assert!(!five[place].same(&task_five_recipe("weighted_midpoint").unwrap().definition()));
    assert_eq!(find_definition(&six, "microprice", version), six.len());
    assert_eq!(
        five[place].documentation,
        "docs/data-dictionary/features.md#microprice"
    );
    let gate = &six[find_definition(&six, "source_health_gate", version)];
    assert_eq!(gate.documentation, "docs/data-dictionary/features.md#source-health-gate");
    assert_eq!(gate.quality_gate.minimum_quality.millionths, 0);
}

#[test]
fn output_windows_are_the_registered_ones() {
    let window = TimeWindow::try_new(
        UnixNanos::new(300_000_000_000),
        UnixNanos::new(600_000_000_000),
    )
    .unwrap();
    assert_eq!(Task4FeatureKind::LogReturn.output_window_id(window), Ok("rolling_5m"));
    let odd = TimeWindow::try_new(UnixNanos::new(1), UnixNanos::new(7)).unwrap();
    assert_eq!(
        Task4FeatureKind::LogReturn.output_window_id(odd),
        Err(FeatureComputationError::InvalidParameter)
    );
}

#[test]
fn versions_are_read_and_written() {
    assert_eq!(FeatureVersion::new(1, 20, 3).text(), "1.20.3");
    assert!(valid_release_version("1.0.0"));
    assert!(!valid_release_version("0.9.0"));
    assert!(!valid_release_version("1.0.0-beta"));
    assert!(!valid_release_version("1.0.0+build"));
    assert!(!valid_release_version("1.0"));
    assert!(!valid_release_version("one"));
}
