//! Closed registry catalogue for market-microstructure outputs.

use vstd::prelude::*;

use super::catalog::{FIVE_SECONDS, ONE_DAY};
use super::recipe::{value_type_code, value_type_tag, RecipeWindow, ONE_SECOND};
use crate::digest::{
    blake3_digest, blake3_hash, encoded_u64, framed, labelled, put_framed, put_u64, utf8,
};
use crate::domain::{DurationNanos, QualityScore, SourceHealthState};
use crate::registry::{
    documentation_for, documentation_of, same_text, text_views, window_views, DefinitionView,
    EntityScope, FeatureConsumptionRole, FeatureDefinition, FeatureStatus, FeatureValueType,
    FeatureVersion, NormalizationKind, QualityGate,
};
use crate::window::WindowDefinition;

verus! {

/// What a recipe needs.
#[derive(Clone, Copy, Debug, PartialEq, Eq, Structural)]
pub enum Task5Inputs {
    Book,
    BookHistory,
    BookUsd,
    Flow,
    BookPolicy,
    FlowPolicy,
    BookFlowPolicy,
    Lifecycle,
}

impl Task5Inputs {
    /// The inputs by name.
    pub open spec fn names(self) -> Seq<Seq<char>> {
        match self {
            Task5Inputs::Book => seq![
                "instrument.definition"@,
                "orderbook.trusted_l2"@,
                "quality.trusted_book_state"@,
            ],
            Task5Inputs::BookHistory => seq![
                "instrument.definition"@,
                "orderbook.trusted_l2"@,
                "quality.book_evidence_policy"@,
            ],
            Task5Inputs::BookUsd => seq![
                "instrument.definition"@,
                "orderbook.trusted_l2"@,
                "quality.trusted_book_state"@,
                "reference.quote_to_usd"@,
            ],
            Task5Inputs::Flow => seq![
                "aggressor.authority"@,
                "normalized.trades"@,
            ],
            Task5Inputs::BookPolicy => seq![
                "instrument.definition"@,
                "orderbook.trusted_l2"@,
                "policy.microstructure_thresholds"@,
                "quality.trusted_book_state"@,
            ],
            Task5Inputs::FlowPolicy => seq![
                "aggressor.authority"@,
                "normalized.trades"@,
                "policy.microstructure_thresholds"@,
            ],
            Task5Inputs::BookFlowPolicy => seq![
                "aggressor.authority"@,
                "normalized.trades"@,
                "orderbook.trusted_l2"@,
                "policy.microstructure_thresholds"@,
                "quality.book_evidence_policy"@,
            ],
            Task5Inputs::Lifecycle => seq![
                "aggressor.authority"@,
                "lifecycle.certified_l3"@,
                "normalized.trades"@,
            ],
        }
    }

    pub fn list(self) -> (inputs: Vec<&'static str>)
        ensures
            text_views(inputs@) == self.names(),
    {
        let mut inputs: Vec<&'static str> = Vec::new();
        match self {
            Task5Inputs::Book => {
                inputs.push("instrument.definition");
                inputs.push("orderbook.trusted_l2");
                inputs.push("quality.trusted_book_state");
            },
            Task5Inputs::BookHistory => {
                inputs.push("instrument.definition");
                inputs.push("orderbook.trusted_l2");
                inputs.push("quality.book_evidence_policy");
            },
            Task5Inputs::BookUsd => {
                inputs.push("instrument.definition");
                inputs.push("orderbook.trusted_l2");
                inputs.push("quality.trusted_book_state");
                inputs.push("reference.quote_to_usd");
            },
            Task5Inputs::Flow => {
                inputs.push("aggressor.authority");
                inputs.push("normalized.trades");
            },
            Task5Inputs::BookPolicy => {
                inputs.push("instrument.definition");
                inputs.push("orderbook.trusted_l2");
                inputs.push("policy.microstructure_thresholds");
                inputs.push("quality.trusted_book_state");
            },
            Task5Inputs::FlowPolicy => {
                inputs.push("aggressor.authority");
                inputs.push("normalized.trades");
                inputs.push("policy.microstructure_thresholds");
            },
            Task5Inputs::BookFlowPolicy => {
                inputs.push("aggressor.authority");
                inputs.push("normalized.trades");
                inputs.push("orderbook.trusted_l2");
                inputs.push("policy.microstructure_thresholds");
                inputs.push("quality.book_evidence_policy");
            },
            Task5Inputs::Lifecycle => {
                inputs.push("aggressor.authority");
                inputs.push("lifecycle.certified_l3");
                inputs.push("normalized.trades");
            },
        }
        proof {
            assert(text_views(inputs@) =~= self.names());
        }
        inputs
    }
}

/// One immutable microstructure recipe.
#[derive(Clone, Copy, Debug)]
pub struct Task5FeatureRecipe {
    pub id: &'static str,
    pub formula: &'static str,
    pub value_type: FeatureValueType,
    pub inputs: Task5Inputs,
    pub window: RecipeWindow,
}

/// Texts one behind the other, each framed by its length.
pub open spec fn framed_all(texts: Seq<Seq<char>>) -> Seq<u8>
    decreases texts.len(),
{
    if texts.len() == 0 {
        Seq::empty()
    } else {
        framed_all(texts.drop_last()) + framed(utf8(texts.last()))
    }
}

pub(crate) fn put_framed_all(buffer: &mut Vec<u8>, texts: &Vec<&'static str>)
    ensures
        final(buffer)@ == old(buffer)@ + framed_all(text_views(texts@)),
{
    let ghost head = buffer@;
    let ghost names = text_views(texts@);
    let mut i: usize = 0;
    proof {
        assert(names.take(0) =~= Seq::empty());
        assert(buffer@ =~= head + framed_all(names.take(0)));
    }
    while i < texts.len()
        invariant
            i <= texts@.len(),
            names == text_views(texts@),
            buffer@ == head + framed_all(names.take(i as int)),
        decreases texts.len() - i,
    {
        put_framed(buffer, texts[i].as_bytes());
        proof {
            assert(names.take(i + 1).drop_last() =~= names.take(i as int));
            assert(names.take(i + 1).last() == texts@[i as int]@);
            assert(buffer@ =~= head + framed_all(names.take(i + 1)));
        }
        i += 1;
    }
    proof {
        assert(names.take(texts@.len() as int) =~= names);
    }
}

impl Task5FeatureRecipe {
    pub fn id(self) -> (id: &'static str)
        ensures
            id == self.id,
    {
        self.id
    }

    pub fn value_type(self) -> (value_type: FeatureValueType)
        ensures
            value_type == self.value_type,
    {
        self.value_type
    }

    pub fn formula_identity(self) -> (formula: &'static str)
        ensures
            formula == self.formula,
    {
        self.formula
    }

    pub fn window_id(self) -> (id: &'static str)
        ensures
            id@ == self.window.spec_identity(),
    {
        self.window.identity()
    }

    /// Everything that the formula's identity rests on, in order. The last three numbers are the
    /// most levels of a shape, the most observations of a recovery and the most trades of a flow.
    pub open spec fn formula_encoding(self) -> Seq<u8> {
        utf8("crypto-intelligence/task5-microstructure-formula/v1"@) + framed(utf8(self.id@))
            + framed(utf8("1.0.0"@)) + framed(utf8(self.formula@)) + framed(
            utf8(self.window.spec_identity()),
        ) + encoded_u64(self.window.spec_extent()) + encoded_u64(
            value_type_code(self.value_type) as u64,
        ) + framed_all(self.inputs.names()) + encoded_u64(
            super::orderbook::MAX_BOOK_SHAPE_LEVELS as u64,
        ) + encoded_u64(super::orderbook::MAX_RECOVERY_OBSERVATIONS as u64) + encoded_u64(
            super::orderflow::MAX_FLOW_TRADES as u64,
        )
    }

    pub open spec fn spec_formula_hash(self) -> Seq<u8> {
        blake3_digest(self.formula_encoding())
    }

    pub fn formula_hash(self) -> (digest: [u8; 32])
        ensures
            digest@ == self.spec_formula_hash(),
    {
        let mut buffer = labelled("crypto-intelligence/task5-microstructure-formula/v1");
        put_framed(&mut buffer, self.id.as_bytes());
        put_framed(&mut buffer, "1.0.0".as_bytes());
        put_framed(&mut buffer, self.formula.as_bytes());
        put_framed(&mut buffer, self.window.identity().as_bytes());
        put_u64(&mut buffer, self.window.extent());
        put_u64(&mut buffer, value_type_tag(self.value_type) as u64);
        let inputs = self.inputs.list();
        put_framed_all(&mut buffer, &inputs);
        put_u64(&mut buffer, super::orderbook::MAX_BOOK_SHAPE_LEVELS as u64);
        put_u64(&mut buffer, super::orderbook::MAX_RECOVERY_OBSERVATIONS as u64);
        put_u64(&mut buffer, super::orderflow::MAX_FLOW_TRADES as u64);
        blake3_hash(buffer.as_slice())
    }

    /// What the registry says of the recipe.
    pub open spec fn spec_definition(self) -> DefinitionView {
        DefinitionView {
            id: self.id@,
            version: FeatureVersion { major: 1, minor: 0, patch: 0 },
            status: FeatureStatus::Required,
            consumption_role: FeatureConsumptionRole::ModelEligible,
            value_type: self.value_type,
            entities: EntityScope::Instrument,
            required_inputs: self.inputs.names(),
            windows: seq![self.window.spec_definition()],
            output_resolution: ONE_SECOND,
            allowed_lateness: FIVE_SECONDS,
            time_to_live: ONE_DAY,
            normalization: NormalizationKind::Unnormalized,
            normalization_version: FeatureVersion { major: 1, minor: 0, patch: 0 },
            minimum_quality: 900_000,
            minimum_coverage: 1_000_000,
            allowed_health: seq![SourceHealthState::Healthy],
            formula_hash: self.spec_formula_hash(),
            documentation: documentation_of(self.id@),
        }
    }

    pub fn definition(self) -> (definition: FeatureDefinition)
        ensures
            definition@ == self.spec_definition(),
    {
        let mut allowed_health: Vec<SourceHealthState> = Vec::new();
        allowed_health.push(SourceHealthState::Healthy);
        let mut windows: Vec<WindowDefinition> = Vec::new();
        windows.push(self.window.definition());
        proof {
            assert(allowed_health@ =~= self.spec_definition().allowed_health);
            assert(window_views(windows@) =~= self.spec_definition().windows);
        }
        FeatureDefinition {
            id: self.id,
            version: FeatureVersion::new(1, 0, 0),
            status: FeatureStatus::Required,
            consumption_role: FeatureConsumptionRole::ModelEligible,
            value_type: self.value_type,
            entities: EntityScope::Instrument,
            required_inputs: self.inputs.list(),
            windows,
            output_resolution: DurationNanos::new(ONE_SECOND),
            allowed_lateness: DurationNanos::new(FIVE_SECONDS),
            time_to_live: DurationNanos::new(ONE_DAY),
            normalization: NormalizationKind::Unnormalized,
            normalization_version: FeatureVersion::new(1, 0, 0),
            quality_gate: QualityGate {
                minimum_quality: QualityScore { millionths: 900_000 },
                minimum_coverage: QualityScore { millionths: 1_000_000 },
                allowed_health,
            },
            formula_hash: self.formula_hash(),
            documentation: documentation_for(self.id),
        }
    }
}

pub open spec fn depth_recipes() -> Seq<Task5FeatureRecipe> {
    seq![
        Task5FeatureRecipe {
            id: "absolute_spread",
            formula: "ask-best-bid;exact",
            value_type: FeatureValueType::FixedDecimal,
            inputs: Task5Inputs::Book,
            window: RecipeWindow::Snapshot,
        },
        Task5FeatureRecipe {
            id: "relative_spread",
            formula: "absolute-spread/same-venue-midpoint",
            value_type: FeatureValueType::Float64,
            inputs: Task5Inputs::Book,
            window: RecipeWindow::Snapshot,
        },
        Task5FeatureRecipe {
            id: "bid_depth_1bps",
            formula: "sum-bid-quantity-within-inclusive-1bps",
            value_type: FeatureValueType::FixedDecimal,
            inputs: Task5Inputs::Book,
            window: RecipeWindow::Snapshot,
        },
        Task5FeatureRecipe {
            id: "bid_depth_2bps",
            formula: "sum-bid-quantity-within-inclusive-2bps",
            value_type: FeatureValueType::FixedDecimal,
            inputs: Task5Inputs::Book,
            window: RecipeWindow::Snapshot,
        },
        Task5FeatureRecipe {
            id: "bid_depth_5bps",
            formula: "sum-bid-quantity-within-inclusive-5bps",
            value_type: FeatureValueType::FixedDecimal,
            inputs: Task5Inputs::Book,
            window: RecipeWindow::Snapshot,
        },
        Task5FeatureRecipe {
            id: "bid_depth_10bps",
            formula: "sum-bid-quantity-within-inclusive-10bps",
            value_type: FeatureValueType::FixedDecimal,
            inputs: Task5Inputs::Book,
            window: RecipeWindow::Snapshot,
        },
        Task5FeatureRecipe {
            id: "bid_depth_25bps",
            formula: "sum-bid-quantity-within-inclusive-25bps",
            value_type: FeatureValueType::FixedDecimal,
            inputs: Task5Inputs::Book,
            window: RecipeWindow::Snapshot,
        },
        Task5FeatureRecipe {
            id: "bid_depth_50bps",
            formula: "sum-bid-quantity-within-inclusive-50bps",
            value_type: FeatureValueType::FixedDecimal,
            inputs: Task5Inputs::Book,
            window: RecipeWindow::Snapshot,
        },
        Task5FeatureRecipe {
            id: "bid_depth_100bps",
            formula: "sum-bid-quantity-within-inclusive-100bps",
            value_type: FeatureValueType::FixedDecimal,
            inputs: Task5Inputs::Book,
            window: RecipeWindow::Snapshot,
        },
        Task5FeatureRecipe {
            id: "ask_depth_1bps",
            formula: "sum-ask-quantity-within-inclusive-1bps",
            value_type: FeatureValueType::FixedDecimal,
            inputs: Task5Inputs::Book,
            window: RecipeWindow::Snapshot,
        },
        Task5FeatureRecipe {
            id: "ask_depth_2bps",
            formula: "sum-ask-quantity-within-inclusive-2bps",
            value_type: FeatureValueType::FixedDecimal,
            inputs: Task5Inputs::Book,
            window: RecipeWindow::Snapshot,
        },
        Task5FeatureRecipe {
            id: "ask_depth_5bps",
            formula: "sum-ask-quantity-within-inclusive-5bps",
            value_type: FeatureValueType::FixedDecimal,
            inputs: Task5Inputs::Book,
            window: RecipeWindow::Snapshot,
        },
        Task5FeatureRecipe {
            id: "ask_depth_10bps",
            formula: "sum-ask-quantity-within-inclusive-10bps",
            value_type: FeatureValueType::FixedDecimal,
            inputs: Task5Inputs::Book,
            window: RecipeWindow::Snapshot,
        },
        Task5FeatureRecipe {
            id: "ask_depth_25bps",
            formula: "sum-ask-quantity-within-inclusive-25bps",
            value_type: FeatureValueType::FixedDecimal,
            inputs: Task5Inputs::Book,
            window: RecipeWindow::Snapshot,
        },
        Task5FeatureRecipe {
            id: "ask_depth_50bps",
            formula: "sum-ask-quantity-within-inclusive-50bps",
            value_type: FeatureValueType::FixedDecimal,
            inputs: Task5Inputs::Book,
            window: RecipeWindow::Snapshot,
        },
        Task5FeatureRecipe {
            id: "ask_depth_100bps",
            formula: "sum-ask-quantity-within-inclusive-100bps",
            value_type: FeatureValueType::FixedDecimal,
            inputs: Task5Inputs::Book,
            window: RecipeWindow::Snapshot,
        },
    ]
}

fn put_depth_recipes(list: &mut Vec<Task5FeatureRecipe>)
    ensures
        final(list)@ == old(list)@ + depth_recipes(),
{
    list.push(
        Task5FeatureRecipe {
            id: "absolute_spread",
            formula: "ask-best-bid;exact",
            value_type: FeatureValueType::FixedDecimal,
            inputs: Task5Inputs::Book,
            window: RecipeWindow::Snapshot,
        },
    );
    list.push(
        Task5FeatureRecipe {
            id: "relative_spread",
            formula: "absolute-spread/same-venue-midpoint",
            value_type: FeatureValueType::Float64,
            inputs: Task5Inputs::Book,
            window: RecipeWindow::Snapshot,
        },
    );
    list.push(
        Task5FeatureRecipe {
            id: "bid_depth_1bps",
            formula: "sum-bid-quantity-within-inclusive-1bps",
            value_type: FeatureValueType::FixedDecimal,
            inputs: Task5Inputs::Book,
            window: RecipeWindow::Snapshot,
        },
    );
    list.push(
        Task5FeatureRecipe {
            id: "bid_depth_2bps",
            formula: "sum-bid-quantity-within-inclusive-2bps",
            value_type: FeatureValueType::FixedDecimal,
            inputs: Task5Inputs::Book,
            window: RecipeWindow::Snapshot,
        },
    );
    list.push(
        Task5FeatureRecipe {
            id: "bid_depth_5bps",
            formula: "sum-bid-quantity-within-inclusive-5bps",
            value_type: FeatureValueType::FixedDecimal,
            inputs: Task5Inputs::Book,
            window: RecipeWindow::Snapshot,
        },
    );
    list.push(
        Task5FeatureRecipe {
            id: "bid_depth_10bps",
            formula: "sum-bid-quantity-within-inclusive-10bps",
            value_type: FeatureValueType::FixedDecimal,
            inputs: Task5Inputs::Book,
            window: RecipeWindow::Snapshot,
        },
    );
    list.push(
        Task5FeatureRecipe {
            id: "bid_depth_25bps",
            formula: "sum-bid-quantity-within-inclusive-25bps",
            value_type: FeatureValueType::FixedDecimal,
            inputs: Task5Inputs::Book,
            window: RecipeWindow::Snapshot,
        },
    );
    list.push(
        Task5FeatureRecipe {
            id: "bid_depth_50bps",
            formula: "sum-bid-quantity-within-inclusive-50bps",
            value_type: FeatureValueType::FixedDecimal,
            inputs: Task5Inputs::Book,
            window: RecipeWindow::Snapshot,
        },
    );
    list.push(
        Task5FeatureRecipe {
            id: "bid_depth_100bps",
            formula: "sum-bid-quantity-within-inclusive-100bps",
            value_type: FeatureValueType::FixedDecimal,
            inputs: Task5Inputs::Book,
            window: RecipeWindow::Snapshot,
        },
    );
    list.push(
        Task5FeatureRecipe {
            id: "ask_depth_1bps",
            formula: "sum-ask-quantity-within-inclusive-1bps",
            value_type: FeatureValueType::FixedDecimal,
            inputs: Task5Inputs::Book,
            window: RecipeWindow::Snapshot,
        },
    );
    list.push(
        Task5FeatureRecipe {
            id: "ask_depth_2bps",
            formula: "sum-ask-quantity-within-inclusive-2bps",
            value_type: FeatureValueType::FixedDecimal,
            inputs: Task5Inputs::Book,
            window: RecipeWindow::Snapshot,
        },
    );
    list.push(
        Task5FeatureRecipe {
            id: "ask_depth_5bps",
            formula: "sum-ask-quantity-within-inclusive-5bps",
            value_type: FeatureValueType::FixedDecimal,
            inputs: Task5Inputs::Book,
            window: RecipeWindow::Snapshot,
        },
    );
    list.push(
        Task5FeatureRecipe {
            id: "ask_depth_10bps",
            formula: "sum-ask-quantity-within-inclusive-10bps",
            value_type: FeatureValueType::FixedDecimal,
            inputs: Task5Inputs::Book,
            window: RecipeWindow::Snapshot,
        },
    );
    list.push(
        Task5FeatureRecipe {
            id: "ask_depth_25bps",
            formula: "sum-ask-quantity-within-inclusive-25bps",
            value_type: FeatureValueType::FixedDecimal,
            inputs: Task5Inputs::Book,
            window: RecipeWindow::Snapshot,
        },
    );
    list.push(
        Task5FeatureRecipe {
            id: "ask_depth_50bps",
            formula: "sum-ask-quantity-within-inclusive-50bps",
            value_type: FeatureValueType::FixedDecimal,
            inputs: Task5Inputs::Book,
            window: RecipeWindow::Snapshot,
        },
    );
    list.push(
        Task5FeatureRecipe {
            id: "ask_depth_100bps",
            formula: "sum-ask-quantity-within-inclusive-100bps",
            value_type: FeatureValueType::FixedDecimal,
            inputs: Task5Inputs::Book,
            window: RecipeWindow::Snapshot,
        },
    );
    proof {
        assert(list@ =~= old(list)@ + depth_recipes());
    }
}

pub open spec fn imbalance_recipes() -> Seq<Task5FeatureRecipe> {
    seq![
        Task5FeatureRecipe {
            id: "book_imbalance_1bps",
            formula: "(bid-depth-ask-depth)/(bid-depth+ask-depth);1bps",
            value_type: FeatureValueType::Float64,
            inputs: Task5Inputs::Book,
            window: RecipeWindow::Snapshot,
        },
        Task5FeatureRecipe {
            id: "book_imbalance_2bps",
            formula: "(bid-depth-ask-depth)/(bid-depth+ask-depth);2bps",
            value_type: FeatureValueType::Float64,
            inputs: Task5Inputs::Book,
            window: RecipeWindow::Snapshot,
        },
        Task5FeatureRecipe {
            id: "book_imbalance_5bps",
            formula: "(bid-depth-ask-depth)/(bid-depth+ask-depth);5bps",
            value_type: FeatureValueType::Float64,
            inputs: Task5Inputs::Book,
            window: RecipeWindow::Snapshot,
        },
        Task5FeatureRecipe {
            id: "book_imbalance_10bps",
            formula: "(bid-depth-ask-depth)/(bid-depth+ask-depth);10bps",
            value_type: FeatureValueType::Float64,
            inputs: Task5Inputs::Book,
            window: RecipeWindow::Snapshot,
        },
        Task5FeatureRecipe {
            id: "book_imbalance_25bps",
            formula: "(bid-depth-ask-depth)/(bid-depth+ask-depth);25bps",
            value_type: FeatureValueType::Float64,
            inputs: Task5Inputs::Book,
            window: RecipeWindow::Snapshot,
        },
        Task5FeatureRecipe {
            id: "book_imbalance_50bps",
            formula: "(bid-depth-ask-depth)/(bid-depth+ask-depth);50bps",
            value_type: FeatureValueType::Float64,
            inputs: Task5Inputs::Book,
            window: RecipeWindow::Snapshot,
        },
        Task5FeatureRecipe {
            id: "book_imbalance_100bps",
            formula: "(bid-depth-ask-depth)/(bid-depth+ask-depth);100bps",
            value_type: FeatureValueType::Float64,
            inputs: Task5Inputs::Book,
            window: RecipeWindow::Snapshot,
        },
        Task5FeatureRecipe {
            id: "weighted_midpoint",
            formula: "quantity-weighted-best-bid-ask-midpoint",
            value_type: FeatureValueType::Float64,
            inputs: Task5Inputs::Book,
            window: RecipeWindow::Snapshot,
        },
        Task5FeatureRecipe {
            id: "microprice",
            formula: "(ask-price*bid-qty+bid-price*ask-qty)/(bid-qty+ask-qty)",
            value_type: FeatureValueType::Float64,
            inputs: Task5Inputs::Book,
            window: RecipeWindow::Snapshot,
        },
    ]
}

fn put_imbalance_recipes(list: &mut Vec<Task5FeatureRecipe>)
    ensures
        final(list)@ == old(list)@ + imbalance_recipes(),
{
    list.push(
        Task5FeatureRecipe {
            id: "book_imbalance_1bps",
            formula: "(bid-depth-ask-depth)/(bid-depth+ask-depth);1bps",
            value_type: FeatureValueType::Float64,
            inputs: Task5Inputs::Book,
            window: RecipeWindow::Snapshot,
        },
    );
    list.push(
        Task5FeatureRecipe {
            id: "book_imbalance_2bps",
            formula: "(bid-depth-ask-depth)/(bid-depth+ask-depth);2bps",
            value_type: FeatureValueType::Float64,
            inputs: Task5Inputs::Book,
            window: RecipeWindow::Snapshot,
        },
    );
    list.push(
        Task5FeatureRecipe {
            id: "book_imbalance_5bps",
            formula: "(bid-depth-ask-depth)/(bid-depth+ask-depth);5bps",
            value_type: FeatureValueType::Float64,
            inputs: Task5Inputs::Book,
            window: RecipeWindow::Snapshot,
        },
    );
    list.push(
        Task5FeatureRecipe {
            id: "book_imbalance_10bps",
            formula: "(bid-depth-ask-depth)/(bid-depth+ask-depth);10bps",
            value_type: FeatureValueType::Float64,
            inputs: Task5Inputs::Book,
            window: RecipeWindow::Snapshot,
        },
    );
    list.push(
        Task5FeatureRecipe {
            id: "book_imbalance_25bps",
            formula: "(bid-depth-ask-depth)/(bid-depth+ask-depth);25bps",
            value_type: FeatureValueType::Float64,
            inputs: Task5Inputs::Book,
            window: RecipeWindow::Snapshot,
        },
    );
    list.push(
        Task5FeatureRecipe {
            id: "book_imbalance_50bps",
            formula: "(bid-depth-ask-depth)/(bid-depth+ask-depth);50bps",
            value_type: FeatureValueType::Float64,
            inputs: Task5Inputs::Book,
            window: RecipeWindow::Snapshot,
        },
    );
    list.push(
        Task5FeatureRecipe {
            id: "book_imbalance_100bps",
            formula: "(bid-depth-ask-depth)/(bid-depth+ask-depth);100bps",
            value_type: FeatureValueType::Float64,
            inputs: Task5Inputs::Book,
            window: RecipeWindow::Snapshot,
        },
    );
    list.push(
        Task5FeatureRecipe {
            id: "weighted_midpoint",
            formula: "quantity-weighted-best-bid-ask-midpoint",
            value_type: FeatureValueType::Float64,
            inputs: Task5Inputs::Book,
            window: RecipeWindow::Snapshot,
        },
    );
    list.push(
        Task5FeatureRecipe {
            id: "microprice",
            formula: "(ask-price*bid-qty+bid-price*ask-qty)/(bid-qty+ask-qty)",
            value_type: FeatureValueType::Float64,
            inputs: Task5Inputs::Book,
            window: RecipeWindow::Snapshot,
        },
    );
    proof {
        assert(list@ =~= old(list)@ + imbalance_recipes());
    }
}

pub open spec fn shape_recipes() -> Seq<Task5FeatureRecipe> {
    seq![
        Task5FeatureRecipe {
            id: "bid_book_slope",
            formula: "quadratic-cumulative-depth;bid-linear-coefficient;first-3-displayed-levels",
            value_type: FeatureValueType::Float64,
            inputs: Task5Inputs::Book,
            window: RecipeWindow::Snapshot,
        },
        Task5FeatureRecipe {
            id: "ask_book_slope",
            formula: "quadratic-cumulative-depth;ask-linear-coefficient;first-3-displayed-levels",
            value_type: FeatureValueType::Float64,
            inputs: Task5Inputs::Book,
            window: RecipeWindow::Snapshot,
        },
        Task5FeatureRecipe {
            id: "bid_book_convexity",
            formula: "quadratic-cumulative-depth;bid-second-derivative;first-3-displayed-levels",
            value_type: FeatureValueType::Float64,
            inputs: Task5Inputs::Book,
            window: RecipeWindow::Snapshot,
        },
        Task5FeatureRecipe {
            id: "ask_book_convexity",
            formula: "quadratic-cumulative-depth;ask-second-derivative;first-3-displayed-levels",
            value_type: FeatureValueType::Float64,
            inputs: Task5Inputs::Book,
            window: RecipeWindow::Snapshot,
        },
        Task5FeatureRecipe {
            id: "bid_liquidity_wall_distance",
            formula: "nearest-bid-level-with-quote-notional-at-least-threshold;distance-bps",
            value_type: FeatureValueType::Float64,
            inputs: Task5Inputs::BookPolicy,
            window: RecipeWindow::Snapshot,
        },
        Task5FeatureRecipe {
            id: "ask_liquidity_wall_distance",
            formula: "nearest-ask-level-with-quote-notional-at-least-threshold;distance-bps",
            value_type: FeatureValueType::Float64,
            inputs: Task5Inputs::BookPolicy,
            window: RecipeWindow::Snapshot,
        },
        Task5FeatureRecipe {
            id: "bid_price_level_gap_density",
            formula: "missing-ticks/inside-to-outer-tick-span;bid",
            value_type: FeatureValueType::Float64,
            inputs: Task5Inputs::Book,
            window: RecipeWindow::Snapshot,
        },
        Task5FeatureRecipe {
            id: "ask_price_level_gap_density",
            formula: "missing-ticks/inside-to-outer-tick-span;ask",
            value_type: FeatureValueType::Float64,
            inputs: Task5Inputs::Book,
            window: RecipeWindow::Snapshot,
        },
        Task5FeatureRecipe {
            id: "expected_buy_sweep_cost_usd_10000",
            formula: "consume-asks-to-10000-usd-using-point-in-time-quote-usd-conversion;relative-vwap-cost",
            value_type: FeatureValueType::Float64,
            inputs: Task5Inputs::BookUsd,
            window: RecipeWindow::Snapshot,
        },
        Task5FeatureRecipe {
            id: "expected_sell_sweep_cost_usd_10000",
            formula: "consume-bids-to-10000-usd-using-point-in-time-quote-usd-conversion;relative-vwap-cost",
            value_type: FeatureValueType::Float64,
            inputs: Task5Inputs::BookUsd,
            window: RecipeWindow::Snapshot,
        },
        Task5FeatureRecipe {
            id: "maximum_executable_buy_quote_notional",
            formula: "sum-ask-notional-within-inclusive-configured-slippage",
            value_type: FeatureValueType::FixedDecimal,
            inputs: Task5Inputs::BookPolicy,
            window: RecipeWindow::Snapshot,
        },
        Task5FeatureRecipe {
            id: "maximum_executable_sell_quote_notional",
            formula: "sum-bid-notional-within-inclusive-configured-slippage",
            value_type: FeatureValueType::FixedDecimal,
            inputs: Task5Inputs::BookPolicy,
            window: RecipeWindow::Snapshot,
        },
        Task5FeatureRecipe {
            id: "book_quote_age_ms",
            formula: "evaluation-time-minus-book-last-update-time;milliseconds",
            value_type: FeatureValueType::Integer,
            inputs: Task5Inputs::Book,
            window: RecipeWindow::Snapshot,
        },
    ]
}

fn put_shape_recipes(list: &mut Vec<Task5FeatureRecipe>)
    ensures
        final(list)@ == old(list)@ + shape_recipes(),
{
    list.push(
        Task5FeatureRecipe {
            id: "bid_book_slope",
            formula: "quadratic-cumulative-depth;bid-linear-coefficient;first-3-displayed-levels",
            value_type: FeatureValueType::Float64,
            inputs: Task5Inputs::Book,
            window: RecipeWindow::Snapshot,
        },
    );
    list.push(
        Task5FeatureRecipe {
            id: "ask_book_slope",
            formula: "quadratic-cumulative-depth;ask-linear-coefficient;first-3-displayed-levels",
            value_type: FeatureValueType::Float64,
            inputs: Task5Inputs::Book,
            window: RecipeWindow::Snapshot,
        },
    );
    list.push(
        Task5FeatureRecipe {
            id: "bid_book_convexity",
            formula: "quadratic-cumulative-depth;bid-second-derivative;first-3-displayed-levels",
            value_type: FeatureValueType::Float64,
            inputs: Task5Inputs::Book,
            window: RecipeWindow::Snapshot,
        },
    );
    list.push(
        Task5FeatureRecipe {
            id: "ask_book_convexity",
            formula: "quadratic-cumulative-depth;ask-second-derivative;first-3-displayed-levels",
            value_type: FeatureValueType::Float64,
            inputs: Task5Inputs::Book,
            window: RecipeWindow::Snapshot,
        },
    );
    list.push(
        Task5FeatureRecipe {
            id: "bid_liquidity_wall_distance",
            formula: "nearest-bid-level-with-quote-notional-at-least-threshold;distance-bps",
            value_type: FeatureValueType::Float64,
            inputs: Task5Inputs::BookPolicy,
            window: RecipeWindow::Snapshot,
        },
    );
    list.push(
        Task5FeatureRecipe {
            id: "ask_liquidity_wall_distance",
            formula: "nearest-ask-level-with-quote-notional-at-least-threshold;distance-bps",
            value_type: FeatureValueType::Float64,
            inputs: Task5Inputs::BookPolicy,
            window: RecipeWindow::Snapshot,
        },
    );
    list.push(
        Task5FeatureRecipe {
            id: "bid_price_level_gap_density",
            formula: "missing-ticks/inside-to-outer-tick-span;bid",
            value_type: FeatureValueType::Float64,
            inputs: Task5Inputs::Book,
            window: RecipeWindow::Snapshot,
        },
    );
    list.push(
        Task5FeatureRecipe {
            id: "ask_price_level_gap_density",
            formula: "missing-ticks/inside-to-outer-tick-span;ask",
            value_type: FeatureValueType::Float64,
            inputs: Task5Inputs::Book,
            window: RecipeWindow::Snapshot,
        },
    );
    list.push(
        Task5FeatureRecipe {
            id: "expected_buy_sweep_cost_usd_10000",
            formula: "consume-asks-to-10000-usd-using-point-in-time-quote-usd-conversion;relative-vwap-cost",
            value_type: FeatureValueType::Float64,
            inputs: Task5Inputs::BookUsd,
            window: RecipeWindow::Snapshot,
        },
    );
    list.push(
        Task5FeatureRecipe {
            id: "expected_sell_sweep_cost_usd_10000",
            formula: "consume-bids-to-10000-usd-using-point-in-time-quote-usd-conversion;relative-vwap-cost",
            value_type: FeatureValueType::Float64,
            inputs: Task5Inputs::BookUsd,
            window: RecipeWindow::Snapshot,
        },
    );
    list.push(
        Task5FeatureRecipe {
            id: "maximum_executable_buy_quote_notional",
            formula: "sum-ask-notional-within-inclusive-configured-slippage",
            value_type: FeatureValueType::FixedDecimal,
            inputs: Task5Inputs::BookPolicy,
            window: RecipeWindow::Snapshot,
        },
    );
    list.push(
        Task5FeatureRecipe {
            id: "maximum_executable_sell_quote_notional",
            formula: "sum-bid-notional-within-inclusive-configured-slippage",
            value_type: FeatureValueType::FixedDecimal,
            inputs: Task5Inputs::BookPolicy,
            window: RecipeWindow::Snapshot,
        },
    );
    list.push(
        Task5FeatureRecipe {
            id: "book_quote_age_ms",
            formula: "evaluation-time-minus-book-last-update-time;milliseconds",
            value_type: FeatureValueType::Integer,
            inputs: Task5Inputs::Book,
            window: RecipeWindow::Snapshot,
        },
    );
    proof {
        assert(list@ =~= old(list)@ + shape_recipes());
    }
}

pub open spec fn book_state_recipes() -> Seq<Task5FeatureRecipe> {
    seq![
        Task5FeatureRecipe {
            id: "bid_stale_side_duration_ns",
            formula: "evaluation-time-minus-last-observed-bid-change",
            value_type: FeatureValueType::Integer,
            inputs: Task5Inputs::BookHistory,
            window: RecipeWindow::Flow,
        },
        Task5FeatureRecipe {
            id: "ask_stale_side_duration_ns",
            formula: "evaluation-time-minus-last-observed-ask-change",
            value_type: FeatureValueType::Integer,
            inputs: Task5Inputs::BookHistory,
            window: RecipeWindow::Flow,
        },
        Task5FeatureRecipe {
            id: "bid_active_price_levels",
            formula: "count-positive-displayed-bid-levels",
            value_type: FeatureValueType::Integer,
            inputs: Task5Inputs::Book,
            window: RecipeWindow::Snapshot,
        },
        Task5FeatureRecipe {
            id: "ask_active_price_levels",
            formula: "count-positive-displayed-ask-levels",
            value_type: FeatureValueType::Integer,
            inputs: Task5Inputs::Book,
            window: RecipeWindow::Snapshot,
        },
        Task5FeatureRecipe {
            id: "local_book_entropy",
            formula: "normalized-shannon-entropy-over-displayed-quantity",
            value_type: FeatureValueType::Float64,
            inputs: Task5Inputs::Book,
            window: RecipeWindow::Snapshot,
        },
        Task5FeatureRecipe {
            id: "depth_concentration_by_level",
            formula: "displayed-quantity-herfindahl-index",
            value_type: FeatureValueType::Float64,
            inputs: Task5Inputs::Book,
            window: RecipeWindow::Snapshot,
        },
        Task5FeatureRecipe {
            id: "bid_depth_change",
            formula: "current-minus-prior-exact-bid-depth;same-policy-session-band",
            value_type: FeatureValueType::FixedDecimal,
            inputs: Task5Inputs::BookHistory,
            window: RecipeWindow::Flow,
        },
        Task5FeatureRecipe {
            id: "ask_depth_change",
            formula: "current-minus-prior-exact-ask-depth;same-policy-session-band",
            value_type: FeatureValueType::FixedDecimal,
            inputs: Task5Inputs::BookHistory,
            window: RecipeWindow::Flow,
        },
        Task5FeatureRecipe {
            id: "absolute_spread_change",
            formula: "current-minus-prior-exact-absolute-spread;same-policy-session",
            value_type: FeatureValueType::FixedDecimal,
            inputs: Task5Inputs::BookHistory,
            window: RecipeWindow::Flow,
        },
        Task5FeatureRecipe {
            id: "displayed_depth_replenishment_fraction",
            formula: "(later-depth-post-depth)/(pre-depth-post-depth);passive-side-proxy;point-in-time-recovery-policy-v1",
            value_type: FeatureValueType::Float64,
            inputs: Task5Inputs::BookFlowPolicy,
            window: RecipeWindow::Recovery,
        },
        Task5FeatureRecipe {
            id: "displayed_depth_recovery_time_ns",
            formula: "first-time-displayed-depth-recovers-100pct-within-15m;point-in-time-recovery-policy-v1",
            value_type: FeatureValueType::Integer,
            inputs: Task5Inputs::BookFlowPolicy,
            window: RecipeWindow::Recovery,
        },
        Task5FeatureRecipe {
            id: "book_half_life_ns",
            formula: "first-time-displayed-depth-recovers-50pct-within-15m;point-in-time-recovery-policy-v1",
            value_type: FeatureValueType::Integer,
            inputs: Task5Inputs::BookFlowPolicy,
            window: RecipeWindow::Recovery,
        },
    ]
}

fn put_book_state_recipes(list: &mut Vec<Task5FeatureRecipe>)
    ensures
        final(list)@ == old(list)@ + book_state_recipes(),
{
    list.push(
        Task5FeatureRecipe {
            id: "bid_stale_side_duration_ns",
            formula: "evaluation-time-minus-last-observed-bid-change",
            value_type: FeatureValueType::Integer,
            inputs: Task5Inputs::BookHistory,
            window: RecipeWindow::Flow,
        },
    );
    list.push(
        Task5FeatureRecipe {
            id: "ask_stale_side_duration_ns",
            formula: "evaluation-time-minus-last-observed-ask-change",
            value_type: FeatureValueType::Integer,
            inputs: Task5Inputs::BookHistory,
            window: RecipeWindow::Flow,
        },
    );
    list.push(
        Task5FeatureRecipe {
            id: "bid_active_price_levels",
            formula: "count-positive-displayed-bid-levels",
            value_type: FeatureValueType::Integer,
            inputs: Task5Inputs::Book,
            window: RecipeWindow::Snapshot,
        },
    );
    list.push(
        Task5FeatureRecipe {
            id: "ask_active_price_levels",
            formula: "count-positive-displayed-ask-levels",
            value_type: FeatureValueType::Integer,
            inputs: Task5Inputs::Book,
            window: RecipeWindow::Snapshot,
        },
    );
    list.push(
        Task5FeatureRecipe {
            id: "local_book_entropy",
            formula: "normalized-shannon-entropy-over-displayed-quantity",
            value_type: FeatureValueType::Float64,
            inputs: Task5Inputs::Book,
            window: RecipeWindow::Snapshot,
        },
    );
    list.push(
        Task5FeatureRecipe {
            id: "depth_concentration_by_level",
            formula: "displayed-quantity-herfindahl-index",
            value_type: FeatureValueType::Float64,
            inputs: Task5Inputs::Book,
            window: RecipeWindow::Snapshot,
        },
    );
    list.push(
        Task5FeatureRecipe {
            id: "bid_depth_change",
            formula: "current-minus-prior-exact-bid-depth;same-policy-session-band",
            value_type: FeatureValueType::FixedDecimal,
            inputs: Task5Inputs::BookHistory,
            window: RecipeWindow::Flow,
        },
    );
    list.push(
        Task5FeatureRecipe {
            id: "ask_depth_change",
            formula: "current-minus-prior-exact-ask-depth;same-policy-session-band",
            value_type: FeatureValueType::FixedDecimal,
            inputs: Task5Inputs::BookHistory,
            window: RecipeWindow::Flow,
        },
    );
    list.push(
        Task5FeatureRecipe {
            id: "absolute_spread_change",
            formula: "current-minus-prior-exact-absolute-spread;same-policy-session",
            value_type: FeatureValueType::FixedDecimal,
            inputs: Task5Inputs::BookHistory,
            window: RecipeWindow::Flow,
        },
    );
    list.push(
        Task5FeatureRecipe {
            id: "displayed_depth_replenishment_fraction",
            formula: "(later-depth-post-depth)/(pre-depth-post-depth);passive-side-proxy;point-in-time-recovery-policy-v1",
            value_type: FeatureValueType::Float64,
            inputs: Task5Inputs::BookFlowPolicy,
            window: RecipeWindow::Recovery,
        },
    );
    list.push(
        Task5FeatureRecipe {
            id: "displayed_depth_recovery_time_ns",
            formula: "first-time-displayed-depth-recovers-100pct-within-15m;point-in-time-recovery-policy-v1",
            value_type: FeatureValueType::Integer,
            inputs: Task5Inputs::BookFlowPolicy,
            window: RecipeWindow::Recovery,
        },
    );
    list.push(
        Task5FeatureRecipe {
            id: "book_half_life_ns",
            formula: "first-time-displayed-depth-recovers-50pct-within-15m;point-in-time-recovery-policy-v1",
            value_type: FeatureValueType::Integer,
            inputs: Task5Inputs::BookFlowPolicy,
            window: RecipeWindow::Recovery,
        },
    );
    proof {
        assert(list@ =~= old(list)@ + book_state_recipes());
    }
}

pub open spec fn flow_recipes() -> Seq<Task5FeatureRecipe> {
    seq![
        Task5FeatureRecipe {
            id: "aggressive_buy_count",
            formula: "count-authoritative-buy-aggressor-trades",
            value_type: FeatureValueType::Integer,
            inputs: Task5Inputs::Flow,
            window: RecipeWindow::Flow,
        },
        Task5FeatureRecipe {
            id: "aggressive_sell_count",
            formula: "count-authoritative-sell-aggressor-trades",
            value_type: FeatureValueType::Integer,
            inputs: Task5Inputs::Flow,
            window: RecipeWindow::Flow,
        },
        Task5FeatureRecipe {
            id: "aggressive_buy_quantity",
            formula: "sum-authoritative-buy-base-quantity",
            value_type: FeatureValueType::FixedDecimal,
            inputs: Task5Inputs::Flow,
            window: RecipeWindow::Flow,
        },
        Task5FeatureRecipe {
            id: "aggressive_sell_quantity",
            formula: "sum-authoritative-sell-base-quantity",
            value_type: FeatureValueType::FixedDecimal,
            inputs: Task5Inputs::Flow,
            window: RecipeWindow::Flow,
        },
        Task5FeatureRecipe {
            id: "aggressive_buy_notional",
            formula: "sum-authoritative-buy-quote-notional",
            value_type: FeatureValueType::FixedDecimal,
            inputs: Task5Inputs::Flow,
            window: RecipeWindow::Flow,
        },
        Task5FeatureRecipe {
            id: "aggressive_sell_notional",
            formula: "sum-authoritative-sell-quote-notional",
            value_type: FeatureValueType::FixedDecimal,
            inputs: Task5Inputs::Flow,
            window: RecipeWindow::Flow,
        },
        Task5FeatureRecipe {
            id: "signed_trade_count_imbalance",
            formula: "(buy-count-sell-count)/(buy-count+sell-count)",
            value_type: FeatureValueType::Float64,
            inputs: Task5Inputs::Flow,
            window: RecipeWindow::Flow,
        },
        Task5FeatureRecipe {
            id: "signed_trade_quantity_imbalance",
            formula: "(buy-quantity-sell-quantity)/(buy-quantity+sell-quantity)",
            value_type: FeatureValueType::Float64,
            inputs: Task5Inputs::Flow,
            window: RecipeWindow::Flow,
        },
        Task5FeatureRecipe {
            id: "signed_trade_notional_imbalance",
            formula: "(buy-notional-sell-notional)/(buy-notional+sell-notional)",
            value_type: FeatureValueType::Float64,
            inputs: Task5Inputs::Flow,
            window: RecipeWindow::Flow,
        },
        Task5FeatureRecipe {
            id: "top_of_book_ofi",
            formula: "cont-kukanov-stoikov-best-quote-ofi;buy-pressure-positive",
            value_type: FeatureValueType::FixedDecimal,
            inputs: Task5Inputs::BookHistory,
            window: RecipeWindow::Flow,
        },
    ]
}

fn put_flow_recipes(list: &mut Vec<Task5FeatureRecipe>)
    ensures
        final(list)@ == old(list)@ + flow_recipes(),
{
    list.push(
        Task5FeatureRecipe {
            id: "aggressive_buy_count",
            formula: "count-authoritative-buy-aggressor-trades",
            value_type: FeatureValueType::Integer,
            inputs: Task5Inputs::Flow,
            window: RecipeWindow::Flow,
        },
    );
    list.push(
        Task5FeatureRecipe {
            id: "aggressive_sell_count",
            formula: "count-authoritative-sell-aggressor-trades",
            value_type: FeatureValueType::Integer,
            inputs: Task5Inputs::Flow,
            window: RecipeWindow::Flow,
        },
    );
    list.push(
        Task5FeatureRecipe {
            id: "aggressive_buy_quantity",
            formula: "sum-authoritative-buy-base-quantity",
            value_type: FeatureValueType::FixedDecimal,
            inputs: Task5Inputs::Flow,
            window: RecipeWindow::Flow,
        },
    );
    list.push(
        Task5FeatureRecipe {
            id: "aggressive_sell_quantity",
            formula: "sum-authoritative-sell-base-quantity",
            value_type: FeatureValueType::FixedDecimal,
            inputs: Task5Inputs::Flow,
            window: RecipeWindow::Flow,
        },
    );
    list.push(
        Task5FeatureRecipe {
            id: "aggressive_buy_notional",
            formula: "sum-authoritative-buy-quote-notional",
            value_type: FeatureValueType::FixedDecimal,
            inputs: Task5Inputs::Flow,
            window: RecipeWindow::Flow,
        },
    );
    list.push(
        Task5FeatureRecipe {
            id: "aggressive_sell_notional",
            formula: "sum-authoritative-sell-quote-notional",
            value_type: FeatureValueType::FixedDecimal,
            inputs: Task5Inputs::Flow,
            window: RecipeWindow::Flow,
        },
    );
    list.push(
        Task5FeatureRecipe {
            id: "signed_trade_count_imbalance",
            formula: "(buy-count-sell-count)/(buy-count+sell-count)",
            value_type: FeatureValueType::Float64,
            inputs: Task5Inputs::Flow,
            window: RecipeWindow::Flow,
        },
    );
    list.push(
        Task5FeatureRecipe {
            id: "signed_trade_quantity_imbalance",
            formula: "(buy-quantity-sell-quantity)/(buy-quantity+sell-quantity)",
            value_type: FeatureValueType::Float64,
            inputs: Task5Inputs::Flow,
            window: RecipeWindow::Flow,
        },
    );
    list.push(
        Task5FeatureRecipe {
            id: "signed_trade_notional_imbalance",
            formula: "(buy-notional-sell-notional)/(buy-notional+sell-notional)",
            value_type: FeatureValueType::Float64,
            inputs: Task5Inputs::Flow,
            window: RecipeWindow::Flow,
        },
    );
    list.push(
        Task5FeatureRecipe {
            id: "top_of_book_ofi",
            formula: "cont-kukanov-stoikov-best-quote-ofi;buy-pressure-positive",
            value_type: FeatureValueType::FixedDecimal,
            inputs: Task5Inputs::BookHistory,
            window: RecipeWindow::Flow,
        },
    );
    proof {
        assert(list@ =~= old(list)@ + flow_recipes());
    }
}

pub open spec fn lifecycle_recipes() -> Seq<Task5FeatureRecipe> {
    seq![
        Task5FeatureRecipe {
            id: "placement_rate_per_second",
            formula: "certified-l3-place-count/window-seconds",
            value_type: FeatureValueType::Float64,
            inputs: Task5Inputs::Lifecycle,
            window: RecipeWindow::Flow,
        },
        Task5FeatureRecipe {
            id: "cancellation_rate_per_second",
            formula: "certified-l3-cancel-count/window-seconds",
            value_type: FeatureValueType::Float64,
            inputs: Task5Inputs::Lifecycle,
            window: RecipeWindow::Flow,
        },
        Task5FeatureRecipe {
            id: "modification_rate_per_second",
            formula: "certified-l3-modify-count/window-seconds",
            value_type: FeatureValueType::Float64,
            inputs: Task5Inputs::Lifecycle,
            window: RecipeWindow::Flow,
        },
        Task5FeatureRecipe {
            id: "cancellation_to_trade_ratio",
            formula: "certified-l3-cancel-count/aggressive-trade-count",
            value_type: FeatureValueType::Float64,
            inputs: Task5Inputs::Lifecycle,
            window: RecipeWindow::Flow,
        },
        Task5FeatureRecipe {
            id: "quote_to_trade_ratio",
            formula: "certified-l3-place-cancel-modify-count/aggressive-trade-count",
            value_type: FeatureValueType::Float64,
            inputs: Task5Inputs::Lifecycle,
            window: RecipeWindow::Flow,
        },
        Task5FeatureRecipe {
            id: "trade_intensity_per_second",
            formula: "authoritative-trade-count/window-seconds",
            value_type: FeatureValueType::Float64,
            inputs: Task5Inputs::Flow,
            window: RecipeWindow::Flow,
        },
        Task5FeatureRecipe {
            id: "trade_interarrival_coefficient_of_variation",
            formula: "population-standard-deviation-interarrival/mean-interarrival",
            value_type: FeatureValueType::Float64,
            inputs: Task5Inputs::Flow,
            window: RecipeWindow::Flow,
        },
        Task5FeatureRecipe {
            id: "signed_volume_at_price",
            formula: "sum(sign-aggressor*base-quantity)-by-exact-price",
            value_type: FeatureValueType::FixedDecimalMap,
            inputs: Task5Inputs::Flow,
            window: RecipeWindow::Flow,
        },
    ]
}

fn put_lifecycle_recipes(list: &mut Vec<Task5FeatureRecipe>)
    ensures
        final(list)@ == old(list)@ + lifecycle_recipes(),
{
    list.push(
        Task5FeatureRecipe {
            id: "placement_rate_per_second",
            formula: "certified-l3-place-count/window-seconds",
            value_type: FeatureValueType::Float64,
            inputs: Task5Inputs::Lifecycle,
            window: RecipeWindow::Flow,
        },
    );
    list.push(
        Task5FeatureRecipe {
            id: "cancellation_rate_per_second",
            formula: "certified-l3-cancel-count/window-seconds",
            value_type: FeatureValueType::Float64,
            inputs: Task5Inputs::Lifecycle,
            window: RecipeWindow::Flow,
        },
    );
    list.push(
        Task5FeatureRecipe {
            id: "modification_rate_per_second",
            formula: "certified-l3-modify-count/window-seconds",
            value_type: FeatureValueType::Float64,
            inputs: Task5Inputs::Lifecycle,
            window: RecipeWindow::Flow,
        },
    );
    list.push(
        Task5FeatureRecipe {
            id: "cancellation_to_trade_ratio",
            formula: "certified-l3-cancel-count/aggressive-trade-count",
            value_type: FeatureValueType::Float64,
            inputs: Task5Inputs::Lifecycle,
            window: RecipeWindow::Flow,
        },
    );
    list.push(
        Task5FeatureRecipe {
            id: "quote_to_trade_ratio",
            formula: "certified-l3-place-cancel-modify-count/aggressive-trade-count",
            value_type: FeatureValueType::Float64,
            inputs: Task5Inputs::Lifecycle,
            window: RecipeWindow::Flow,
        },
    );
    list.push(
        Task5FeatureRecipe {
            id: "trade_intensity_per_second",
            formula: "authoritative-trade-count/window-seconds",
            value_type: FeatureValueType::Float64,
            inputs: Task5Inputs::Flow,
            window: RecipeWindow::Flow,
        },
    );
    list.push(
        Task5FeatureRecipe {
            id: "trade_interarrival_coefficient_of_variation",
            formula: "population-standard-deviation-interarrival/mean-interarrival",
            value_type: FeatureValueType::Float64,
            inputs: Task5Inputs::Flow,
            window: RecipeWindow::Flow,
        },
    );
    list.push(
        Task5FeatureRecipe {
            id: "signed_volume_at_price",
            formula: "sum(sign-aggressor*base-quantity)-by-exact-price",
            value_type: FeatureValueType::FixedDecimalMap,
            inputs: Task5Inputs::Flow,
            window: RecipeWindow::Flow,
        },
    );
    proof {
        assert(list@ =~= old(list)@ + lifecycle_recipes());
    }
}

pub open spec fn impact_recipes() -> Seq<Task5FeatureRecipe> {
    seq![
        Task5FeatureRecipe {
            id: "trade_shock_midprice_impact",
            formula: "side-signed-mid-response-minus-pre-mid-over-pre-mid;point-in-time-threshold-policy-v1",
            value_type: FeatureValueType::Float64,
            inputs: Task5Inputs::BookFlowPolicy,
            window: RecipeWindow::Flow,
        },
        Task5FeatureRecipe {
            id: "trade_effective_spread",
            formula: "quantity-weighted-2*side*(trade-price-pre-mid)/pre-mid",
            value_type: FeatureValueType::Float64,
            inputs: Task5Inputs::BookFlowPolicy,
            window: RecipeWindow::Flow,
        },
        Task5FeatureRecipe {
            id: "trade_realized_spread",
            formula: "quantity-weighted-2*side*(trade-price-response-mid)/pre-mid",
            value_type: FeatureValueType::Float64,
            inputs: Task5Inputs::BookFlowPolicy,
            window: RecipeWindow::Flow,
        },
        Task5FeatureRecipe {
            id: "trade_adverse_selection_proxy",
            formula: "effective-spread-minus-realized-spread",
            value_type: FeatureValueType::Float64,
            inputs: Task5Inputs::BookFlowPolicy,
            window: RecipeWindow::Flow,
        },
        Task5FeatureRecipe {
            id: "trade_print_sweep_direction",
            formula: "(qualifying-buy-episodes-qualifying-sell-episodes)/all-qualifying-episodes",
            value_type: FeatureValueType::Float64,
            inputs: Task5Inputs::FlowPolicy,
            window: RecipeWindow::Flow,
        },
        Task5FeatureRecipe {
            id: "large_trade_cluster_count",
            formula: "count-time-clusters-with-at-least-two-fixed-threshold-large-trades",
            value_type: FeatureValueType::Integer,
            inputs: Task5Inputs::FlowPolicy,
            window: RecipeWindow::Flow,
        },
        Task5FeatureRecipe {
            id: "clustered_large_trade_count",
            formula: "count-prints-in-qualifying-large-trade-clusters",
            value_type: FeatureValueType::Integer,
            inputs: Task5Inputs::FlowPolicy,
            window: RecipeWindow::Flow,
        },
        Task5FeatureRecipe {
            id: "clustered_large_trade_notional",
            formula: "sum-exact-quote-notional-in-qualifying-large-trade-clusters",
            value_type: FeatureValueType::FixedDecimal,
            inputs: Task5Inputs::FlowPolicy,
            window: RecipeWindow::Flow,
        },
        Task5FeatureRecipe {
            id: "large_trade_cluster_activity_rate",
            formula: "qualifying-large-trade-cluster-count/window-seconds",
            value_type: FeatureValueType::Float64,
            inputs: Task5Inputs::FlowPolicy,
            window: RecipeWindow::Flow,
        },
    ]
}

fn put_impact_recipes(list: &mut Vec<Task5FeatureRecipe>)
    ensures
        final(list)@ == old(list)@ + impact_recipes(),
{
    list.push(
        Task5FeatureRecipe {
            id: "trade_shock_midprice_impact",
            formula: "side-signed-mid-response-minus-pre-mid-over-pre-mid;point-in-time-threshold-policy-v1",
            value_type: FeatureValueType::Float64,
            inputs: Task5Inputs::BookFlowPolicy,
            window: RecipeWindow::Flow,
        },
    );
    list.push(
        Task5FeatureRecipe {
            id: "trade_effective_spread",
            formula: "quantity-weighted-2*side*(trade-price-pre-mid)/pre-mid",
            value_type: FeatureValueType::Float64,
            inputs: Task5Inputs::BookFlowPolicy,
            window: RecipeWindow::Flow,
        },
    );
    list.push(
        Task5FeatureRecipe {
            id: "trade_realized_spread",
            formula: "quantity-weighted-2*side*(trade-price-response-mid)/pre-mid",
            value_type: FeatureValueType::Float64,
            inputs: Task5Inputs::BookFlowPolicy,
            window: RecipeWindow::Flow,
        },
    );
    list.push(
        Task5FeatureRecipe {
            id: "trade_adverse_selection_proxy",
            formula: "effective-spread-minus-realized-spread",
            value_type: FeatureValueType::Float64,
            inputs: Task5Inputs::BookFlowPolicy,
            window: RecipeWindow::Flow,
        },
    );
    list.push(
        Task5FeatureRecipe {
            id: "trade_print_sweep_direction",
            formula: "(qualifying-buy-episodes-qualifying-sell-episodes)/all-qualifying-episodes",
            value_type: FeatureValueType::Float64,
            inputs: Task5Inputs::FlowPolicy,
            window: RecipeWindow::Flow,
        },
    );
    list.push(
        Task5FeatureRecipe {
            id: "large_trade_cluster_count",
            formula: "count-time-clusters-with-at-least-two-fixed-threshold-large-trades",
            value_type: FeatureValueType::Integer,
            inputs: Task5Inputs::FlowPolicy,
            window: RecipeWindow::Flow,
        },
    );
    list.push(
        Task5FeatureRecipe {
            id: "clustered_large_trade_count",
            formula: "count-prints-in-qualifying-large-trade-clusters",
            value_type: FeatureValueType::Integer,
            inputs: Task5Inputs::FlowPolicy,
            window: RecipeWindow::Flow,
        },
    );
    list.push(
        Task5FeatureRecipe {
            id: "clustered_large_trade_notional",
            formula: "sum-exact-quote-notional-in-qualifying-large-trade-clusters",
            value_type: FeatureValueType::FixedDecimal,
            inputs: Task5Inputs::FlowPolicy,
            window: RecipeWindow::Flow,
        },
    );
    list.push(
        Task5FeatureRecipe {
            id: "large_trade_cluster_activity_rate",
            formula: "qualifying-large-trade-cluster-count/window-seconds",
            value_type: FeatureValueType::Float64,
            inputs: Task5Inputs::FlowPolicy,
            window: RecipeWindow::Flow,
        },
    );
    proof {
        assert(list@ =~= old(list)@ + impact_recipes());
    }
}

/// Every microstructure recipe, in catalogue order.
pub open spec fn task_five_catalogue() -> Seq<Task5FeatureRecipe> {
    depth_recipes() + imbalance_recipes() + shape_recipes() + book_state_recipes() + flow_recipes() + lifecycle_recipes() + impact_recipes()
}

pub fn task_five_recipes() -> (recipes: Vec<Task5FeatureRecipe>)
    ensures
        recipes@ == task_five_catalogue(),
        recipes@.len() == 77,
{
    let mut recipes: Vec<Task5FeatureRecipe> = Vec::new();
    put_depth_recipes(&mut recipes);
    put_imbalance_recipes(&mut recipes);
    put_shape_recipes(&mut recipes);
    put_book_state_recipes(&mut recipes);
    put_flow_recipes(&mut recipes);
    put_lifecycle_recipes(&mut recipes);
    put_impact_recipes(&mut recipes);
    proof {
        assert(recipes@ =~= task_five_catalogue());
    }
    recipes
}

/// The first recipe of an identifier, if there is one.
pub open spec fn task_five_named(recipes: Seq<Task5FeatureRecipe>, id: Seq<char>) -> Option<
    Task5FeatureRecipe,
>
    decreases recipes.len(),
{
    if recipes.len() == 0 {
        None
    } else if recipes[0].id@ == id {
        Some(recipes[0])
    } else {
        task_five_named(recipes.drop_first(), id)
    }
}

pub fn task_five_recipe(id: &str) -> (recipe: Option<Task5FeatureRecipe>)
    ensures
        recipe == task_five_named(task_five_catalogue(), id@),
{
    let recipes = task_five_recipes();
    let mut i: usize = 0;
    proof {
        assert(recipes@.skip(0) =~= recipes@);
    }
    while i < recipes.len()
        invariant
            i <= recipes@.len(),
            recipes@ == task_five_catalogue(),
            task_five_named(task_five_catalogue(), id@) == task_five_named(
                recipes@.skip(i as int),
                id@,
            ),
        decreases recipes.len() - i,
    {
        proof {
            assert(recipes@.skip(i as int)[0] == recipes@[i as int]);
            assert(recipes@.skip(i as int).drop_first() =~= recipes@.skip(i + 1));
        }
        if same_text(recipes[i].id, id) {
            return Some(recipes[i]);
        }
        i += 1;
    }
    None
}

/// The definitions of every recipe, in catalogue order.
pub fn task_five_definitions() -> (definitions: Vec<FeatureDefinition>)
    ensures
        definitions@.len() == task_five_catalogue().len(),
        forall|i: int|
            0 <= i < definitions@.len() ==> (#[trigger] definitions@[i])@
                == task_five_catalogue()[i].spec_definition(),
{
    let recipes = task_five_recipes();
    let mut definitions: Vec<FeatureDefinition> = Vec::new();
    let mut i: usize = 0;
    while i < recipes.len()
        invariant
            i <= recipes@.len(),
            recipes@ == task_five_catalogue(),
            definitions@.len() == i,
            forall|k: int|
                0 <= k < i ==> (#[trigger] definitions@[k])@
                    == task_five_catalogue()[k].spec_definition(),
        decreases recipes.len() - i,
    {
        definitions.push(recipes[i].definition());
        i += 1;
    }
    definitions
}

/// The letter at a place of an identifier, or zero behind its end.
spec fn letter(id: Seq<char>, place: int) -> int {
    if place < id.len() {
        id[place] as u32 as int
    } else {
        0
    }
}

/// A number that tells the identifiers of the catalogue apart.
spec fn id_mark(id: Seq<char>) -> int {
    ((((id.len()) * 1000 + letter(id, 1)) * 1000 + letter(id, 10)) * 1000 + letter(id, 15)) * 1000 + letter(id, 16)
}

/// The place in the catalogue of the identifier with a mark.
spec fn marked_place(mark: int) -> int {
    if mark == 15098112000000 {
        0
    } else if mark == 15101112000000 {
        1
    } else if mark == 14105049000000 {
        2
    } else if mark == 14105050000000 {
        3
    } else if mark == 14105053000000 {
        4
    } else if mark == 15105049000000 {
        5
    } else if mark == 15105050000000 {
        6
    } else if mark == 15105053000000 {
        7
    } else if mark == 16105049115000 {
        8
    } else if mark == 14115049000000 {
        9
    } else if mark == 14115050000000 {
        10
    } else if mark == 14115053000000 {
        11
    } else if mark == 15115049000000 {
        12
    } else if mark == 15115050000000 {
        13
    } else if mark == 15115053000000 {
        14
    } else if mark == 16115049115000 {
        15
    } else if mark == 19111097049098 {
        16
    } else if mark == 19111097050098 {
        17
    } else if mark == 19111097053098 {
        18
    } else if mark == 20111097049048 {
        19
    } else if mark == 20111097050053 {
        20
    } else if mark == 20111097053048 {
        21
    } else if mark == 21111097049048 {
        22
    } else if mark == 17101105110116 {
        23
    } else if mark == 10105000000000 {
        24
    } else if mark == 14105108000000 {
        25
    } else if mark == 14115108000000 {
        26
    } else if mark == 18105111105116 {
        27
    } else if mark == 18115111105116 {
        28
    } else if mark == 27105105097108 {
        29
    } else if mark == 27115105097108 {
        30
    } else if mark == 27105108095103 {
        31
    } else if mark == 27115108095103 {
        32
    } else if mark == 33120117101101 {
        33
    } else if mark == 34120101119101 {
        34
    } else if mark == 37097101098108 {
        35
    } else if mark == 38097101098108 {
        36
    } else if mark == 17111095109115 {
        37
    } else if mark == 26105115100117 {
        38
    } else if mark == 26115115100117 {
        39
    } else if mark == 23105095101095 {
        40
    } else if mark == 23115095101095 {
        41
    } else if mark == 18111095111112 {
        42
    } else if mark == 28101101116105 {
        43
    } else if mark == 16105099101000 {
        44
    } else if mark == 16115099101000 {
        45
    } else if mark == 22098112095099 {
        46
    } else if mark == 38105100095114 {
        47
    } else if mark == 32105100095114 {
        48
    } else if mark == 17111108110115 {
        49
    } else if mark == 20103095099111 {
        50
    } else if mark == 21103095095099 {
        51
    } else if mark == 23103095113117 {
        52
    } else if mark == 24103095095113 {
        53
    } else if mark == 23103095110111 {
        54
    } else if mark == 24103095095110 {
        55
    } else if mark == 28105100117110 {
        56
    } else if mark == 31105100097110 {
        57
    } else if mark == 31105100116105 {
        58
    } else if mark == 15111107000000 {
        59
    } else if mark == 25108114112101 {
        60
    } else if mark == 28097111116101 {
        61
    } else if mark == 28111111116101 {
        62
    } else if mark == 27097111095116 {
        63
    } else if mark == 20117114114097 {
        64
    } else if mark == 26114110095112 {
        65
    } else if mark == 43114114118097 {
        66
    } else if mark == 22105117116095 {
        67
    } else if mark == 27114107112114 {
        68
    } else if mark == 22114099095115 {
        69
    } else if mark == 21114105115112 {
        70
    } else if mark == 29114114101108 {
        71
    } else if mark == 27114116101112 {
        72
    } else if mark == 25097101115116 {
        73
    } else if mark == 27108108095116 {
        74
    } else if mark == 30108108095116 {
        75
    } else if mark == 33097101115116 {
        76
    } else {
        -1
    }
}

proof fn lemma_depth_places(i: int)
    requires
        0 <= i < depth_recipes().len(),
    ensures
        depth_recipes().len() == 16,
        marked_place(id_mark(depth_recipes()[i].id@)) == 0 + i,
{
    if i == 0 {
        reveal_strlit("absolute_spread");
        assert(id_mark("absolute_spread"@) == 15098112000000);
    } else if i == 1 {
        reveal_strlit("relative_spread");
        assert(id_mark("relative_spread"@) == 15101112000000);
    } else if i == 2 {
        reveal_strlit("bid_depth_1bps");
        assert(id_mark("bid_depth_1bps"@) == 14105049000000);
    } else if i == 3 {
        reveal_strlit("bid_depth_2bps");
        assert(id_mark("bid_depth_2bps"@) == 14105050000000);
    } else if i == 4 {
        reveal_strlit("bid_depth_5bps");
        assert(id_mark("bid_depth_5bps"@) == 14105053000000);
    } else if i == 5 {
        reveal_strlit("bid_depth_10bps");
        assert(id_mark("bid_depth_10bps"@) == 15105049000000);
    } else if i == 6 {
        reveal_strlit("bid_depth_25bps");
        assert(id_mark("bid_depth_25bps"@) == 15105050000000);
    } else if i == 7 {
        reveal_strlit("bid_depth_50bps");
        assert(id_mark("bid_depth_50bps"@) == 15105053000000);
    } else if i == 8 {
        reveal_strlit("bid_depth_100bps");
        assert(id_mark("bid_depth_100bps"@) == 16105049115000);
    } else if i == 9 {
        reveal_strlit("ask_depth_1bps");
        assert(id_mark("ask_depth_1bps"@) == 14115049000000);
    } else if i == 10 {
        reveal_strlit("ask_depth_2bps");
        assert(id_mark("ask_depth_2bps"@) == 14115050000000);
    } else if i == 11 {
        reveal_strlit("ask_depth_5bps");
        assert(id_mark("ask_depth_5bps"@) == 14115053000000);
    } else if i == 12 {
        reveal_strlit("ask_depth_10bps");
        assert(id_mark("ask_depth_10bps"@) == 15115049000000);
    } else if i == 13 {
        reveal_strlit("ask_depth_25bps");
        assert(id_mark("ask_depth_25bps"@) == 15115050000000);
    } else if i == 14 {
        reveal_strlit("ask_depth_50bps");
        assert(id_mark("ask_depth_50bps"@) == 15115053000000);
    } else if i == 15 {
        reveal_strlit("ask_depth_100bps");
        assert(id_mark("ask_depth_100bps"@) == 16115049115000);
    }
}

proof fn lemma_imbalance_places(i: int)
    requires
        0 <= i < imbalance_recipes().len(),
    ensures
        imbalance_recipes().len() == 9,
        marked_place(id_mark(imbalance_recipes()[i].id@)) == 16 + i,
{
    if i == 0 {
        reveal_strlit("book_imbalance_1bps");
        assert(id_mark("book_imbalance_1bps"@) == 19111097049098);
    } else if i == 1 {
        reveal_strlit("book_imbalance_2bps");
        assert(id_mark("book_imbalance_2bps"@) == 19111097050098);
    } else if i == 2 {
        reveal_strlit("book_imbalance_5bps");
        assert(id_mark("book_imbalance_5bps"@) == 19111097053098);
    } else if i == 3 {
        reveal_strlit("book_imbalance_10bps");
        assert(id_mark("book_imbalance_10bps"@) == 20111097049048);
    } else if i == 4 {
        reveal_strlit("book_imbalance_25bps");
        assert(id_mark("book_imbalance_25bps"@) == 20111097050053);
    } else if i == 5 {
        reveal_strlit("book_imbalance_50bps");
        assert(id_mark("book_imbalance_50bps"@) == 20111097053048);
    } else if i == 6 {
        reveal_strlit("book_imbalance_100bps");
        assert(id_mark("book_imbalance_100bps"@) == 21111097049048);
    } else if i == 7 {
        reveal_strlit("weighted_midpoint");
        assert(id_mark("weighted_midpoint"@) == 17101105110116);
    } else if i == 8 {
        reveal_strlit("microprice");
        assert(id_mark("microprice"@) == 10105000000000);
    }
}

proof fn lemma_shape_places(i: int)
    requires
        0 <= i < shape_recipes().len(),
    ensures
        shape_recipes().len() == 13,
        marked_place(id_mark(shape_recipes()[i].id@)) == 25 + i,
{
    if i == 0 {
        reveal_strlit("bid_book_slope");
        assert(id_mark("bid_book_slope"@) == 14105108000000);
    } else if i == 1 {
        reveal_strlit("ask_book_slope");
        assert(id_mark("ask_book_slope"@) == 14115108000000);
    } else if i == 2 {
        reveal_strlit("bid_book_convexity");
        assert(id_mark("bid_book_convexity"@) == 18105111105116);
    } else if i == 3 {
        reveal_strlit("ask_book_convexity");
        assert(id_mark("ask_book_convexity"@) == 18115111105116);
    } else if i == 4 {
        reveal_strlit("bid_liquidity_wall_distance");
        assert(id_mark("bid_liquidity_wall_distance"@) == 27105105097108);
    } else if i == 5 {
        reveal_strlit("ask_liquidity_wall_distance");
        assert(id_mark("ask_liquidity_wall_distance"@) == 27115105097108);
    } else if i == 6 {
        reveal_strlit("bid_price_level_gap_density");
        assert(id_mark("bid_price_level_gap_density"@) == 27105108095103);
    } else if i == 7 {
        reveal_strlit("ask_price_level_gap_density");
        assert(id_mark("ask_price_level_gap_density"@) == 27115108095103);
    } else if i == 8 {
        reveal_strlit("expected_buy_sweep_cost_usd_10000");
        assert(id_mark("expected_buy_sweep_cost_usd_10000"@) == 33120117101101);
    } else if i == 9 {
        reveal_strlit("expected_sell_sweep_cost_usd_10000");
        assert(id_mark("expected_sell_sweep_cost_usd_10000"@) == 34120101119101);
    } else if i == 10 {
        reveal_strlit("maximum_executable_buy_quote_notional");
        assert(id_mark("maximum_executable_buy_quote_notional"@) == 37097101098108);
    } else if i == 11 {
        reveal_strlit("maximum_executable_sell_quote_notional");
        assert(id_mark("maximum_executable_sell_quote_notional"@) == 38097101098108);
    } else if i == 12 {
        reveal_strlit("book_quote_age_ms");
        assert(id_mark("book_quote_age_ms"@) == 17111095109115);
    }
}

proof fn lemma_book_state_places(i: int)
    requires
        0 <= i < book_state_recipes().len(),
    ensures
        book_state_recipes().len() == 12,
        marked_place(id_mark(book_state_recipes()[i].id@)) == 38 + i,
{
    if i == 0 {
        reveal_strlit("bid_stale_side_duration_ns");
        assert(id_mark("bid_stale_side_duration_ns"@) == 26105115100117);
    } else if i == 1 {
        reveal_strlit("ask_stale_side_duration_ns");
        assert(id_mark("ask_stale_side_duration_ns"@) == 26115115100117);
    } else if i == 2 {
        reveal_strlit("bid_active_price_levels");
        assert(id_mark("bid_active_price_levels"@) == 23105095101095);
    } else if i == 3 {
        reveal_strlit("ask_active_price_levels");
        assert(id_mark("ask_active_price_levels"@) == 23115095101095);
    } else if i == 4 {
        reveal_strlit("local_book_entropy");
        assert(id_mark("local_book_entropy"@) == 18111095111112);
    } else if i == 5 {
        reveal_strlit("depth_concentration_by_level");
        assert(id_mark("depth_concentration_by_level"@) == 28101101116105);
    } else if i == 6 {
        reveal_strlit("bid_depth_change");
        assert(id_mark("bid_depth_change"@) == 16105099101000);
    } else if i == 7 {
        reveal_strlit("ask_depth_change");
        assert(id_mark("ask_depth_change"@) == 16115099101000);
    } else if i == 8 {
        reveal_strlit("absolute_spread_change");
        assert(id_mark("absolute_spread_change"@) == 22098112095099);
    } else if i == 9 {
        reveal_strlit("displayed_depth_replenishment_fraction");
        assert(id_mark("displayed_depth_replenishment_fraction"@) == 38105100095114);
    } else if i == 10 {
        reveal_strlit("displayed_depth_recovery_time_ns");
        assert(id_mark("displayed_depth_recovery_time_ns"@) == 32105100095114);
    } else if i == 11 {
        reveal_strlit("book_half_life_ns");
        assert(id_mark("book_half_life_ns"@) == 17111108110115);
    }
}

proof fn lemma_flow_places(i: int)
    requires
        0 <= i < flow_recipes().len(),
    ensures
        flow_recipes().len() == 10,
        marked_place(id_mark(flow_recipes()[i].id@)) == 50 + i,
{
    if i == 0 {
        reveal_strlit("aggressive_buy_count");
        assert(id_mark("aggressive_buy_count"@) == 20103095099111);
    } else if i == 1 {
        reveal_strlit("aggressive_sell_count");
        assert(id_mark("aggressive_sell_count"@) == 21103095095099);
    } else if i == 2 {
        reveal_strlit("aggressive_buy_quantity");
        assert(id_mark("aggressive_buy_quantity"@) == 23103095113117);
    } else if i == 3 {
        reveal_strlit("aggressive_sell_quantity");
        assert(id_mark("aggressive_sell_quantity"@) == 24103095095113);
    } else if i == 4 {
        reveal_strlit("aggressive_buy_notional");
        assert(id_mark("aggressive_buy_notional"@) == 23103095110111);
    } else if i == 5 {
        reveal_strlit("aggressive_sell_notional");
        assert(id_mark("aggressive_sell_notional"@) == 24103095095110);
    } else if i == 6 {
        reveal_strlit("signed_trade_count_imbalance");
        assert(id_mark("signed_trade_count_imbalance"@) == 28105100117110);
    } else if i == 7 {
        reveal_strlit("signed_trade_quantity_imbalance");
        assert(id_mark("signed_trade_quantity_imbalance"@) == 31105100097110);
    } else if i == 8 {
        reveal_strlit("signed_trade_notional_imbalance");
        assert(id_mark("signed_trade_notional_imbalance"@) == 31105100116105);
    } else if i == 9 {
        reveal_strlit("top_of_book_ofi");
        assert(id_mark("top_of_book_ofi"@) == 15111107000000);
    }
}

proof fn lemma_lifecycle_places(i: int)
    requires
        0 <= i < lifecycle_recipes().len(),
    ensures
        lifecycle_recipes().len() == 8,
        marked_place(id_mark(lifecycle_recipes()[i].id@)) == 60 + i,
{
    if i == 0 {
        reveal_strlit("placement_rate_per_second");
        assert(id_mark("placement_rate_per_second"@) == 25108114112101);
    } else if i == 1 {
        reveal_strlit("cancellation_rate_per_second");
        assert(id_mark("cancellation_rate_per_second"@) == 28097111116101);
    } else if i == 2 {
        reveal_strlit("modification_rate_per_second");
        assert(id_mark("modification_rate_per_second"@) == 28111111116101);
    } else if i == 3 {
        reveal_strlit("cancellation_to_trade_ratio");
        assert(id_mark("cancellation_to_trade_ratio"@) == 27097111095116);
    } else if i == 4 {
        reveal_strlit("quote_to_trade_ratio");
        assert(id_mark("quote_to_trade_ratio"@) == 20117114114097);
    } else if i == 5 {
        reveal_strlit("trade_intensity_per_second");
        assert(id_mark("trade_intensity_per_second"@) == 26114110095112);
    } else if i == 6 {
        reveal_strlit("trade_interarrival_coefficient_of_variation");
        assert(id_mark("trade_interarrival_coefficient_of_variation"@) == 43114114118097);
    } else if i == 7 {
        reveal_strlit("signed_volume_at_price");
        assert(id_mark("signed_volume_at_price"@) == 22105117116095);
    }
}

proof fn lemma_impact_places(i: int)
    requires
        0 <= i < impact_recipes().len(),
    ensures
        impact_recipes().len() == 9,
        marked_place(id_mark(impact_recipes()[i].id@)) == 68 + i,
{
    if i == 0 {
        reveal_strlit("trade_shock_midprice_impact");
        assert(id_mark("trade_shock_midprice_impact"@) == 27114107112114);
    } else if i == 1 {
        reveal_strlit("trade_effective_spread");
        assert(id_mark("trade_effective_spread"@) == 22114099095115);
    } else if i == 2 {
        reveal_strlit("trade_realized_spread");
        assert(id_mark("trade_realized_spread"@) == 21114105115112);
    } else if i == 3 {
        reveal_strlit("trade_adverse_selection_proxy");
        assert(id_mark("trade_adverse_selection_proxy"@) == 29114114101108);
    } else if i == 4 {
        reveal_strlit("trade_print_sweep_direction");
        assert(id_mark("trade_print_sweep_direction"@) == 27114116101112);
    } else if i == 5 {
        reveal_strlit("large_trade_cluster_count");
        assert(id_mark("large_trade_cluster_count"@) == 25097101115116);
    } else if i == 6 {
        reveal_strlit("clustered_large_trade_count");
        assert(id_mark("clustered_large_trade_count"@) == 27108108095116);
    } else if i == 7 {
        reveal_strlit("clustered_large_trade_notional");
        assert(id_mark("clustered_large_trade_notional"@) == 30108108095116);
    } else if i == 8 {
        reveal_strlit("large_trade_cluster_activity_rate");
        assert(id_mark("large_trade_cluster_activity_rate"@) == 33097101115116);
    }
}

proof fn lemma_places(i: int)
    requires
        0 <= i < task_five_catalogue().len(),
    ensures
        marked_place(id_mark(task_five_catalogue()[i].id@)) == i,
{
    if i < 16 {
        lemma_depth_places(i);
    } else if i < 25 {
        lemma_imbalance_places(i - 16);
    } else if i < 38 {
        lemma_shape_places(i - 25);
    } else if i < 50 {
        lemma_book_state_places(i - 38);
    } else if i < 60 {
        lemma_flow_places(i - 50);
    } else if i < 68 {
        lemma_lifecycle_places(i - 60);
    } else {
        lemma_impact_places(i - 68);
    }
}

/// No two recipes of the catalogue share an identifier.
pub proof fn lemma_task_five_ids_are_distinct(i: int, j: int)
    requires
        0 <= i < task_five_catalogue().len(),
        0 <= j < task_five_catalogue().len(),
        i != j,
    ensures
        task_five_catalogue()[i].id@ != task_five_catalogue()[j].id@,
{
    lemma_places(i);
    lemma_places(j);
}

/// Every recipe of the catalogue is found under its own identifier.
pub proof fn lemma_task_five_recipes_are_found(i: int)
    requires
        0 <= i < task_five_catalogue().len(),
    ensures
        task_five_named(task_five_catalogue(), task_five_catalogue()[i].id@) == Some(
            task_five_catalogue()[i],
        ),
{
    let all = task_five_catalogue();
    assert(all.skip(0) =~= all);
    lemma_named_from(i, 0);
}

proof fn lemma_named_from(i: int, from: int)
    requires
        0 <= from <= i < task_five_catalogue().len(),
    ensures
        task_five_named(task_five_catalogue().skip(from), task_five_catalogue()[i].id@) == Some(
            task_five_catalogue()[i],
        ),
    decreases i - from,
{
    let all = task_five_catalogue();
    assert(all.skip(from)[0] == all[from]);
    if from < i {
        lemma_task_five_ids_are_distinct(from, i);
        assert(all.skip(from).drop_first() =~= all.skip(from + 1));
        lemma_named_from(i, from + 1);
    }
}

/// The recipe is of the catalogue.
pub proof fn lemma_task_five_recipe_at(i: int)
    requires
        0 <= i < 77,
    ensures
        task_five_catalogue().len() == 77,
        0 <= i < 16 ==> task_five_catalogue()[i] == depth_recipes()[i - 0],
        16 <= i < 25 ==> task_five_catalogue()[i] == imbalance_recipes()[i - 16],
        25 <= i < 38 ==> task_five_catalogue()[i] == shape_recipes()[i - 25],
        38 <= i < 50 ==> task_five_catalogue()[i] == book_state_recipes()[i - 38],
        50 <= i < 60 ==> task_five_catalogue()[i] == flow_recipes()[i - 50],
        60 <= i < 68 ==> task_five_catalogue()[i] == lifecycle_recipes()[i - 60],
        68 <= i < 77 ==> task_five_catalogue()[i] == impact_recipes()[i - 68],
{
    assert(depth_recipes().len() == 16);
    assert(imbalance_recipes().len() == 9);
    assert(shape_recipes().len() == 13);
    assert(book_state_recipes().len() == 12);
    assert(flow_recipes().len() == 10);
    assert(lifecycle_recipes().len() == 8);
    assert(impact_recipes().len() == 9);
}

/// Every microstructure feature describes an instrument under a second's resolution, takes events
/// up to five seconds late and lives for a day. It takes only healthy sources, all of them, and
/// quality from nine tenths on, and it has the one window of its recipe.
pub proof fn lemma_definitions_of_microstructure(
    recipe: Task5FeatureRecipe,
    health: SourceHealthState,
)
    ensures
        ({
            let definition = recipe.spec_definition();
            &&& definition.id == recipe.id@
            &&& definition.value_type == recipe.value_type
            &&& definition.entities == EntityScope::Instrument
            &&& definition.output_resolution == 1_000_000_000
            &&& definition.allowed_lateness == 5 * definition.output_resolution
            &&& definition.time_to_live == 24 * 60 * 60 * definition.output_resolution
            &&& definition.minimum_quality * 10 == 9 * 1_000_000
            &&& definition.minimum_coverage == 1_000_000
            &&& definition.allowed_health.contains(health) <==> health
                == SourceHealthState::Healthy
            &&& definition.windows.len() == 1
            &&& definition.windows[0] == recipe.window.spec_definition()
            &&& definition.consumption_role == FeatureConsumptionRole::ModelEligible
        }),
{
    assert(recipe.spec_definition().allowed_health[0] == SourceHealthState::Healthy);
}

} // verus!
