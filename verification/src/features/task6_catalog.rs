//! Closed registry catalogue for cross-venue, derivatives and quality outputs.

use vstd::prelude::*;

use super::catalog::{FIVE_SECONDS, ONE_DAY};
use super::recipe::{value_type_code, value_type_tag, RecipeWindow, ONE_SECOND};
use crate::digest::{
    blake3_digest, blake3_hash, encoded_u32, encoded_u64, framed, labelled, put_byte, put_framed,
    put_u32, put_u64, utf8,
};
use crate::domain::{DurationNanos, QualityScore, SourceHealthState};
use crate::registry::{
    documentation_for, documentation_of, same_text, text_views, window_views, DefinitionView,
    EntityScope, FeatureConsumptionRole, FeatureDefinition, FeatureStatus, FeatureValueType,
    FeatureVersion, NormalizationKind, QualityGate,
};
use crate::window::WindowDefinition;

verus! {

/// What a recipe needs.
#[derive(Clone, Copy, Debug, PartialEq, Eq, Structural)]
pub enum Task6Inputs {
    CrossVenue,
    CrossVenueHistory,
    VenueVolume,
    Executable,
    Derivative,
    DerivativeHistory,
    RealizedFunding,
    CrossVenueFunding,
    OpenInterestUsd,
    OpenInterestPrice,
    Basis,
    DatedBasis,
    Curve,
    Liquidation,
    LiquidationVolume,
    LiquidationOi,
    Insurance,
    Adl,
    LiquidationCompleteness,
    Quality,
    ConsolidatedQuality,
    ConsolidatedQualityFlow,
    StoragePressure,
}

impl Task6Inputs {
    /// The inputs by name.
    pub open spec fn names(self) -> Seq<Seq<char>> {
        match self {
            Task6Inputs::CrossVenue => seq![
                "consolidated.catalog_bound_book_state"@,
                "consolidated.eligible_source_universe"@,
            ],
            Task6Inputs::CrossVenueHistory => seq![
                "consolidated.catalog_bound_book_state"@,
                "consolidated.eligible_source_universe"@,
                "window.finalization"@,
            ],
            Task6Inputs::VenueVolume => seq![
                "connector.trade_normalization_receipt"@,
                "consolidated.eligible_source_universe"@,
                "window.finalization"@,
            ],
            Task6Inputs::Executable => seq![
                "execution.authenticated_depth_walk"@,
                "execution.contract_conversion"@,
                "execution.fee_schedule"@,
                "execution.latency_buffer"@,
                "execution.lot_and_tick"@,
                "execution.settlement_compatibility"@,
            ],
            Task6Inputs::Derivative => seq![
                "connector.derivative_normalization_receipt"@,
                "instrument.definition"@,
            ],
            Task6Inputs::DerivativeHistory => seq![
                "connector.derivative_normalization_receipt"@,
                "instrument.definition"@,
                "window.finalization"@,
            ],
            Task6Inputs::RealizedFunding => seq![
                "connector.realized_funding_receipt"@,
                "instrument.definition"@,
                "window.finalization"@,
            ],
            Task6Inputs::CrossVenueFunding => seq![
                "connector.derivative_normalization_receipt"@,
                "consolidated.eligible_source_universe"@,
                "instrument.definition"@,
                "window.finalization"@,
            ],
            Task6Inputs::OpenInterestUsd => seq![
                "connector.derivative_normalization_receipt"@,
                "consolidated.point_in_time_quote_usd_conversion"@,
                "instrument.definition"@,
            ],
            Task6Inputs::OpenInterestPrice => seq![
                "connector.derivative_normalization_receipt"@,
                "consolidated.aligned_price_return"@,
                "instrument.definition"@,
                "window.finalization"@,
            ],
            Task6Inputs::Basis => seq![
                "connector.derivative_normalization_receipt"@,
                "consolidated.aligned_reference_price"@,
                "instrument.definition"@,
            ],
            Task6Inputs::DatedBasis => seq![
                "connector.derivative_normalization_receipt"@,
                "consolidated.aligned_reference_price"@,
                "instrument.point_in_time_expiry"@,
            ],
            Task6Inputs::Curve => seq![
                "connector.derivative_normalization_receipt"@,
                "consolidated.aligned_reference_price"@,
                "instrument.point_in_time_maturity_set"@,
                "window.finalization"@,
            ],
            Task6Inputs::Liquidation => seq![
                "connector.liquidation_normalization_receipt"@,
                "instrument.definition"@,
                "window.finalization"@,
            ],
            Task6Inputs::LiquidationVolume => seq![
                "connector.liquidation_normalization_receipt"@,
                "connector.trade_normalization_receipt"@,
                "instrument.definition"@,
                "window.finalization"@,
            ],
            Task6Inputs::LiquidationOi => seq![
                "connector.derivative_normalization_receipt"@,
                "connector.liquidation_normalization_receipt"@,
                "instrument.definition"@,
                "window.finalization"@,
            ],
            Task6Inputs::Insurance => seq!["connector.certified_insurance_fund_receipt"@],
            Task6Inputs::Adl => seq!["connector.certified_adl_receipt"@],
            Task6Inputs::LiquidationCompleteness => seq![
                "connector.liquidation_normalization_receipt"@,
                "window.finalization"@,
            ],
            Task6Inputs::Quality => seq!["collector.quality_gate_receipt"@],
            Task6Inputs::ConsolidatedQuality => seq![
                "consolidated.catalog_bound_book_state"@,
                "consolidated.eligible_source_universe"@,
            ],
            Task6Inputs::ConsolidatedQualityFlow => seq![
                "consolidated.catalog_bound_book_state"@,
                "consolidated.eligible_source_universe"@,
                "window.finalization"@,
            ],
            Task6Inputs::StoragePressure => seq!["collector.storage_pressure_receipt"@],
        }
    }

    pub fn list(self) -> (inputs: Vec<&'static str>)
        ensures
            text_views(inputs@) == self.names(),
    {
        let mut inputs: Vec<&'static str> = Vec::new();
        match self {
            Task6Inputs::CrossVenue => {
                inputs.push("consolidated.catalog_bound_book_state");
                inputs.push("consolidated.eligible_source_universe");
            },
            Task6Inputs::CrossVenueHistory => {
                inputs.push("consolidated.catalog_bound_book_state");
                inputs.push("consolidated.eligible_source_universe");
                inputs.push("window.finalization");
            },
            Task6Inputs::VenueVolume => {
                inputs.push("connector.trade_normalization_receipt");
                inputs.push("consolidated.eligible_source_universe");
                inputs.push("window.finalization");
            },
            Task6Inputs::Executable => {
                inputs.push("execution.authenticated_depth_walk");
                inputs.push("execution.contract_conversion");
                inputs.push("execution.fee_schedule");
                inputs.push("execution.latency_buffer");
                inputs.push("execution.lot_and_tick");
                inputs.push("execution.settlement_compatibility");
            },
            Task6Inputs::Derivative => {
                inputs.push("connector.derivative_normalization_receipt");
                inputs.push("instrument.definition");
            },
            Task6Inputs::DerivativeHistory => {
                inputs.push("connector.derivative_normalization_receipt");
                inputs.push("instrument.definition");
                inputs.push("window.finalization");
            },
            Task6Inputs::RealizedFunding => {
                inputs.push("connector.realized_funding_receipt");
                inputs.push("instrument.definition");
                inputs.push("window.finalization");
            },
            Task6Inputs::CrossVenueFunding => {
                inputs.push("connector.derivative_normalization_receipt");
                inputs.push("consolidated.eligible_source_universe");
                inputs.push("instrument.definition");
                inputs.push("window.finalization");
            },
            Task6Inputs::OpenInterestUsd => {
                inputs.push("connector.derivative_normalization_receipt");
                inputs.push("consolidated.point_in_time_quote_usd_conversion");
                inputs.push("instrument.definition");
            },
            Task6Inputs::OpenInterestPrice => {
                inputs.push("connector.derivative_normalization_receipt");
                inputs.push("consolidated.aligned_price_return");
                inputs.push("instrument.definition");
                inputs.push("window.finalization");
            },
            Task6Inputs::Basis => {
                inputs.push("connector.derivative_normalization_receipt");
                inputs.push("consolidated.aligned_reference_price");
                inputs.push("instrument.definition");
            },
            Task6Inputs::DatedBasis => {
                inputs.push("connector.derivative_normalization_receipt");
                inputs.push("consolidated.aligned_reference_price");
                inputs.push("instrument.point_in_time_expiry");
            },
            Task6Inputs::Curve => {
                inputs.push("connector.derivative_normalization_receipt");
                inputs.push("consolidated.aligned_reference_price");
                inputs.push("instrument.point_in_time_maturity_set");
                inputs.push("window.finalization");
            },
            Task6Inputs::Liquidation => {
                inputs.push("connector.liquidation_normalization_receipt");
                inputs.push("instrument.definition");
                inputs.push("window.finalization");
            },
            Task6Inputs::LiquidationVolume => {
                inputs.push("connector.liquidation_normalization_receipt");
                inputs.push("connector.trade_normalization_receipt");
                inputs.push("instrument.definition");
                inputs.push("window.finalization");
            },
            Task6Inputs::LiquidationOi => {
                inputs.push("connector.derivative_normalization_receipt");
                inputs.push("connector.liquidation_normalization_receipt");
                inputs.push("instrument.definition");
                inputs.push("window.finalization");
            },
            Task6Inputs::Insurance => {
                inputs.push("connector.certified_insurance_fund_receipt");
            },
            Task6Inputs::Adl => {
                inputs.push("connector.certified_adl_receipt");
            },
            Task6Inputs::LiquidationCompleteness => {
                inputs.push("connector.liquidation_normalization_receipt");
                inputs.push("window.finalization");
            },
            Task6Inputs::Quality => {
                inputs.push("collector.quality_gate_receipt");
            },
            Task6Inputs::ConsolidatedQuality => {
                inputs.push("consolidated.catalog_bound_book_state");
                inputs.push("consolidated.eligible_source_universe");
            },
            Task6Inputs::ConsolidatedQualityFlow => {
                inputs.push("consolidated.catalog_bound_book_state");
                inputs.push("consolidated.eligible_source_universe");
                inputs.push("window.finalization");
            },
            Task6Inputs::StoragePressure => {
                inputs.push("collector.storage_pressure_receipt");
            },
        }
        proof {
            assert(text_views(inputs@) =~= self.names());
        }
        inputs
    }
}

/// Whether a recipe's value can be computed.
#[derive(Clone, Copy, Debug, PartialEq, Eq, Structural)]
pub enum Task6ComputationAvailability {
    Implemented,
    ExplicitlyUnavailable,
}

/// One immutable cross-venue, derivatives or quality recipe.
#[derive(Clone, Copy, Debug)]
pub struct Task6FeatureRecipe {
    pub id: &'static str,
    pub formula: &'static str,
    pub value_type: FeatureValueType,
    pub entity: EntityScope,
    pub role: FeatureConsumptionRole,
    pub status: FeatureStatus,
    pub inputs: Task6Inputs,
    pub window: RecipeWindow,
    pub availability: Task6ComputationAvailability,
}

pub open spec fn entity_scope_code(scope: EntityScope) -> u8 {
    match scope {
        EntityScope::Instrument => 1,
        EntityScope::Asset => 2,
        EntityScope::AssetPair => 3,
        EntityScope::Venue => 4,
        EntityScope::Source => 5,
        EntityScope::Global => 6,
        EntityScope::AssetSource => 7,
        EntityScope::AssetSourcePair => 8,
    }
}

pub fn entity_tag(scope: EntityScope) -> (tag: u8)
    ensures
        tag == entity_scope_code(scope),
{
    match scope {
        EntityScope::Instrument => 1,
        EntityScope::Asset => 2,
        EntityScope::AssetPair => 3,
        EntityScope::Venue => 4,
        EntityScope::Source => 5,
        EntityScope::Global => 6,
        EntityScope::AssetSource => 7,
        EntityScope::AssetSourcePair => 8,
    }
}

pub open spec fn role_code(role: FeatureConsumptionRole) -> u8 {
    match role {
        FeatureConsumptionRole::ModelEligible => 1,
        FeatureConsumptionRole::UncertaintyOnly => 2,
        FeatureConsumptionRole::GatingOnly => 3,
    }
}

pub fn role_tag(role: FeatureConsumptionRole) -> (tag: u8)
    ensures
        tag == role_code(role),
{
    match role {
        FeatureConsumptionRole::ModelEligible => 1,
        FeatureConsumptionRole::UncertaintyOnly => 2,
        FeatureConsumptionRole::GatingOnly => 3,
    }
}

pub open spec fn status_code(status: FeatureStatus) -> u8 {
    match status {
        FeatureStatus::Required => 1,
        FeatureStatus::Optional => 2,
        FeatureStatus::Experimental => 3,
    }
}

pub fn status_tag(status: FeatureStatus) -> (tag: u8)
    ensures
        tag == status_code(status),
{
    match status {
        FeatureStatus::Required => 1,
        FeatureStatus::Optional => 2,
        FeatureStatus::Experimental => 3,
    }
}

pub open spec fn health_code(health: SourceHealthState) -> u8 {
    match health {
        SourceHealthState::Healthy => 1,
        SourceHealthState::Degraded => 2,
        SourceHealthState::Unhealthy => 3,
        SourceHealthState::Quarantined => 4,
        SourceHealthState::Recovering => 5,
    }
}

pub fn health_tag(health: SourceHealthState) -> (tag: u8)
    ensures
        tag == health_code(health),
{
    match health {
        SourceHealthState::Healthy => 1,
        SourceHealthState::Degraded => 2,
        SourceHealthState::Unhealthy => 3,
        SourceHealthState::Quarantined => 4,
        SourceHealthState::Recovering => 5,
    }
}

/// The least quality and coverage and the allowed health of a role: a model may only use healthy
/// sources of high quality, and everything else is always reported.
pub open spec fn role_quality(role: FeatureConsumptionRole) -> (u32, Seq<SourceHealthState>) {
    match role {
        FeatureConsumptionRole::ModelEligible => (900_000, seq![SourceHealthState::Healthy]),
        _ => (
            0,
            seq![
                SourceHealthState::Healthy,
                SourceHealthState::Degraded,
                SourceHealthState::Unhealthy,
                SourceHealthState::Quarantined,
                SourceHealthState::Recovering,
            ],
        ),
    }
}

fn quality_contract(role: FeatureConsumptionRole) -> (contract: (u32, Vec<SourceHealthState>))
    ensures
        contract.0 == role_quality(role).0,
        contract.1@ == role_quality(role).1,
{
    let mut allowed: Vec<SourceHealthState> = Vec::new();
    allowed.push(SourceHealthState::Healthy);
    let model: bool = role == FeatureConsumptionRole::ModelEligible;
    if !model {
        allowed.push(SourceHealthState::Degraded);
        allowed.push(SourceHealthState::Unhealthy);
        allowed.push(SourceHealthState::Quarantined);
        allowed.push(SourceHealthState::Recovering);
    }
    proof {
        assert(allowed@ =~= role_quality(role).1);
    }
    (
        if model {
            900_000
        } else {
            0
        },
        allowed,
    )
}

/// The numbers of health states, one behind the other.
pub open spec fn health_encoding(states: Seq<SourceHealthState>) -> Seq<u8> {
    Seq::new(states.len(), |i: int| health_code(states[i]))
}

fn put_health(buffer: &mut Vec<u8>, states: &Vec<SourceHealthState>)
    ensures
        final(buffer)@ == old(buffer)@ + health_encoding(states@),
{
    let ghost head = buffer@;
    let mut i: usize = 0;
    proof {
        assert(buffer@ =~= head + health_encoding(states@).take(0));
    }
    while i < states.len()
        invariant
            i <= states@.len(),
            buffer@ == head + health_encoding(states@).take(i as int),
        decreases states.len() - i,
    {
        buffer.push(health_tag(states[i]));
        proof {
            assert(buffer@ =~= head + health_encoding(states@).take(i + 1));
        }
        i += 1;
    }
    proof {
        assert(health_encoding(states@).take(i as int) =~= health_encoding(states@));
    }
}

/// The inputs of a recipe, each with the contract that it is required.
pub open spec fn input_contracts(inputs: Seq<Seq<char>>) -> Seq<u8>
    decreases inputs.len(),
{
    if inputs.len() == 0 {
        Seq::empty()
    } else {
        input_contracts(inputs.drop_last()) + framed(utf8(inputs.last())) + framed(
            utf8("required-input-contract-v1"@),
        )
    }
}

fn put_input_contracts(buffer: &mut Vec<u8>, inputs: &Vec<&'static str>)
    ensures
        final(buffer)@ == old(buffer)@ + input_contracts(text_views(inputs@)),
{
    let ghost head = buffer@;
    let ghost names = text_views(inputs@);
    let mut i: usize = 0;
    proof {
        assert(names.take(0) =~= Seq::empty());
        assert(buffer@ =~= head + input_contracts(names.take(0)));
    }
    while i < inputs.len()
        invariant
            i <= inputs@.len(),
            names == text_views(inputs@),
            buffer@ == head + input_contracts(names.take(i as int)),
        decreases inputs.len() - i,
    {
        put_framed(buffer, inputs[i].as_bytes());
        put_framed(buffer, "required-input-contract-v1".as_bytes());
        proof {
            assert(names.take(i + 1).drop_last() =~= names.take(i as int));
            assert(names.take(i + 1).last() == inputs@[i as int]@);
            assert(buffer@ =~= head + input_contracts(names.take(i + 1)));
        }
        i += 1;
    }
    proof {
        assert(names.take(inputs@.len() as int) =~= names);
    }
}

pub open spec fn availability_code(availability: Task6ComputationAvailability) -> u8 {
    match availability {
        Task6ComputationAvailability::Implemented => 1,
        Task6ComputationAvailability::ExplicitlyUnavailable => 2,
    }
}

/// What the availability of a recipe promises of its emission.
pub open spec fn availability_contract(availability: Task6ComputationAvailability) -> Seq<char> {
    match availability {
        Task6ComputationAvailability::Implemented =>
            "typed-emitter-quality-is-minimum-validated-input-score;flags-and-completeness-are-lineage-bound;registry-gate-is-exact"@,
        Task6ComputationAvailability::ExplicitlyUnavailable =>
            "present-emission-forbidden-until-authority-and-parameter-contract-is-implemented"@,
    }
}

impl Task6FeatureRecipe {
    pub fn id(self) -> (id: &'static str)
        ensures
            id == self.id,
    {
        self.id
    }

    pub fn formula_identity(self) -> (formula: &'static str)
        ensures
            formula == self.formula,
    {
        self.formula
    }

    pub fn value_type(self) -> (value_type: FeatureValueType)
        ensures
            value_type == self.value_type,
    {
        self.value_type
    }

    pub fn entity(self) -> (entity: EntityScope)
        ensures
            entity == self.entity,
    {
        self.entity
    }

    pub fn consumption_role(self) -> (role: FeatureConsumptionRole)
        ensures
            role == self.role,
    {
        self.role
    }

    pub fn status(self) -> (status: FeatureStatus)
        ensures
            status == self.status,
    {
        self.status
    }

    pub fn computation_availability(self) -> (availability: Task6ComputationAvailability)
        ensures
            availability == self.availability,
    {
        self.availability
    }

    pub fn required_inputs(self) -> (inputs: Vec<&'static str>)
        ensures
            text_views(inputs@) == self.inputs.names(),
    {
        self.inputs.list()
    }

    pub fn window_id(self) -> (id: &'static str)
        ensures
            id@ == self.window.spec_identity(),
    {
        self.window.identity()
    }

    /// Everything that the formula's identity rests on, in order.
    pub open spec fn formula_encoding(self) -> Seq<u8> {
        utf8("crypto-intelligence/task6-cross-venue-derivatives-formula/v1"@) + framed(
            utf8(self.id@),
        ) + framed(utf8("1.0.0"@)) + framed(utf8(self.formula@)) + framed(
            utf8(self.window.spec_identity()),
        ) + encoded_u64(self.window.spec_extent()) + seq![value_type_code(self.value_type)] + seq![
            entity_scope_code(self.entity),
        ] + seq![role_code(self.role)] + seq![status_code(self.status)] + encoded_u64(ONE_SECOND)
            + encoded_u64(FIVE_SECONDS) + encoded_u64(ONE_DAY) + framed(
            utf8("normalization:none@1.0.0"@),
        ) + encoded_u32(role_quality(self.role).0) + encoded_u32(role_quality(self.role).0)
            + encoded_u64(role_quality(self.role).1.len() as u64) + health_encoding(
            role_quality(self.role).1,
        ) + seq![availability_code(self.availability)] + input_contracts(self.inputs.names())
            + framed(utf8("completeness-is-source-bound-lineage-not-observed-source-count"@))
            + framed(utf8(availability_contract(self.availability)))
    }

    pub open spec fn spec_formula_hash(self) -> Seq<u8> {
        blake3_digest(self.formula_encoding())
    }

    pub fn formula_hash(self) -> (digest: [u8; 32])
        ensures
            digest@ == self.spec_formula_hash(),
    {
        let (minimum, allowed) = quality_contract(self.role);
        let mut buffer = labelled("crypto-intelligence/task6-cross-venue-derivatives-formula/v1");
        put_framed(&mut buffer, self.id.as_bytes());
        put_framed(&mut buffer, "1.0.0".as_bytes());
        put_framed(&mut buffer, self.formula.as_bytes());
        put_framed(&mut buffer, self.window.identity().as_bytes());
        put_u64(&mut buffer, self.window.extent());
        put_byte(&mut buffer, value_type_tag(self.value_type));
        put_byte(&mut buffer, entity_tag(self.entity));
        put_byte(&mut buffer, role_tag(self.role));
        put_byte(&mut buffer, status_tag(self.status));
        put_u64(&mut buffer, ONE_SECOND);
        put_u64(&mut buffer, FIVE_SECONDS);
        put_u64(&mut buffer, ONE_DAY);
        put_framed(&mut buffer, "normalization:none@1.0.0".as_bytes());
        put_u32(&mut buffer, minimum);
        put_u32(&mut buffer, minimum);
        put_u64(&mut buffer, allowed.len() as u64);
        put_health(&mut buffer, &allowed);
        let implemented: bool = self.availability == Task6ComputationAvailability::Implemented;
        put_byte(
            &mut buffer,
            if implemented {
                1
            } else {
                2
            },
        );
        let inputs = self.inputs.list();
        put_input_contracts(&mut buffer, &inputs);
        put_framed(
            &mut buffer,
            "completeness-is-source-bound-lineage-not-observed-source-count".as_bytes(),
        );
        let contract = match self.availability {
            Task6ComputationAvailability::Implemented =>
                "typed-emitter-quality-is-minimum-validated-input-score;flags-and-completeness-are-lineage-bound;registry-gate-is-exact",
            Task6ComputationAvailability::ExplicitlyUnavailable =>
                "present-emission-forbidden-until-authority-and-parameter-contract-is-implemented",
        };
        put_framed(&mut buffer, contract.as_bytes());
        blake3_hash(buffer.as_slice())
    }

    /// What the registry says of the recipe.
    pub open spec fn spec_definition(self) -> DefinitionView {
        DefinitionView {
            id: self.id@,
            version: FeatureVersion { major: 1, minor: 0, patch: 0 },
            status: self.status,
            consumption_role: self.role,
            value_type: self.value_type,
            entities: self.entity,
            required_inputs: self.inputs.names(),
            windows: seq![self.window.spec_definition()],
            output_resolution: ONE_SECOND,
            allowed_lateness: FIVE_SECONDS,
            time_to_live: ONE_DAY,
            normalization: NormalizationKind::Unnormalized,
            normalization_version: FeatureVersion { major: 1, minor: 0, patch: 0 },
            minimum_quality: role_quality(self.role).0,
            minimum_coverage: role_quality(self.role).0,
            allowed_health: role_quality(self.role).1,
            formula_hash: self.spec_formula_hash(),
            documentation: documentation_of(self.id@),
        }
    }

    pub fn definition(self) -> (definition: FeatureDefinition)
        ensures
            definition@ == self.spec_definition(),
    {
        let (minimum, allowed_health) = quality_contract(self.role);
        let mut windows: Vec<WindowDefinition> = Vec::new();
        windows.push(self.window.definition());
        proof {
            assert(window_views(windows@) =~= self.spec_definition().windows);
        }
        FeatureDefinition {
            id: self.id,
            version: FeatureVersion::new(1, 0, 0),
            status: self.status,
            consumption_role: self.role,
            value_type: self.value_type,
            entities: self.entity,
            required_inputs: self.inputs.list(),
            windows,
            output_resolution: DurationNanos::new(ONE_SECOND),
            allowed_lateness: DurationNanos::new(FIVE_SECONDS),
            time_to_live: DurationNanos::new(ONE_DAY),
            normalization: NormalizationKind::Unnormalized,
            normalization_version: FeatureVersion::new(1, 0, 0),
            quality_gate: QualityGate {
                minimum_quality: QualityScore { millionths: minimum },
                minimum_coverage: QualityScore { millionths: minimum },
                allowed_health,
            },
            formula_hash: self.formula_hash(),
            documentation: documentation_for(self.id),
        }
    }
}

pub open spec fn cross_venue_recipes() -> Seq<Task6FeatureRecipe> {
    seq![
        Task6FeatureRecipe {
            id: "venue_midprice_deviation",
            formula: "venue-adjusted-price/consolidated-fair-price-1",
            value_type: FeatureValueType::Float64,
            entity: EntityScope::AssetSource,
            role: FeatureConsumptionRole::ModelEligible,
            status: FeatureStatus::Required,
            inputs: Task6Inputs::CrossVenue,
            window: RecipeWindow::Snapshot,
            availability: Task6ComputationAvailability::Implemented,
        },
        Task6FeatureRecipe {
            id: "cross_venue_median_absolute_dispersion",
            formula: "median(abs(venue-relative-to-fair));healthy-catalog-bound-books",
            value_type: FeatureValueType::Float64,
            entity: EntityScope::Asset,
            role: FeatureConsumptionRole::ModelEligible,
            status: FeatureStatus::Required,
            inputs: Task6Inputs::CrossVenue,
            window: RecipeWindow::Snapshot,
            availability: Task6ComputationAvailability::Implemented,
        },
        Task6FeatureRecipe {
            id: "indicative_cross_venue_price_range",
            formula: "(max-adjusted-price-min-adjusted-price)/median-adjusted-price;non-executable",
            value_type: FeatureValueType::Float64,
            entity: EntityScope::Asset,
            role: FeatureConsumptionRole::ModelEligible,
            status: FeatureStatus::Required,
            inputs: Task6Inputs::CrossVenue,
            window: RecipeWindow::Snapshot,
            availability: Task6ComputationAvailability::Implemented,
        },
        Task6FeatureRecipe {
            id: "executable_price_dispersion",
            formula: "max-net-sell-minus-min-net-buy-after-fees-conversion-settlement-lot-depth-latency",
            value_type: FeatureValueType::Float64,
            entity: EntityScope::Asset,
            role: FeatureConsumptionRole::ModelEligible,
            status: FeatureStatus::Required,
            inputs: Task6Inputs::Executable,
            window: RecipeWindow::Snapshot,
            availability: Task6ComputationAvailability::ExplicitlyUnavailable,
        },
        Task6FeatureRecipe {
            id: "spot_perpetual_disagreement",
            formula: "aligned-perpetual-fair/spot-fair-1;same-base-reference-asof",
            value_type: FeatureValueType::Float64,
            entity: EntityScope::Asset,
            role: FeatureConsumptionRole::ModelEligible,
            status: FeatureStatus::Required,
            inputs: Task6Inputs::CrossVenue,
            window: RecipeWindow::Snapshot,
            availability: Task6ComputationAvailability::ExplicitlyUnavailable,
        },
        Task6FeatureRecipe {
            id: "venue_lead_lag",
            formula: "point-in-time-lagged-correlation-of-aligned-venue-returns",
            value_type: FeatureValueType::Float64,
            entity: EntityScope::AssetSourcePair,
            role: FeatureConsumptionRole::ModelEligible,
            status: FeatureStatus::Required,
            inputs: Task6Inputs::CrossVenueHistory,
            window: RecipeWindow::History,
            availability: Task6ComputationAvailability::ExplicitlyUnavailable,
        },
        Task6FeatureRecipe {
            id: "venue_volume_share",
            formula: "venue-observed-volume/sum-eligible-venue-observed-volume",
            value_type: FeatureValueType::Float64,
            entity: EntityScope::AssetSource,
            role: FeatureConsumptionRole::ModelEligible,
            status: FeatureStatus::Required,
            inputs: Task6Inputs::VenueVolume,
            window: RecipeWindow::Flow,
            availability: Task6ComputationAvailability::ExplicitlyUnavailable,
        },
        Task6FeatureRecipe {
            id: "venue_depth_share",
            formula: "venue-adjusted-reference-depth/sum-included-adjusted-reference-depth",
            value_type: FeatureValueType::Float64,
            entity: EntityScope::AssetSource,
            role: FeatureConsumptionRole::ModelEligible,
            status: FeatureStatus::Required,
            inputs: Task6Inputs::CrossVenue,
            window: RecipeWindow::Snapshot,
            availability: Task6ComputationAvailability::Implemented,
        },
        Task6FeatureRecipe {
            id: "venue_concentration_index",
            formula: "sum(square(venue-depth-share))",
            value_type: FeatureValueType::Float64,
            entity: EntityScope::Asset,
            role: FeatureConsumptionRole::ModelEligible,
            status: FeatureStatus::Required,
            inputs: Task6Inputs::CrossVenue,
            window: RecipeWindow::Snapshot,
            availability: Task6ComputationAvailability::Implemented,
        },
        Task6FeatureRecipe {
            id: "stale_quote_indicator",
            formula: "collector-stale-quote-decision",
            value_type: FeatureValueType::Boolean,
            entity: EntityScope::Source,
            role: FeatureConsumptionRole::UncertaintyOnly,
            status: FeatureStatus::Required,
            inputs: Task6Inputs::Quality,
            window: RecipeWindow::Snapshot,
            availability: Task6ComputationAvailability::ExplicitlyUnavailable,
        },
        Task6FeatureRecipe {
            id: "crossed_market_indicator",
            formula: "trusted-book-crossed-or-locked-classification",
            value_type: FeatureValueType::Boolean,
            entity: EntityScope::Source,
            role: FeatureConsumptionRole::UncertaintyOnly,
            status: FeatureStatus::Required,
            inputs: Task6Inputs::Quality,
            window: RecipeWindow::Snapshot,
            availability: Task6ComputationAvailability::ExplicitlyUnavailable,
        },
        Task6FeatureRecipe {
            id: "cross_venue_liquidity_synchronization",
            formula: "correlation-of-aligned-venue-depth-changes",
            value_type: FeatureValueType::Float64,
            entity: EntityScope::Asset,
            role: FeatureConsumptionRole::ModelEligible,
            status: FeatureStatus::Required,
            inputs: Task6Inputs::CrossVenueHistory,
            window: RecipeWindow::History,
            availability: Task6ComputationAvailability::ExplicitlyUnavailable,
        },
        Task6FeatureRecipe {
            id: "healthy_venue_fraction",
            formula: "healthy-included-venues/point-in-time-eligible-venues",
            value_type: FeatureValueType::Float64,
            entity: EntityScope::Asset,
            role: FeatureConsumptionRole::UncertaintyOnly,
            status: FeatureStatus::Required,
            inputs: Task6Inputs::CrossVenue,
            window: RecipeWindow::Snapshot,
            availability: Task6ComputationAvailability::Implemented,
        },
        Task6FeatureRecipe {
            id: "local_move_classifier_input",
            formula: "venue-return-minus-cross-venue-robust-return",
            value_type: FeatureValueType::Float64,
            entity: EntityScope::AssetSource,
            role: FeatureConsumptionRole::ModelEligible,
            status: FeatureStatus::Required,
            inputs: Task6Inputs::CrossVenueHistory,
            window: RecipeWindow::Flow,
            availability: Task6ComputationAvailability::ExplicitlyUnavailable,
        },
        Task6FeatureRecipe {
            id: "systemic_move_classifier_input",
            formula: "healthy-venue-confirmation-fraction-for-common-direction",
            value_type: FeatureValueType::Float64,
            entity: EntityScope::Asset,
            role: FeatureConsumptionRole::ModelEligible,
            status: FeatureStatus::Required,
            inputs: Task6Inputs::CrossVenueHistory,
            window: RecipeWindow::Flow,
            availability: Task6ComputationAvailability::ExplicitlyUnavailable,
        },
        Task6FeatureRecipe {
            id: "transfer_friction_flag",
            formula: "settlement-or-transfer-constraint-prevents-cross-venue-execution",
            value_type: FeatureValueType::Boolean,
            entity: EntityScope::Asset,
            role: FeatureConsumptionRole::GatingOnly,
            status: FeatureStatus::Required,
            inputs: Task6Inputs::Executable,
            window: RecipeWindow::Snapshot,
            availability: Task6ComputationAvailability::ExplicitlyUnavailable,
        },
    ]
}

fn put_cross_venue_recipes(list: &mut Vec<Task6FeatureRecipe>)
    ensures
        final(list)@ == old(list)@ + cross_venue_recipes(),
{
    list.push(
        Task6FeatureRecipe {
            id: "venue_midprice_deviation",
            formula: "venue-adjusted-price/consolidated-fair-price-1",
            value_type: FeatureValueType::Float64,
            entity: EntityScope::AssetSource,
            role: FeatureConsumptionRole::ModelEligible,
            status: FeatureStatus::Required,
            inputs: Task6Inputs::CrossVenue,
            window: RecipeWindow::Snapshot,
            availability: Task6ComputationAvailability::Implemented,
        },
    );
    list.push(
        Task6FeatureRecipe {
            id: "cross_venue_median_absolute_dispersion",
            formula: "median(abs(venue-relative-to-fair));healthy-catalog-bound-books",
            value_type: FeatureValueType::Float64,
            entity: EntityScope::Asset,
            role: FeatureConsumptionRole::ModelEligible,
            status: FeatureStatus::Required,
            inputs: Task6Inputs::CrossVenue,
            window: RecipeWindow::Snapshot,
            availability: Task6ComputationAvailability::Implemented,
        },
    );
    list.push(
        Task6FeatureRecipe {
            id: "indicative_cross_venue_price_range",
            formula: "(max-adjusted-price-min-adjusted-price)/median-adjusted-price;non-executable",
            value_type: FeatureValueType::Float64,
            entity: EntityScope::Asset,
            role: FeatureConsumptionRole::ModelEligible,
            status: FeatureStatus::Required,
            inputs: Task6Inputs::CrossVenue,
            window: RecipeWindow::Snapshot,
            availability: Task6ComputationAvailability::Implemented,
        },
    );
    list.push(
        Task6FeatureRecipe {
            id: "executable_price_dispersion",
            formula: "max-net-sell-minus-min-net-buy-after-fees-conversion-settlement-lot-depth-latency",
            value_type: FeatureValueType::Float64,
            entity: EntityScope::Asset,
            role: FeatureConsumptionRole::ModelEligible,
            status: FeatureStatus::Required,
            inputs: Task6Inputs::Executable,
            window: RecipeWindow::Snapshot,
            availability: Task6ComputationAvailability::ExplicitlyUnavailable,
        },
    );
    list.push(
        Task6FeatureRecipe {
            id: "spot_perpetual_disagreement",
            formula: "aligned-perpetual-fair/spot-fair-1;same-base-reference-asof",
            value_type: FeatureValueType::Float64,
            entity: EntityScope::Asset,
            role: FeatureConsumptionRole::ModelEligible,
            status: FeatureStatus::Required,
            inputs: Task6Inputs::CrossVenue,
            window: RecipeWindow::Snapshot,
            availability: Task6ComputationAvailability::ExplicitlyUnavailable,
        },
    );
    list.push(
        Task6FeatureRecipe {
            id: "venue_lead_lag",
            formula: "point-in-time-lagged-correlation-of-aligned-venue-returns",
            value_type: FeatureValueType::Float64,
            entity: EntityScope::AssetSourcePair,
            role: FeatureConsumptionRole::ModelEligible,
            status: FeatureStatus::Required,
            inputs: Task6Inputs::CrossVenueHistory,
            window: RecipeWindow::History,
            availability: Task6ComputationAvailability::ExplicitlyUnavailable,
        },
    );
    list.push(
        Task6FeatureRecipe {
            id: "venue_volume_share",
            formula: "venue-observed-volume/sum-eligible-venue-observed-volume",
            value_type: FeatureValueType::Float64,
            entity: EntityScope::AssetSource,
            role: FeatureConsumptionRole::ModelEligible,
            status: FeatureStatus::Required,
            inputs: Task6Inputs::VenueVolume,
            window: RecipeWindow::Flow,
            availability: Task6ComputationAvailability::ExplicitlyUnavailable,
        },
    );
    list.push(
        Task6FeatureRecipe {
            id: "venue_depth_share",
            formula: "venue-adjusted-reference-depth/sum-included-adjusted-reference-depth",
            value_type: FeatureValueType::Float64,
            entity: EntityScope::AssetSource,
            role: FeatureConsumptionRole::ModelEligible,
            status: FeatureStatus::Required,
            inputs: Task6Inputs::CrossVenue,
            window: RecipeWindow::Snapshot,
            availability: Task6ComputationAvailability::Implemented,
        },
    );
    list.push(
        Task6FeatureRecipe {
            id: "venue_concentration_index",
            formula: "sum(square(venue-depth-share))",
            value_type: FeatureValueType::Float64,
            entity: EntityScope::Asset,
            role: FeatureConsumptionRole::ModelEligible,
            status: FeatureStatus::Required,
            inputs: Task6Inputs::CrossVenue,
            window: RecipeWindow::Snapshot,
            availability: Task6ComputationAvailability::Implemented,
        },
    );
    list.push(
        Task6FeatureRecipe {
            id: "stale_quote_indicator",
            formula: "collector-stale-quote-decision",
            value_type: FeatureValueType::Boolean,
            entity: EntityScope::Source,
            role: FeatureConsumptionRole::UncertaintyOnly,
            status: FeatureStatus::Required,
            inputs: Task6Inputs::Quality,
            window: RecipeWindow::Snapshot,
            availability: Task6ComputationAvailability::ExplicitlyUnavailable,
        },
    );
    list.push(
        Task6FeatureRecipe {
            id: "crossed_market_indicator",
            formula: "trusted-book-crossed-or-locked-classification",
            value_type: FeatureValueType::Boolean,
            entity: EntityScope::Source,
            role: FeatureConsumptionRole::UncertaintyOnly,
            status: FeatureStatus::Required,
            inputs: Task6Inputs::Quality,
            window: RecipeWindow::Snapshot,
            availability: Task6ComputationAvailability::ExplicitlyUnavailable,
        },
    );
    list.push(
        Task6FeatureRecipe {
            id: "cross_venue_liquidity_synchronization",
            formula: "correlation-of-aligned-venue-depth-changes",
            value_type: FeatureValueType::Float64,
            entity: EntityScope::Asset,
            role: FeatureConsumptionRole::ModelEligible,
            status: FeatureStatus::Required,
            inputs: Task6Inputs::CrossVenueHistory,
            window: RecipeWindow::History,
            availability: Task6ComputationAvailability::ExplicitlyUnavailable,
        },
    );
    list.push(
        Task6FeatureRecipe {
            id: "healthy_venue_fraction",
            formula: "healthy-included-venues/point-in-time-eligible-venues",
            value_type: FeatureValueType::Float64,
            entity: EntityScope::Asset,
            role: FeatureConsumptionRole::UncertaintyOnly,
            status: FeatureStatus::Required,
            inputs: Task6Inputs::CrossVenue,
            window: RecipeWindow::Snapshot,
            availability: Task6ComputationAvailability::Implemented,
        },
    );
    list.push(
        Task6FeatureRecipe {
            id: "local_move_classifier_input",
            formula: "venue-return-minus-cross-venue-robust-return",
            value_type: FeatureValueType::Float64,
            entity: EntityScope::AssetSource,
            role: FeatureConsumptionRole::ModelEligible,
            status: FeatureStatus::Required,
            inputs: Task6Inputs::CrossVenueHistory,
            window: RecipeWindow::Flow,
            availability: Task6ComputationAvailability::ExplicitlyUnavailable,
        },
    );
    list.push(
        Task6FeatureRecipe {
            id: "systemic_move_classifier_input",
            formula: "healthy-venue-confirmation-fraction-for-common-direction",
            value_type: FeatureValueType::Float64,
            entity: EntityScope::Asset,
            role: FeatureConsumptionRole::ModelEligible,
            status: FeatureStatus::Required,
            inputs: Task6Inputs::CrossVenueHistory,
            window: RecipeWindow::Flow,
            availability: Task6ComputationAvailability::ExplicitlyUnavailable,
        },
    );
    list.push(
        Task6FeatureRecipe {
            id: "transfer_friction_flag",
            formula: "settlement-or-transfer-constraint-prevents-cross-venue-execution",
            value_type: FeatureValueType::Boolean,
            entity: EntityScope::Asset,
            role: FeatureConsumptionRole::GatingOnly,
            status: FeatureStatus::Required,
            inputs: Task6Inputs::Executable,
            window: RecipeWindow::Snapshot,
            availability: Task6ComputationAvailability::ExplicitlyUnavailable,
        },
    );
    proof {
        assert(list@ =~= old(list)@ + cross_venue_recipes());
    }
}

pub open spec fn derivative_recipes() -> Seq<Task6FeatureRecipe> {
    seq![
        Task6FeatureRecipe {
            id: "predicted_funding_rate",
            formula: "connector-reported-predicted-funding-rate-for-next-funding-time;not-realized",
            value_type: FeatureValueType::FixedDecimal,
            entity: EntityScope::Instrument,
            role: FeatureConsumptionRole::ModelEligible,
            status: FeatureStatus::Required,
            inputs: Task6Inputs::Derivative,
            window: RecipeWindow::Snapshot,
            availability: Task6ComputationAvailability::Implemented,
        },
        Task6FeatureRecipe {
            id: "realized_funding_rate",
            formula: "settled-funding-payment-rate-at-event-time",
            value_type: FeatureValueType::FixedDecimal,
            entity: EntityScope::Instrument,
            role: FeatureConsumptionRole::ModelEligible,
            status: FeatureStatus::Required,
            inputs: Task6Inputs::RealizedFunding,
            window: RecipeWindow::Flow,
            availability: Task6ComputationAvailability::ExplicitlyUnavailable,
        },
        Task6FeatureRecipe {
            id: "funding_rate_change",
            formula: "current-funding-rate-minus-prior-funding-rate",
            value_type: FeatureValueType::FixedDecimal,
            entity: EntityScope::Instrument,
            role: FeatureConsumptionRole::ModelEligible,
            status: FeatureStatus::Required,
            inputs: Task6Inputs::DerivativeHistory,
            window: RecipeWindow::Flow,
            availability: Task6ComputationAvailability::Implemented,
        },
        Task6FeatureRecipe {
            id: "funding_rate_percentile",
            formula: "point-in-time-empirical-cdf-of-funding-rate",
            value_type: FeatureValueType::Float64,
            entity: EntityScope::Instrument,
            role: FeatureConsumptionRole::ModelEligible,
            status: FeatureStatus::Required,
            inputs: Task6Inputs::DerivativeHistory,
            window: RecipeWindow::History,
            availability: Task6ComputationAvailability::ExplicitlyUnavailable,
        },
        Task6FeatureRecipe {
            id: "funding_rate_robust_zscore",
            formula: "(funding-median)/(1.4826*mad);zero-mad-missing",
            value_type: FeatureValueType::Float64,
            entity: EntityScope::Instrument,
            role: FeatureConsumptionRole::ModelEligible,
            status: FeatureStatus::Required,
            inputs: Task6Inputs::DerivativeHistory,
            window: RecipeWindow::History,
            availability: Task6ComputationAvailability::ExplicitlyUnavailable,
        },
        Task6FeatureRecipe {
            id: "funding_rate_mad",
            formula: "median(abs(funding-median-funding))",
            value_type: FeatureValueType::Float64,
            entity: EntityScope::Instrument,
            role: FeatureConsumptionRole::ModelEligible,
            status: FeatureStatus::Required,
            inputs: Task6Inputs::DerivativeHistory,
            window: RecipeWindow::History,
            availability: Task6ComputationAvailability::ExplicitlyUnavailable,
        },
        Task6FeatureRecipe {
            id: "cross_venue_funding_dispersion",
            formula: "median(abs(venue-funding-median-funding))",
            value_type: FeatureValueType::Float64,
            entity: EntityScope::Asset,
            role: FeatureConsumptionRole::ModelEligible,
            status: FeatureStatus::Required,
            inputs: Task6Inputs::CrossVenueFunding,
            window: RecipeWindow::Flow,
            availability: Task6ComputationAvailability::ExplicitlyUnavailable,
        },
        Task6FeatureRecipe {
            id: "open_interest_native",
            formula: "connector-reported-native-open-interest",
            value_type: FeatureValueType::FixedDecimal,
            entity: EntityScope::Instrument,
            role: FeatureConsumptionRole::ModelEligible,
            status: FeatureStatus::Required,
            inputs: Task6Inputs::Derivative,
            window: RecipeWindow::Snapshot,
            availability: Task6ComputationAvailability::Implemented,
        },
        Task6FeatureRecipe {
            id: "open_interest_usd_notional",
            formula: "instrument-quote-notional(open-interest,valuation-price)*point-in-time-quote-usd",
            value_type: FeatureValueType::FixedDecimal,
            entity: EntityScope::Instrument,
            role: FeatureConsumptionRole::ModelEligible,
            status: FeatureStatus::Required,
            inputs: Task6Inputs::OpenInterestUsd,
            window: RecipeWindow::Snapshot,
            availability: Task6ComputationAvailability::ExplicitlyUnavailable,
        },
        Task6FeatureRecipe {
            id: "open_interest_relative_change",
            formula: "current-native-open-interest/prior-native-open-interest-1",
            value_type: FeatureValueType::Float64,
            entity: EntityScope::Instrument,
            role: FeatureConsumptionRole::ModelEligible,
            status: FeatureStatus::Required,
            inputs: Task6Inputs::DerivativeHistory,
            window: RecipeWindow::Flow,
            availability: Task6ComputationAvailability::Implemented,
        },
        Task6FeatureRecipe {
            id: "open_interest_change_conditioned_on_price",
            formula: "open-interest-relative-change*sign(aligned-price-return)",
            value_type: FeatureValueType::Float64,
            entity: EntityScope::Instrument,
            role: FeatureConsumptionRole::ModelEligible,
            status: FeatureStatus::Required,
            inputs: Task6Inputs::OpenInterestPrice,
            window: RecipeWindow::Flow,
            availability: Task6ComputationAvailability::ExplicitlyUnavailable,
        },
        Task6FeatureRecipe {
            id: "mark_index_divergence",
            formula: "mark-price/index-price-1",
            value_type: FeatureValueType::Float64,
            entity: EntityScope::Instrument,
            role: FeatureConsumptionRole::ModelEligible,
            status: FeatureStatus::Required,
            inputs: Task6Inputs::Derivative,
            window: RecipeWindow::Snapshot,
            availability: Task6ComputationAvailability::Implemented,
        },
        Task6FeatureRecipe {
            id: "perpetual_spot_basis",
            formula: "perpetual-price/aligned-spot-price-1",
            value_type: FeatureValueType::Float64,
            entity: EntityScope::Asset,
            role: FeatureConsumptionRole::ModelEligible,
            status: FeatureStatus::Required,
            inputs: Task6Inputs::Basis,
            window: RecipeWindow::Snapshot,
            availability: Task6ComputationAvailability::ExplicitlyUnavailable,
        },
        Task6FeatureRecipe {
            id: "dated_future_basis",
            formula: "dated-future-price/aligned-reference-price-1",
            value_type: FeatureValueType::Float64,
            entity: EntityScope::Instrument,
            role: FeatureConsumptionRole::ModelEligible,
            status: FeatureStatus::Required,
            inputs: Task6Inputs::DatedBasis,
            window: RecipeWindow::Snapshot,
            availability: Task6ComputationAvailability::ExplicitlyUnavailable,
        },
        Task6FeatureRecipe {
            id: "annualized_dated_future_basis",
            formula: "dated-future-basis/(seconds-to-expiry/seconds-per-365-day-year)",
            value_type: FeatureValueType::Float64,
            entity: EntityScope::Instrument,
            role: FeatureConsumptionRole::ModelEligible,
            status: FeatureStatus::Required,
            inputs: Task6Inputs::DatedBasis,
            window: RecipeWindow::Snapshot,
            availability: Task6ComputationAvailability::ExplicitlyUnavailable,
        },
        Task6FeatureRecipe {
            id: "futures_curve_slope",
            formula: "delta-annualized-basis/delta-seconds-to-expiry;at-least-two-maturities",
            value_type: FeatureValueType::Float64,
            entity: EntityScope::Asset,
            role: FeatureConsumptionRole::ModelEligible,
            status: FeatureStatus::Required,
            inputs: Task6Inputs::Curve,
            window: RecipeWindow::Snapshot,
            availability: Task6ComputationAvailability::ExplicitlyUnavailable,
        },
        Task6FeatureRecipe {
            id: "futures_curve_curvature",
            formula: "second-divided-difference-of-annualized-basis;at-least-three-maturities",
            value_type: FeatureValueType::Float64,
            entity: EntityScope::Asset,
            role: FeatureConsumptionRole::ModelEligible,
            status: FeatureStatus::Required,
            inputs: Task6Inputs::Curve,
            window: RecipeWindow::Snapshot,
            availability: Task6ComputationAvailability::ExplicitlyUnavailable,
        },
    ]
}

fn put_derivative_recipes(list: &mut Vec<Task6FeatureRecipe>)
    ensures
        final(list)@ == old(list)@ + derivative_recipes(),
{
    list.push(
        Task6FeatureRecipe {
            id: "predicted_funding_rate",
            formula: "connector-reported-predicted-funding-rate-for-next-funding-time;not-realized",
            value_type: FeatureValueType::FixedDecimal,
            entity: EntityScope::Instrument,
            role: FeatureConsumptionRole::ModelEligible,
            status: FeatureStatus::Required,
            inputs: Task6Inputs::Derivative,
            window: RecipeWindow::Snapshot,
            availability: Task6ComputationAvailability::Implemented,
        },
    );
    list.push(
        Task6FeatureRecipe {
            id: "realized_funding_rate",
            formula: "settled-funding-payment-rate-at-event-time",
            value_type: FeatureValueType::FixedDecimal,
            entity: EntityScope::Instrument,
            role: FeatureConsumptionRole::ModelEligible,
            status: FeatureStatus::Required,
            inputs: Task6Inputs::RealizedFunding,
            window: RecipeWindow::Flow,
            availability: Task6ComputationAvailability::ExplicitlyUnavailable,
        },
    );
    list.push(
        Task6FeatureRecipe {
            id: "funding_rate_change",
            formula: "current-funding-rate-minus-prior-funding-rate",
            value_type: FeatureValueType::FixedDecimal,
            entity: EntityScope::Instrument,
            role: FeatureConsumptionRole::ModelEligible,
            status: FeatureStatus::Required,
            inputs: Task6Inputs::DerivativeHistory,
            window: RecipeWindow::Flow,
            availability: Task6ComputationAvailability::Implemented,
        },
    );
    list.push(
        Task6FeatureRecipe {
            id: "funding_rate_percentile",
            formula: "point-in-time-empirical-cdf-of-funding-rate",
            value_type: FeatureValueType::Float64,
            entity: EntityScope::Instrument,
            role: FeatureConsumptionRole::ModelEligible,
            status: FeatureStatus::Required,
            inputs: Task6Inputs::DerivativeHistory,
            window: RecipeWindow::History,
            availability: Task6ComputationAvailability::ExplicitlyUnavailable,
        },
    );
    list.push(
        Task6FeatureRecipe {
            id: "funding_rate_robust_zscore",
            formula: "(funding-median)/(1.4826*mad);zero-mad-missing",
            value_type: FeatureValueType::Float64,
            entity: EntityScope::Instrument,
            role: FeatureConsumptionRole::ModelEligible,
            status: FeatureStatus::Required,
            inputs: Task6Inputs::DerivativeHistory,
            window: RecipeWindow::History,
            availability: Task6ComputationAvailability::ExplicitlyUnavailable,
        },
    );
    list.push(
        Task6FeatureRecipe {
            id: "funding_rate_mad",
            formula: "median(abs(funding-median-funding))",
            value_type: FeatureValueType::Float64,
            entity: EntityScope::Instrument,
            role: FeatureConsumptionRole::ModelEligible,
            status: FeatureStatus::Required,
            inputs: Task6Inputs::DerivativeHistory,
            window: RecipeWindow::History,
            availability: Task6ComputationAvailability::ExplicitlyUnavailable,
        },
    );
    list.push(
        Task6FeatureRecipe {
            id: "cross_venue_funding_dispersion",
            formula: "median(abs(venue-funding-median-funding))",
            value_type: FeatureValueType::Float64,
            entity: EntityScope::Asset,
            role: FeatureConsumptionRole::ModelEligible,
            status: FeatureStatus::Required,
            inputs: Task6Inputs::CrossVenueFunding,
            window: RecipeWindow::Flow,
            availability: Task6ComputationAvailability::ExplicitlyUnavailable,
        },
    );
    list.push(
        Task6FeatureRecipe {
            id: "open_interest_native",
            formula: "connector-reported-native-open-interest",
            value_type: FeatureValueType::FixedDecimal,
            entity: EntityScope::Instrument,
            role: FeatureConsumptionRole::ModelEligible,
            status: FeatureStatus::Required,
            inputs: Task6Inputs::Derivative,
            window: RecipeWindow::Snapshot,
            availability: Task6ComputationAvailability::Implemented,
        },
    );
    list.push(
        Task6FeatureRecipe {
            id: "open_interest_usd_notional",
            formula: "instrument-quote-notional(open-interest,valuation-price)*point-in-time-quote-usd",
            value_type: FeatureValueType::FixedDecimal,
            entity: EntityScope::Instrument,
            role: FeatureConsumptionRole::ModelEligible,
            status: FeatureStatus::Required,
            inputs: Task6Inputs::OpenInterestUsd,
            window: RecipeWindow::Snapshot,
            availability: Task6ComputationAvailability::ExplicitlyUnavailable,
        },
    );
    list.push(
        Task6FeatureRecipe {
            id: "open_interest_relative_change",
            formula: "current-native-open-interest/prior-native-open-interest-1",
            value_type: FeatureValueType::Float64,
            entity: EntityScope::Instrument,
            role: FeatureConsumptionRole::ModelEligible,
            status: FeatureStatus::Required,
            inputs: Task6Inputs::DerivativeHistory,
            window: RecipeWindow::Flow,
            availability: Task6ComputationAvailability::Implemented,
        },
    );
    list.push(
        Task6FeatureRecipe {
            id: "open_interest_change_conditioned_on_price",
            formula: "open-interest-relative-change*sign(aligned-price-return)",
            value_type: FeatureValueType::Float64,
            entity: EntityScope::Instrument,
            role: FeatureConsumptionRole::ModelEligible,
            status: FeatureStatus::Required,
            inputs: Task6Inputs::OpenInterestPrice,
            window: RecipeWindow::Flow,
            availability: Task6ComputationAvailability::ExplicitlyUnavailable,
        },
    );
    list.push(
        Task6FeatureRecipe {
            id: "mark_index_divergence",
            formula: "mark-price/index-price-1",
            value_type: FeatureValueType::Float64,
            entity: EntityScope::Instrument,
            role: FeatureConsumptionRole::ModelEligible,
            status: FeatureStatus::Required,
            inputs: Task6Inputs::Derivative,
            window: RecipeWindow::Snapshot,
            availability: Task6ComputationAvailability::Implemented,
        },
    );
    list.push(
        Task6FeatureRecipe {
            id: "perpetual_spot_basis",
            formula: "perpetual-price/aligned-spot-price-1",
            value_type: FeatureValueType::Float64,
            entity: EntityScope::Asset,
            role: FeatureConsumptionRole::ModelEligible,
            status: FeatureStatus::Required,
            inputs: Task6Inputs::Basis,
            window: RecipeWindow::Snapshot,
            availability: Task6ComputationAvailability::ExplicitlyUnavailable,
        },
    );
    list.push(
        Task6FeatureRecipe {
            id: "dated_future_basis",
            formula: "dated-future-price/aligned-reference-price-1",
            value_type: FeatureValueType::Float64,
            entity: EntityScope::Instrument,
            role: FeatureConsumptionRole::ModelEligible,
            status: FeatureStatus::Required,
            inputs: Task6Inputs::DatedBasis,
            window: RecipeWindow::Snapshot,
            availability: Task6ComputationAvailability::ExplicitlyUnavailable,
        },
    );
    list.push(
        Task6FeatureRecipe {
            id: "annualized_dated_future_basis",
            formula: "dated-future-basis/(seconds-to-expiry/seconds-per-365-day-year)",
            value_type: FeatureValueType::Float64,
            entity: EntityScope::Instrument,
            role: FeatureConsumptionRole::ModelEligible,
            status: FeatureStatus::Required,
            inputs: Task6Inputs::DatedBasis,
            window: RecipeWindow::Snapshot,
            availability: Task6ComputationAvailability::ExplicitlyUnavailable,
        },
    );
    list.push(
        Task6FeatureRecipe {
            id: "futures_curve_slope",
            formula: "delta-annualized-basis/delta-seconds-to-expiry;at-least-two-maturities",
            value_type: FeatureValueType::Float64,
            entity: EntityScope::Asset,
            role: FeatureConsumptionRole::ModelEligible,
            status: FeatureStatus::Required,
            inputs: Task6Inputs::Curve,
            window: RecipeWindow::Snapshot,
            availability: Task6ComputationAvailability::ExplicitlyUnavailable,
        },
    );
    list.push(
        Task6FeatureRecipe {
            id: "futures_curve_curvature",
            formula: "second-divided-difference-of-annualized-basis;at-least-three-maturities",
            value_type: FeatureValueType::Float64,
            entity: EntityScope::Asset,
            role: FeatureConsumptionRole::ModelEligible,
            status: FeatureStatus::Required,
            inputs: Task6Inputs::Curve,
            window: RecipeWindow::Snapshot,
            availability: Task6ComputationAvailability::ExplicitlyUnavailable,
        },
    );
    proof {
        assert(list@ =~= old(list)@ + derivative_recipes());
    }
}

pub open spec fn liquidation_recipes() -> Seq<Task6FeatureRecipe> {
    seq![
        Task6FeatureRecipe {
            id: "liquidation_observed_count",
            formula: "count-sealed-liquidation-receipts;coverage-qualified",
            value_type: FeatureValueType::Integer,
            entity: EntityScope::Instrument,
            role: FeatureConsumptionRole::ModelEligible,
            status: FeatureStatus::Required,
            inputs: Task6Inputs::Liquidation,
            window: RecipeWindow::Flow,
            availability: Task6ComputationAvailability::Implemented,
        },
        Task6FeatureRecipe {
            id: "liquidation_observed_notional",
            formula: "sum-instrument-quote-notional(sealed-liquidation-receipts);sampled-is-lower-bound",
            value_type: FeatureValueType::FixedDecimal,
            entity: EntityScope::Instrument,
            role: FeatureConsumptionRole::ModelEligible,
            status: FeatureStatus::Required,
            inputs: Task6Inputs::Liquidation,
            window: RecipeWindow::Flow,
            availability: Task6ComputationAvailability::Implemented,
        },
        Task6FeatureRecipe {
            id: "liquidation_observed_velocity",
            formula: "observed-liquidation-count/window-seconds;coverage-qualified",
            value_type: FeatureValueType::Float64,
            entity: EntityScope::Instrument,
            role: FeatureConsumptionRole::ModelEligible,
            status: FeatureStatus::Required,
            inputs: Task6Inputs::Liquidation,
            window: RecipeWindow::Flow,
            availability: Task6ComputationAvailability::Implemented,
        },
        Task6FeatureRecipe {
            id: "liquidation_observed_acceleration",
            formula: "current-observed-velocity-minus-prior-observed-velocity-over-elapsed-seconds",
            value_type: FeatureValueType::Float64,
            entity: EntityScope::Instrument,
            role: FeatureConsumptionRole::ModelEligible,
            status: FeatureStatus::Required,
            inputs: Task6Inputs::Liquidation,
            window: RecipeWindow::Flow,
            availability: Task6ComputationAvailability::ExplicitlyUnavailable,
        },
        Task6FeatureRecipe {
            id: "liquidation_to_volume_ratio",
            formula: "coverage-qualified-observed-liquidation-notional/aligned-traded-notional",
            value_type: FeatureValueType::Float64,
            entity: EntityScope::Instrument,
            role: FeatureConsumptionRole::ModelEligible,
            status: FeatureStatus::Required,
            inputs: Task6Inputs::LiquidationVolume,
            window: RecipeWindow::Flow,
            availability: Task6ComputationAvailability::ExplicitlyUnavailable,
        },
        Task6FeatureRecipe {
            id: "liquidation_to_open_interest_ratio",
            formula: "coverage-qualified-observed-liquidation-notional/aligned-open-interest-notional",
            value_type: FeatureValueType::Float64,
            entity: EntityScope::Instrument,
            role: FeatureConsumptionRole::ModelEligible,
            status: FeatureStatus::Required,
            inputs: Task6Inputs::LiquidationOi,
            window: RecipeWindow::Flow,
            availability: Task6ComputationAvailability::ExplicitlyUnavailable,
        },
        Task6FeatureRecipe {
            id: "open_interest_destruction",
            formula: "max(-open-interest-relative-change,0)*abs(aligned-price-return)",
            value_type: FeatureValueType::Float64,
            entity: EntityScope::Instrument,
            role: FeatureConsumptionRole::ModelEligible,
            status: FeatureStatus::Required,
            inputs: Task6Inputs::OpenInterestPrice,
            window: RecipeWindow::Flow,
            availability: Task6ComputationAvailability::ExplicitlyUnavailable,
        },
        Task6FeatureRecipe {
            id: "insurance_fund_state",
            formula: "connector-reported-public-reliable-insurance-fund-state",
            value_type: FeatureValueType::FixedDecimal,
            entity: EntityScope::Venue,
            role: FeatureConsumptionRole::UncertaintyOnly,
            status: FeatureStatus::Optional,
            inputs: Task6Inputs::Insurance,
            window: RecipeWindow::Snapshot,
            availability: Task6ComputationAvailability::ExplicitlyUnavailable,
        },
        Task6FeatureRecipe {
            id: "adl_state",
            formula: "connector-reported-public-reliable-adl-state",
            value_type: FeatureValueType::Integer,
            entity: EntityScope::Venue,
            role: FeatureConsumptionRole::UncertaintyOnly,
            status: FeatureStatus::Optional,
            inputs: Task6Inputs::Adl,
            window: RecipeWindow::Snapshot,
            availability: Task6ComputationAvailability::ExplicitlyUnavailable,
        },
        Task6FeatureRecipe {
            id: "liquidation_source_completeness_flag",
            formula: "connector-and-window-bound-liquidation-completeness-class",
            value_type: FeatureValueType::Integer,
            entity: EntityScope::Source,
            role: FeatureConsumptionRole::UncertaintyOnly,
            status: FeatureStatus::Required,
            inputs: Task6Inputs::LiquidationCompleteness,
            window: RecipeWindow::Flow,
            availability: Task6ComputationAvailability::Implemented,
        },
    ]
}

fn put_liquidation_recipes(list: &mut Vec<Task6FeatureRecipe>)
    ensures
        final(list)@ == old(list)@ + liquidation_recipes(),
{
    list.push(
        Task6FeatureRecipe {
            id: "liquidation_observed_count",
            formula: "count-sealed-liquidation-receipts;coverage-qualified",
            value_type: FeatureValueType::Integer,
            entity: EntityScope::Instrument,
            role: FeatureConsumptionRole::ModelEligible,
            status: FeatureStatus::Required,
            inputs: Task6Inputs::Liquidation,
            window: RecipeWindow::Flow,
            availability: Task6ComputationAvailability::Implemented,
        },
    );
    list.push(
        Task6FeatureRecipe {
            id: "liquidation_observed_notional",
            formula: "sum-instrument-quote-notional(sealed-liquidation-receipts);sampled-is-lower-bound",
            value_type: FeatureValueType::FixedDecimal,
            entity: EntityScope::Instrument,
            role: FeatureConsumptionRole::ModelEligible,
            status: FeatureStatus::Required,
            inputs: Task6Inputs::Liquidation,
            window: RecipeWindow::Flow,
            availability: Task6ComputationAvailability::Implemented,
        },
    );
    list.push(
        Task6FeatureRecipe {
            id: "liquidation_observed_velocity",
            formula: "observed-liquidation-count/window-seconds;coverage-qualified",
            value_type: FeatureValueType::Float64,
            entity: EntityScope::Instrument,
            role: FeatureConsumptionRole::ModelEligible,
            status: FeatureStatus::Required,
            inputs: Task6Inputs::Liquidation,
            window: RecipeWindow::Flow,
            availability: Task6ComputationAvailability::Implemented,
        },
    );
    list.push(
        Task6FeatureRecipe {
            id: "liquidation_observed_acceleration",
            formula: "current-observed-velocity-minus-prior-observed-velocity-over-elapsed-seconds",
            value_type: FeatureValueType::Float64,
            entity: EntityScope::Instrument,
            role: FeatureConsumptionRole::ModelEligible,
            status: FeatureStatus::Required,
            inputs: Task6Inputs::Liquidation,
            window: RecipeWindow::Flow,
            availability: Task6ComputationAvailability::ExplicitlyUnavailable,
        },
    );
    list.push(
        Task6FeatureRecipe {
            id: "liquidation_to_volume_ratio",
            formula: "coverage-qualified-observed-liquidation-notional/aligned-traded-notional",
            value_type: FeatureValueType::Float64,
            entity: EntityScope::Instrument,
            role: FeatureConsumptionRole::ModelEligible,
            status: FeatureStatus::Required,
            inputs: Task6Inputs::LiquidationVolume,
            window: RecipeWindow::Flow,
            availability: Task6ComputationAvailability::ExplicitlyUnavailable,
        },
    );
    list.push(
        Task6FeatureRecipe {
            id: "liquidation_to_open_interest_ratio",
            formula: "coverage-qualified-observed-liquidation-notional/aligned-open-interest-notional",
            value_type: FeatureValueType::Float64,
            entity: EntityScope::Instrument,
            role: FeatureConsumptionRole::ModelEligible,
            status: FeatureStatus::Required,
            inputs: Task6Inputs::LiquidationOi,
            window: RecipeWindow::Flow,
            availability: Task6ComputationAvailability::ExplicitlyUnavailable,
        },
    );
    list.push(
        Task6FeatureRecipe {
            id: "open_interest_destruction",
            formula: "max(-open-interest-relative-change,0)*abs(aligned-price-return)",
            value_type: FeatureValueType::Float64,
            entity: EntityScope::Instrument,
            role: FeatureConsumptionRole::ModelEligible,
            status: FeatureStatus::Required,
            inputs: Task6Inputs::OpenInterestPrice,
            window: RecipeWindow::Flow,
            availability: Task6ComputationAvailability::ExplicitlyUnavailable,
        },
    );
    list.push(
        Task6FeatureRecipe {
            id: "insurance_fund_state",
            formula: "connector-reported-public-reliable-insurance-fund-state",
            value_type: FeatureValueType::FixedDecimal,
            entity: EntityScope::Venue,
            role: FeatureConsumptionRole::UncertaintyOnly,
            status: FeatureStatus::Optional,
            inputs: Task6Inputs::Insurance,
            window: RecipeWindow::Snapshot,
            availability: Task6ComputationAvailability::ExplicitlyUnavailable,
        },
    );
    list.push(
        Task6FeatureRecipe {
            id: "adl_state",
            formula: "connector-reported-public-reliable-adl-state",
            value_type: FeatureValueType::Integer,
            entity: EntityScope::Venue,
            role: FeatureConsumptionRole::UncertaintyOnly,
            status: FeatureStatus::Optional,
            inputs: Task6Inputs::Adl,
            window: RecipeWindow::Snapshot,
            availability: Task6ComputationAvailability::ExplicitlyUnavailable,
        },
    );
    list.push(
        Task6FeatureRecipe {
            id: "liquidation_source_completeness_flag",
            formula: "connector-and-window-bound-liquidation-completeness-class",
            value_type: FeatureValueType::Integer,
            entity: EntityScope::Source,
            role: FeatureConsumptionRole::UncertaintyOnly,
            status: FeatureStatus::Required,
            inputs: Task6Inputs::LiquidationCompleteness,
            window: RecipeWindow::Flow,
            availability: Task6ComputationAvailability::Implemented,
        },
    );
    proof {
        assert(list@ =~= old(list)@ + liquidation_recipes());
    }
}

pub open spec fn operational_recipes() -> Seq<Task6FeatureRecipe> {
    seq![
        Task6FeatureRecipe {
            id: "source_latency_ns",
            formula: "collector-receive-wall-time-minus-source-event-time;nanoseconds",
            value_type: FeatureValueType::Integer,
            entity: EntityScope::Source,
            role: FeatureConsumptionRole::UncertaintyOnly,
            status: FeatureStatus::Required,
            inputs: Task6Inputs::Quality,
            window: RecipeWindow::Snapshot,
            availability: Task6ComputationAvailability::Implemented,
        },
        Task6FeatureRecipe {
            id: "feed_jitter_ns",
            formula: "point-in-time-feed-latency-absolute-change;nanoseconds",
            value_type: FeatureValueType::Integer,
            entity: EntityScope::Source,
            role: FeatureConsumptionRole::UncertaintyOnly,
            status: FeatureStatus::Required,
            inputs: Task6Inputs::Quality,
            window: RecipeWindow::Flow,
            availability: Task6ComputationAvailability::Implemented,
        },
        Task6FeatureRecipe {
            id: "clock_skew_estimate_ns",
            formula: "collector-clock-estimator-source-minus-local;nanoseconds",
            value_type: FeatureValueType::Integer,
            entity: EntityScope::Source,
            role: FeatureConsumptionRole::UncertaintyOnly,
            status: FeatureStatus::Required,
            inputs: Task6Inputs::Quality,
            window: RecipeWindow::Snapshot,
            availability: Task6ComputationAvailability::Implemented,
        },
        Task6FeatureRecipe {
            id: "sequence_gap_count",
            formula: "collector-verified-sequence-gaps-in-window",
            value_type: FeatureValueType::Integer,
            entity: EntityScope::Source,
            role: FeatureConsumptionRole::UncertaintyOnly,
            status: FeatureStatus::Required,
            inputs: Task6Inputs::Quality,
            window: RecipeWindow::Flow,
            availability: Task6ComputationAvailability::Implemented,
        },
        Task6FeatureRecipe {
            id: "checksum_failure_count",
            formula: "collector-verified-checksum-failures-in-window",
            value_type: FeatureValueType::Integer,
            entity: EntityScope::Source,
            role: FeatureConsumptionRole::UncertaintyOnly,
            status: FeatureStatus::Required,
            inputs: Task6Inputs::Quality,
            window: RecipeWindow::Flow,
            availability: Task6ComputationAvailability::Implemented,
        },
        Task6FeatureRecipe {
            id: "reconnect_count",
            formula: "collector-verified-source-reconnects-in-window",
            value_type: FeatureValueType::Integer,
            entity: EntityScope::Source,
            role: FeatureConsumptionRole::UncertaintyOnly,
            status: FeatureStatus::Required,
            inputs: Task6Inputs::Quality,
            window: RecipeWindow::Flow,
            availability: Task6ComputationAvailability::Implemented,
        },
        Task6FeatureRecipe {
            id: "recovery_count",
            formula: "collector-verified-successful-source-recoveries-in-window",
            value_type: FeatureValueType::Integer,
            entity: EntityScope::Source,
            role: FeatureConsumptionRole::UncertaintyOnly,
            status: FeatureStatus::Required,
            inputs: Task6Inputs::Quality,
            window: RecipeWindow::Flow,
            availability: Task6ComputationAvailability::Implemented,
        },
        Task6FeatureRecipe {
            id: "stale_quote_duration_ns",
            formula: "as-known-at-minus-last-trusted-quote-event-time;zero-when-not-stale",
            value_type: FeatureValueType::Integer,
            entity: EntityScope::Source,
            role: FeatureConsumptionRole::UncertaintyOnly,
            status: FeatureStatus::Required,
            inputs: Task6Inputs::Quality,
            window: RecipeWindow::Snapshot,
            availability: Task6ComputationAvailability::Implemented,
        },
        Task6FeatureRecipe {
            id: "source_coverage_fraction",
            formula: "observed-required-sources/point-in-time-required-source-universe",
            value_type: FeatureValueType::Float64,
            entity: EntityScope::Asset,
            role: FeatureConsumptionRole::UncertaintyOnly,
            status: FeatureStatus::Required,
            inputs: Task6Inputs::ConsolidatedQuality,
            window: RecipeWindow::Snapshot,
            availability: Task6ComputationAvailability::Implemented,
        },
        Task6FeatureRecipe {
            id: "feature_age_ns",
            formula: "as-known-at-minus-feature-event-time-end;nanoseconds",
            value_type: FeatureValueType::Integer,
            entity: EntityScope::Source,
            role: FeatureConsumptionRole::UncertaintyOnly,
            status: FeatureStatus::Required,
            inputs: Task6Inputs::Quality,
            window: RecipeWindow::Snapshot,
            availability: Task6ComputationAvailability::Implemented,
        },
        Task6FeatureRecipe {
            id: "cross_source_disagreement",
            formula: "robust-normalized-dispersion-across-aligned-healthy-sources",
            value_type: FeatureValueType::Float64,
            entity: EntityScope::Asset,
            role: FeatureConsumptionRole::UncertaintyOnly,
            status: FeatureStatus::Required,
            inputs: Task6Inputs::ConsolidatedQuality,
            window: RecipeWindow::Snapshot,
            availability: Task6ComputationAvailability::Implemented,
        },
        Task6FeatureRecipe {
            id: "correction_count",
            formula: "finalized-observation-corrections-in-window",
            value_type: FeatureValueType::Integer,
            entity: EntityScope::Source,
            role: FeatureConsumptionRole::UncertaintyOnly,
            status: FeatureStatus::Required,
            inputs: Task6Inputs::Quality,
            window: RecipeWindow::Flow,
            availability: Task6ComputationAvailability::Implemented,
        },
        Task6FeatureRecipe {
            id: "revision_count",
            formula: "source-or-feature-revisions-in-window",
            value_type: FeatureValueType::Integer,
            entity: EntityScope::Source,
            role: FeatureConsumptionRole::UncertaintyOnly,
            status: FeatureStatus::Required,
            inputs: Task6Inputs::Quality,
            window: RecipeWindow::Flow,
            availability: Task6ComputationAvailability::Implemented,
        },
        Task6FeatureRecipe {
            id: "raw_to_normalized_rejection_count",
            formula: "durable-raw-records-rejected-before-normalized-publication-in-window",
            value_type: FeatureValueType::Integer,
            entity: EntityScope::Source,
            role: FeatureConsumptionRole::UncertaintyOnly,
            status: FeatureStatus::Required,
            inputs: Task6Inputs::Quality,
            window: RecipeWindow::Flow,
            availability: Task6ComputationAvailability::Implemented,
        },
        Task6FeatureRecipe {
            id: "disk_pressure_fraction",
            formula: "used-capacity/validated-local-data-volume-capacity",
            value_type: FeatureValueType::Float64,
            entity: EntityScope::Global,
            role: FeatureConsumptionRole::UncertaintyOnly,
            status: FeatureStatus::Required,
            inputs: Task6Inputs::StoragePressure,
            window: RecipeWindow::Snapshot,
            availability: Task6ComputationAvailability::Implemented,
        },
        Task6FeatureRecipe {
            id: "local_processing_lag_ns",
            formula: "feature-computed-at-minus-source-event-time-end;nanoseconds",
            value_type: FeatureValueType::Integer,
            entity: EntityScope::Source,
            role: FeatureConsumptionRole::UncertaintyOnly,
            status: FeatureStatus::Required,
            inputs: Task6Inputs::Quality,
            window: RecipeWindow::Snapshot,
            availability: Task6ComputationAvailability::Implemented,
        },
        Task6FeatureRecipe {
            id: "source_outage_indicator",
            formula: "collector-source-unhealthy-or-quarantined",
            value_type: FeatureValueType::Boolean,
            entity: EntityScope::Source,
            role: FeatureConsumptionRole::UncertaintyOnly,
            status: FeatureStatus::Required,
            inputs: Task6Inputs::Quality,
            window: RecipeWindow::Snapshot,
            availability: Task6ComputationAvailability::Implemented,
        },
    ]
}

fn put_operational_recipes(list: &mut Vec<Task6FeatureRecipe>)
    ensures
        final(list)@ == old(list)@ + operational_recipes(),
{
    list.push(
        Task6FeatureRecipe {
            id: "source_latency_ns",
            formula: "collector-receive-wall-time-minus-source-event-time;nanoseconds",
            value_type: FeatureValueType::Integer,
            entity: EntityScope::Source,
            role: FeatureConsumptionRole::UncertaintyOnly,
            status: FeatureStatus::Required,
            inputs: Task6Inputs::Quality,
            window: RecipeWindow::Snapshot,
            availability: Task6ComputationAvailability::Implemented,
        },
    );
    list.push(
        Task6FeatureRecipe {
            id: "feed_jitter_ns",
            formula: "point-in-time-feed-latency-absolute-change;nanoseconds",
            value_type: FeatureValueType::Integer,
            entity: EntityScope::Source,
            role: FeatureConsumptionRole::UncertaintyOnly,
            status: FeatureStatus::Required,
            inputs: Task6Inputs::Quality,
            window: RecipeWindow::Flow,
            availability: Task6ComputationAvailability::Implemented,
        },
    );
    list.push(
        Task6FeatureRecipe {
            id: "clock_skew_estimate_ns",
            formula: "collector-clock-estimator-source-minus-local;nanoseconds",
            value_type: FeatureValueType::Integer,
            entity: EntityScope::Source,
            role: FeatureConsumptionRole::UncertaintyOnly,
            status: FeatureStatus::Required,
            inputs: Task6Inputs::Quality,
            window: RecipeWindow::Snapshot,
            availability: Task6ComputationAvailability::Implemented,
        },
    );
    list.push(
        Task6FeatureRecipe {
            id: "sequence_gap_count",
            formula: "collector-verified-sequence-gaps-in-window",
            value_type: FeatureValueType::Integer,
            entity: EntityScope::Source,
            role: FeatureConsumptionRole::UncertaintyOnly,
            status: FeatureStatus::Required,
            inputs: Task6Inputs::Quality,
            window: RecipeWindow::Flow,
            availability: Task6ComputationAvailability::Implemented,
        },
    );
    list.push(
        Task6FeatureRecipe {
            id: "checksum_failure_count",
            formula: "collector-verified-checksum-failures-in-window",
            value_type: FeatureValueType::Integer,
            entity: EntityScope::Source,
            role: FeatureConsumptionRole::UncertaintyOnly,
            status: FeatureStatus::Required,
            inputs: Task6Inputs::Quality,
            window: RecipeWindow::Flow,
            availability: Task6ComputationAvailability::Implemented,
        },
    );
    list.push(
        Task6FeatureRecipe {
            id: "reconnect_count",
            formula: "collector-verified-source-reconnects-in-window",
            value_type: FeatureValueType::Integer,
            entity: EntityScope::Source,
            role: FeatureConsumptionRole::UncertaintyOnly,
            status: FeatureStatus::Required,
            inputs: Task6Inputs::Quality,
            window: RecipeWindow::Flow,
            availability: Task6ComputationAvailability::Implemented,
        },
    );
    list.push(
        Task6FeatureRecipe {
            id: "recovery_count",
            formula: "collector-verified-successful-source-recoveries-in-window",
            value_type: FeatureValueType::Integer,
            entity: EntityScope::Source,
            role: FeatureConsumptionRole::UncertaintyOnly,
            status: FeatureStatus::Required,
            inputs: Task6Inputs::Quality,
            window: RecipeWindow::Flow,
            availability: Task6ComputationAvailability::Implemented,
        },
    );
    list.push(
        Task6FeatureRecipe {
            id: "stale_quote_duration_ns",
            formula: "as-known-at-minus-last-trusted-quote-event-time;zero-when-not-stale",
            value_type: FeatureValueType::Integer,
            entity: EntityScope::Source,
            role: FeatureConsumptionRole::UncertaintyOnly,
            status: FeatureStatus::Required,
            inputs: Task6Inputs::Quality,
            window: RecipeWindow::Snapshot,
            availability: Task6ComputationAvailability::Implemented,
        },
    );
    list.push(
        Task6FeatureRecipe {
            id: "source_coverage_fraction",
            formula: "observed-required-sources/point-in-time-required-source-universe",
            value_type: FeatureValueType::Float64,
            entity: EntityScope::Asset,
            role: FeatureConsumptionRole::UncertaintyOnly,
            status: FeatureStatus::Required,
            inputs: Task6Inputs::ConsolidatedQuality,
            window: RecipeWindow::Snapshot,
            availability: Task6ComputationAvailability::Implemented,
        },
    );
    list.push(
        Task6FeatureRecipe {
            id: "feature_age_ns",
            formula: "as-known-at-minus-feature-event-time-end;nanoseconds",
            value_type: FeatureValueType::Integer,
            entity: EntityScope::Source,
            role: FeatureConsumptionRole::UncertaintyOnly,
            status: FeatureStatus::Required,
            inputs: Task6Inputs::Quality,
            window: RecipeWindow::Snapshot,
            availability: Task6ComputationAvailability::Implemented,
        },
    );
    list.push(
        Task6FeatureRecipe {
            id: "cross_source_disagreement",
            formula: "robust-normalized-dispersion-across-aligned-healthy-sources",
            value_type: FeatureValueType::Float64,
            entity: EntityScope::Asset,
            role: FeatureConsumptionRole::UncertaintyOnly,
            status: FeatureStatus::Required,
            inputs: Task6Inputs::ConsolidatedQuality,
            window: RecipeWindow::Snapshot,
            availability: Task6ComputationAvailability::Implemented,
        },
    );
    list.push(
        Task6FeatureRecipe {
            id: "correction_count",
            formula: "finalized-observation-corrections-in-window",
            value_type: FeatureValueType::Integer,
            entity: EntityScope::Source,
            role: FeatureConsumptionRole::UncertaintyOnly,
            status: FeatureStatus::Required,
            inputs: Task6Inputs::Quality,
            window: RecipeWindow::Flow,
            availability: Task6ComputationAvailability::Implemented,
        },
    );
    list.push(
        Task6FeatureRecipe {
            id: "revision_count",
            formula: "source-or-feature-revisions-in-window",
            value_type: FeatureValueType::Integer,
            entity: EntityScope::Source,
            role: FeatureConsumptionRole::UncertaintyOnly,
            status: FeatureStatus::Required,
            inputs: Task6Inputs::Quality,
            window: RecipeWindow::Flow,
            availability: Task6ComputationAvailability::Implemented,
        },
    );
    list.push(
        Task6FeatureRecipe {
            id: "raw_to_normalized_rejection_count",
            formula: "durable-raw-records-rejected-before-normalized-publication-in-window",
            value_type: FeatureValueType::Integer,
            entity: EntityScope::Source,
            role: FeatureConsumptionRole::UncertaintyOnly,
            status: FeatureStatus::Required,
            inputs: Task6Inputs::Quality,
            window: RecipeWindow::Flow,
            availability: Task6ComputationAvailability::Implemented,
        },
    );
    list.push(
        Task6FeatureRecipe {
            id: "disk_pressure_fraction",
            formula: "used-capacity/validated-local-data-volume-capacity",
            value_type: FeatureValueType::Float64,
            entity: EntityScope::Global,
            role: FeatureConsumptionRole::UncertaintyOnly,
            status: FeatureStatus::Required,
            inputs: Task6Inputs::StoragePressure,
            window: RecipeWindow::Snapshot,
            availability: Task6ComputationAvailability::Implemented,
        },
    );
    list.push(
        Task6FeatureRecipe {
            id: "local_processing_lag_ns",
            formula: "feature-computed-at-minus-source-event-time-end;nanoseconds",
            value_type: FeatureValueType::Integer,
            entity: EntityScope::Source,
            role: FeatureConsumptionRole::UncertaintyOnly,
            status: FeatureStatus::Required,
            inputs: Task6Inputs::Quality,
            window: RecipeWindow::Snapshot,
            availability: Task6ComputationAvailability::Implemented,
        },
    );
    list.push(
        Task6FeatureRecipe {
            id: "source_outage_indicator",
            formula: "collector-source-unhealthy-or-quarantined",
            value_type: FeatureValueType::Boolean,
            entity: EntityScope::Source,
            role: FeatureConsumptionRole::UncertaintyOnly,
            status: FeatureStatus::Required,
            inputs: Task6Inputs::Quality,
            window: RecipeWindow::Snapshot,
            availability: Task6ComputationAvailability::Implemented,
        },
    );
    proof {
        assert(list@ =~= old(list)@ + operational_recipes());
    }
}

pub open spec fn gating_recipes() -> Seq<Task6FeatureRecipe> {
    seq![
        Task6FeatureRecipe {
            id: "source_health_gate",
            formula: "collector-owned-source-health-eligibility-decision",
            value_type: FeatureValueType::Boolean,
            entity: EntityScope::Source,
            role: FeatureConsumptionRole::GatingOnly,
            status: FeatureStatus::Required,
            inputs: Task6Inputs::Quality,
            window: RecipeWindow::Snapshot,
            availability: Task6ComputationAvailability::Implemented,
        },
        Task6FeatureRecipe {
            id: "source_completeness_gate",
            formula: "collector-owned-gap-free-window-completeness-decision",
            value_type: FeatureValueType::Boolean,
            entity: EntityScope::Source,
            role: FeatureConsumptionRole::GatingOnly,
            status: FeatureStatus::Required,
            inputs: Task6Inputs::Quality,
            window: RecipeWindow::Flow,
            availability: Task6ComputationAvailability::Implemented,
        },
        Task6FeatureRecipe {
            id: "cascade_eligibility_gate",
            formula: "all-required-source-health-and-completeness-gates-pass",
            value_type: FeatureValueType::Boolean,
            entity: EntityScope::Asset,
            role: FeatureConsumptionRole::GatingOnly,
            status: FeatureStatus::Required,
            inputs: Task6Inputs::ConsolidatedQualityFlow,
            window: RecipeWindow::Flow,
            availability: Task6ComputationAvailability::Implemented,
        },
    ]
}

fn put_gating_recipes(list: &mut Vec<Task6FeatureRecipe>)
    ensures
        final(list)@ == old(list)@ + gating_recipes(),
{
    list.push(
        Task6FeatureRecipe {
            id: "source_health_gate",
            formula: "collector-owned-source-health-eligibility-decision",
            value_type: FeatureValueType::Boolean,
            entity: EntityScope::Source,
            role: FeatureConsumptionRole::GatingOnly,
            status: FeatureStatus::Required,
            inputs: Task6Inputs::Quality,
            window: RecipeWindow::Snapshot,
            availability: Task6ComputationAvailability::Implemented,
        },
    );
    list.push(
        Task6FeatureRecipe {
            id: "source_completeness_gate",
            formula: "collector-owned-gap-free-window-completeness-decision",
            value_type: FeatureValueType::Boolean,
            entity: EntityScope::Source,
            role: FeatureConsumptionRole::GatingOnly,
            status: FeatureStatus::Required,
            inputs: Task6Inputs::Quality,
            window: RecipeWindow::Flow,
            availability: Task6ComputationAvailability::Implemented,
        },
    );
    list.push(
        Task6FeatureRecipe {
            id: "cascade_eligibility_gate",
            formula: "all-required-source-health-and-completeness-gates-pass",
            value_type: FeatureValueType::Boolean,
            entity: EntityScope::Asset,
            role: FeatureConsumptionRole::GatingOnly,
            status: FeatureStatus::Required,
            inputs: Task6Inputs::ConsolidatedQualityFlow,
            window: RecipeWindow::Flow,
            availability: Task6ComputationAvailability::Implemented,
        },
    );
    proof {
        assert(list@ =~= old(list)@ + gating_recipes());
    }
}

/// Every cross-venue, derivatives and quality recipe, in catalogue order.
pub open spec fn task_six_catalogue() -> Seq<Task6FeatureRecipe> {
    cross_venue_recipes() + derivative_recipes() + liquidation_recipes() + operational_recipes() + gating_recipes()
}

pub fn task_six_recipes() -> (recipes: Vec<Task6FeatureRecipe>)
    ensures
        recipes@ == task_six_catalogue(),
        recipes@.len() == 63,
{
    let mut recipes: Vec<Task6FeatureRecipe> = Vec::new();
    put_cross_venue_recipes(&mut recipes);
    put_derivative_recipes(&mut recipes);
    put_liquidation_recipes(&mut recipes);
    put_operational_recipes(&mut recipes);
    put_gating_recipes(&mut recipes);
    proof {
        assert(recipes@ =~= task_six_catalogue());
    }
    recipes
}

/// The first recipe of an identifier, if there is one.
pub open spec fn task_six_named(recipes: Seq<Task6FeatureRecipe>, id: Seq<char>) -> Option<
    Task6FeatureRecipe,
>
    decreases recipes.len(),
{
    if recipes.len() == 0 {
        None
    } else if recipes[0].id@ == id {
        Some(recipes[0])
    } else {
        task_six_named(recipes.drop_first(), id)
    }
}

pub fn task_six_recipe(id: &str) -> (recipe: Option<Task6FeatureRecipe>)
    ensures
        recipe == task_six_named(task_six_catalogue(), id@),
{
    let recipes = task_six_recipes();
    let mut i: usize = 0;
    proof {
        assert(recipes@.skip(0) =~= recipes@);
    }
    while i < recipes.len()
        invariant
            i <= recipes@.len(),
            recipes@ == task_six_catalogue(),
            task_six_named(task_six_catalogue(), id@) == task_six_named(
                recipes@.skip(i as int),
                id@,
            ),
        decreases recipes.len() - i,
    {
        proof {
            assert(recipes@.skip(i as int)[0] == recipes@[i as int]);
            assert(recipes@.skip(i as int).drop_first() =~= recipes@.skip(i + 1));
        }
        if same_text(recipes[i].id, id) {
            return Some(recipes[i]);
        }
        i += 1;
    }
    None
}

/// The definitions of every recipe, in catalogue order.
pub fn task_six_definitions() -> (definitions: Vec<FeatureDefinition>)
    ensures
        definitions@.len() == task_six_catalogue().len(),
        forall|i: int|
            0 <= i < definitions@.len() ==> (#[trigger] definitions@[i])@
                == task_six_catalogue()[i].spec_definition(),
{
    let recipes = task_six_recipes();
    let mut definitions: Vec<FeatureDefinition> = Vec::new();
    let mut i: usize = 0;
    while i < recipes.len()
        invariant
            i <= recipes@.len(),
            recipes@ == task_six_catalogue(),
            definitions@.len() == i,
            forall|k: int|
                0 <= k < i ==> (#[trigger] definitions@[k])@
                    == task_six_catalogue()[k].spec_definition(),
        decreases recipes.len() - i,
    {
        definitions.push(recipes[i].definition());
        i += 1;
    }
    definitions
}

/// The letter at a place of an identifier, or zero behind its end.
spec fn letter(id: Seq<char>, place: int) -> int {
    if place < id.len() {
        id[place] as u32 as int
    } else {
        0
    }
}

/// A number that tells the identifiers of the catalogue apart.
spec fn id_mark(id: Seq<char>) -> int {
    (((id.len()) * 1000 + letter(id, 6)) * 1000 + letter(id, 9)) * 1000 + letter(id, 21)
}

/// The place in the catalogue of the identifier with a mark.
spec fn marked_place(mark: int) -> int {
    if mark == 24109112105 {
        0
    } else if mark == 38118117115 {
        1
    } else if mark == 34116101101 {
        2
    } else if mark == 27097101101 {
        3
    } else if mark == 27101101101 {
        4
    } else if mark == 14108100000 {
        5
    } else if mark == 18118117000 {
        6
    } else if mark == 17100116000 {
        7
    } else if mark == 25099099110 {
        8
    } else if mark == 21113116000 {
        9
    } else if mark == 24100097116 {
        10
    } else if mark == 37118117095 {
        11
    } else if mark == 22121101110 {
        12
    } else if mark == 27109101095 {
        13
    } else if mark == 30105109105 {
        14
    } else if mark == 22101102103 {
        15
    } else if mark == 22116095101 {
        16
    } else if mark == 21101102000 {
        17
    } else if mark == 19103097000 {
        18
    } else if mark == 23103097108 {
        19
    } else if mark == 26103097115 {
        20
    } else if mark == 16103097000 {
        21
    } else if mark == 30118117105 {
        22
    } else if mark == 20110114000 {
        23
    } else if mark == 26110114105 {
        24
    } else if mark == 29110114101 {
        25
    } else if mark == 41110114099 {
        26
    } else if mark == 21110120000 {
        27
    } else if mark == 20117095000 {
        28
    } else if mark == 18102117000 {
        29
    } else if mark == 29105100114 {
        30
    } else if mark == 19115117000 {
        31
    } else if mark == 23115117114 {
        32
    } else if mark == 26097111099 {
        33
    } else if mark == 29097111110 {
        34
    } else if mark == 29097111118 {
        35
    } else if mark == 33097111097 {
        36
    } else if mark == 27097111095 {
        37
    } else if mark == 34097111110 {
        38
    } else if mark == 25110114116 {
        39
    } else if mark == 20110095000 {
        40
    } else if mark == 9097000000 {
        41
    } else if mark == 36097111109 {
        42
    } else if mark == 17095116000 {
        43
    } else if mark == 14105101000 {
        44
    } else if mark == 22115119115 {
        45
    } else if mark == 18099103000 {
        46
    } else if mark == 22117102116 {
        47
    } else if mark == 15101095000 {
        48
    } else if mark == 14114099000 {
        49
    } else if mark == 23113116110 {
        50
    } else if mark == 24095118105 {
        51
    } else if mark == 14101103000 {
        52
    } else if mark == 25115114109 {
        53
    } else if mark == 16116110000 {
        54
    } else if mark == 14111099000 {
        55
    } else if mark == 33095114101 {
        56
    } else if mark == 22114115110 {
        57
    } else if mark == 23112099110 {
        58
    } else if mark == 23095116111 {
        59
    } else if mark == 18095097000 {
        60
    } else if mark == 24095109097 {
        61
    } else if mark == 24101108097 {
        62
    } else {
        -1
    }
}

proof fn lemma_cross_venue_places(i: int)
    requires
        0 <= i < cross_venue_recipes().len(),
    ensures
        cross_venue_recipes().len() == 16,
        marked_place(id_mark(cross_venue_recipes()[i].id@)) == 0 + i,
{
    if i == 0 {
        reveal_strlit("venue_midprice_deviation");
        assert(id_mark("venue_midprice_deviation"@) == 24109112105);
    } else if i == 1 {
        reveal_strlit("cross_venue_median_absolute_dispersion");
        assert(id_mark("cross_venue_median_absolute_dispersion"@) == 38118117115);
    } else if i == 2 {
        reveal_strlit("indicative_cross_venue_price_range");
        assert(id_mark("indicative_cross_venue_price_range"@) == 34116101101);
    } else if i == 3 {
        reveal_strlit("executable_price_dispersion");
        assert(id_mark("executable_price_dispersion"@) == 27097101101);
    } else if i == 4 {
        reveal_strlit("spot_perpetual_disagreement");
        assert(id_mark("spot_perpetual_disagreement"@) == 27101101101);
    } else if i == 5 {
        reveal_strlit("venue_lead_lag");
        assert(id_mark("venue_lead_lag"@) == 14108100000);
    } else if i == 6 {
        reveal_strlit("venue_volume_share");
        assert(id_mark("venue_volume_share"@) == 18118117000);
    } else if i == 7 {
        reveal_strlit("venue_depth_share");
        assert(id_mark("venue_depth_share"@) == 17100116000);
    } else if i == 8 {
        reveal_strlit("venue_concentration_index");
        assert(id_mark("venue_concentration_index"@) == 25099099110);
    } else if i == 9 {
        reveal_strlit("stale_quote_indicator");
        assert(id_mark("stale_quote_indicator"@) == 21113116000);
    } else if i == 10 {
        reveal_strlit("crossed_market_indicator");
        assert(id_mark("crossed_market_indicator"@) == 24100097116);
    } else if i == 11 {
        reveal_strlit("cross_venue_liquidity_synchronization");
        assert(id_mark("cross_venue_liquidity_synchronization"@) == 37118117095);
    } else if i == 12 {
        reveal_strlit("healthy_venue_fraction");
        assert(id_mark("healthy_venue_fraction"@) == 22121101110);
    } else if i == 13 {
        reveal_strlit("local_move_classifier_input");
        assert(id_mark("local_move_classifier_input"@) == 27109101095);
    } else if i == 14 {
        reveal_strlit("systemic_move_classifier_input");
        assert(id_mark("systemic_move_classifier_input"@) == 30105109105);
    } else if i == 15 {
        reveal_strlit("transfer_friction_flag");
        assert(id_mark("transfer_friction_flag"@) == 22101102103);
    }
}

proof fn lemma_derivative_places(i: int)
    requires
        0 <= i < derivative_recipes().len(),
    ensures
        derivative_recipes().len() == 17,
        marked_place(id_mark(derivative_recipes()[i].id@)) == 16 + i,
{
    if i == 0 {
        reveal_strlit("predicted_funding_rate");
        assert(id_mark("predicted_funding_rate"@) == 22116095101);
    } else if i == 1 {
        reveal_strlit("realized_funding_rate");
        assert(id_mark("realized_funding_rate"@) == 21101102000);
    } else if i == 2 {
        reveal_strlit("funding_rate_change");
        assert(id_mark("funding_rate_change"@) == 19103097000);
    } else if i == 3 {
        reveal_strlit("funding_rate_percentile");
        assert(id_mark("funding_rate_percentile"@) == 23103097108);
    } else if i == 4 {
        reveal_strlit("funding_rate_robust_zscore");
        assert(id_mark("funding_rate_robust_zscore"@) == 26103097115);
    } else if i == 5 {
        reveal_strlit("funding_rate_mad");
        assert(id_mark("funding_rate_mad"@) == 16103097000);
    } else if i == 6 {
        reveal_strlit("cross_venue_funding_dispersion");
        assert(id_mark("cross_venue_funding_dispersion"@) == 30118117105);
    } else if i == 7 {
        reveal_strlit("open_interest_native");
        assert(id_mark("open_interest_native"@) == 20110114000);
    } else if i == 8 {
        reveal_strlit("open_interest_usd_notional");
        assert(id_mark("open_interest_usd_notional"@) == 26110114105);
    } else if i == 9 {
        reveal_strlit("open_interest_relative_change");
        assert(id_mark("open_interest_relative_change"@) == 29110114101);
    } else if i == 10 {
        reveal_strlit("open_interest_change_conditioned_on_price");
        assert(id_mark("open_interest_change_conditioned_on_price"@) == 41110114099);
    } else if i == 11 {
        reveal_strlit("mark_index_divergence");
        assert(id_mark("mark_index_divergence"@) == 21110120000);
    } else if i == 12 {
        reveal_strlit("perpetual_spot_basis");
        assert(id_mark("perpetual_spot_basis"@) == 20117095000);
    } else if i == 13 {
        reveal_strlit("dated_future_basis");
        assert(id_mark("dated_future_basis"@) == 18102117000);
    } else if i == 14 {
        reveal_strlit("annualized_dated_future_basis");
        assert(id_mark("annualized_dated_future_basis"@) == 29105100114);
    } else if i == 15 {
        reveal_strlit("futures_curve_slope");
        assert(id_mark("futures_curve_slope"@) == 19115117000);
    } else if i == 16 {
        reveal_strlit("futures_curve_curvature");
        assert(id_mark("futures_curve_curvature"@) == 23115117114);
    }
}

proof fn lemma_liquidation_places(i: int)
    requires
        0 <= i < liquidation_recipes().len(),
    ensures
        liquidation_recipes().len() == 10,
        marked_place(id_mark(liquidation_recipes()[i].id@)) == 33 + i,
{
    if i == 0 {
        reveal_strlit("liquidation_observed_count");
        assert(id_mark("liquidation_observed_count"@) == 26097111099);
    } else if i == 1 {
        reveal_strlit("liquidation_observed_notional");
        assert(id_mark("liquidation_observed_notional"@) == 29097111110);
    } else if i == 2 {
        reveal_strlit("liquidation_observed_velocity");
        assert(id_mark("liquidation_observed_velocity"@) == 29097111118);
    } else if i == 3 {
        reveal_strlit("liquidation_observed_acceleration");
        assert(id_mark("liquidation_observed_acceleration"@) == 33097111097);
    } else if i == 4 {
        reveal_strlit("liquidation_to_volume_ratio");
        assert(id_mark("liquidation_to_volume_ratio"@) == 27097111095);
    } else if i == 5 {
        reveal_strlit("liquidation_to_open_interest_ratio");
        assert(id_mark("liquidation_to_open_interest_ratio"@) == 34097111110);
    } else if i == 6 {
        reveal_strlit("open_interest_destruction");
        assert(id_mark("open_interest_destruction"@) == 25110114116);
    } else if i == 7 {
        reveal_strlit("insurance_fund_state");
        assert(id_mark("insurance_fund_state"@) == 20110095000);
    } else if i == 8 {
        reveal_strlit("adl_state");
        assert(id_mark("adl_state"@) == 9097000000);
    } else if i == 9 {
        reveal_strlit("liquidation_source_completeness_flag");
        assert(id_mark("liquidation_source_completeness_flag"@) == 36097111109);
    }
}

proof fn lemma_operational_places(i: int)
    requires
        0 <= i < operational_recipes().len(),
    ensures
        operational_recipes().len() == 17,
        marked_place(id_mark(operational_recipes()[i].id@)) == 43 + i,
{
    if i == 0 {
        reveal_strlit("source_latency_ns");
        assert(id_mark("source_latency_ns"@) == 17095116000);
    } else if i == 1 {
        reveal_strlit("feed_jitter_ns");
        assert(id_mark("feed_jitter_ns"@) == 14105101000);
    } else if i == 2 {
        reveal_strlit("clock_skew_estimate_ns");
        assert(id_mark("clock_skew_estimate_ns"@) == 22115119115);
    } else if i == 3 {
        reveal_strlit("sequence_gap_count");
        assert(id_mark("sequence_gap_count"@) == 18099103000);
    } else if i == 4 {
        reveal_strlit("checksum_failure_count");
        assert(id_mark("checksum_failure_count"@) == 22117102116);
    } else if i == 5 {
        reveal_strlit("reconnect_count");
        assert(id_mark("reconnect_count"@) == 15101095000);
    } else if i == 6 {
        reveal_strlit("recovery_count");
        assert(id_mark("recovery_count"@) == 14114099000);
    } else if i == 7 {
        reveal_strlit("stale_quote_duration_ns");
        assert(id_mark("stale_quote_duration_ns"@) == 23113116110);
    } else if i == 8 {
        reveal_strlit("source_coverage_fraction");
        assert(id_mark("source_coverage_fraction"@) == 24095118105);
    } else if i == 9 {
        reveal_strlit("feature_age_ns");
        assert(id_mark("feature_age_ns"@) == 14101103000);
    } else if i == 10 {
        reveal_strlit("cross_source_disagreement");
        assert(id_mark("cross_source_disagreement"@) == 25115114109);
    } else if i == 11 {
        reveal_strlit("correction_count");
        assert(id_mark("correction_count"@) == 16116110000);
    } else if i == 12 {
        reveal_strlit("revision_count");
        assert(id_mark("revision_count"@) == 14111099000);
    } else if i == 13 {
        reveal_strlit("raw_to_normalized_rejection_count");
        assert(id_mark("raw_to_normalized_rejection_count"@) == 33095114101);
    } else if i == 14 {
        reveal_strlit("disk_pressure_fraction");
        assert(id_mark("disk_pressure_fraction"@) == 22114115110);
    } else if i == 15 {
        reveal_strlit("local_processing_lag_ns");
        assert(id_mark("local_processing_lag_ns"@) == 23112099110);
    } else if i == 16 {
        reveal_strlit("source_outage_indicator");
        assert(id_mark("source_outage_indicator"@) == 23095116111);
    }
}

proof fn lemma_gating_places(i: int)
    requires
        0 <= i < gating_recipes().len(),
    ensures
        gating_recipes().len() == 3,
        marked_place(id_mark(gating_recipes()[i].id@)) == 60 + i,
{
    if i == 0 {
        reveal_strlit("source_health_gate");
        assert(id_mark("source_health_gate"@) == 18095097000);
    } else if i == 1 {
        reveal_strlit("source_completeness_gate");
        assert(id_mark("source_completeness_gate"@) == 24095109097);
    } else if i == 2 {
        reveal_strlit("cascade_eligibility_gate");
        assert(id_mark("cascade_eligibility_gate"@) == 24101108097);
    }
}

proof fn lemma_places(i: int)
    requires
        0 <= i < task_six_catalogue().len(),
    ensures
        marked_place(id_mark(task_six_catalogue()[i].id@)) == i,
{
    if i < 16 {
        lemma_cross_venue_places(i);
    } else if i < 33 {
        lemma_derivative_places(i - 16);
    } else if i < 43 {
        lemma_liquidation_places(i - 33);
    } else if i < 60 {
        lemma_operational_places(i - 43);
    } else {
        lemma_gating_places(i - 60);
    }
}

/// No two recipes of the catalogue share an identifier.
pub proof fn lemma_task_six_ids_are_distinct(i: int, j: int)
    requires
        0 <= i < task_six_catalogue().len(),
        0 <= j < task_six_catalogue().len(),
        i != j,
    ensures
        task_six_catalogue()[i].id@ != task_six_catalogue()[j].id@,
{
    lemma_places(i);
    lemma_places(j);
}

/// Every recipe of the catalogue is found under its own identifier.
pub proof fn lemma_task_six_recipes_are_found(i: int)
    requires
        0 <= i < task_six_catalogue().len(),
    ensures
        task_six_named(task_six_catalogue(), task_six_catalogue()[i].id@) == Some(
            task_six_catalogue()[i],
        ),
{
    let all = task_six_catalogue();
    assert(all.skip(0) =~= all);
    lemma_named_from(i, 0);
}

proof fn lemma_named_from(i: int, from: int)
    requires
        0 <= from <= i < task_six_catalogue().len(),
    ensures
        task_six_named(task_six_catalogue().skip(from), task_six_catalogue()[i].id@) == Some(
            task_six_catalogue()[i],
        ),
    decreases i - from,
{
    let all = task_six_catalogue();
    assert(all.skip(from)[0] == all[from]);
    if from < i {
        lemma_task_six_ids_are_distinct(from, i);
        assert(all.skip(from).drop_first() =~= all.skip(from + 1));
        lemma_named_from(i, from + 1);
    }
}

/// The recipe is of the catalogue.
pub proof fn lemma_task_six_recipe_at(i: int)
    requires
        0 <= i < 63,
    ensures
        task_six_catalogue().len() == 63,
        0 <= i < 16 ==> task_six_catalogue()[i] == cross_venue_recipes()[i - 0],
        16 <= i < 33 ==> task_six_catalogue()[i] == derivative_recipes()[i - 16],
        33 <= i < 43 ==> task_six_catalogue()[i] == liquidation_recipes()[i - 33],
        43 <= i < 60 ==> task_six_catalogue()[i] == operational_recipes()[i - 43],
        60 <= i < 63 ==> task_six_catalogue()[i] == gating_recipes()[i - 60],
{
    assert(cross_venue_recipes().len() == 16);
    assert(derivative_recipes().len() == 17);
    assert(liquidation_recipes().len() == 10);
    assert(operational_recipes().len() == 17);
    assert(gating_recipes().len() == 3);
}

/// Every feature has the one window of its recipe under a second's resolution, takes events up to
/// five seconds late and lives for a day, and asks as much coverage as quality.
pub proof fn lemma_definitions_of_venues(recipe: Task6FeatureRecipe)
    ensures
        ({
            let definition = recipe.spec_definition();
            &&& definition.id == recipe.id@
            &&& definition.value_type == recipe.value_type
            &&& definition.entities == recipe.entity
            &&& definition.consumption_role == recipe.role
            &&& definition.status == recipe.status
            &&& definition.output_resolution == 1_000_000_000
            &&& definition.allowed_lateness == 5 * definition.output_resolution
            &&& definition.time_to_live == 24 * 60 * 60 * definition.output_resolution
            &&& definition.minimum_quality == definition.minimum_coverage
            &&& definition.windows.len() == 1
            &&& definition.windows[0] == recipe.window.spec_definition()
        }),
{
}

/// What a model may use comes only from healthy sources, with quality from nine tenths on; what
/// only gates or qualifies is reported whatever the health and the quality.
pub proof fn lemma_roles_ask_for_quality(role: FeatureConsumptionRole, health: SourceHealthState)
    ensures
        role == FeatureConsumptionRole::ModelEligible ==> role_quality(role).0 * 10 == 9
            * 1_000_000,
        role != FeatureConsumptionRole::ModelEligible ==> role_quality(role).0 == 0,
        role_quality(role).1.contains(health) <==> role != FeatureConsumptionRole::ModelEligible
            || health == SourceHealthState::Healthy,
{
    let allowed = role_quality(role).1;
    assert(allowed[0] == SourceHealthState::Healthy);
    if role != FeatureConsumptionRole::ModelEligible {
        assert(allowed[1] == SourceHealthState::Degraded);
        assert(allowed[2] == SourceHealthState::Unhealthy);
        assert(allowed[3] == SourceHealthState::Quarantined);
        assert(allowed[4] == SourceHealthState::Recovering);
    }
}

/// Scopes, roles, states and availability are told apart by their numbers.
pub proof fn lemma_recipe_codes_tell_apart(
    scope: EntityScope,
    role: FeatureConsumptionRole,
    status: FeatureStatus,
    health: SourceHealthState,
    availability: Task6ComputationAvailability,
)
    ensures
        entity_scope_code(scope) == 1 <==> scope == EntityScope::Instrument,
        entity_scope_code(scope) == 2 <==> scope == EntityScope::Asset,
        entity_scope_code(scope) == 3 <==> scope == EntityScope::AssetPair,
        entity_scope_code(scope) == 4 <==> scope == EntityScope::Venue,
        entity_scope_code(scope) == 5 <==> scope == EntityScope::Source,
        entity_scope_code(scope) == 6 <==> scope == EntityScope::Global,
        entity_scope_code(scope) == 7 <==> scope == EntityScope::AssetSource,
        entity_scope_code(scope) == 8 <==> scope == EntityScope::AssetSourcePair,
        role_code(role) == 1 <==> role == FeatureConsumptionRole::ModelEligible,
        role_code(role) == 2 <==> role == FeatureConsumptionRole::UncertaintyOnly,
        role_code(role) == 3 <==> role == FeatureConsumptionRole::GatingOnly,
        status_code(status) == 1 <==> status == FeatureStatus::Required,
        status_code(status) == 2 <==> status == FeatureStatus::Optional,
        status_code(status) == 3 <==> status == FeatureStatus::Experimental,
        health_code(health) == 1 <==> health == SourceHealthState::Healthy,
        health_code(health) == 2 <==> health == SourceHealthState::Degraded,
        health_code(health) == 3 <==> health == SourceHealthState::Unhealthy,
        health_code(health) == 4 <==> health == SourceHealthState::Quarantined,
        health_code(health) == 5 <==> health == SourceHealthState::Recovering,
        availability_code(availability) == 1 <==> availability
            == Task6ComputationAvailability::Implemented,
        availability_code(availability) == 2 <==> availability
            == Task6ComputationAvailability::ExplicitlyUnavailable,
{
}

} // verus!
