//! The windows that recipes are registered under.

use vstd::prelude::*;

use crate::domain::DurationNanos;
use crate::registry::{FeatureValueType, WindowView};
use crate::window::{WindowDefinition, WindowKind, WindowParameter};

verus! {

pub const ONE_SECOND: u64 = 1_000_000_000;

/// The span of time that one value of a recipe covers.
#[derive(Clone, Copy, Debug, PartialEq, Eq, Structural)]
pub enum RecipeWindow {
    Snapshot,
    Flow,
    Recovery,
    History,
}

impl RecipeWindow {
    pub open spec fn spec_identity(self) -> Seq<char> {
        match self {
            RecipeWindow::Snapshot => "tumbling_1s"@,
            RecipeWindow::Flow => "rolling_1m"@,
            RecipeWindow::Recovery => "rolling_15m"@,
            RecipeWindow::History => "rolling_1h"@,
        }
    }

    pub fn identity(self) -> (id: &'static str)
        ensures
            id@ == self.spec_identity(),
    {
        match self {
            RecipeWindow::Snapshot => "tumbling_1s",
            RecipeWindow::Flow => "rolling_1m",
            RecipeWindow::Recovery => "rolling_15m",
            RecipeWindow::History => "rolling_1h",
        }
    }

    pub open spec fn spec_extent(self) -> u64 {
        match self {
            RecipeWindow::Snapshot => 1_000_000_000,
            RecipeWindow::Flow => 60_000_000_000,
            RecipeWindow::Recovery => 900_000_000_000,
            RecipeWindow::History => 3_600_000_000_000,
        }
    }

    pub fn extent(self) -> (extent: u64)
        ensures
            extent == self.spec_extent(),
    {
        match self {
            RecipeWindow::Snapshot => 1_000_000_000,
            RecipeWindow::Flow => 60_000_000_000,
            RecipeWindow::Recovery => 900_000_000_000,
            RecipeWindow::History => 3_600_000_000_000,
        }
    }

    /// A snapshot tumbles; every other window slides by one second.
    pub open spec fn spec_definition(self) -> WindowView {
        (
            self.spec_identity(),
            if self == RecipeWindow::Snapshot {
                WindowKind::Tumbling
            } else {
                WindowKind::Sliding
            },
            WindowParameter::Time {
                extent: DurationNanos { nanos: self.spec_extent() },
                advance: if self == RecipeWindow::Snapshot {
                    None
                } else {
                    Some(DurationNanos { nanos: ONE_SECOND })
                },
            },
        )
    }

    pub fn definition(self) -> (window: WindowDefinition)
        ensures
            (window.id@, window.kind, window.parameter) == self.spec_definition(),
    {
        let snapshot: bool = self == RecipeWindow::Snapshot;
        WindowDefinition {
            id: self.identity().to_owned(),
            kind: if snapshot {
                WindowKind::Tumbling
            } else {
                WindowKind::Sliding
            },
            parameter: WindowParameter::Time {
                extent: DurationNanos::new(self.extent()),
                advance: if snapshot {
                    None
                } else {
                    Some(DurationNanos::new(ONE_SECOND))
                },
            },
        }
    }
}

/// The number of a value type in a formula's digest.
pub open spec fn value_type_code(value_type: FeatureValueType) -> u8 {
    match value_type {
        FeatureValueType::FixedDecimal => 1,
        FeatureValueType::FixedDecimalMap => 2,
        FeatureValueType::Float64 => 3,
        FeatureValueType::Integer => 4,
        FeatureValueType::Boolean => 5,
    }
}

pub fn value_type_tag(value_type: FeatureValueType) -> (tag: u8)
    ensures
        tag == value_type_code(value_type),
{
    match value_type {
        FeatureValueType::FixedDecimal => 1,
        FeatureValueType::FixedDecimalMap => 2,
        FeatureValueType::Float64 => 3,
        FeatureValueType::Integer => 4,
        FeatureValueType::Boolean => 5,
    }
}

/// Recipes cover a second, a minute, a quarter of an hour or an hour. A snapshot tumbles, and the
/// others slide on by a second at a time.
pub proof fn lemma_recipe_windows(window: RecipeWindow)
    ensures
        ({
            let second = 1_000_000_000int;
            &&& window == RecipeWindow::Snapshot <==> window.spec_extent() == second
            &&& window == RecipeWindow::Flow <==> window.spec_extent() == 60 * second
            &&& window == RecipeWindow::Recovery <==> window.spec_extent() == 15 * 60 * second
            &&& window == RecipeWindow::History <==> window.spec_extent() == 60 * 60 * second
            &&& match window.spec_definition().2 {
                WindowParameter::Time { extent, advance } => {
                    &&& extent.nanos == window.spec_extent()
                    &&& advance is None <==> window == RecipeWindow::Snapshot
                    &&& advance is Some ==> advance->Some_0.nanos == second
                },
                _ => false,
            }
            &&& window.spec_definition().1 == WindowKind::Tumbling <==> window
                == RecipeWindow::Snapshot
            &&& window.spec_definition().0 == window.spec_identity()
        }),
{
}

/// Value types are told apart in a formula's digest.
pub proof fn lemma_value_types_are_told_apart(a: FeatureValueType, b: FeatureValueType)
    ensures
        value_type_code(a) == value_type_code(b) <==> a == b,
        1 <= value_type_code(a) <= 5,
        value_type_code(a) == 1 <==> a == FeatureValueType::FixedDecimal,
        value_type_code(a) == 2 <==> a == FeatureValueType::FixedDecimalMap,
        value_type_code(a) == 3 <==> a == FeatureValueType::Float64,
        value_type_code(a) == 4 <==> a == FeatureValueType::Integer,
        value_type_code(a) == 5 <==> a == FeatureValueType::Boolean,
{
}

} // verus!
