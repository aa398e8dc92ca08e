//! Pure feature calculations and evidence-bound observation emission.

use vstd::prelude::*;

use crate::decimal::{unit, FixedDecimal};
use crate::domain::{
    copy_sources, coverage_refusal, entry_sources, entry_views, finite_bits, holds_source,
    observed_health, source_views, CoverageView, FiniteF64, MissingnessReason, RegistryError,
    SourceCoverage, SourceCoverageEntry, SourceHealthState, SourceView,
};

pub mod admission;
pub mod book_evidence;
pub mod bound;
pub mod catalog;
pub mod computed;
pub mod cross_venue;
pub mod derivative_emission;
pub mod derivatives;
pub mod derived;
pub mod emission;
pub mod lifecycle;
pub mod microstructure_catalog;
pub mod microstructure_emission;
pub mod orderbook;
pub mod orderflow;
pub mod price;
pub mod quality;
pub mod recipe;
pub mod shock;
pub mod task6_catalog;
pub mod task6_emission;
pub mod top_of_book;
pub mod trade_flow;
pub mod volatility;

verus! {

/// Why a feature cannot be computed.
#[derive(Clone, Copy, Debug, PartialEq, Eq, Structural)]
pub enum FeatureComputationError {
    /// Feature input is invalid or nonfinite.
    InvalidInput,
    /// Feature input does not contain sufficient history.
    InsufficientHistory,
    /// Feature input exceeds its bounded capacity.
    CapacityExceeded,
    /// Feature observations are not in strictly increasing point-in-time order.
    NonMonotonicTime,
    /// Feature input was not knowable at the requested point in time.
    FutureKnowledge,
    /// Feature window is not final.
    WindowNotFinal,
    /// Feature parameter is invalid.
    InvalidParameter,
    /// Feature input lengths do not match.
    LengthMismatch,
    /// Feature calculation has a zero denominator.
    ZeroDenominator,
    /// Feature input has a sequence gap.
    SequenceGap,
    /// Feature input is stale.
    Stale,
    /// Required source is disconnected.
    SourceDisconnected,
    /// The source does not support the required feature semantics.
    SourceNotSupported,
    /// The required feature semantics are unavailable under the source license.
    PrivacyOrLicenseRestriction,
    /// Feature input is below the declared liquidity threshold.
    BelowLiquidityThreshold,
    /// The declared analytical model does not apply to this input.
    ModelNotApplicable,
    /// Feature observation is outside the declared half-open window.
    OutsideWindow,
    /// Feature input lineage contains a duplicate.
    DuplicateLineage,
    /// Feature window contains observations from another entity.
    MixedEntity,
    /// Feature computation requires consolidated-market evidence.
    UntrustedInput,
    /// The point-in-time eligible source universe changed inside one feature window.
    EligibleUniverseChanged,
    /// Source health changed incompatibly inside one feature window.
    SourceHealthChanged,
    /// Analytical data cannot be represented as a finite feature value.
    AnalyticalUnavailable,
}

impl FeatureComputationError {
    /// The absence of data that an error stands for, if it stands for one.
    pub open spec fn absence(self) -> Option<MissingnessReason> {
        match self {
            FeatureComputationError::InsufficientHistory => Some(
                MissingnessReason::InsufficientHistory,
            ),
            FeatureComputationError::WindowNotFinal => Some(MissingnessReason::WindowNotFinal),
            FeatureComputationError::SequenceGap => Some(MissingnessReason::SequenceGap),
            FeatureComputationError::Stale => Some(MissingnessReason::Stale),
            FeatureComputationError::SourceDisconnected => Some(
                MissingnessReason::SourceDisconnected,
            ),
            FeatureComputationError::SourceNotSupported => Some(
                MissingnessReason::SourceNotSupported,
            ),
            FeatureComputationError::PrivacyOrLicenseRestriction => Some(
                MissingnessReason::PrivacyOrLicenseRestriction,
            ),
            FeatureComputationError::BelowLiquidityThreshold => Some(
                MissingnessReason::BelowLiquidityThreshold,
            ),
            FeatureComputationError::ModelNotApplicable => Some(
                MissingnessReason::ModelNotApplicable,
            ),
            FeatureComputationError::AnalyticalUnavailable => Some(MissingnessReason::Unknown),
            _ => None,
        }
    }

    pub fn missingness_reason(self) -> (reason: Option<MissingnessReason>)
        ensures
            reason == self.absence(),
    {
        match self {
            FeatureComputationError::InsufficientHistory => Some(
                MissingnessReason::InsufficientHistory,
            ),
            FeatureComputationError::WindowNotFinal => Some(MissingnessReason::WindowNotFinal),
            FeatureComputationError::SequenceGap => Some(MissingnessReason::SequenceGap),
            FeatureComputationError::Stale => Some(MissingnessReason::Stale),
            FeatureComputationError::SourceDisconnected => Some(
                MissingnessReason::SourceDisconnected,
            ),
            FeatureComputationError::SourceNotSupported => Some(
                MissingnessReason::SourceNotSupported,
            ),
            FeatureComputationError::PrivacyOrLicenseRestriction => Some(
                MissingnessReason::PrivacyOrLicenseRestriction,
            ),
            FeatureComputationError::BelowLiquidityThreshold => Some(
                MissingnessReason::BelowLiquidityThreshold,
            ),
            FeatureComputationError::ModelNotApplicable => Some(
                MissingnessReason::ModelNotApplicable,
            ),
            FeatureComputationError::InvalidInput
            | FeatureComputationError::CapacityExceeded
            | FeatureComputationError::NonMonotonicTime
            | FeatureComputationError::FutureKnowledge
            | FeatureComputationError::InvalidParameter
            | FeatureComputationError::LengthMismatch
            | FeatureComputationError::ZeroDenominator
            | FeatureComputationError::OutsideWindow
            | FeatureComputationError::DuplicateLineage
            | FeatureComputationError::MixedEntity
            | FeatureComputationError::UntrustedInput
            | FeatureComputationError::EligibleUniverseChanged
            | FeatureComputationError::SourceHealthChanged => None,
            FeatureComputationError::AnalyticalUnavailable => Some(MissingnessReason::Unknown),
        }
    }
}

/// An analytical value, or why there is none.
#[derive(Clone, Copy, Debug, PartialEq, Eq, Structural)]
pub enum AnalyticalFeature {
    Present(FiniteF64),
    Missing(MissingnessReason),
}

/// What the bit pattern of a value stands for.
pub open spec fn present_value(bits: u64) -> Result<AnalyticalFeature, FeatureComputationError> {
    if finite_bits(bits) {
        Ok(AnalyticalFeature::Present(FiniteF64::of_pattern(bits)))
    } else {
        Err(FeatureComputationError::InvalidInput)
    }
}

/// What a measured bit pattern or a failure stands for: expected absence is a missing value, and
/// every other failure stays one.
pub open spec fn analytical_value(result: Result<u64, FeatureComputationError>) -> Result<
    AnalyticalFeature,
    FeatureComputationError,
> {
    match result {
        Ok(bits) => present_value(bits),
        Err(error) => match error.absence() {
            Some(reason) => Ok(AnalyticalFeature::Missing(reason)),
            None => Err(error),
        },
    }
}

impl AnalyticalFeature {
    /// A value by its bit pattern.
    pub fn present(bits: u64) -> (result: Result<Self, FeatureComputationError>)
        ensures
            result == present_value(bits),
    {
        match FiniteF64::from_bits(bits) {
            Ok(value) => Ok(AnalyticalFeature::Present(value)),
            Err(_) => Err(FeatureComputationError::InvalidInput),
        }
    }

    /// Turns expected absence into a missing value, and passes every other error on.
    pub fn from_result(result: Result<u64, FeatureComputationError>) -> (analytical: Result<
        Self,
        FeatureComputationError,
    >)
        ensures
            analytical == analytical_value(result),
    {
        match result {
            Ok(bits) => Self::present(bits),
            Err(error) => match error.missingness_reason() {
                Some(reason) => Ok(AnalyticalFeature::Missing(reason)),
                None => Err(error),
            },
        }
    }
}

/// The bit pattern of a finite value, with zero in its one canonical form.
pub fn finite_analytical(bits: u64) -> (result: Result<u64, FeatureComputationError>)
    ensures
        finite_bits(bits) ==> result == Ok::<u64, FeatureComputationError>(
            if bits == 0x8000_0000_0000_0000 {
                0
            } else {
                bits
            },
        ),
        !finite_bits(bits) ==> result == Err::<u64, FeatureComputationError>(
            FeatureComputationError::AnalyticalUnavailable,
        ),
{
    if (bits / 0x10_0000_0000_0000) % 0x800 == 0x7ff {
        Err(FeatureComputationError::AnalyticalUnavailable)
    } else if bits == 0x8000_0000_0000_0000 {
        Ok(0)
    } else {
        Ok(bits)
    }
}

/// A decimal result, or the error for one that is not a decimal.
pub open spec fn exact(value: Option<FixedDecimal>) -> Result<FixedDecimal, FeatureComputationError> {
    match value {
        Some(value) => Ok(value),
        None => Err(FeatureComputationError::InvalidInput),
    }
}

pub(crate) fn sum_exact(left: FixedDecimal, right: FixedDecimal) -> (result: Result<
    FixedDecimal,
    FeatureComputationError,
>)
    ensures
        result == exact(left.plus(right)),
        result is Ok ==> result->Ok_0.units() == left.units() + right.units(),
{
    match left.checked_add(right) {
        Ok(sum) => Ok(sum),
        Err(_) => Err(FeatureComputationError::InvalidInput),
    }
}

pub(crate) fn difference_exact(left: FixedDecimal, right: FixedDecimal) -> (result: Result<
    FixedDecimal,
    FeatureComputationError,
>)
    ensures
        result == exact(left.minus(right)),
        result is Ok ==> result->Ok_0.units() == left.units() - right.units(),
{
    match left.checked_sub(right) {
        Ok(difference) => Ok(difference),
        Err(_) => Err(FeatureComputationError::InvalidInput),
    }
}

pub(crate) fn product_exact(left: FixedDecimal, right: FixedDecimal) -> (result: Result<
    FixedDecimal,
    FeatureComputationError,
>)
    ensures
        result == exact(left.times(right)),
        result is Ok ==> result->Ok_0.units() * unit() == left.units() * right.units(),
{
    match left.checked_mul(right) {
        Ok(product) => Ok(product),
        Err(_) => Err(FeatureComputationError::InvalidInput),
    }
}

/// Takes each item in turn into a state, and stops at the first that fails.
pub open spec fn folded<T, S>(
    items: Seq<T>,
    start: S,
    step: spec_fn(S, T) -> Result<S, FeatureComputationError>,
) -> Result<S, FeatureComputationError>
    decreases items.len(),
{
    if items.len() == 0 {
        Ok(start)
    } else {
        match folded(items.drop_last(), start, step) {
            Err(error) => Err(error),
            Ok(state) => step(state, items.last()),
        }
    }
}

/// What has failed stays failed, whatever follows.
pub(crate) proof fn lemma_fold_stops<T, S>(
    items: Seq<T>,
    count: int,
    start: S,
    step: spec_fn(S, T) -> Result<S, FeatureComputationError>,
)
    requires
        0 <= count <= items.len(),
        folded(items.take(count), start, step) is Err,
    ensures
        folded(items, start, step) == folded(items.take(count), start, step),
    decreases items.len() - count,
{
    if count < items.len() {
        assert(items.take(count + 1).drop_last() =~= items.take(count));
        lemma_fold_stops(items, count + 1, start, step);
    } else {
        assert(items.take(count) =~= items);
    }
}

/// What one more item makes of a fold, and of the whole where that item fails.
pub(crate) proof fn lemma_fold_step<T, S>(
    items: Seq<T>,
    count: int,
    start: S,
    step: spec_fn(S, T) -> Result<S, FeatureComputationError>,
)
    requires
        0 <= count < items.len(),
        folded(items.take(count), start, step) is Ok,
    ensures
        folded(items.take(count + 1), start, step) == step(
            folded(items.take(count), start, step)->Ok_0,
            items[count],
        ),
        folded(items.take(count + 1), start, step) is Err ==> folded(items, start, step) == folded(
            items.take(count + 1),
            start,
            step,
        ),
{
    assert(items.take(count + 1).drop_last() =~= items.take(count));
    assert(items.take(count + 1).last() == items[count]);
    if folded(items.take(count + 1), start, step) is Err {
        lemma_fold_stops(items, count + 1, start, step);
    }
}

/// Two decimals whose quotient a feature reports.
#[derive(Clone, Copy, Debug, PartialEq, Eq, Structural)]
pub struct ExactRatio {
    pub numerator: FixedDecimal,
    pub denominator: FixedDecimal,
}

/// The bit pattern of a finite value.
pub fn finite(bits: u64) -> (result: Result<u64, FeatureComputationError>)
    ensures
        result == finite_value(bits),
{
    if (bits / 0x10_0000_0000_0000) % 0x800 == 0x7ff {
        Err(FeatureComputationError::AnalyticalUnavailable)
    } else {
        Ok(bits)
    }
}

/// The bit pattern of a finite value, or the error for one that is not finite.
pub open spec fn finite_value(bits: u64) -> Result<u64, FeatureComputationError> {
    if finite_bits(bits) {
        Ok(bits)
    } else {
        Err(FeatureComputationError::AnalyticalUnavailable)
    }
}

/// The sources of `right` behind those of `left`, without those already there.
pub open spec fn united_sources(left: Seq<SourceView>, right: Seq<SourceView>) -> Seq<SourceView>
    decreases right.len(),
{
    if right.len() == 0 {
        left
    } else {
        let before = united_sources(left, right.drop_last());
        if before.contains(right.last()) {
            before
        } else {
            before.push(right.last())
        }
    }
}

/// A source that one of the records needs was not observed there.
pub open spec fn unobserved(
    left: CoverageView,
    right: CoverageView,
    source: SourceView,
) -> bool {
    ||| left.0.contains(source) && observed_health(left.1, source) is None
    ||| right.0.contains(source) && observed_health(right.1, source) is None
}

/// The two records observed a source under different health.
pub open spec fn disputed(left: CoverageView, right: CoverageView, source: SourceView) -> bool {
    &&& !unobserved(left, right, source)
    &&& observed_health(left.1, source) is Some
    &&& observed_health(right.1, source) is Some
    &&& observed_health(left.1, source) != observed_health(right.1, source)
}

/// The health of a source in the union of two records that do not dispute it.
pub open spec fn united_health(
    left: CoverageView,
    right: CoverageView,
    source: SourceView,
) -> Option<SourceHealthState> {
    if unobserved(left, right, source) {
        None
    } else if observed_health(left.1, source) is Some {
        observed_health(left.1, source)
    } else {
        observed_health(right.1, source)
    }
}

/// The observed part of a list of sources.
pub open spec fn united_entries(
    left: CoverageView,
    right: CoverageView,
    sources: Seq<SourceView>,
) -> Seq<(SourceView, SourceHealthState)>
    decreases sources.len(),
{
    if sources.len() == 0 {
        Seq::empty()
    } else {
        let before = united_entries(left, right, sources.drop_last());
        match united_health(left, right, sources.last()) {
            Some(health) => before.push((sources.last(), health)),
            None => before,
        }
    }
}

/// The computation error for a refused coverage record.
pub open spec fn coverage_error(error: RegistryError) -> FeatureComputationError {
    match error {
        RegistryError::InvalidSourceCoverage => FeatureComputationError::CapacityExceeded,
        RegistryError::DuplicateSource => FeatureComputationError::EligibleUniverseChanged,
        RegistryError::UnexpectedSource => FeatureComputationError::EligibleUniverseChanged,
        _ => FeatureComputationError::InvalidInput,
    }
}

/// The union of two coverage records: it expects what either expects, and observes what each
/// that needs it observed under the same health.
pub open spec fn united_coverage(left: CoverageView, right: CoverageView) -> Result<
    CoverageView,
    FeatureComputationError,
> {
    let sources = united_sources(left.0, right.0);
    let entries = united_entries(left, right, sources);
    if exists|i: int| 0 <= i < sources.len() && #[trigger] disputed(left, right, sources[i]) {
        Err(FeatureComputationError::SourceHealthChanged)
    } else {
        match coverage_refusal(sources, Seq::new(entries.len(), |i: int| entries[i].0)) {
            Some(error) => Err(coverage_error(error)),
            None => Ok((sources, entries)),
        }
    }
}

pub(crate) fn merge_source_coverage(left: &SourceCoverage, right: &SourceCoverage) -> (result:
    Result<SourceCoverage, FeatureComputationError>)
    ensures
        match united_coverage(left@, right@) {
            Err(error) => result is Err && result->Err_0 == error,
            Ok(coverage) => result is Ok && result->Ok_0@ == coverage,
        },
{
    let mut expected = copy_sources(&left.expected);
    let ghost own = source_views(left.expected@);
    let ghost others = source_views(right.expected@);
    let mut i: usize = 0;
    proof {
        assert(others.take(0) =~= Seq::empty());
    }
    while i < right.expected.len()
        invariant
            i <= right.expected@.len(),
            own == source_views(left.expected@),
            others == source_views(right.expected@),
            source_views(expected@) == united_sources(own, others.take(i as int)),
        decreases right.expected.len() - i,
    {
        let ghost before = expected@;
        proof {
            assert(others.take(i + 1).drop_last() =~= others.take(i as int));
            assert(others.take(i + 1).last() == right.expected@[i as int]@);
        }
        if !holds_source(&expected, &right.expected[i]) {
            expected.push(right.expected[i].clone());
            proof {
                assert(source_views(expected@) =~= source_views(before).push(
                    right.expected@[i as int]@,
                ));
            }
        }
        i += 1;
    }
    proof {
        assert(others.take(right.expected@.len() as int) =~= others);
    }
    let ghost sources = source_views(expected@);
    let mut observed: Vec<SourceCoverageEntry> = Vec::new();
    let mut k: usize = 0;
    proof {
        assert(entry_views(observed@) =~= united_entries(left@, right@, sources.take(0)));
    }
    while k < expected.len()
        invariant
            k <= expected@.len(),
            sources == source_views(expected@),
            sources == united_sources(left@.0, right@.0),
            entry_views(observed@) == united_entries(left@, right@, sources.take(k as int)),
            forall|j: int| 0 <= j < k ==> !#[trigger] disputed(left@, right@, sources[j]),
        decreases expected.len() - k,
    {
        proof {
            assert(sources[k as int] == expected@[k as int]@);
            assert(sources.take(k + 1).drop_last() =~= sources.take(k as int));
            assert(sources.take(k + 1).last() == expected@[k as int]@);
        }
        let ghost before = observed@;
        let required_left: bool = holds_source(&left.expected, &expected[k]);
        let required_right: bool = holds_source(&right.expected, &expected[k]);
        let observed_left = left.health_of(&expected[k]);
        let observed_right = right.health_of(&expected[k]);
        let absent: bool = (required_left && observed_left.is_none()) || (required_right
            && observed_right.is_none());
        if !absent {
            let health = match (observed_left, observed_right) {
                (Some(left_health), Some(right_health)) => {
                    if left_health != right_health {
                        proof {
                            assert(disputed(left@, right@, sources[k as int]));
                        }
                        return Err(FeatureComputationError::SourceHealthChanged);
                    }
                    Some(left_health)
                },
                (Some(left_health), None) => Some(left_health),
                (None, right_health) => right_health,
            };
            if let Some(health) = health {
                observed.push(SourceCoverageEntry::new(expected[k].clone(), health));
                proof {
                    assert(entry_views(observed@) =~= entry_views(before).push(
                        (expected@[k as int]@, health),
                    ));
                }
            }
        }
        k += 1;
    }
    proof {
        assert(sources.take(expected@.len() as int) =~= sources);
        let entries = united_entries(left@, right@, sources);
        assert(entry_sources(observed@) =~= Seq::new(entries.len(), |j: int| entries[j].0)) by {
            assert forall|j: int| 0 <= j < observed@.len() implies entry_sources(observed@)[j]
                == entries[j].0 by {
                assert(entry_views(observed@)[j] == observed@[j]@);
            }
        }
    }
    match SourceCoverage::try_new_partial(expected, observed) {
        Ok(coverage) => Ok(coverage),
        Err(RegistryError::InvalidSourceCoverage) => Err(
            FeatureComputationError::CapacityExceeded,
        ),
        Err(RegistryError::DuplicateSource) => Err(
            FeatureComputationError::EligibleUniverseChanged,
        ),
        Err(RegistryError::UnexpectedSource) => Err(
            FeatureComputationError::EligibleUniverseChanged,
        ),
        Err(_) => Err(FeatureComputationError::InvalidInput),
    }
}

proof fn lemma_united_sources_contain(
    left: Seq<SourceView>,
    right: Seq<SourceView>,
    source: SourceView,
)
    ensures
        united_sources(left, right).contains(source) <==> left.contains(source) || right.contains(
            source,
        ),
    decreases right.len(),
{
    if right.len() > 0 {
        let head = right.drop_last();
        let before = united_sources(left, head);
        lemma_united_sources_contain(left, head, source);
        assert(right =~= head.push(right.last()));
        let all = united_sources(left, right);
        if before.contains(source) {
            let at = before.index_of(source);
            assert(all[at] == source);
        }
        if head.contains(source) {
            let at = head.index_of(source);
            assert(right[at] == source);
        }
        if right.contains(source) && !head.contains(source) {
            let at = right.index_of(source);
            assert(at == right.len() - 1) by {
                if at < right.len() - 1 {
                    assert(head[at] == source);
                }
            }
            if !before.contains(right.last()) {
                assert(all[all.len() - 1] == source);
            }
        }
        if all.contains(source) && !before.contains(source) {
            let at = all.index_of(source);
            assert(at == before.len());
            assert(right[right.len() - 1] == source);
        }
    }
}

/// Uniting two coverage records either way round expects the same sources and finds the same
/// health of each.
pub proof fn lemma_coverage_union_is_symmetric(
    left: CoverageView,
    right: CoverageView,
    source: SourceView,
)
    ensures
        united_sources(left.0, right.0).contains(source) <==> united_sources(
            right.0,
            left.0,
        ).contains(source),
        disputed(left, right, source) <==> disputed(right, left, source),
        !disputed(left, right, source) ==> united_health(left, right, source) == united_health(
            right,
            left,
            source,
        ),
{
    lemma_united_sources_contain(left.0, right.0, source);
    lemma_united_sources_contain(right.0, left.0, source);
}

/// The sum of integers.
pub open spec fn sum_of(values: Seq<int>) -> int
    decreases values.len(),
{
    if values.len() == 0 {
        0
    } else {
        values[0] + sum_of(values.drop_first())
    }
}

/// A sum can be taken from either end.
pub proof fn lemma_sum_last(values: Seq<int>)
    requires
        values.len() > 0,
    ensures
        sum_of(values) == sum_of(values.drop_last()) + values.last(),
    decreases values.len(),
{
    if values.len() > 1 {
        let rest = values.drop_first();
        lemma_sum_last(rest);
        assert(values.drop_last().drop_first() =~= rest.drop_last());
        assert(values.drop_last()[0] == values[0]);
    } else {
        assert(values.drop_first() =~= Seq::empty());
        assert(values.drop_last() =~= Seq::empty());
    }
}

/// The sum of a list in two parts is the sum of the parts.
pub proof fn lemma_sum_split(first: Seq<int>, second: Seq<int>)
    ensures
        sum_of(first + second) == sum_of(first) + sum_of(second),
    decreases first.len(),
{
    if first.len() == 0 {
        assert(first + second =~= second);
    } else {
        assert((first + second).drop_first() =~= first.drop_first() + second);
        lemma_sum_split(first.drop_first(), second);
    }
}

/// A sum of zeros is zero.
pub proof fn lemma_sum_of_zeros(values: Seq<int>)
    requires
        forall|i: int| 0 <= i < values.len() ==> #[trigger] values[i] == 0,
    ensures
        sum_of(values) == 0,
    decreases values.len(),
{
    if values.len() > 0 {
        let rest = values.drop_first();
        assert forall|i: int| 0 <= i < rest.len() implies #[trigger] rest[i] == 0 by {
            assert(rest[i] == values[i + 1]);
        }
        lemma_sum_of_zeros(rest);
    }
}

/// A failure stands for an absence only where the data themselves were short, late or out of
/// reach. What is wrong in itself, unknown in time or not to be trusted stays a failure.
pub proof fn lemma_only_expected_failures_are_absences(error: FeatureComputationError)
    ensures
        error.absence() is Some <==> {
            ||| error == FeatureComputationError::InsufficientHistory
            ||| error == FeatureComputationError::WindowNotFinal
            ||| error == FeatureComputationError::SequenceGap
            ||| error == FeatureComputationError::Stale
            ||| error == FeatureComputationError::SourceDisconnected
            ||| error == FeatureComputationError::SourceNotSupported
            ||| error == FeatureComputationError::PrivacyOrLicenseRestriction
            ||| error == FeatureComputationError::BelowLiquidityThreshold
            ||| error == FeatureComputationError::ModelNotApplicable
            ||| error == FeatureComputationError::AnalyticalUnavailable
        },
        error.absence() == Some(MissingnessReason::Stale) <==> error
            == FeatureComputationError::Stale,
        error.absence() == Some(MissingnessReason::SequenceGap) <==> error
            == FeatureComputationError::SequenceGap,
        error.absence() == Some(MissingnessReason::InsufficientHistory) <==> error
            == FeatureComputationError::InsufficientHistory,
        error.absence() == Some(MissingnessReason::WindowNotFinal) <==> error
            == FeatureComputationError::WindowNotFinal,
        error.absence() == Some(MissingnessReason::SourceDisconnected) <==> error
            == FeatureComputationError::SourceDisconnected,
        error.absence() == Some(MissingnessReason::SourceNotSupported) <==> error
            == FeatureComputationError::SourceNotSupported,
        error.absence() == Some(MissingnessReason::PrivacyOrLicenseRestriction) <==> error
            == FeatureComputationError::PrivacyOrLicenseRestriction,
        error.absence() == Some(MissingnessReason::BelowLiquidityThreshold) <==> error
            == FeatureComputationError::BelowLiquidityThreshold,
        error.absence() == Some(MissingnessReason::ModelNotApplicable) <==> error
            == FeatureComputationError::ModelNotApplicable,
        error.absence() == Some(MissingnessReason::Unknown) <==> error
            == FeatureComputationError::AnalyticalUnavailable,
{
}

/// A measured value stays what it is, or is refused where it is not finite; an expected absence
/// becomes a missing value, and every other failure stays one.
pub proof fn lemma_values_are_present_as_measured(result: Result<u64, FeatureComputationError>)
    ensures
        ({
            let value = analytical_value(result);
            &&& result is Ok && finite_bits(result->Ok_0) ==> value == Ok::<
                AnalyticalFeature,
                FeatureComputationError,
            >(AnalyticalFeature::Present(FiniteF64::of_pattern(result->Ok_0)))
            &&& result is Ok && !finite_bits(result->Ok_0) ==> value is Err
            &&& result is Err ==> (value is Ok <==> result->Err_0.absence() is Some)
            &&& result is Err && value is Ok ==> value->Ok_0 == AnalyticalFeature::Missing(
                result->Err_0.absence()->Some_0,
            )
            &&& result is Err && value is Err ==> value->Err_0 == result->Err_0
        }),
{
}

proof fn lemma_united_entries(
    left: CoverageView,
    right: CoverageView,
    sources: Seq<SourceView>,
)
    ensures
        forall|k: int|
            #![trigger united_entries(left, right, sources)[k]]
            0 <= k < united_entries(left, right, sources).len() ==> sources.contains(
                united_entries(left, right, sources)[k].0,
            ) && united_health(left, right, united_entries(left, right, sources)[k].0) == Some(
                united_entries(left, right, sources)[k].1,
            ),
    decreases sources.len(),
{
    if sources.len() > 0 {
        let rest = sources.drop_last();
        lemma_united_entries(left, right, rest);
        let before = united_entries(left, right, rest);
        let entries = united_entries(left, right, sources);
        assert(sources[sources.len() - 1] == sources.last());
        assert forall|k: int|
            #![trigger entries[k]]
            0 <= k < entries.len() implies sources.contains(entries[k].0) && united_health(
            left,
            right,
            entries[k].0,
        ) == Some(entries[k].1) by {
            if k < before.len() {
                assert(before[k] == entries[k]);
                let i = choose|i: int| 0 <= i < rest.len() && rest[i] == before[k].0;
                assert(sources[i] == entries[k].0);
            }
        }
    }
}

/// The union of two coverage records expects what either expects and nothing else. What it
/// observes was observed, under the same health, by each of the two that expects it.
pub proof fn lemma_united_coverage_answers_for_both(left: CoverageView, right: CoverageView)
    requires
        united_coverage(left, right) is Ok,
    ensures
        ({
            let (expected, entries) = united_coverage(left, right)->Ok_0;
            &&& forall|source: SourceView| #[trigger]
                expected.contains(source) <==> left.0.contains(source) || right.0.contains(source)
            &&& forall|k: int|
                #![trigger entries[k]]
                0 <= k < entries.len() ==> {
                    let (source, health) = entries[k];
                    &&& expected.contains(source)
                    &&& left.0.contains(source) ==> observed_health(left.1, source) == Some(health)
                    &&& right.0.contains(source) ==> observed_health(right.1, source) == Some(
                        health,
                    )
                }
        }),
{
    let (expected, entries) = united_coverage(left, right)->Ok_0;
    assert forall|source: SourceView| #[trigger]
        expected.contains(source) <==> left.0.contains(source) || right.0.contains(source) by {
        lemma_united_sources_contain(left.0, right.0, source);
    }
    lemma_united_entries(left, right, expected);
    assert forall|k: int|
        #![trigger entries[k]]
        0 <= k < entries.len() implies !disputed(left, right, entries[k].0) by {
        let i = choose|i: int| 0 <= i < expected.len() && expected[i] == entries[k].0;
        assert(!disputed(left, right, expected[i]));
    }
}

} // verus!
