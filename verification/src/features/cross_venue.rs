//! Descriptive cross-venue calculations.
//!
//! Nothing here claims that a price can be executed. That would take authenticated depth, fees,
//! settlement, lot sizes, contract conversion and latency, which a list of prices cannot give.

use vstd::prelude::*;

use super::{lemma_sum_last, sum_of, FeatureComputationError};
use crate::decimal::{FixedDecimal, Price, Quantity};
use crate::domain::{
    finite_bits, holds_source, source_label, source_views, FiniteF64, SourceHealthState, SourceId,
    SourceView,
};
use crate::market::{FairPrice, IncludedVenue, VenueExclusionReason};
use crate::ordering::{
    byte_rank, bytes_precede, lemma_stably_sorted, sort_stably, stably_sorted, Ranked,
};

verus! {

pub const MAX_CROSS_VENUE_OBSERVATIONS: usize = 4_096;

#[derive(Clone, Copy, Debug, PartialEq, Eq, Structural)]
pub enum DispersionClassification {
    IndicativeMidpriceOnly,
}

/// How far prices lie apart, relative to their median.
#[derive(Clone, Copy, Debug, PartialEq, Eq, Structural)]
pub struct IndicativePriceDispersion {
    relative_range: FiniteF64,
    relative_mad: FiniteF64,
}

/// Why prices have no dispersion, if they have none.
pub open spec fn dispersion_refusal(prices: Seq<Price>) -> Option<FeatureComputationError> {
    if prices.len() > MAX_CROSS_VENUE_OBSERVATIONS {
        Some(FeatureComputationError::CapacityExceeded)
    } else if prices.len() < 2 || exists|i: int|
        0 <= i < prices.len() && (#[trigger] prices[i]).units() <= 0 {
        Some(FeatureComputationError::InvalidInput)
    } else {
        None
    }
}

/// The prices in ascending order, whose range and median deviation are reported.
pub fn indicative_price_dispersion(prices: &Vec<Price>) -> (result: Result<
    Vec<FixedDecimal>,
    FeatureComputationError,
>)
    ensures
        match dispersion_refusal(prices@) {
            Some(error) => result is Err && result->Err_0 == error,
            None => result is Ok && result->Ok_0@ == stably_sorted(
                Seq::new(prices@.len(), |i: int| prices@[i].amount()),
            ),
        },
        result is Ok ==> result->Ok_0@ == stably_sorted(price_amounts(prices@)),
{
    if prices.len() > MAX_CROSS_VENUE_OBSERVATIONS {
        return Err(FeatureComputationError::CapacityExceeded);
    }
    if prices.len() < 2 {
        return Err(FeatureComputationError::InvalidInput);
    }
    let mut values: Vec<FixedDecimal> = Vec::new();
    let mut i: usize = 0;
    while i < prices.len()
        invariant
            i <= prices@.len(),
            2 <= prices@.len() <= MAX_CROSS_VENUE_OBSERVATIONS,
            values@.len() == i,
            forall|k: int| 0 <= k < i ==> #[trigger] values@[k] == prices@[k].amount(),
            forall|k: int| 0 <= k < i ==> (#[trigger] prices@[k]).units() > 0,
        decreases prices.len() - i,
    {
        let value = prices[i].value();
        if !value.is_positive() {
            proof {
                assert(prices@[i as int].units() <= 0);
            }
            return Err(FeatureComputationError::InvalidInput);
        }
        values.push(value);
        i += 1;
    }
    proof {
        assert(values@ =~= Seq::new(prices@.len(), |i: int| prices@[i].amount()));
    }
    Ok(sort_stably(values))
}

/// A measured bit pattern as a finite value.
pub open spec fn finite_measure(bits: u64) -> Result<FiniteF64, FeatureComputationError> {
    if finite_bits(bits) {
        Ok(FiniteF64::of_pattern(bits))
    } else {
        Err(FeatureComputationError::AnalyticalUnavailable)
    }
}

pub(crate) fn measured(bits: u64) -> (result: Result<FiniteF64, FeatureComputationError>)
    ensures
        result == finite_measure(bits),
{
    match FiniteF64::from_bits(bits) {
        Ok(value) => Ok(value),
        Err(_) => Err(FeatureComputationError::AnalyticalUnavailable),
    }
}

impl IndicativePriceDispersion {
    pub closed spec fn range(self) -> FiniteF64 {
        self.relative_range
    }

    pub closed spec fn mad(self) -> FiniteF64 {
        self.relative_mad
    }

    /// The dispersion as measured, where both parts are finite.
    pub fn from_bits(range_bits: u64, mad_bits: u64) -> (result: Result<
        Self,
        FeatureComputationError,
    >)
        ensures
            match (finite_measure(range_bits), finite_measure(mad_bits)) {
                (Ok(range), Ok(mad)) => result is Ok && result->Ok_0.range() == range
                    && result->Ok_0.mad() == mad,
                _ => result is Err && result->Err_0
                    == FeatureComputationError::AnalyticalUnavailable,
            },
    {
        let relative_range = measured(range_bits)?;
        let relative_mad = measured(mad_bits)?;
        Ok(IndicativePriceDispersion { relative_range, relative_mad })
    }

    pub fn classification(self) -> (class: DispersionClassification)
        ensures
            class == DispersionClassification::IndicativeMidpriceOnly,
    {
        DispersionClassification::IndicativeMidpriceOnly
    }

    pub fn is_executable(self) -> (answer: bool)
        ensures
            !answer,
    {
        false
    }

    pub fn relative_range(self) -> (range: FiniteF64)
        ensures
            range == self.range(),
    {
        self.relative_range
    }

    pub fn relative_mad(self) -> (mad: FiniteF64)
        ensures
            mad == self.mad(),
    {
        self.relative_mad
    }
}

/// There is no depth at all.
pub open spec fn no_depth(depths: Seq<FixedDecimal>) -> bool {
    forall|i: int| 0 <= i < depths.len() ==> (#[trigger] depths[i]).units() == 0
}

/// Why depths have no concentration, if they have none.
pub open spec fn concentration_refusal(depths: Seq<FixedDecimal>) -> Option<
    FeatureComputationError,
> {
    if depths.len() > MAX_CROSS_VENUE_OBSERVATIONS {
        Some(FeatureComputationError::CapacityExceeded)
    } else if depths.len() < 2 || exists|i: int|
        0 <= i < depths.len() && (#[trigger] depths[i]).units() < 0 {
        Some(FeatureComputationError::InvalidInput)
    } else if no_depth(depths) {
        Some(FeatureComputationError::ZeroDenominator)
    } else {
        None
    }
}

/// Whether depths have a concentration: enough of them, none negative, and not all zero.
pub fn venue_depth_concentration(depths: &Vec<FixedDecimal>) -> (result: Result<
    (),
    FeatureComputationError,
>)
    ensures
        match concentration_refusal(depths@) {
            Some(error) => result == Err::<(), FeatureComputationError>(error),
            None => result == Ok::<(), FeatureComputationError>(()),
        },
{
    if depths.len() > MAX_CROSS_VENUE_OBSERVATIONS {
        return Err(FeatureComputationError::CapacityExceeded);
    }
    if depths.len() < 2 {
        return Err(FeatureComputationError::InvalidInput);
    }
    let mut some_depth: bool = false;
    let mut i: usize = 0;
    while i < depths.len()
        invariant
            i <= depths@.len(),
            2 <= depths@.len() <= MAX_CROSS_VENUE_OBSERVATIONS,
            forall|k: int| 0 <= k < i ==> (#[trigger] depths@[k]).units() >= 0,
            some_depth == exists|k: int| 0 <= k < i && (#[trigger] depths@[k]).units() != 0,
        decreases depths.len() - i,
    {
        if depths[i].is_negative() {
            proof {
                assert(depths@[i as int].units() < 0);
            }
            return Err(FeatureComputationError::InvalidInput);
        }
        if !depths[i].is_zero() {
            proof {
                assert(depths@[i as int].units() != 0);
            }
            some_depth = true;
        }
        i += 1;
    }
    if !some_depth {
        return Err(FeatureComputationError::ZeroDenominator);
    }
    Ok(())
}

/// One venue's price and depth, under its source.
#[derive(Debug)]
pub struct VenueTerms {
    pub source: SourceId,
    pub adjusted_price: Price,
    pub adjusted_depth: Quantity,
}

/// The contents of [`VenueTerms`].
pub type VenueView = (SourceView, Price, Quantity);

impl View for VenueTerms {
    type V = VenueView;

    open spec fn view(&self) -> VenueView {
        (self.source@, self.adjusted_price, self.adjusted_depth)
    }
}

impl Ranked for VenueTerms {
    open spec fn rank(&self) -> Seq<int> {
        byte_rank(source_label(self@.0))
    }

    fn precedes(&self, other: &Self) -> (before: bool) {
        let own = self.source.label();
        let others = other.source.label();
        bytes_precede(own.as_bytes(), others.as_bytes())
    }
}

/// What a cross-venue snapshot rests on, exactly.
#[derive(Debug)]
pub struct CrossVenueTerms {
    pub fair_price: Price,
    /// The included venues in the order of their labels.
    pub venues: Vec<VenueTerms>,
    pub healthy_count: usize,
    pub eligible_count: usize,
    pub stale_quote_count: usize,
    pub lineage_digest: [u8; 32],
}

/// The venue has an authenticated book, a catalog-bound instrument and an eligible source.
pub open spec fn venue_is_trusted(venue: IncludedVenue, eligible: Seq<SourceView>) -> bool {
    venue.has_book_provenance && venue.is_catalog_bound && eligible.contains(venue.source@)
}

/// The depths of included venues.
pub open spec fn venue_depths(included: Seq<IncludedVenue>) -> Seq<FixedDecimal> {
    Seq::new(included.len(), |i: int| included[i].adjusted_depth.amount())
}

/// Why a fair price has no cross-venue snapshot, if it has none.
pub open spec fn cross_venue_refusal(fair_price: FairPrice) -> Option<FeatureComputationError> {
    match fair_price.eligible_sources {
        None => Some(FeatureComputationError::UntrustedInput),
        Some(eligible) => {
            let included = fair_price.included@;
            if eligible@.len() < 2 || included.len() < 2 || exists|i: int|
                0 <= i < included.len() && !venue_is_trusted(
                    #[trigger] included[i],
                    source_views(eligible@),
                ) {
                Some(FeatureComputationError::UntrustedInput)
            } else if fair_price.price.units() <= 0 {
                Some(FeatureComputationError::InvalidInput)
            } else if no_depth(venue_depths(included)) {
                Some(FeatureComputationError::ZeroDenominator)
            } else {
                concentration_refusal(venue_depths(included))
            }
        },
    }
}

/// The included venues under a given health.
pub open spec fn healthy_venues(included: Seq<IncludedVenue>) -> nat
    decreases included.len(),
{
    if included.len() == 0 {
        0
    } else {
        healthy_venues(included.drop_last()) + if included.last().health
            == SourceHealthState::Healthy {
            1nat
        } else {
            0
        }
    }
}

/// The exclusions for a stale quote.
pub open spec fn stale_quotes(excluded: Seq<VenueExclusionReason>) -> nat
    decreases excluded.len(),
{
    if excluded.len() == 0 {
        0
    } else {
        stale_quotes(excluded.drop_last()) + if excluded.last()
            == VenueExclusionReason::QuoteStale {
            1nat
        } else {
            0
        }
    }
}

/// The terms of included venues, in the order in which they are listed.
pub open spec fn lists_terms(terms: Seq<VenueTerms>, included: Seq<IncludedVenue>) -> bool {
    terms.len() == included.len() && forall|i: int|
        0 <= i < terms.len() ==> (#[trigger] terms[i])@ == (
            included[i].source@,
            included[i].adjusted_price,
            included[i].adjusted_depth,
        )
}

/// The terms are those of a fair price.
pub open spec fn is_cross_venue(terms: CrossVenueTerms, fair_price: FairPrice) -> bool {
    &&& terms.fair_price == fair_price.price
    &&& exists|listed: Seq<VenueTerms>| #[trigger]
        lists_terms(listed, fair_price.included@) && terms.venues@ == stably_sorted(listed)
    &&& terms.healthy_count == healthy_venues(fair_price.included@)
    &&& terms.eligible_count == fair_price.eligible_sources->Some_0@.len()
    &&& terms.stale_quote_count == stale_quotes(fair_price.excluded@)
    &&& terms.lineage_digest@ == fair_price.lineage_digest@
}

/// The exact terms of a cross-venue snapshot.
pub fn cross_venue_terms(fair_price: &FairPrice) -> (result: Result<
    CrossVenueTerms,
    FeatureComputationError,
>)
    ensures
        match cross_venue_refusal(*fair_price) {
            Some(error) => result is Err && result->Err_0 == error,
            None => result is Ok && is_cross_venue(result->Ok_0, *fair_price),
        },
{
    let eligible = match &fair_price.eligible_sources {
        None => {
            return Err(FeatureComputationError::UntrustedInput);
        },
        Some(eligible) => eligible,
    };
    let included = &fair_price.included;
    if eligible.len() < 2 || included.len() < 2 {
        return Err(FeatureComputationError::UntrustedInput);
    }
    let mut i: usize = 0;
    while i < included.len()
        invariant
            i <= included@.len(),
            *included == fair_price.included,
            fair_price.eligible_sources == Some(*eligible),
            forall|k: int|
                0 <= k < i ==> venue_is_trusted(#[trigger] included@[k], source_views(eligible@)),
        decreases included.len() - i,
    {
        if !included[i].has_book_provenance || !included[i].is_catalog_bound || !holds_source(
            eligible,
            &included[i].source,
        ) {
            proof {
                assert(!venue_is_trusted(included@[i as int], source_views(eligible@)));
            }
            return Err(FeatureComputationError::UntrustedInput);
        }
        i += 1;
    }
    if !fair_price.price.value().is_positive() {
        return Err(FeatureComputationError::InvalidInput);
    }
    let mut depths: Vec<FixedDecimal> = Vec::new();
    let mut listed: Vec<VenueTerms> = Vec::new();
    let mut healthy_count: usize = 0;
    let mut some_depth: bool = false;
    let mut n: usize = 0;
    proof {
        assert(included@.take(0) =~= Seq::empty());
    }
    while n < included.len()
        invariant
            n <= included@.len(),
            depths@.len() == n,
            listed@.len() == n,
            healthy_count <= n,
            some_depth == exists|k: int| 0 <= k < n && (#[trigger] depths@[k]).units() != 0,
            healthy_count == healthy_venues(included@.take(n as int)),
            forall|k: int| 0 <= k < n ==> #[trigger] depths@[k] == included@[k].adjusted_depth.amount(),
            forall|k: int|
                0 <= k < n ==> (#[trigger] listed@[k])@ == (
                    included@[k].source@,
                    included@[k].adjusted_price,
                    included@[k].adjusted_depth,
                ),
        decreases included.len() - n,
    {
        proof {
            assert(included@.take(n + 1).drop_last() =~= included@.take(n as int));
            assert(included@.take(n + 1).last() == included@[n as int]);
        }
        let depth = included[n].adjusted_depth.value();
        let ghost shallower = depths@;
        depths.push(depth);
        proof {
            assert forall|k: int| 0 <= k < n implies shallower[k] == #[trigger] depths@[k] by {}
            if some_depth {
                let k = choose|k: int| 0 <= k < n && (#[trigger] shallower[k]).units() != 0;
                assert(depths@[k].units() != 0);
            }
            if depth.units() != 0 {
                assert(depths@[n as int].units() != 0);
            }
            if exists|k: int| 0 <= k < n + 1 && (#[trigger] depths@[k]).units() != 0 {
                let k = choose|k: int| 0 <= k < n + 1 && (#[trigger] depths@[k]).units() != 0;
                if k < n {
                    assert(shallower[k].units() != 0);
                }
            }
        }
        if !depth.is_zero() {
            some_depth = true;
        }
        listed.push(
            VenueTerms {
                source: included[n].source.clone(),
                adjusted_price: included[n].adjusted_price,
                adjusted_depth: included[n].adjusted_depth,
            },
        );
        if included[n].health == SourceHealthState::Healthy {
            healthy_count += 1;
        }
        n += 1;
    }
    proof {
        assert(included@.take(n as int) =~= included@);
        assert(depths@ =~= venue_depths(included@));
    }
    if !some_depth {
        return Err(FeatureComputationError::ZeroDenominator);
    }
    venue_depth_concentration(&depths)?;
    let excluded = &fair_price.excluded;
    let mut stale_quote_count: usize = 0;
    let mut k: usize = 0;
    proof {
        assert(excluded@.take(0) =~= Seq::empty());
    }
    while k < excluded.len()
        invariant
            k <= excluded@.len(),
            stale_quote_count <= k,
            stale_quote_count == stale_quotes(excluded@.take(k as int)),
        decreases excluded.len() - k,
    {
        proof {
            assert(excluded@.take(k + 1).drop_last() =~= excluded@.take(k as int));
            assert(excluded@.take(k + 1).last() == excluded@[k as int]);
        }
        if excluded[k] == VenueExclusionReason::QuoteStale {
            stale_quote_count += 1;
        }
        k += 1;
    }
    proof {
        assert(excluded@.take(k as int) =~= excluded@);
        assert(lists_terms(listed@, fair_price.included@));
    }
    Ok(
        CrossVenueTerms {
            fair_price: fair_price.price,
            venues: sort_stably(listed),
            healthy_count,
            eligible_count: eligible.len(),
            stale_quote_count,
            lineage_digest: fair_price.lineage_digest,
        },
    )
}

/// One venue's deviation from the fair price and share of the depth.
#[derive(Debug)]
pub struct VenueDeviation {
    pub source: SourceId,
    pub relative_to_fair: FiniteF64,
    pub reference_depth_share: FiniteF64,
}

impl VenueDeviation {
    pub fn source(&self) -> (source: &SourceId)
        ensures
            *source == self.source,
    {
        &self.source
    }

    pub fn relative_to_fair(&self) -> (value: FiniteF64)
        ensures
            value == self.relative_to_fair,
    {
        self.relative_to_fair
    }

    pub fn reference_depth_share(&self) -> (value: FiniteF64)
        ensures
            value == self.reference_depth_share,
    {
        self.reference_depth_share
    }
}

/// The bit patterns that were measured on cross-venue terms: a pair for each venue, in order, and
/// one pattern for each aggregate.
#[derive(Debug)]
pub struct CrossVenueMeasures {
    pub deviations: Vec<(u64, u64)>,
    pub relative_mad_bits: u64,
    pub relative_range_bits: u64,
    pub depth_concentration_bits: u64,
    pub healthy_fraction_bits: u64,
}

/// A descriptive snapshot of one asset over its venues.
#[derive(Debug)]
pub struct CrossVenueSnapshot {
    pub venues: Vec<VenueDeviation>,
    pub relative_mad: FiniteF64,
    pub relative_range: FiniteF64,
    pub depth_concentration: FiniteF64,
    pub healthy_venue_fraction: FiniteF64,
    pub stale_quote_count: usize,
    pub lineage_digest: [u8; 32],
}

/// Why measures do not go with so many venues, if they do not.
pub open spec fn measures_refusal(count: nat, measures: CrossVenueMeasures) -> Option<
    FeatureComputationError,
> {
    if measures.deviations@.len() != count {
        Some(FeatureComputationError::LengthMismatch)
    } else if all_finite(measures) {
        None
    } else {
        Some(FeatureComputationError::AnalyticalUnavailable)
    }
}

/// Every measured pattern is finite.
pub open spec fn all_finite(measures: CrossVenueMeasures) -> bool {
    &&& forall|i: int|
        0 <= i < measures.deviations@.len() ==> finite_bits(
            (#[trigger] measures.deviations@[i]).0,
        ) && finite_bits(measures.deviations@[i].1)
    &&& finite_bits(measures.relative_mad_bits)
    &&& finite_bits(measures.relative_range_bits)
    &&& finite_bits(measures.depth_concentration_bits)
    &&& finite_bits(measures.healthy_fraction_bits)
}

/// A venue's deviation is what was measured of its terms.
pub open spec fn is_deviation(deviation: VenueDeviation, terms: VenueTerms, bits: (u64, u64)) -> bool {
    &&& deviation.source@ == terms.source@
    &&& deviation.relative_to_fair == FiniteF64::of_pattern(bits.0)
    &&& deviation.reference_depth_share == FiniteF64::of_pattern(bits.1)
}

/// The snapshot is what was measured on the terms.
pub open spec fn is_snapshot(
    snapshot: CrossVenueSnapshot,
    terms: CrossVenueTerms,
    measures: CrossVenueMeasures,
) -> bool {
    &&& snapshot.venues@.len() == terms.venues@.len()
    &&& forall|i: int|
        0 <= i < snapshot.venues@.len() ==> is_deviation(
            #[trigger] snapshot.venues@[i],
            terms.venues@[i],
            measures.deviations@[i],
        )
    &&& snapshot.relative_mad == FiniteF64::of_pattern(measures.relative_mad_bits)
    &&& snapshot.relative_range == FiniteF64::of_pattern(measures.relative_range_bits)
    &&& snapshot.depth_concentration == FiniteF64::of_pattern(measures.depth_concentration_bits)
    &&& snapshot.healthy_venue_fraction == FiniteF64::of_pattern(measures.healthy_fraction_bits)
    &&& snapshot.stale_quote_count == terms.stale_quote_count
    &&& snapshot.lineage_digest@ == terms.lineage_digest@
}

impl CrossVenueSnapshot {
    /// The snapshot of cross-venue terms with their measures, where each is finite.
    pub fn from_terms(terms: &CrossVenueTerms, measures: &CrossVenueMeasures) -> (result: Result<
        Self,
        FeatureComputationError,
    >)
        ensures
            match measures_refusal(terms.venues@.len(), *measures) {
                Some(error) => result is Err && result->Err_0 == error,
                None => result is Ok && is_snapshot(result->Ok_0, *terms, *measures),
            },
    {
        if measures.deviations.len() != terms.venues.len() {
            return Err(FeatureComputationError::LengthMismatch);
        }
        let mut venues: Vec<VenueDeviation> = Vec::new();
        let mut i: usize = 0;
        while i < terms.venues.len()
            invariant
                i <= terms.venues@.len(),
                measures.deviations@.len() == terms.venues@.len(),
                venues@.len() == i,
                forall|k: int|
                    0 <= k < i ==> is_deviation(
                        #[trigger] venues@[k],
                        terms.venues@[k],
                        measures.deviations@[k],
                    ),
                forall|k: int|
                    0 <= k < i ==> finite_bits((#[trigger] measures.deviations@[k]).0)
                        && finite_bits(measures.deviations@[k].1),
            decreases terms.venues.len() - i,
        {
            let (relative_bits, share_bits) = measures.deviations[i];
            let relative_to_fair = measured(relative_bits)?;
            let reference_depth_share = measured(share_bits)?;
            venues.push(
                VenueDeviation {
                    source: terms.venues[i].source.clone(),
                    relative_to_fair,
                    reference_depth_share,
                },
            );
            i += 1;
        }
        Ok(
            CrossVenueSnapshot {
                venues,
                relative_mad: measured(measures.relative_mad_bits)?,
                relative_range: measured(measures.relative_range_bits)?,
                depth_concentration: measured(measures.depth_concentration_bits)?,
                healthy_venue_fraction: measured(measures.healthy_fraction_bits)?,
                stale_quote_count: terms.stale_quote_count,
                lineage_digest: terms.lineage_digest,
            },
        )
    }

    /// The snapshot of a fair price with the measures of its terms.
    pub fn try_from_fair_price(fair_price: &FairPrice, measures: &CrossVenueMeasures) -> (result:
        Result<Self, FeatureComputationError>)
        ensures
            match (
                cross_venue_refusal(*fair_price),
                measures_refusal(fair_price.included@.len(), *measures),
            ) {
                (Some(error), _) => result is Err && result->Err_0 == error,
                (None, Some(error)) => result is Err && result->Err_0 == error,
                (None, None) => result is Ok && exists|terms: CrossVenueTerms| #[trigger]
                    is_cross_venue(terms, *fair_price) && is_snapshot(
                        result->Ok_0,
                        terms,
                        *measures,
                    ),
            },
    {
        let terms = cross_venue_terms(fair_price)?;
        proof {
            let listed = choose|listed: Seq<VenueTerms>| #[trigger]
                lists_terms(listed, fair_price.included@) && terms.venues@ == stably_sorted(listed);
            lemma_stably_sorted(listed);
            assert(is_cross_venue(terms, *fair_price));
        }
        Self::from_terms(&terms, measures)
    }

    pub fn venues(&self) -> (venues: &Vec<VenueDeviation>)
        ensures
            *venues == self.venues,
    {
        &self.venues
    }

    pub fn relative_mad(&self) -> (value: FiniteF64)
        ensures
            value == self.relative_mad,
    {
        self.relative_mad
    }

    pub fn relative_range(&self) -> (value: FiniteF64)
        ensures
            value == self.relative_range,
    {
        self.relative_range
    }

    pub fn depth_concentration(&self) -> (value: FiniteF64)
        ensures
            value == self.depth_concentration,
    {
        self.depth_concentration
    }

    pub fn healthy_venue_fraction(&self) -> (value: FiniteF64)
        ensures
            value == self.healthy_venue_fraction,
    {
        self.healthy_venue_fraction
    }

    pub fn stale_quote_count(&self) -> (count: usize)
        ensures
            count == self.stale_quote_count,
    {
        self.stale_quote_count
    }

    pub fn lineage_digest(&self) -> (digest: [u8; 32])
        ensures
            digest@ == self.lineage_digest@,
    {
        self.lineage_digest
    }

    pub fn is_executable(&self) -> (answer: bool)
        ensures
            !answer,
    {
        false
    }
}

/// The amounts of prices.
pub open spec fn price_amounts(prices: Seq<Price>) -> Seq<FixedDecimal> {
    Seq::new(prices.len(), |i: int| prices[i].amount())
}

/// A dispersion is taken of the prices in ascending order, none left out or added, of which there
/// are at least two and at most so many, all above zero.
pub proof fn lemma_dispersions_order_their_prices(prices: Seq<Price>)
    ensures
        ({
            let sorted = stably_sorted(price_amounts(prices));
            &&& sorted.to_multiset() == price_amounts(prices).to_multiset()
            &&& sorted.len() == prices.len()
            &&& forall|i: int, j: int|
                0 <= i < j < sorted.len() ==> (#[trigger] sorted[i]).units() <= (
                #[trigger] sorted[j]).units()
        }),
        dispersion_refusal(prices) is None <==> 2 <= prices.len() <= 4_096 && forall|i: int|
            0 <= i < prices.len() ==> (#[trigger] prices[i]).units() > 0,
        prices.len() > 4_096 ==> dispersion_refusal(prices) == Some(
            FeatureComputationError::CapacityExceeded,
        ),
{
    let amounts = price_amounts(prices);
    let sorted = stably_sorted(amounts);
    lemma_stably_sorted(amounts);
    assert forall|i: int, j: int| 0 <= i < j < sorted.len() implies (
    #[trigger] sorted[i]).units() <= (#[trigger] sorted[j]).units() by {
        assert(!crate::ordering::rank_precedes(sorted[j].rank(), sorted[i].rank()));
    }
}

/// Depths have a concentration just where there are enough of them and not too many, none is
/// negative, and one is more than nothing.
pub proof fn lemma_concentration_needs_some_depth(depths: Seq<FixedDecimal>)
    ensures
        concentration_refusal(depths) is None <==> {
            &&& 2 <= depths.len() <= 4_096
            &&& forall|i: int| 0 <= i < depths.len() ==> (#[trigger] depths[i]).units() >= 0
            &&& exists|i: int| 0 <= i < depths.len() && (#[trigger] depths[i]).units() > 0
        },
{
    if concentration_refusal(depths) is None {
        let i = choose|i: int| 0 <= i < depths.len() && (#[trigger] depths[i]).units() != 0;
        assert(depths[i].units() > 0);
    }
}

/// One for each healthy venue, and nothing for the others.
pub open spec fn healthy_marks(included: Seq<IncludedVenue>) -> Seq<int> {
    Seq::new(
        included.len(),
        |i: int|
            if included[i].health == SourceHealthState::Healthy {
                1int
            } else {
                0
            },
    )
}

/// One for each venue that a stale quote excluded, and nothing for the others.
pub open spec fn stale_marks(excluded: Seq<VenueExclusionReason>) -> Seq<int> {
    Seq::new(
        excluded.len(),
        |i: int|
            if excluded[i] == VenueExclusionReason::QuoteStale {
                1int
            } else {
                0
            },
    )
}

/// The healthy venues are counted among the included ones, and never exceed them; all of them are
/// healthy just where the count is theirs.
pub proof fn lemma_healthy_venues_are_counted(included: Seq<IncludedVenue>)
    ensures
        healthy_venues(included) == sum_of(healthy_marks(included)),
        healthy_venues(included) <= included.len(),
        healthy_venues(included) == included.len() <==> forall|i: int|
            0 <= i < included.len() ==> (#[trigger] included[i]).health
                == SourceHealthState::Healthy,
    decreases included.len(),
{
    if included.len() > 0 {
        let rest = included.drop_last();
        let last = included.len() - 1;
        lemma_healthy_venues_are_counted(rest);
        lemma_sum_last(healthy_marks(included));
        assert(healthy_marks(included).drop_last() =~= healthy_marks(rest));
        assert(included[last] == included.last());
        if healthy_venues(included) == included.len() {
            assert forall|i: int| 0 <= i < included.len() implies (
            #[trigger] included[i]).health == SourceHealthState::Healthy by {
                if i < last {
                    assert(rest[i] == included[i]);
                }
            }
        } else if forall|i: int|
            0 <= i < included.len() ==> (#[trigger] included[i]).health
                == SourceHealthState::Healthy {
            assert forall|i: int| 0 <= i < rest.len() implies (#[trigger] rest[i]).health
                == SourceHealthState::Healthy by {
                assert(rest[i] == included[i]);
            }
        }
    }
}

/// The venues that a stale quote excluded are counted, and no others.
pub proof fn lemma_stale_quotes_are_counted(excluded: Seq<VenueExclusionReason>)
    ensures
        stale_quotes(excluded) == sum_of(stale_marks(excluded)),
        stale_quotes(excluded) <= excluded.len(),
    decreases excluded.len(),
{
    if excluded.len() > 0 {
        let rest = excluded.drop_last();
        lemma_stale_quotes_are_counted(rest);
        lemma_sum_last(stale_marks(excluded));
        assert(stale_marks(excluded).drop_last() =~= stale_marks(rest));
    }
}

/// The terms list every included venue once under its own source, with its own price and depth, in
/// the order of labels.
pub proof fn lemma_terms_list_every_venue(terms: CrossVenueTerms, fair_price: FairPrice)
    requires
        is_cross_venue(terms, fair_price),
    ensures
        terms.venues@.len() == fair_price.included@.len(),
        forall|i: int|
            #![trigger terms.venues@[i]]
            0 <= i < terms.venues@.len() ==> exists|k: int|
                #![trigger fair_price.included@[k]]
                0 <= k < fair_price.included@.len() && terms.venues@[i]@ == (
                    fair_price.included@[k].source@,
                    fair_price.included@[k].adjusted_price,
                    fair_price.included@[k].adjusted_depth,
                ),
        forall|k: int|
            #![trigger fair_price.included@[k]]
            0 <= k < fair_price.included@.len() ==> exists|i: int|
                #![trigger terms.venues@[i]]
                0 <= i < terms.venues@.len() && terms.venues@[i]@ == (
                    fair_price.included@[k].source@,
                    fair_price.included@[k].adjusted_price,
                    fair_price.included@[k].adjusted_depth,
                ),
        terms.fair_price == fair_price.price,
        terms.healthy_count == sum_of(healthy_marks(fair_price.included@)),
        terms.stale_quote_count == sum_of(stale_marks(fair_price.excluded@)),
        terms.eligible_count == fair_price.eligible_sources->Some_0@.len(),
{
    let included = fair_price.included@;
    let listed = choose|listed: Seq<VenueTerms>| #[trigger]
        lists_terms(listed, included) && terms.venues@ == stably_sorted(listed);
    let venues = terms.venues@;
    lemma_stably_sorted(listed);
    listed.to_multiset_ensures();
    venues.to_multiset_ensures();
    lemma_healthy_venues_are_counted(included);
    lemma_stale_quotes_are_counted(fair_price.excluded@);
    assert forall|i: int|
        #![trigger venues[i]]
        0 <= i < venues.len() implies exists|k: int|
        #![trigger included[k]]
        0 <= k < included.len() && venues[i]@ == (
            included[k].source@,
            included[k].adjusted_price,
            included[k].adjusted_depth,
        ) by {
        assert(venues.contains(venues[i]));
        assert(listed.to_multiset().count(venues[i]) > 0);
        let k = listed.index_of(venues[i]);
        assert(listed[k] == venues[i]);
        assert(included[k] == included[k]);
    }
    assert forall|k: int|
        #![trigger included[k]]
        0 <= k < included.len() implies exists|i: int|
        #![trigger venues[i]]
        0 <= i < venues.len() && venues[i]@ == (
            included[k].source@,
            included[k].adjusted_price,
            included[k].adjusted_depth,
        ) by {
        assert(listed.contains(listed[k]));
        assert(venues.to_multiset().count(listed[k]) > 0);
        let i = venues.index_of(listed[k]);
        assert(venues[i] == listed[k]);
    }
}

/// A fair price is described over its venues only where at least two sources were eligible and
/// two were included, every included one is eligible, bound to a catalogue and to a book, the
/// price is positive, and there is some depth.
pub proof fn lemma_described_prices_rest_on_trusted_venues(fair_price: FairPrice)
    requires
        cross_venue_refusal(fair_price) is None,
    ensures
        fair_price.eligible_sources is Some,
        fair_price.eligible_sources->Some_0@.len() >= 2,
        fair_price.included@.len() >= 2,
        fair_price.price.units() > 0,
        !no_depth(venue_depths(fair_price.included@)),
        forall|i: int|
            #![trigger fair_price.included@[i]]
            0 <= i < fair_price.included@.len() ==> {
                let venue = fair_price.included@[i];
                &&& venue.has_book_provenance
                &&& venue.is_catalog_bound
                &&& source_views(fair_price.eligible_sources->Some_0@).contains(venue.source@)
            },
{
    assert forall|i: int|
        #![trigger fair_price.included@[i]]
        0 <= i < fair_price.included@.len() implies venue_is_trusted(
        fair_price.included@[i],
        source_views(fair_price.eligible_sources->Some_0@),
    ) by {}
}

/// Measures describe a fair price exactly where there are as many deviations as venues and every
/// one of them is finite.
pub proof fn lemma_measures_are_of_every_venue(count: nat, measures: CrossVenueMeasures)
    ensures
        measures_refusal(count, measures) is None <==> {
            &&& measures.deviations@.len() == count
            &&& finite_bits(measures.relative_mad_bits)
            &&& finite_bits(measures.relative_range_bits)
            &&& finite_bits(measures.depth_concentration_bits)
            &&& finite_bits(measures.healthy_fraction_bits)
            &&& forall|i: int|
                #![trigger measures.deviations@[i]]
                0 <= i < measures.deviations@.len() ==> finite_bits(measures.deviations@[i].0)
                    && finite_bits(measures.deviations@[i].1)
        },
{
}

} // verus!
