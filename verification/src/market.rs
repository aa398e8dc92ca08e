//! Consolidated market state, as plain values.

use vstd::prelude::*;

use crate::decimal::{Price, Quantity};
use crate::domain::{AssetId, SourceHealthState, SourceId, SourceView, UnixNanos};

verus! {

/// A venue that entered a fair price.
#[derive(Debug)]
pub struct IncludedVenue {
    pub source: SourceId,
    pub health: SourceHealthState,
    pub adjusted_price: Price,
    pub adjusted_depth: Quantity,
    /// The quote came from an authenticated book.
    pub has_book_provenance: bool,
    /// The instrument was bound to a catalog.
    pub is_catalog_bound: bool,
}

/// Why a venue did not enter a fair price.
#[derive(Clone, Copy, Debug, PartialEq, Eq, Structural)]
pub enum VenueExclusionReason {
    QuoteStale,
    SourceUnhealthy,
    PriceOutlier,
    DepthInsufficient,
    NotEligible,
}

/// A consolidated fair price and the evidence behind it.
#[derive(Debug)]
pub struct FairPrice {
    pub base_asset: AssetId,
    pub price: Price,
    pub event_time: UnixNanos,
    pub as_of: UnixNanos,
    pub lineage_digest: [u8; 32],
    pub eligible_sources: Option<Vec<SourceId>>,
    pub included: Vec<IncludedVenue>,
    pub excluded: Vec<VenueExclusionReason>,
    pub minimum_included_quality: u32,
}

/// The sources and health of the included venues.
pub open spec fn included_views(included: Seq<IncludedVenue>) -> Seq<
    (SourceView, SourceHealthState),
> {
    Seq::new(included.len(), |i: int| (included[i].source@, included[i].health))
}

} // verus!
