//! Receipts of collectors and connectors, as plain values.

use vstd::prelude::*;

use crate::digest::{encoded_u32, put_u32};
use crate::domain::{SourceHealthState, SourceId, UnixNanos};
use crate::event::{InstrumentDefinition, NormalizedEvent};

verus! {

/// The streams that a collector subscribes to.
#[derive(Clone, Copy, Debug, PartialEq, Eq, Structural)]
pub enum StreamClass {
    Trades,
    BookSnapshots,
    BookDeltas,
    MarkIndex,
    Funding,
    OpenInterest,
    Liquidations,
}

/// The number of a stream class in a digest. It stands for the discriminant of
/// `connector_core::StreamClass`, which counts the classes in the order of their declaration; it is
/// written down here, not read from there.
pub open spec fn stream_code(stream: StreamClass) -> u8 {
    match stream {
        StreamClass::Trades => 0,
        StreamClass::BookSnapshots => 1,
        StreamClass::BookDeltas => 2,
        StreamClass::MarkIndex => 3,
        StreamClass::Funding => 4,
        StreamClass::OpenInterest => 5,
        StreamClass::Liquidations => 6,
    }
}

pub(crate) fn stream_tag(stream: StreamClass) -> (tag: u8)
    ensures
        tag == stream_code(stream),
{
    match stream {
        StreamClass::Trades => 0,
        StreamClass::BookSnapshots => 1,
        StreamClass::BookDeltas => 2,
        StreamClass::MarkIndex => 3,
        StreamClass::Funding => 4,
        StreamClass::OpenInterest => 5,
        StreamClass::Liquidations => 6,
    }
}

/// Why a stream is only a part of what happened.
#[derive(Clone, Copy, Debug, PartialEq, Eq, Structural)]
pub enum CompletenessReason {
    VenueSampling,
    SubscriptionScope,
    LicensingRestriction,
    HistoricalGap,
}

/// How much of what happened a stream delivers.
#[derive(Clone, Copy, Debug, PartialEq, Eq, Structural)]
pub enum Completeness {
    NotSupported,
    VenueReportedComplete { delivery_uncertainty: bool },
    VenueReportedAll { push_cadence_ms: u32, delivery_uncertainty: bool },
    SampledLargestPerSymbolWindow { window_ms: u32 },
    Partial { reason: CompletenessReason },
}

/// The class of a completeness, without its details.
pub open spec fn completeness_code(completeness: Completeness) -> u8 {
    match completeness {
        Completeness::NotSupported => 0,
        Completeness::VenueReportedComplete { .. } => 1,
        Completeness::VenueReportedAll { .. } => 2,
        Completeness::SampledLargestPerSymbolWindow { .. } => 3,
        Completeness::Partial { .. } => 4,
    }
}

pub fn completeness_class(completeness: Completeness) -> (class: u8)
    ensures
        class == completeness_code(completeness),
{
    match completeness {
        Completeness::NotSupported => 0,
        Completeness::VenueReportedComplete { .. } => 1,
        Completeness::VenueReportedAll { .. } => 2,
        Completeness::SampledLargestPerSymbolWindow { .. } => 3,
        Completeness::Partial { .. } => 4,
    }
}

pub open spec fn reason_code(reason: CompletenessReason) -> u8 {
    match reason {
        CompletenessReason::VenueSampling => 1,
        CompletenessReason::SubscriptionScope => 2,
        CompletenessReason::LicensingRestriction => 3,
        CompletenessReason::HistoricalGap => 4,
    }
}

pub open spec fn flag_code(flag: bool) -> u8 {
    if flag {
        1
    } else {
        0
    }
}

pub(crate) fn flag_tag(flag: bool) -> (tag: u8)
    ensures
        tag == flag_code(flag),
{
    if flag {
        1
    } else {
        0
    }
}

/// The bytes by which a completeness enters a digest.
pub open spec fn completeness_encoding(completeness: Completeness) -> Seq<u8> {
    match completeness {
        Completeness::NotSupported => seq![0u8],
        Completeness::VenueReportedComplete { delivery_uncertainty } => seq![
            1u8,
            flag_code(delivery_uncertainty),
        ],
        Completeness::VenueReportedAll { push_cadence_ms, delivery_uncertainty } => seq![
            2u8,
            flag_code(delivery_uncertainty),
        ] + encoded_u32(push_cadence_ms),
        Completeness::SampledLargestPerSymbolWindow { window_ms } => seq![3u8] + encoded_u32(
            window_ms,
        ),
        Completeness::Partial { reason } => seq![4u8, reason_code(reason)],
    }
}

pub(crate) fn put_completeness(buffer: &mut Vec<u8>, completeness: Completeness)
    ensures
        final(buffer)@ == old(buffer)@ + completeness_encoding(completeness),
{
    buffer.push(completeness_class(completeness));
    match completeness {
        Completeness::NotSupported => {},
        Completeness::VenueReportedComplete { delivery_uncertainty } => {
            buffer.push(flag_tag(delivery_uncertainty));
        },
        Completeness::VenueReportedAll { push_cadence_ms, delivery_uncertainty } => {
            buffer.push(flag_tag(delivery_uncertainty));
            put_u32(buffer, push_cadence_ms);
        },
        Completeness::SampledLargestPerSymbolWindow { window_ms } => {
            put_u32(buffer, window_ms);
        },
        Completeness::Partial { reason } => {
            buffer.push(
                match reason {
                    CompletenessReason::VenueSampling => 1,
                    CompletenessReason::SubscriptionScope => 2,
                    CompletenessReason::LicensingRestriction => 3,
                    CompletenessReason::HistoricalGap => 4,
                },
            );
        },
    }
    proof {
        assert(buffer@ =~= old(buffer)@ + completeness_encoding(completeness));
    }
}

/// What a collector measured of a source over one window.
#[derive(Clone, Copy, Debug, PartialEq, Eq, Structural)]
pub struct OperationalQualitySample {
    pub window_start: UnixNanos,
    pub window_end: UnixNanos,
    pub last_trusted_event_time: UnixNanos,
    pub receive_wall_time: UnixNanos,
    pub as_known_at: UnixNanos,
    pub stale_after_ns: u64,
    pub feed_jitter_ns: u64,
    pub clock_skew_estimate_ns: i64,
}

/// A collector's sealed account of one source and one stream.
#[derive(Debug)]
pub struct OperationalQualityReceipt {
    pub source: SourceId,
    pub connection_epoch: u64,
    pub source_health: SourceHealthState,
    pub stream: StreamClass,
    pub completeness: Completeness,
    pub sample: OperationalQualitySample,
    pub sequence_gap_count: u64,
    pub checksum_failure_count: u64,
    pub reconnect_count: u64,
    pub recovery_count: u64,
    pub correction_count: u64,
    pub revision_count: u64,
    pub raw_to_normalized_rejection_count: u64,
}

/// A supervisor's sealed account of a physical volume.
#[derive(Clone, Copy, Debug, PartialEq, Eq, Structural)]
pub struct StoragePressureReceipt {
    pub used_bytes: u64,
    pub capacity_bytes: u64,
    pub as_known_at: UnixNanos,
}

#[derive(Clone, Copy, Debug, PartialEq, Eq, Structural)]
pub enum DerivativeStream {
    Funding,
    OpenInterest,
    MarkIndex,
    Liquidation,
}

pub open spec fn derivative_stream_code(stream: DerivativeStream) -> u8 {
    match stream {
        DerivativeStream::Funding => 1,
        DerivativeStream::OpenInterest => 2,
        DerivativeStream::MarkIndex => 3,
        DerivativeStream::Liquidation => 4,
    }
}

pub fn derivative_stream_tag(stream: DerivativeStream) -> (tag: u8)
    ensures
        tag == derivative_stream_code(stream),
{
    match stream {
        DerivativeStream::Funding => 1,
        DerivativeStream::OpenInterest => 2,
        DerivativeStream::MarkIndex => 3,
        DerivativeStream::Liquidation => 4,
    }
}

/// The revisions of the catalog and of the definition that a connector normalized under.
#[derive(Clone, Copy, Debug, PartialEq, Eq, Structural)]
pub struct CatalogAuthority {
    pub catalog_revision: u64,
    pub definition_revision: u64,
}

/// A connector's sealed account of one normalized derivative event.
#[derive(Debug)]
pub struct DerivativeNormalizationReceipt {
    pub event: NormalizedEvent,
    pub stream: DerivativeStream,
    pub completeness: Completeness,
    pub connector_version: String,
    pub catalog_authority: CatalogAuthority,
    pub catalog_digest: [u8; 32],
    pub definition_hash: [u8; 32],
    pub catalog_as_known_at: UnixNanos,
    pub instrument_definition: InstrumentDefinition,
}

/// Streams, completeness and reasons are counted in the order in which they are declared, and a
/// flag is one where it is set.
pub proof fn lemma_receipt_codes_count_in_order(
    stream: StreamClass,
    completeness: Completeness,
    reason: CompletenessReason,
    derivative: DerivativeStream,
    flag: bool,
)
    ensures
        stream_code(stream) == 0 <==> stream == StreamClass::Trades,
        stream_code(stream) == 1 <==> stream == StreamClass::BookSnapshots,
        stream_code(stream) == 2 <==> stream == StreamClass::BookDeltas,
        stream_code(stream) == 3 <==> stream == StreamClass::MarkIndex,
        stream_code(stream) == 4 <==> stream == StreamClass::Funding,
        stream_code(stream) == 5 <==> stream == StreamClass::OpenInterest,
        stream_code(stream) == 6 <==> stream == StreamClass::Liquidations,
        completeness_code(completeness) == 0 <==> completeness is NotSupported,
        completeness_code(completeness) == 1 <==> completeness is VenueReportedComplete,
        completeness_code(completeness) == 2 <==> completeness is VenueReportedAll,
        completeness_code(completeness) == 3 <==> completeness is SampledLargestPerSymbolWindow,
        completeness_code(completeness) == 4 <==> completeness is Partial,
        completeness_encoding(completeness)[0] == completeness_code(completeness),
        reason_code(reason) == 1 <==> reason == CompletenessReason::VenueSampling,
        reason_code(reason) == 2 <==> reason == CompletenessReason::SubscriptionScope,
        reason_code(reason) == 3 <==> reason == CompletenessReason::LicensingRestriction,
        reason_code(reason) == 4 <==> reason == CompletenessReason::HistoricalGap,
        derivative_stream_code(derivative) == 1 <==> derivative == DerivativeStream::Funding,
        derivative_stream_code(derivative) == 2 <==> derivative == DerivativeStream::OpenInterest,
        derivative_stream_code(derivative) == 3 <==> derivative == DerivativeStream::MarkIndex,
        derivative_stream_code(derivative) == 4 <==> derivative == DerivativeStream::Liquidation,
        flag_code(flag) == 1 <==> flag,
        flag_code(flag) == 0 <==> !flag,
{
}

} // verus!
