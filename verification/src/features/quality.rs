//! Operational-quality features and separately typed gating fields.

use vstd::prelude::*;

use super::book_evidence::{elapsed, elapsed_ns};
use super::FeatureComputationError;
use crate::domain::SourceHealthState;
use crate::receipt::{Completeness, OperationalQualityReceipt, StreamClass};

verus! {

/// How far the values of a source can be relied on.
#[derive(Clone, Copy, Debug, PartialEq, Eq, Structural)]
pub struct OperationalUncertaintyFields {
    pub source_latency_ns: u64,
    pub feed_jitter_ns: u64,
    pub clock_skew_estimate_ns: i64,
    pub event_age_ns: u64,
    pub stale_quote_duration_ns: u64,
    pub sequence_gap_count: u64,
    pub checksum_failure_count: u64,
    pub reconnect_count: u64,
    pub recovery_count: u64,
    pub correction_count: u64,
    pub revision_count: u64,
    pub raw_to_normalized_rejection_count: u64,
    pub source_health: SourceHealthState,
    pub stream: StreamClass,
    pub completeness: Completeness,
}

impl OperationalUncertaintyFields {
    pub fn source_latency_ns(self) -> (value: u64)
        ensures
            value == self.source_latency_ns,
    {
        self.source_latency_ns
    }

    pub fn feed_jitter_ns(self) -> (value: u64)
        ensures
            value == self.feed_jitter_ns,
    {
        self.feed_jitter_ns
    }

    pub fn clock_skew_estimate_ns(self) -> (value: i64)
        ensures
            value == self.clock_skew_estimate_ns,
    {
        self.clock_skew_estimate_ns
    }

    pub fn event_age_ns(self) -> (value: u64)
        ensures
            value == self.event_age_ns,
    {
        self.event_age_ns
    }

    pub fn stale_quote_duration_ns(self) -> (value: u64)
        ensures
            value == self.stale_quote_duration_ns,
    {
        self.stale_quote_duration_ns
    }

    pub fn sequence_gap_count(self) -> (value: u64)
        ensures
            value == self.sequence_gap_count,
    {
        self.sequence_gap_count
    }

    pub fn checksum_failure_count(self) -> (value: u64)
        ensures
            value == self.checksum_failure_count,
    {
        self.checksum_failure_count
    }

    pub fn reconnect_count(self) -> (value: u64)
        ensures
            value == self.reconnect_count,
    {
        self.reconnect_count
    }

    pub fn recovery_count(self) -> (value: u64)
        ensures
            value == self.recovery_count,
    {
        self.recovery_count
    }

    pub fn correction_count(self) -> (value: u64)
        ensures
            value == self.correction_count,
    {
        self.correction_count
    }

    pub fn revision_count(self) -> (value: u64)
        ensures
            value == self.revision_count,
    {
        self.revision_count
    }

    pub fn raw_to_normalized_rejection_count(self) -> (value: u64)
        ensures
            value == self.raw_to_normalized_rejection_count,
    {
        self.raw_to_normalized_rejection_count
    }

    pub fn source_health(self) -> (value: SourceHealthState)
        ensures
            value == self.source_health,
    {
        self.source_health
    }

    pub fn stream(self) -> (value: StreamClass)
        ensures
            value == self.stream,
    {
        self.stream
    }

    pub fn completeness(self) -> (value: Completeness)
        ensures
            value == self.completeness,
    {
        self.completeness
    }

    pub fn stale(self) -> (answer: bool)
        ensures
            answer == (self.stale_quote_duration_ns > 0),
    {
        self.stale_quote_duration_ns > 0
    }

    pub fn checksum_failed(self) -> (answer: bool)
        ensures
            answer == (self.checksum_failure_count > 0),
    {
        self.checksum_failure_count > 0
    }
}

/// Whether a source may be used at all.
#[derive(Clone, Copy, Debug, PartialEq, Eq, Structural)]
pub struct OperationalGatingFields {
    pub authority_available: bool,
    pub eligible: bool,
    pub complete_for_cascade: bool,
    pub source_health: SourceHealthState,
}

impl OperationalGatingFields {
    pub fn authority_available(self) -> (value: bool)
        ensures
            value == self.authority_available,
    {
        self.authority_available
    }

    pub fn eligible(self) -> (value: bool)
        ensures
            value == self.eligible,
    {
        self.eligible
    }

    pub fn complete_for_cascade(self) -> (value: bool)
        ensures
            value == self.complete_for_cascade,
    {
        self.complete_for_cascade
    }

    pub fn source_health(self) -> (value: SourceHealthState)
        ensures
            value == self.source_health,
    {
        self.source_health
    }
}

/// What a collector's receipt says of a source.
#[derive(Clone, Copy, Debug, PartialEq, Eq, Structural)]
pub struct OperationalQualitySnapshot {
    pub uncertainty_fields: OperationalUncertaintyFields,
    pub gating_fields: OperationalGatingFields,
}

impl OperationalQualitySnapshot {
    pub fn uncertainty_fields(&self) -> (fields: &OperationalUncertaintyFields)
        ensures
            *fields == self.uncertainty_fields,
    {
        &self.uncertainty_fields
    }

    pub fn gating_fields(&self) -> (fields: &OperationalGatingFields)
        ensures
            *fields == self.gating_fields,
    {
        &self.gating_fields
    }
}

/// The venue claims to report everything.
pub open spec fn claims_everything(completeness: Completeness) -> bool {
    match completeness {
        Completeness::VenueReportedComplete { .. } => true,
        Completeness::VenueReportedAll { .. } => true,
        _ => false,
    }
}

/// The snapshot of a receipt, or why it has none: its times run backwards.
pub open spec fn quality_snapshot(receipt: OperationalQualityReceipt) -> Result<
    OperationalQualitySnapshot,
    FeatureComputationError,
> {
    let sample = receipt.sample;
    match (
        elapsed(sample.last_trusted_event_time, sample.receive_wall_time),
        elapsed(sample.last_trusted_event_time, sample.as_known_at),
    ) {
        (Ok(source_latency_ns), Ok(event_age_ns)) => {
            let stale_quote_duration_ns = if event_age_ns > sample.stale_after_ns {
                event_age_ns
            } else {
                0
            };
            Ok(
                OperationalQualitySnapshot {
                    uncertainty_fields: OperationalUncertaintyFields {
                        source_latency_ns,
                        feed_jitter_ns: sample.feed_jitter_ns,
                        clock_skew_estimate_ns: sample.clock_skew_estimate_ns,
                        event_age_ns,
                        stale_quote_duration_ns,
                        sequence_gap_count: receipt.sequence_gap_count,
                        checksum_failure_count: receipt.checksum_failure_count,
                        reconnect_count: receipt.reconnect_count,
                        recovery_count: receipt.recovery_count,
                        correction_count: receipt.correction_count,
                        revision_count: receipt.revision_count,
                        raw_to_normalized_rejection_count:
                            receipt.raw_to_normalized_rejection_count,
                        source_health: receipt.source_health,
                        stream: receipt.stream,
                        completeness: receipt.completeness,
                    },
                    gating_fields: OperationalGatingFields {
                        authority_available: true,
                        eligible: receipt.source_health == SourceHealthState::Healthy
                            && stale_quote_duration_ns == 0,
                        complete_for_cascade: receipt.sequence_gap_count == 0
                            && receipt.checksum_failure_count == 0 && receipt.stream
                            == StreamClass::Liquidations && claims_everything(
                            receipt.completeness,
                        ),
                        source_health: receipt.source_health,
                    },
                },
            )
        },
        _ => Err(FeatureComputationError::InvalidInput),
    }
}

pub fn operational_quality_snapshot(receipt: &OperationalQualityReceipt) -> (result: Result<
    OperationalQualitySnapshot,
    FeatureComputationError,
>)
    ensures
        result == quality_snapshot(*receipt),
{
    let sample = receipt.sample;
    let source_latency_ns: u64 = match elapsed_ns(
        sample.last_trusted_event_time,
        sample.receive_wall_time,
    ) {
        Ok(latency) => latency,
        Err(_) => {
            return Err(FeatureComputationError::InvalidInput);
        },
    };
    let event_age_ns: u64 = match elapsed_ns(sample.last_trusted_event_time, sample.as_known_at) {
        Ok(age) => age,
        Err(_) => {
            return Err(FeatureComputationError::InvalidInput);
        },
    };
    let stale_quote_duration_ns: u64 = if event_age_ns > sample.stale_after_ns {
        event_age_ns
    } else {
        0
    };
    let complete: bool = match receipt.completeness {
        Completeness::VenueReportedComplete { .. } => true,
        Completeness::VenueReportedAll { .. } => true,
        _ => false,
    };
    Ok(
        OperationalQualitySnapshot {
            uncertainty_fields: OperationalUncertaintyFields {
                source_latency_ns,
                feed_jitter_ns: sample.feed_jitter_ns,
                clock_skew_estimate_ns: sample.clock_skew_estimate_ns,
                event_age_ns,
                stale_quote_duration_ns,
                sequence_gap_count: receipt.sequence_gap_count,
                checksum_failure_count: receipt.checksum_failure_count,
                reconnect_count: receipt.reconnect_count,
                recovery_count: receipt.recovery_count,
                correction_count: receipt.correction_count,
                revision_count: receipt.revision_count,
                raw_to_normalized_rejection_count: receipt.raw_to_normalized_rejection_count,
                source_health: receipt.source_health,
                stream: receipt.stream,
                completeness: receipt.completeness,
            },
            gating_fields: OperationalGatingFields {
                authority_available: true,
                eligible: receipt.source_health == SourceHealthState::Healthy
                    && stale_quote_duration_ns == 0,
                complete_for_cascade: receipt.sequence_gap_count == 0
                    && receipt.checksum_failure_count == 0 && receipt.stream
                    == StreamClass::Liquidations && complete,
                source_health: receipt.source_health,
            },
        },
    )
}

/// A stale or unhealthy source never passes its gate, and a stream with a gap or a failed checksum
/// is never complete.
pub proof fn lemma_gates_fail_closed(receipt: OperationalQualityReceipt)
    requires
        quality_snapshot(receipt) is Ok,
    ensures
        ({
            let snapshot = quality_snapshot(receipt)->Ok_0;
            let fields = snapshot.uncertainty_fields;
            let gates = snapshot.gating_fields;
            &&& gates.eligible ==> fields.stale_quote_duration_ns == 0 && fields.source_health
                == SourceHealthState::Healthy
            &&& fields.stale_quote_duration_ns > 0 ==> fields.stale_quote_duration_ns
                == fields.event_age_ns
            &&& gates.complete_for_cascade ==> fields.sequence_gap_count == 0
                && fields.checksum_failure_count == 0
            &&& gates.source_health == fields.source_health
        }),
{
}

/// Latency is what the receipt took behind the last trusted event, and age is how long that event
/// was known to lie back. A source is stale just where the age exceeds the allowance, eligible just
/// where it is healthy and not stale, and complete for a cascade just where a stream of liquidations
/// that the venue reports in full shows no gap and no failed checksum.
pub proof fn lemma_quality_is_measured_from_the_last_trusted_event(
    receipt: OperationalQualityReceipt,
)
    ensures
        quality_snapshot(receipt) is Ok <==> {
            let sample = receipt.sample;
            let last = sample.last_trusted_event_time.nanos;
            &&& last <= sample.receive_wall_time.nanos
            &&& last <= sample.as_known_at.nanos
            &&& sample.receive_wall_time.nanos - last <= i64::MAX
            &&& sample.as_known_at.nanos - last <= i64::MAX
        },
        quality_snapshot(receipt) is Err ==> quality_snapshot(receipt)->Err_0
            == FeatureComputationError::InvalidInput,
        quality_snapshot(receipt) is Ok ==> {
            let sample = receipt.sample;
            let last = sample.last_trusted_event_time.nanos;
            let fields = quality_snapshot(receipt)->Ok_0.uncertainty_fields;
            let gates = quality_snapshot(receipt)->Ok_0.gating_fields;
            &&& last + fields.source_latency_ns == sample.receive_wall_time.nanos
            &&& last + fields.event_age_ns == sample.as_known_at.nanos
            &&& fields.stale_quote_duration_ns > 0 <==> fields.event_age_ns
                > sample.stale_after_ns
            &&& gates.eligible <==> receipt.source_health == SourceHealthState::Healthy
                && fields.event_age_ns <= sample.stale_after_ns
            &&& gates.complete_for_cascade <==> {
                &&& receipt.stream == StreamClass::Liquidations
                &&& receipt.sequence_gap_count == 0
                &&& receipt.checksum_failure_count == 0
                &&& receipt.completeness is VenueReportedComplete || receipt.completeness
                    is VenueReportedAll
            }
            &&& gates.authority_available
            &&& fields.feed_jitter_ns == sample.feed_jitter_ns
            &&& fields.clock_skew_estimate_ns == sample.clock_skew_estimate_ns
            &&& fields.sequence_gap_count == receipt.sequence_gap_count
            &&& fields.checksum_failure_count == receipt.checksum_failure_count
            &&& fields.reconnect_count == receipt.reconnect_count
            &&& fields.recovery_count == receipt.recovery_count
            &&& fields.correction_count == receipt.correction_count
            &&& fields.revision_count == receipt.revision_count
            &&& fields.raw_to_normalized_rejection_count
                == receipt.raw_to_normalized_rejection_count
            &&& fields.source_health == receipt.source_health && gates.source_health
                == receipt.source_health
            &&& fields.stream == receipt.stream && fields.completeness == receipt.completeness
        },
{
}

} // verus!
