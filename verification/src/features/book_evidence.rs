//! Authenticated book states, and metrics of one book at two points in time.

use vstd::prelude::*;

use super::orderbook::{
    book_is_valid, depth_in_band, depth_within_band, leads_outward,
    lemma_depth_is_what_lies_in_the_band, lemma_spreads_lie_between_bid_and_ask,
    quantities_in_band, spread, spread_terms, MAX_RECOVERY_OBSERVATIONS,
};
use super::orderflow::{AggressorSide, FlowTradeObservation, FlowTradeView};
use super::{difference_exact, product_exact, sum_of, ExactRatio, FeatureComputationError};
use crate::book::{
    book_encoding, book_state_digest, same_levels, BookSession, BookSnapshotView,
};
use crate::decimal::{
    decimal_of_units, lemma_exact_arithmetic, lemma_times_whole, unit, FixedDecimal, Price,
};
use crate::digest::{blake3_digest, is_zero_digest, same_digest, utf8, zero_digest};
use crate::domain::{InstrumentId, InstrumentView, SourceId, SourceKind, SourceView, UnixNanos};
use crate::event::{EventPayload, InstrumentDefinition, NormalizedEvent};
use crate::watermark::digest_view;
use crate::ordering::holds_digest;

verus! {

pub const MAX_POLICY_ID_BYTES: usize = 128;

/// The contents of an [`InstrumentDefinitionEvidence`].
pub struct DefinitionEvidenceView {
    pub definition: InstrumentDefinition,
    pub source: SourceView,
    pub as_known_at: UnixNanos,
    pub lineage: Seq<u8>,
    pub quality_score_ppm: u32,
}

/// An instrument definition as its own venue published it.
#[derive(Debug)]
pub struct InstrumentDefinitionEvidence {
    definition: InstrumentDefinition,
    source: SourceId,
    as_known_at: UnixNanos,
    lineage: [u8; 32],
    quality_score_ppm: u32,
}

impl View for InstrumentDefinitionEvidence {
    type V = DefinitionEvidenceView;

    closed spec fn view(&self) -> DefinitionEvidenceView {
        DefinitionEvidenceView {
            definition: self.definition,
            source: self.source@,
            as_known_at: self.as_known_at,
            lineage: self.lineage@,
            quality_score_ppm: self.quality_score_ppm,
        }
    }
}

/// The definition evidence that an event gives, or why it gives none.
pub open spec fn definition_of_event(event: NormalizedEvent) -> Result<
    DefinitionEvidenceView,
    FeatureComputationError,
> {
    if !event.verified {
        Err(FeatureComputationError::UntrustedInput)
    } else {
        match event.payload {
            EventPayload::InstrumentDefinition(definition) => {
                if !event.metadata.concerns(definition.id)
                    || !event.metadata.published_by_venue_of(definition.id) {
                    Err(FeatureComputationError::UntrustedInput)
                } else {
                    match event.metadata.event_time_of() {
                        None => Err(FeatureComputationError::InvalidInput),
                        Some(event_time) => if event.metadata.normalization_timestamp.nanos
                            < event_time.nanos {
                            Err(FeatureComputationError::FutureKnowledge)
                        } else {
                            Ok(
                                DefinitionEvidenceView {
                                    definition,
                                    source: event.metadata.source@,
                                    as_known_at: event.metadata.normalization_timestamp,
                                    lineage: event.id@,
                                    quality_score_ppm: event.metadata.quality_score_ppm,
                                },
                            )
                        },
                    }
                }
            },
            _ => Err(FeatureComputationError::InvalidInput),
        }
    }
}

/// A definition describes the instrument of a book, and lists it at the book's time.
pub open spec fn describes_book(
    definition: InstrumentDefinition,
    book: BookSnapshotView,
    event_time: UnixNanos,
) -> bool {
    definition.id@ == book.instrument@ && definition.price_tick == book.price_tick
        && definition.quantity_step == book.quantity_step && definition.listed_at(event_time)
}

impl InstrumentDefinitionEvidence {
    pub fn try_from_event(event: &NormalizedEvent) -> (result: Result<
        Self,
        FeatureComputationError,
    >)
        ensures
            match definition_of_event(*event) {
                Err(error) => result is Err && result->Err_0 == error,
                Ok(evidence) => result is Ok && result->Ok_0@ == evidence,
            },
    {
        if !event.verified {
            return Err(FeatureComputationError::UntrustedInput);
        }
        let metadata = &event.metadata;
        let definition = match &event.payload {
            EventPayload::InstrumentDefinition(definition) => definition,
            _ => {
                return Err(FeatureComputationError::InvalidInput);
            },
        };
        if !metadata.is_about(&definition.id) || !metadata.is_published_by_venue_of(
            &definition.id,
        ) {
            return Err(FeatureComputationError::UntrustedInput);
        }
        let event_time = match metadata.event_time() {
            None => {
                return Err(FeatureComputationError::InvalidInput);
            },
            Some(event_time) => event_time,
        };
        if metadata.normalization_timestamp.value() < event_time.value() {
            return Err(FeatureComputationError::FutureKnowledge);
        }
        Ok(
            InstrumentDefinitionEvidence {
                definition: definition.clone(),
                source: metadata.source.clone(),
                as_known_at: metadata.normalization_timestamp,
                lineage: event.id,
                quality_score_ppm: metadata.quality_score_ppm,
            },
        )
    }

    fn matches(&self, book: &BookSnapshotView, book_event_time: UnixNanos) -> (answer: bool)
        ensures
            answer == describes_book(self@.definition, *book, book_event_time),
    {
        self.definition.id.same(&book.instrument) && self.definition.price_tick
            == book.price_tick && self.definition.quantity_step == book.quantity_step
            && self.definition.is_listed_at(book_event_time)
    }

    pub fn lineage(&self) -> (lineage: [u8; 32])
        ensures
            lineage@ == self@.lineage,
    {
        self.lineage
    }
}

/// The contents of a [`BookStateEvidence`].
pub struct BookEvidenceView {
    pub source: SourceView,
    pub session: BookSession,
    pub last_source_sequence: u64,
    pub event_time: UnixNanos,
    pub as_known_at: UnixNanos,
    pub lineage: Seq<u8>,
    pub definition_lineage: Option<Seq<u8>>,
    pub quality_score_ppm: u32,
    pub state_digest: Seq<u8>,
}

/// A book state that a verified event vouches for.
#[derive(Debug)]
pub struct BookStateEvidence {
    source: SourceId,
    session: BookSession,
    last_source_sequence: u64,
    event_time: UnixNanos,
    as_known_at: UnixNanos,
    lineage: [u8; 32],
    instrument_definition_lineage: Option<[u8; 32]>,
    quality_score_ppm: u32,
    state_digest: [u8; 32],
}

impl View for BookStateEvidence {
    type V = BookEvidenceView;

    closed spec fn view(&self) -> BookEvidenceView {
        BookEvidenceView {
            source: self.source@,
            session: self.session,
            last_source_sequence: self.last_source_sequence,
            event_time: self.event_time,
            as_known_at: self.as_known_at,
            lineage: self.lineage@,
            definition_lineage: digest_view(self.instrument_definition_lineage),
            quality_score_ppm: self.quality_score_ppm,
            state_digest: self.state_digest@,
        }
    }
}

/// A book together with the event whose application produced it.
#[derive(Debug)]
pub struct BookEventApplyReceipt {
    pub event_id: [u8; 32],
    pub snapshot: BookSnapshotView,
}

/// The lower of two scores in millionths.
pub open spec fn lower_score(left: u32, right: u32) -> u32 {
    if right < left {
        right
    } else {
        left
    }
}

fn min_score(left: u32, right: u32) -> (score: u32)
    ensures
        score == lower_score(left, right),
{
    if right < left {
        right
    } else {
        left
    }
}

/// The sequence up to which an event carries a book, or why it does not speak of this book.
pub open spec fn payload_sequence(
    payload: EventPayload,
    book: BookSnapshotView,
    applied: bool,
) -> Result<u64, FeatureComputationError> {
    match payload {
        EventPayload::BookSnapshot { bids, asks, last_sequence } => {
            if bids@ != book.bids@ || asks@ != book.asks@ {
                Err(FeatureComputationError::UntrustedInput)
            } else {
                Ok(last_sequence)
            }
        },
        EventPayload::BookDelta { last_sequence } => if applied {
            Ok(last_sequence)
        } else {
            Err(FeatureComputationError::SourceNotSupported)
        },
        _ => Err(FeatureComputationError::InvalidInput),
    }
}

/// The evidence that an event gives of a book, or why it gives none. Only the receipt of its
/// application lets a delta vouch for a book.
pub open spec fn book_evidence(
    book: BookSnapshotView,
    event: NormalizedEvent,
    applied: bool,
) -> Result<BookEvidenceView, FeatureComputationError> {
    let metadata = event.metadata;
    if !event.verified {
        Err(FeatureComputationError::UntrustedInput)
    } else if !metadata.concerns(book.instrument) {
        Err(FeatureComputationError::MixedEntity)
    } else if !metadata.published_by_venue_of(book.instrument) {
        Err(FeatureComputationError::UntrustedInput)
    } else {
        match payload_sequence(event.payload, book, applied) {
            Err(error) => Err(error),
            Ok(sequence) => if metadata.connection_epoch != book.session.connection_epoch
                || metadata.subscription_epoch != book.session.subscription_epoch
                || metadata.sequence_number != Some(book.last_source_sequence) || sequence
                != book.last_source_sequence {
                Err(FeatureComputationError::SequenceGap)
            } else if metadata.receive_monotonic_ns != book.updated_monotonic_ns {
                Err(FeatureComputationError::UntrustedInput)
            } else {
                match metadata.event_time_of() {
                    None => Err(FeatureComputationError::InvalidInput),
                    Some(event_time) => if metadata.normalization_timestamp.nanos
                        < event_time.nanos {
                        Err(FeatureComputationError::FutureKnowledge)
                    } else {
                        Ok(
                            BookEvidenceView {
                                source: metadata.source@,
                                session: book.session,
                                last_source_sequence: book.last_source_sequence,
                                event_time,
                                as_known_at: metadata.normalization_timestamp,
                                lineage: event.id@,
                                definition_lineage: None,
                                quality_score_ppm: lower_score(
                                    metadata.quality_score_ppm,
                                    book.quality.quality_score_ppm,
                                ),
                                state_digest: blake3_digest(book_encoding(book)),
                            },
                        )
                    },
                }
            },
        }
    }
}

/// Book evidence bound to the definition of its instrument, or why they do not belong together.
pub open spec fn defined_book_evidence(
    evidence: BookEvidenceView,
    definition: DefinitionEvidenceView,
    book: BookSnapshotView,
) -> Result<BookEvidenceView, FeatureComputationError> {
    if definition.source != evidence.source || definition.lineage == evidence.lineage
        || !describes_book(definition.definition, book, evidence.event_time) {
        Err(FeatureComputationError::UntrustedInput)
    } else {
        Ok(
            BookEvidenceView {
                as_known_at: evidence.as_known_at.later(definition.as_known_at),
                quality_score_ppm: lower_score(
                    evidence.quality_score_ppm,
                    definition.quality_score_ppm,
                ),
                definition_lineage: Some(definition.lineage),
                ..evidence
            },
        )
    }
}

/// The evidence that the receipt of an applied event gives, or why it gives none.
pub open spec fn receipt_evidence(receipt: BookEventApplyReceipt, event: NormalizedEvent) -> Result<
    BookEvidenceView,
    FeatureComputationError,
> {
    if receipt.event_id@ != event.id@ {
        Err(FeatureComputationError::UntrustedInput)
    } else {
        book_evidence(receipt.snapshot, event, true)
    }
}

/// What an evidence computation returned, by its contents.
pub open spec fn evidence_outcome(
    result: Result<BookStateEvidence, FeatureComputationError>,
) -> Result<BookEvidenceView, FeatureComputationError> {
    match result {
        Ok(evidence) => Ok(evidence@),
        Err(error) => Err(error),
    }
}

/// The evidence still describes a book.
pub open spec fn vouches_for_book(evidence: BookEvidenceView, book: BookSnapshotView) -> bool {
    evidence.session == book.session && evidence.last_source_sequence == book.last_source_sequence
        && evidence.state_digest == blake3_digest(book_encoding(book))
}

impl BookStateEvidence {
    pub fn try_from_event(book: &BookSnapshotView, event: &NormalizedEvent) -> (result: Result<
        Self,
        FeatureComputationError,
    >)
        ensures
            evidence_outcome(result) == book_evidence(*book, *event, false),
    {
        Self::try_from_authenticated_state(book, event, false)
    }

    pub fn try_from_apply_receipt(receipt: &BookEventApplyReceipt, event: &NormalizedEvent) -> (result:
        Result<Self, FeatureComputationError>)
        ensures
            evidence_outcome(result) == receipt_evidence(*receipt, *event),
    {
        if !same_digest(&receipt.event_id, &event.id) {
            return Err(FeatureComputationError::UntrustedInput);
        }
        Self::try_from_authenticated_state(&receipt.snapshot, event, true)
    }

    pub fn try_from_event_with_definition(
        book: &BookSnapshotView,
        event: &NormalizedEvent,
        definition: &InstrumentDefinitionEvidence,
    ) -> (result: Result<Self, FeatureComputationError>)
        ensures
            evidence_outcome(result) == (match book_evidence(*book, *event, false) {
                Err(error) => Err(error),
                Ok(evidence) => defined_book_evidence(evidence, definition@, *book),
            }),
    {
        let evidence = Self::try_from_event(book, event)?;
        evidence.with_instrument_definition(definition, book)
    }

    pub fn try_from_apply_receipt_with_definition(
        receipt: &BookEventApplyReceipt,
        event: &NormalizedEvent,
        definition: &InstrumentDefinitionEvidence,
    ) -> (result: Result<Self, FeatureComputationError>)
        ensures
            evidence_outcome(result) == (match receipt_evidence(*receipt, *event) {
                Err(error) => Err(error),
                Ok(evidence) => defined_book_evidence(evidence, definition@, receipt.snapshot),
            }),
    {
        let evidence = Self::try_from_apply_receipt(receipt, event)?;
        evidence.with_instrument_definition(definition, &receipt.snapshot)
    }

    fn try_from_authenticated_state(
        book: &BookSnapshotView,
        event: &NormalizedEvent,
        applied_event_receipt: bool,
    ) -> (result: Result<Self, FeatureComputationError>)
        ensures
            evidence_outcome(result) == book_evidence(*book, *event, applied_event_receipt),
    {
        if !event.verified {
            return Err(FeatureComputationError::UntrustedInput);
        }
        let metadata = &event.metadata;
        if !metadata.is_about(&book.instrument) {
            return Err(FeatureComputationError::MixedEntity);
        }
        if !metadata.is_published_by_venue_of(&book.instrument) {
            return Err(FeatureComputationError::UntrustedInput);
        }
        let sequence: u64 = match &event.payload {
            EventPayload::BookSnapshot { bids, asks, last_sequence } => {
                if !same_levels(bids, &book.bids) || !same_levels(asks, &book.asks) {
                    return Err(FeatureComputationError::UntrustedInput);
                }
                *last_sequence
            },
            EventPayload::BookDelta { last_sequence } => {
                if !applied_event_receipt {
                    return Err(FeatureComputationError::SourceNotSupported);
                }
                *last_sequence
            },
            _ => {
                return Err(FeatureComputationError::InvalidInput);
            },
        };
        let numbered: bool = match metadata.sequence_number {
            Some(number) => number == book.last_source_sequence,
            None => false,
        };
        if metadata.connection_epoch != book.session.connection_epoch
            || metadata.subscription_epoch != book.session.subscription_epoch || !numbered
            || sequence != book.last_source_sequence {
            return Err(FeatureComputationError::SequenceGap);
        }
        if metadata.receive_monotonic_ns != book.updated_monotonic_ns {
            return Err(FeatureComputationError::UntrustedInput);
        }
        let event_time = match metadata.event_time() {
            None => {
                return Err(FeatureComputationError::InvalidInput);
            },
            Some(event_time) => event_time,
        };
        if metadata.normalization_timestamp.value() < event_time.value() {
            return Err(FeatureComputationError::FutureKnowledge);
        }
        Ok(
            BookStateEvidence {
                source: metadata.source.clone(),
                session: book.session,
                last_source_sequence: book.last_source_sequence,
                event_time,
                as_known_at: metadata.normalization_timestamp,
                lineage: event.id,
                instrument_definition_lineage: None,
                quality_score_ppm: min_score(
                    metadata.quality_score_ppm,
                    book.quality.quality_score_ppm,
                ),
                state_digest: book_state_digest(book),
            },
        )
    }

    fn with_instrument_definition(
        self,
        definition: &InstrumentDefinitionEvidence,
        book: &BookSnapshotView,
    ) -> (result: Result<Self, FeatureComputationError>)
        ensures
            evidence_outcome(result) == defined_book_evidence(self@, definition@, *book),
    {
        if !definition.source.same(&self.source) || same_digest(
            &definition.lineage,
            &self.lineage,
        ) || !definition.matches(book, self.event_time) {
            return Err(FeatureComputationError::UntrustedInput);
        }
        Ok(
            BookStateEvidence {
                as_known_at: self.as_known_at.max_of(definition.as_known_at),
                quality_score_ppm: min_score(
                    self.quality_score_ppm,
                    definition.quality_score_ppm,
                ),
                instrument_definition_lineage: Some(definition.lineage),
                source: self.source,
                session: self.session,
                last_source_sequence: self.last_source_sequence,
                event_time: self.event_time,
                lineage: self.lineage,
                state_digest: self.state_digest,
            },
        )
    }

    pub fn source(&self) -> (source: &SourceId)
        ensures
            source@ == self@.source,
    {
        &self.source
    }

    pub fn session(&self) -> (session: BookSession)
        ensures
            session == self@.session,
    {
        self.session
    }

    pub fn last_source_sequence(&self) -> (sequence: u64)
        ensures
            sequence == self@.last_source_sequence,
    {
        self.last_source_sequence
    }

    pub fn event_time(&self) -> (time: UnixNanos)
        ensures
            time == self@.event_time,
    {
        self.event_time
    }

    pub fn as_known_at(&self) -> (time: UnixNanos)
        ensures
            time == self@.as_known_at,
    {
        self.as_known_at
    }

    pub fn lineage(&self) -> (lineage: [u8; 32])
        ensures
            lineage@ == self@.lineage,
    {
        self.lineage
    }

    pub fn instrument_definition_lineage(&self) -> (lineage: Option<[u8; 32]>)
        ensures
            digest_view(lineage) == self@.definition_lineage,
    {
        self.instrument_definition_lineage
    }

    pub fn quality_score_ppm(&self) -> (score: u32)
        ensures
            score == self@.quality_score_ppm,
    {
        self.quality_score_ppm
    }

    pub fn state_digest(&self) -> (digest: [u8; 32])
        ensures
            digest@ == self@.state_digest,
    {
        self.state_digest
    }

    /// Whether the evidence still describes a book.
    pub fn matches(&self, book: &BookSnapshotView) -> (answer: bool)
        ensures
            answer == vouches_for_book(self@, *book),
    {
        let digest = book_state_digest(book);
        self.session == book.session && self.last_source_sequence == book.last_source_sequence
            && same_digest(&self.state_digest, &digest)
    }
}

/// Evidence that an event gives of a book vouches for that book.
pub proof fn lemma_fresh_evidence_matches_its_book(
    book: BookSnapshotView,
    event: NormalizedEvent,
    applied: bool,
)
    requires
        book_evidence(book, event, applied) is Ok,
    ensures
        vouches_for_book(book_evidence(book, event, applied)->Ok_0, book),
        book_evidence(book, event, applied)->Ok_0.as_known_at.nanos >= book_evidence(
            book,
            event,
            applied,
        )->Ok_0.event_time.nanos,
{
}

/// A printable ASCII byte that is not a space at either end of the text.
pub open spec fn policy_byte(bytes: Seq<u8>, i: int) -> bool {
    32 <= bytes[i] <= 126 && (i == 0 || i == bytes.len() - 1 ==> bytes[i] != 32)
}

/// A policy identifier: bounded printable ASCII without surrounding space.
pub open spec fn valid_policy(bytes: Seq<u8>) -> bool {
    0 < bytes.len() <= MAX_POLICY_ID_BYTES && forall|i: int|
        0 <= i < bytes.len() ==> #[trigger] policy_byte(bytes, i)
}

/// Whether a text is a policy identifier.
pub fn valid_policy_id(value: &str) -> (answer: bool)
    ensures
        answer == valid_policy(utf8(value@)),
{
    let bytes = value.as_bytes();
    if bytes.len() == 0 || bytes.len() > MAX_POLICY_ID_BYTES {
        return false;
    }
    let mut i: usize = 0;
    while i < bytes.len()
        invariant
            i <= bytes@.len(),
            bytes@ == utf8(value@),
            0 < bytes@.len() <= MAX_POLICY_ID_BYTES,
            forall|k: int| 0 <= k < i ==> #[trigger] policy_byte(bytes@, k),
        decreases bytes.len() - i,
    {
        let byte: u8 = bytes[i];
        let at_end: bool = i == 0 || i == bytes.len() - 1;
        if byte < 32 || byte > 126 || (at_end && byte == 32) {
            proof {
                assert(!policy_byte(bytes@, i as int));
            }
            return false;
        }
        i += 1;
    }
    true
}

/// The contents of a [`BookEvidencePolicy`].
pub struct PolicyView {
    pub price_tick: Price,
    pub quality_policy_id: Seq<char>,
    pub quality_policy_version: u32,
    pub ordering_authority_id: Seq<char>,
    pub ordering_authority_version: u32,
    pub reference_price_policy_id: Seq<char>,
    pub reference_price_policy_version: u32,
}

/// The policies under which book evidence was taken.
#[derive(Debug)]
pub struct BookEvidencePolicy {
    price_tick: Price,
    quality_policy_id: String,
    quality_policy_version: u32,
    ordering_authority_id: String,
    ordering_authority_version: u32,
    reference_price_policy_id: String,
    reference_price_policy_version: u32,
}

impl View for BookEvidencePolicy {
    type V = PolicyView;

    closed spec fn view(&self) -> PolicyView {
        PolicyView {
            price_tick: self.price_tick,
            quality_policy_id: self.quality_policy_id@,
            quality_policy_version: self.quality_policy_version,
            ordering_authority_id: self.ordering_authority_id@,
            ordering_authority_version: self.ordering_authority_version,
            reference_price_policy_id: self.reference_price_policy_id@,
            reference_price_policy_version: self.reference_price_policy_version,
        }
    }
}

impl BookEvidencePolicy {
    pub fn new(
        price_tick: Price,
        quality_policy_id: String,
        quality_policy_version: u32,
        ordering_authority_id: String,
        ordering_authority_version: u32,
        reference_price_policy_id: String,
        reference_price_policy_version: u32,
    ) -> (result: Result<Self, FeatureComputationError>)
        ensures
            result is Ok <==> quality_policy_version != 0 && ordering_authority_version != 0
                && reference_price_policy_version != 0 && valid_policy(utf8(quality_policy_id@))
                && valid_policy(utf8(ordering_authority_id@)) && valid_policy(
                utf8(reference_price_policy_id@),
            ),
            result is Err ==> result->Err_0 == FeatureComputationError::InvalidParameter,
            result is Ok ==> result->Ok_0@ == (PolicyView {
                price_tick,
                quality_policy_id: quality_policy_id@,
                quality_policy_version,
                ordering_authority_id: ordering_authority_id@,
                ordering_authority_version,
                reference_price_policy_id: reference_price_policy_id@,
                reference_price_policy_version,
            }),
    {
        if quality_policy_version == 0 || ordering_authority_version == 0
            || reference_price_policy_version == 0 || !valid_policy_id(quality_policy_id.as_str())
            || !valid_policy_id(ordering_authority_id.as_str()) || !valid_policy_id(
            reference_price_policy_id.as_str(),
        ) {
            return Err(FeatureComputationError::InvalidParameter);
        }
        Ok(
            BookEvidencePolicy {
                price_tick,
                quality_policy_id,
                quality_policy_version,
                ordering_authority_id,
                ordering_authority_version,
                reference_price_policy_id,
                reference_price_policy_version,
            },
        )
    }

    pub(crate) fn same(&self, other: &Self) -> (answer: bool)
        ensures
            answer == (self@ == other@),
    {
        self.price_tick == other.price_tick && self.quality_policy_id == other.quality_policy_id
            && self.quality_policy_version == other.quality_policy_version
            && self.ordering_authority_id == other.ordering_authority_id
            && self.ordering_authority_version == other.ordering_authority_version
            && self.reference_price_policy_id == other.reference_price_policy_id
            && self.reference_price_policy_version == other.reference_price_policy_version
    }

    pub fn price_tick(&self) -> (tick: Price)
        ensures
            tick == self@.price_tick,
    {
        self.price_tick
    }

    pub fn quality_policy_id(&self) -> (id: &str)
        ensures
            id@ == self@.quality_policy_id,
    {
        self.quality_policy_id.as_str()
    }

    pub fn quality_policy_version(&self) -> (version: u32)
        ensures
            version == self@.quality_policy_version,
    {
        self.quality_policy_version
    }

    pub fn ordering_authority_id(&self) -> (id: &str)
        ensures
            id@ == self@.ordering_authority_id,
    {
        self.ordering_authority_id.as_str()
    }

    pub fn ordering_authority_version(&self) -> (version: u32)
        ensures
            version == self@.ordering_authority_version,
    {
        self.ordering_authority_version
    }

    pub fn reference_price_policy_id(&self) -> (id: &str)
        ensures
            id@ == self@.reference_price_policy_id,
    {
        self.reference_price_policy_id.as_str()
    }

    pub fn reference_price_policy_version(&self) -> (version: u32)
        ensures
            version == self@.reference_price_policy_version,
    {
        self.reference_price_policy_version
    }
}

/// The contents of a [`BookMetricObservation`].
pub struct MetricView {
    pub instrument: InstrumentView,
    pub session: BookSession,
    pub policy: PolicyView,
    pub last_source_sequence: u64,
    pub event_time: UnixNanos,
    pub as_known_at: UnixNanos,
    pub lineage: Seq<u8>,
    pub reference_price: Price,
    pub band_bps: u32,
    pub bid_quantity: FixedDecimal,
    pub ask_quantity: FixedDecimal,
    pub absolute_spread: FixedDecimal,
    pub authenticated: bool,
}

/// Depth and spread of a book at one source sequence.
#[derive(Debug)]
pub struct BookMetricObservation {
    instrument: InstrumentId,
    session: BookSession,
    evidence_policy: BookEvidencePolicy,
    last_source_sequence: u64,
    event_time: UnixNanos,
    as_known_at: UnixNanos,
    lineage: [u8; 32],
    reference_price: Price,
    band_bps: u32,
    bid_quantity: FixedDecimal,
    ask_quantity: FixedDecimal,
    absolute_spread: FixedDecimal,
    authenticated: bool,
}

impl View for BookMetricObservation {
    type V = MetricView;

    closed spec fn view(&self) -> MetricView {
        MetricView {
            instrument: self.instrument@,
            session: self.session,
            policy: self.evidence_policy@,
            last_source_sequence: self.last_source_sequence,
            event_time: self.event_time,
            as_known_at: self.as_known_at,
            lineage: self.lineage@,
            reference_price: self.reference_price,
            band_bps: self.band_bps,
            bid_quantity: self.bid_quantity,
            ask_quantity: self.ask_quantity,
            absolute_spread: self.absolute_spread,
            authenticated: self.authenticated,
        }
    }
}

/// The metrics of a book, or why it has none.
pub open spec fn book_metrics(
    book: BookSnapshotView,
    policy: PolicyView,
    reference: Price,
    band_bps: u32,
    event_time: UnixNanos,
    as_known_at: UnixNanos,
    lineage: Seq<u8>,
    authenticated: bool,
) -> Result<MetricView, FeatureComputationError> {
    if as_known_at.nanos < event_time.nanos || lineage == zero_digest() {
        Err(FeatureComputationError::InvalidInput)
    } else {
        match (depth_in_band(book, reference, band_bps), spread_terms(book)) {
            (Err(error), _) => Err(error),
            (Ok(_), Err(error)) => Err(error),
            (Ok(depth), Ok(terms)) => Ok(
                MetricView {
                    instrument: book.instrument@,
                    session: book.session,
                    policy,
                    last_source_sequence: book.last_source_sequence,
                    event_time,
                    as_known_at,
                    lineage,
                    reference_price: reference,
                    band_bps,
                    bid_quantity: depth.0,
                    ask_quantity: depth.2,
                    absolute_spread: terms.absolute,
                    authenticated,
                },
            ),
        }
    }
}

/// What a metric computation returned, by its contents.
pub open spec fn metric_outcome(
    result: Result<BookMetricObservation, FeatureComputationError>,
) -> Result<MetricView, FeatureComputationError> {
    match result {
        Ok(metrics) => Ok(metrics@),
        Err(error) => Err(error),
    }
}

impl BookMetricObservation {
    fn build(
        book: &BookSnapshotView,
        evidence_policy: BookEvidencePolicy,
        reference_price: Price,
        band_bps: u32,
        event_time: UnixNanos,
        as_known_at: UnixNanos,
        lineage: [u8; 32],
        authenticated: bool,
    ) -> (result: Result<Self, FeatureComputationError>)
        ensures
            metric_outcome(result) == book_metrics(
                *book,
                evidence_policy@,
                reference_price,
                band_bps,
                event_time,
                as_known_at,
                lineage@,
                authenticated,
            ),
    {
        if as_known_at.value() < event_time.value() || is_zero_digest(&lineage) {
            return Err(FeatureComputationError::InvalidInput);
        }
        let depth = depth_within_band(book, reference_price, band_bps)?;
        let terms = spread(book)?;
        Ok(
            BookMetricObservation {
                instrument: book.instrument.clone(),
                session: book.session,
                evidence_policy,
                last_source_sequence: book.last_source_sequence,
                event_time,
                as_known_at,
                lineage,
                reference_price,
                band_bps,
                bid_quantity: depth.bid_quantity.value(),
                ask_quantity: depth.ask_quantity.value(),
                absolute_spread: terms.absolute,
                authenticated,
            },
        )
    }

    pub fn from_snapshot(
        book: &BookSnapshotView,
        evidence_policy: BookEvidencePolicy,
        reference_price: Price,
        band_bps: u32,
        event_time: UnixNanos,
        as_known_at: UnixNanos,
        lineage: [u8; 32],
    ) -> (result: Result<Self, FeatureComputationError>)
        ensures
            metric_outcome(result) == book_metrics(
                *book,
                evidence_policy@,
                reference_price,
                band_bps,
                event_time,
                as_known_at,
                lineage@,
                false,
            ),
    {
        Self::build(
            book,
            evidence_policy,
            reference_price,
            band_bps,
            event_time,
            as_known_at,
            lineage,
            false,
        )
    }

    pub fn from_authenticated_snapshot(
        book: &BookSnapshotView,
        evidence_policy: BookEvidencePolicy,
        reference_price: Price,
        band_bps: u32,
        evidence: &BookStateEvidence,
    ) -> (result: Result<Self, FeatureComputationError>)
        ensures
            metric_outcome(result) == if vouches_for_book(evidence@, *book) {
                book_metrics(
                    *book,
                    evidence_policy@,
                    reference_price,
                    band_bps,
                    evidence@.event_time,
                    evidence@.as_known_at,
                    evidence@.lineage,
                    true,
                )
            } else {
                Err(FeatureComputationError::UntrustedInput)
            },
    {
        if !evidence.matches(book) {
            return Err(FeatureComputationError::UntrustedInput);
        }
        Self::build(
            book,
            evidence_policy,
            reference_price,
            band_bps,
            evidence.event_time,
            evidence.as_known_at,
            evidence.lineage,
            true,
        )
    }

    pub fn is_authenticated(&self) -> (answer: bool)
        ensures
            answer == self@.authenticated,
    {
        self.authenticated
    }
}

/// Why two metrics are not of one book at two points in time, if they are not.
pub open spec fn metric_pair_refusal(previous: MetricView, current: MetricView) -> Option<
    FeatureComputationError,
> {
    if previous.instrument != current.instrument {
        Some(FeatureComputationError::MixedEntity)
    } else if previous.session != current.session || previous.policy != current.policy
        || previous.reference_price != current.reference_price || previous.band_bps
        != current.band_bps {
        Some(FeatureComputationError::SourceHealthChanged)
    } else if current.last_source_sequence <= previous.last_source_sequence
        || current.event_time.nanos < previous.event_time.nanos || current.as_known_at.nanos
        < previous.as_known_at.nanos {
        Some(FeatureComputationError::NonMonotonicTime)
    } else if current.lineage == previous.lineage {
        Some(FeatureComputationError::DuplicateLineage)
    } else {
        None
    }
}

fn validate_metric_pair(previous: &BookMetricObservation, current: &BookMetricObservation) -> (result:
    Result<(), FeatureComputationError>)
    ensures
        match metric_pair_refusal(previous@, current@) {
            Some(error) => result == Err::<(), FeatureComputationError>(error),
            None => result == Ok::<(), FeatureComputationError>(()),
        },
{
    if !previous.instrument.same(&current.instrument) {
        return Err(FeatureComputationError::MixedEntity);
    }
    if previous.session != current.session || !previous.evidence_policy.same(
        &current.evidence_policy,
    ) || previous.reference_price != current.reference_price || previous.band_bps
        != current.band_bps {
        return Err(FeatureComputationError::SourceHealthChanged);
    }
    if current.last_source_sequence <= previous.last_source_sequence || current.event_time.value()
        < previous.event_time.value() || current.as_known_at.value()
        < previous.as_known_at.value() {
        return Err(FeatureComputationError::NonMonotonicTime);
    }
    if same_digest(&current.lineage, &previous.lineage) {
        return Err(FeatureComputationError::DuplicateLineage);
    }
    Ok(())
}

/// How depth and spread changed.
#[derive(Clone, Copy, Debug, PartialEq, Eq, Structural)]
pub struct DepthSpreadChange {
    pub bid_quantity: FixedDecimal,
    pub ask_quantity: FixedDecimal,
    pub absolute_spread: FixedDecimal,
}

impl DepthSpreadChange {
    pub fn bid_quantity(self) -> (change: FixedDecimal)
        ensures
            change == self.bid_quantity,
    {
        self.bid_quantity
    }

    pub fn ask_quantity(self) -> (change: FixedDecimal)
        ensures
            change == self.ask_quantity,
    {
        self.ask_quantity
    }

    pub fn absolute_spread(self) -> (change: FixedDecimal)
        ensures
            change == self.absolute_spread,
    {
        self.absolute_spread
    }
}

/// The change between two metrics of one book, or why there is none.
pub open spec fn metric_change(previous: MetricView, current: MetricView) -> Result<
    DepthSpreadChange,
    FeatureComputationError,
> {
    match metric_pair_refusal(previous, current) {
        Some(error) => Err(error),
        None => match (
            current.bid_quantity.minus(previous.bid_quantity),
            current.ask_quantity.minus(previous.ask_quantity),
            current.absolute_spread.minus(previous.absolute_spread),
        ) {
            (Some(bid_quantity), Some(ask_quantity), Some(absolute_spread)) => Ok(
                DepthSpreadChange { bid_quantity, ask_quantity, absolute_spread },
            ),
            _ => Err(FeatureComputationError::InvalidInput),
        },
    }
}

pub fn book_depth_and_spread_change(
    previous: &BookMetricObservation,
    current: &BookMetricObservation,
) -> (result: Result<DepthSpreadChange, FeatureComputationError>)
    ensures
        result == metric_change(previous@, current@),
{
    validate_metric_pair(previous, current)?;
    let bid_quantity = difference_exact(current.bid_quantity, previous.bid_quantity)?;
    let ask_quantity = difference_exact(current.ask_quantity, previous.ask_quantity)?;
    let absolute_spread = difference_exact(current.absolute_spread, previous.absolute_spread)?;
    Ok(DepthSpreadChange { bid_quantity, ask_quantity, absolute_spread })
}

/// The depth that a trade eats into.
pub open spec fn passive_depth_of(metrics: MetricView, side: AggressorSide) -> FixedDecimal {
    match side {
        AggressorSide::Buy => metrics.ask_quantity,
        AggressorSide::Sell => metrics.bid_quantity,
    }
}

fn passive_depth(observation: &BookMetricObservation, side: AggressorSide) -> (depth: FixedDecimal)
    ensures
        depth == passive_depth_of(observation@, side),
{
    match side {
        AggressorSide::Buy => observation.ask_quantity,
        AggressorSide::Sell => observation.bid_quantity,
    }
}

/// The nanoseconds from one time to a later one, or the error for one that is not later.
pub open spec fn elapsed(start: UnixNanos, end: UnixNanos) -> Result<u64, FeatureComputationError> {
    let nanos = end.nanos - start.nanos;
    if nanos < 0 || nanos > i64::MAX {
        Err(FeatureComputationError::NonMonotonicTime)
    } else {
        Ok(nanos as u64)
    }
}

pub(crate) fn elapsed_ns(start: UnixNanos, end: UnixNanos) -> (result: Result<
    u64,
    FeatureComputationError,
>)
    ensures
        result == elapsed(start, end),
{
    match end.value().checked_sub(start.value()) {
        None => Err(FeatureComputationError::NonMonotonicTime),
        Some(nanos) => if nanos < 0 {
            Err(FeatureComputationError::NonMonotonicTime)
        } else {
            Ok(nanos as u64)
        },
    }
}

/// The contents of a [`DisplayedDepthRecoveryEpisode`].
pub struct EpisodeView {
    pub pre: MetricView,
    pub post: MetricView,
    pub trade: FlowTradeView,
    pub evaluation_time: UnixNanos,
    pub post_depth: FixedDecimal,
    pub depth_loss: FixedDecimal,
}

/// A trade that took displayed depth, between two metrics of the book.
#[derive(Debug)]
pub struct DisplayedDepthRecoveryEpisode {
    pre: BookMetricObservation,
    post: BookMetricObservation,
    trade: FlowTradeObservation,
    evaluation_time: UnixNanos,
    passive_post_depth: FixedDecimal,
    passive_depth_loss: FixedDecimal,
}

impl View for DisplayedDepthRecoveryEpisode {
    type V = EpisodeView;

    closed spec fn view(&self) -> EpisodeView {
        EpisodeView {
            pre: self.pre@,
            post: self.post@,
            trade: self.trade@,
            evaluation_time: self.evaluation_time,
            post_depth: self.passive_post_depth,
            depth_loss: self.passive_depth_loss,
        }
    }
}

/// The episode of a trade between two metrics, or why there is none.
pub open spec fn recovery_episode(
    pre: MetricView,
    post: MetricView,
    trade: FlowTradeView,
    evaluation_time: UnixNanos,
    max_anchor_lag_ns: u64,
) -> Result<EpisodeView, FeatureComputationError> {
    if max_anchor_lag_ns == 0 {
        Err(FeatureComputationError::InvalidParameter)
    } else if metric_pair_refusal(pre, post) is Some {
        Err(metric_pair_refusal(pre, post)->Some_0)
    } else if trade.instrument != pre.instrument {
        Err(FeatureComputationError::MixedEntity)
    } else if pre.event_time.nanos > trade.event_time.nanos || trade.event_time.nanos
        > post.event_time.nanos {
        Err(FeatureComputationError::NonMonotonicTime)
    } else if pre.as_known_at.nanos > evaluation_time.nanos || post.as_known_at.nanos
        > evaluation_time.nanos || trade.as_known_at.nanos > evaluation_time.nanos {
        Err(FeatureComputationError::FutureKnowledge)
    } else if pre.lineage == trade.lineage || post.lineage == trade.lineage || pre.lineage
        == post.lineage {
        Err(FeatureComputationError::DuplicateLineage)
    } else {
        match (
            elapsed(pre.event_time, trade.event_time),
            elapsed(trade.event_time, post.event_time),
        ) {
            (Ok(before), Ok(after)) => if before > max_anchor_lag_ns || after
                > max_anchor_lag_ns {
                Err(FeatureComputationError::OutsideWindow)
            } else {
                match passive_depth_of(pre, trade.side).minus(passive_depth_of(post, trade.side)) {
                    None => Err(FeatureComputationError::InvalidInput),
                    Some(loss) => if loss.units() <= 0 {
                        Err(FeatureComputationError::ModelNotApplicable)
                    } else {
                        Ok(
                            EpisodeView {
                                pre,
                                post,
                                trade,
                                evaluation_time,
                                post_depth: passive_depth_of(post, trade.side),
                                depth_loss: loss,
                            },
                        )
                    },
                }
            },
            _ => Err(FeatureComputationError::NonMonotonicTime),
        }
    }
}

/// The contents of a list of metrics.
pub open spec fn metric_views(metrics: Seq<BookMetricObservation>) -> Seq<MetricView> {
    Seq::new(metrics.len(), |i: int| metrics[i]@)
}

/// Scans metrics behind an episode for the first at which the recovered depth, times the
/// denominator, reaches the target; stops at the recovery limit.
pub open spec fn recovery_scan(
    episode: EpisodeView,
    previous: MetricView,
    candidates: Seq<MetricView>,
    seen: Seq<Seq<u8>>,
    target: FixedDecimal,
    denominator: FixedDecimal,
    max_recovery_ns: u64,
) -> Result<u64, FeatureComputationError>
    decreases candidates.len(),
{
    if candidates.len() == 0 {
        Err(FeatureComputationError::InsufficientHistory)
    } else {
        let candidate = candidates[0];
        match (
            metric_pair_refusal(previous, candidate),
            elapsed(episode.post.event_time, candidate.event_time),
        ) {
            (Some(error), _) => Err(error),
            (None, passed) => if candidate.as_known_at.nanos > episode.evaluation_time.nanos {
                Err(FeatureComputationError::FutureKnowledge)
            } else if seen.contains(candidate.lineage) {
                Err(FeatureComputationError::DuplicateLineage)
            } else {
                match passed {
                    Err(error) => Err(error),
                    Ok(nanos) => if nanos > max_recovery_ns {
                        Err(FeatureComputationError::InsufficientHistory)
                    } else {
                        match passive_depth_of(candidate, episode.trade.side).minus(
                            episode.post_depth,
                        ) {
                            None => Err(FeatureComputationError::InvalidInput),
                            Some(recovered) => match recovered.times(denominator) {
                                None => Err(FeatureComputationError::InvalidInput),
                                Some(scaled) => if scaled.units() >= target.units() {
                                    Ok(nanos)
                                } else {
                                    recovery_scan(
                                        episode,
                                        candidate,
                                        candidates.drop_first(),
                                        seen.push(candidate.lineage),
                                        target,
                                        denominator,
                                        max_recovery_ns,
                                    )
                                },
                            },
                        }
                    },
                }
            },
        }
    }
}

/// The time until a fraction of the lost depth is back, or why there is none.
pub open spec fn recovery_time(
    episode: EpisodeView,
    candidates: Seq<MetricView>,
    capacity: usize,
    numerator: u32,
    denominator: u32,
    max_recovery_ns: u64,
) -> Result<u64, FeatureComputationError> {
    if capacity == 0 || capacity > MAX_RECOVERY_OBSERVATIONS || numerator == 0 || denominator == 0
        || numerator > denominator || max_recovery_ns == 0 {
        Err(FeatureComputationError::InvalidParameter)
    } else if candidates.len() == 0 {
        Err(FeatureComputationError::InsufficientHistory)
    } else if candidates.len() > capacity {
        Err(FeatureComputationError::CapacityExceeded)
    } else {
        match episode.depth_loss.times(decimal_of_units(numerator * unit())) {
            None => Err(FeatureComputationError::InvalidInput),
            Some(target) => recovery_scan(
                episode,
                episode.post,
                candidates,
                seq![episode.pre.lineage, episode.post.lineage, episode.trade.lineage],
                target,
                decimal_of_units(denominator * unit()),
                max_recovery_ns,
            ),
        }
    }
}

/// The recovered part of the lost depth at a later time as an exact ratio, or why there is none.
pub open spec fn recovered_fraction(episode: EpisodeView, later: MetricView) -> Result<
    ExactRatio,
    FeatureComputationError,
> {
    match metric_pair_refusal(episode.post, later) {
        Some(error) => Err(error),
        None => if later.as_known_at.nanos > episode.evaluation_time.nanos {
            Err(FeatureComputationError::FutureKnowledge)
        } else if later.lineage == episode.pre.lineage || later.lineage == episode.post.lineage
            || later.lineage == episode.trade.lineage {
            Err(FeatureComputationError::DuplicateLineage)
        } else {
            match passive_depth_of(later, episode.trade.side).minus(episode.post_depth) {
                None => Err(FeatureComputationError::InvalidInput),
                Some(recovered) => Ok(
                    ExactRatio { numerator: recovered, denominator: episode.depth_loss },
                ),
            }
        },
    }
}

impl DisplayedDepthRecoveryEpisode {
    pub fn new(
        pre: BookMetricObservation,
        post: BookMetricObservation,
        trade: FlowTradeObservation,
        evaluation_time: UnixNanos,
        max_anchor_lag_ns: u64,
    ) -> (result: Result<Self, FeatureComputationError>)
        ensures
            match recovery_episode(pre@, post@, trade@, evaluation_time, max_anchor_lag_ns) {
                Err(error) => result is Err && result->Err_0 == error,
                Ok(episode) => result is Ok && result->Ok_0@ == episode,
            },
    {
        if max_anchor_lag_ns == 0 {
            return Err(FeatureComputationError::InvalidParameter);
        }
        validate_metric_pair(&pre, &post)?;
        if !trade.instrument().same(&pre.instrument) {
            return Err(FeatureComputationError::MixedEntity);
        }
        let trade_time = trade.event_time();
        if pre.event_time.value() > trade_time.value() || trade_time.value()
            > post.event_time.value() {
            return Err(FeatureComputationError::NonMonotonicTime);
        }
        if pre.as_known_at.value() > evaluation_time.value() || post.as_known_at.value()
            > evaluation_time.value() || trade.as_known_at().value() > evaluation_time.value() {
            return Err(FeatureComputationError::FutureKnowledge);
        }
        let trade_lineage = trade.lineage();
        if same_digest(&pre.lineage, &trade_lineage) || same_digest(&post.lineage, &trade_lineage)
            || same_digest(&pre.lineage, &post.lineage) {
            return Err(FeatureComputationError::DuplicateLineage);
        }
        let before: u64 = elapsed_ns(pre.event_time, trade_time)?;
        let after: u64 = elapsed_ns(trade_time, post.event_time)?;
        if before > max_anchor_lag_ns || after > max_anchor_lag_ns {
            return Err(FeatureComputationError::OutsideWindow);
        }
        let passive_post_depth = passive_depth(&post, trade.side());
        let passive_depth_loss = difference_exact(
            passive_depth(&pre, trade.side()),
            passive_post_depth,
        )?;
        if !passive_depth_loss.is_positive() {
            return Err(FeatureComputationError::ModelNotApplicable);
        }
        Ok(
            DisplayedDepthRecoveryEpisode {
                pre,
                post,
                trade,
                evaluation_time,
                passive_post_depth,
                passive_depth_loss,
            },
        )
    }

    /// The recovered part of the lost depth at a later time, as an exact ratio.
    pub fn recovery_fraction(&self, later: &BookMetricObservation) -> (result: Result<
        ExactRatio,
        FeatureComputationError,
    >)
        ensures
            result == recovered_fraction(self@, later@),
    {
        validate_metric_pair(&self.post, later)?;
        if later.as_known_at.value() > self.evaluation_time.value() {
            return Err(FeatureComputationError::FutureKnowledge);
        }
        let trade_lineage = self.trade.lineage();
        if same_digest(&later.lineage, &self.pre.lineage) || same_digest(
            &later.lineage,
            &self.post.lineage,
        ) || same_digest(&later.lineage, &trade_lineage) {
            return Err(FeatureComputationError::DuplicateLineage);
        }
        let recovered = difference_exact(
            passive_depth(later, self.trade.side()),
            self.passive_post_depth,
        )?;
        Ok(ExactRatio { numerator: recovered, denominator: self.passive_depth_loss })
    }

    /// The time until a fraction of the lost depth is displayed again.
    pub fn time_to_fraction_ns(
        &self,
        candidates: &Vec<BookMetricObservation>,
        capacity: usize,
        numerator: u32,
        denominator: u32,
        max_recovery_ns: u64,
    ) -> (result: Result<u64, FeatureComputationError>)
        ensures
            result == recovery_time(
                self@,
                metric_views(candidates@),
                capacity,
                numerator,
                denominator,
                max_recovery_ns,
            ),
    {
        if capacity == 0 || capacity > MAX_RECOVERY_OBSERVATIONS || numerator == 0 || denominator
            == 0 || numerator > denominator || max_recovery_ns == 0 {
            return Err(FeatureComputationError::InvalidParameter);
        }
        if candidates.len() == 0 {
            return Err(FeatureComputationError::InsufficientHistory);
        }
        if candidates.len() > capacity {
            return Err(FeatureComputationError::CapacityExceeded);
        }
        let whole_numerator = FixedDecimal::whole(numerator as i64);
        let whole_denominator = FixedDecimal::whole(denominator as i64);
        let target = product_exact(self.passive_depth_loss, whole_numerator)?;
        let ghost views = metric_views(candidates@);
        let mut seen: Vec<[u8; 32]> = Vec::new();
        seen.push(self.pre.lineage);
        seen.push(self.post.lineage);
        seen.push(self.trade.lineage());
        let mut i: usize = 0;
        proof {
            assert(views.skip(0) =~= views);
            assert(crate::ordering::digest_views(seen@) =~= seq![
                self@.pre.lineage,
                self@.post.lineage,
                self@.trade.lineage,
            ]);
        }
        while i < candidates.len()
            invariant
                i <= candidates@.len(),
                views == metric_views(candidates@),
                whole_denominator == decimal_of_units(denominator * unit()),
                recovery_time(
                    self@,
                    views,
                    capacity,
                    numerator,
                    denominator,
                    max_recovery_ns,
                ) == recovery_scan(
                    self@,
                    if i == 0 {
                        self@.post
                    } else {
                        views[i - 1]
                    },
                    views.skip(i as int),
                    crate::ordering::digest_views(seen@),
                    target,
                    whole_denominator,
                    max_recovery_ns,
                ),
            decreases candidates.len() - i,
        {
            let candidate = &candidates[i];
            proof {
                assert(views[i as int] == candidate@);
                assert(views.skip(i as int)[0] == candidate@);
                assert(views.skip(i as int).drop_first() =~= views.skip(i + 1));
                if i > 0 {
                    assert(views[i - 1] == candidates@[i - 1]@);
                }
            }
            if i == 0 {
                validate_metric_pair(&self.post, candidate)?;
            } else {
                validate_metric_pair(&candidates[i - 1], candidate)?;
            }
            if candidate.as_known_at.value() > self.evaluation_time.value() {
                return Err(FeatureComputationError::FutureKnowledge);
            }
            if holds_digest(&seen, &candidate.lineage) {
                return Err(FeatureComputationError::DuplicateLineage);
            }
            let nanos: u64 = elapsed_ns(self.post.event_time, candidate.event_time)?;
            if nanos > max_recovery_ns {
                return Err(FeatureComputationError::InsufficientHistory);
            }
            let recovered = difference_exact(
                passive_depth(candidate, self.trade.side()),
                self.passive_post_depth,
            )?;
            let scaled = product_exact(recovered, whole_denominator)?;
            if !scaled.less_than(&target) {
                return Ok(nanos);
            }
            let ghost before = seen@;
            seen.push(candidate.lineage);
            proof {
                assert(crate::ordering::digest_views(seen@) =~= crate::ordering::digest_views(
                    before,
                ).push(candidate@.lineage));
            }
            i += 1;
        }
        Err(FeatureComputationError::InsufficientHistory)
    }
}

/// What holds of the amounts of every metric.
pub open spec fn metric_is_valid(metric: MetricView) -> bool {
    &&& metric.bid_quantity.in_scale()
    &&& metric.ask_quantity.in_scale()
    &&& metric.absolute_spread.in_scale()
}

/// Metrics show the depth of each side within the band, the bids as bids and the asks as asks, and
/// what the best ask stands above the best bid.
pub proof fn lemma_metrics_show_depth_and_spread(
    book: BookSnapshotView,
    policy: PolicyView,
    reference: Price,
    band_bps: u32,
    event_time: UnixNanos,
    as_known_at: UnixNanos,
    lineage: Seq<u8>,
    authenticated: bool,
)
    requires
        reference.is_valid(),
        book_is_valid(book),
        leads_outward(book.bids@, true),
        leads_outward(book.asks@, false),
        book_metrics(
            book,
            policy,
            reference,
            band_bps,
            event_time,
            as_known_at,
            lineage,
            authenticated,
        ) is Ok,
    ensures
        ({
            let metric = book_metrics(
                book,
                policy,
                reference,
                band_bps,
                event_time,
                as_known_at,
                lineage,
                authenticated,
            )->Ok_0;
            &&& metric.bid_quantity.units() == sum_of(
                quantities_in_band(book.bids@, reference, band_bps),
            )
            &&& metric.ask_quantity.units() == sum_of(
                quantities_in_band(book.asks@, reference, band_bps),
            )
            &&& book.bids@[0].price.units() + metric.absolute_spread.units()
                == book.asks@[0].price.units()
            &&& metric.event_time.nanos <= metric.as_known_at.nanos
            &&& (metric.event_time, metric.as_known_at) == (event_time, as_known_at)
            &&& metric.instrument == book.instrument@ && metric.session == book.session
            &&& metric.last_source_sequence == book.last_source_sequence
            &&& metric.reference_price == reference && metric.band_bps == band_bps
            &&& metric.lineage == lineage && metric.authenticated == authenticated
        }),
{
    lemma_depth_is_what_lies_in_the_band(book, reference, band_bps);
    lemma_spreads_lie_between_bid_and_ask(book);
}

/// A change brings each metric of the previous book to that of the current one, and is only taken
/// from one state of a book to a later one.
pub proof fn lemma_metric_changes_lead_to_the_current_book(previous: MetricView, current: MetricView)
    requires
        metric_is_valid(previous),
        metric_is_valid(current),
        metric_change(previous, current) is Ok,
    ensures
        ({
            let change = metric_change(previous, current)->Ok_0;
            &&& previous.bid_quantity.units() + change.bid_quantity.units()
                == current.bid_quantity.units()
            &&& previous.ask_quantity.units() + change.ask_quantity.units()
                == current.ask_quantity.units()
            &&& previous.absolute_spread.units() + change.absolute_spread.units()
                == current.absolute_spread.units()
            &&& previous.last_source_sequence < current.last_source_sequence
            &&& previous.event_time.nanos <= current.event_time.nanos
            &&& previous.as_known_at.nanos <= current.as_known_at.nanos
            &&& previous.instrument == current.instrument && previous.session == current.session
            &&& previous.band_bps == current.band_bps
            &&& previous.reference_price == current.reference_price
            &&& previous.lineage != current.lineage
        }),
{
    lemma_exact_arithmetic(current.bid_quantity, previous.bid_quantity);
    lemma_exact_arithmetic(current.ask_quantity, previous.ask_quantity);
    lemma_exact_arithmetic(current.absolute_spread, previous.absolute_spread);
}

/// What a trade can take is displayed on the other side: a buyer takes asks, and a seller bids.
pub open spec fn taken_from(metric: MetricView, side: AggressorSide) -> int {
    if side == AggressorSide::Buy {
        metric.ask_quantity.units()
    } else {
        metric.bid_quantity.units()
    }
}

/// An episode is a loss of the depth that its trade took from: there was more of it before the trade
/// than after. The trade lies between both metrics, each within the allowed lag of it, and all of it
/// was known in time.
pub proof fn lemma_episodes_lose_the_depth_that_was_taken(
    pre: MetricView,
    post: MetricView,
    trade: FlowTradeView,
    evaluation_time: UnixNanos,
    max_anchor_lag_ns: u64,
)
    requires
        metric_is_valid(pre),
        metric_is_valid(post),
        recovery_episode(pre, post, trade, evaluation_time, max_anchor_lag_ns) is Ok,
    ensures
        ({
            let episode = recovery_episode(
                pre,
                post,
                trade,
                evaluation_time,
                max_anchor_lag_ns,
            )->Ok_0;
            &&& episode.depth_loss.units() > 0
            &&& episode.depth_loss.in_scale()
            &&& taken_from(post, trade.side) + episode.depth_loss.units() == taken_from(
                pre,
                trade.side,
            )
            &&& episode.post_depth.units() == taken_from(post, trade.side)
            &&& episode.post_depth.in_scale()
            &&& (episode.pre, episode.post, episode.trade) == (pre, post, trade)
            &&& episode.evaluation_time == evaluation_time
            &&& pre.event_time.nanos <= trade.event_time.nanos <= post.event_time.nanos
            &&& trade.event_time.nanos - pre.event_time.nanos <= max_anchor_lag_ns
            &&& post.event_time.nanos - trade.event_time.nanos <= max_anchor_lag_ns
            &&& pre.as_known_at.nanos <= evaluation_time.nanos
            &&& post.as_known_at.nanos <= evaluation_time.nanos
            &&& trade.as_known_at.nanos <= evaluation_time.nanos
            &&& trade.instrument == pre.instrument
            &&& max_anchor_lag_ns > 0
        }),
{
    lemma_exact_arithmetic(passive_depth_of(pre, trade.side), passive_depth_of(post, trade.side));
}

/// The recovered part is what was displayed again, of the same side, over what was lost: nothing
/// where the depth is as it was after the trade, and all of it where it is as it was before.
pub proof fn lemma_recovery_is_of_what_was_lost(episode: EpisodeView, later: MetricView)
    requires
        metric_is_valid(later),
        episode.post_depth.in_scale(),
        recovered_fraction(episode, later) is Ok,
    ensures
        ({
            let fraction = recovered_fraction(episode, later)->Ok_0;
            &&& episode.post_depth.units() + fraction.numerator.units() == taken_from(
                later,
                episode.trade.side,
            )
            &&& fraction.denominator == episode.depth_loss
            &&& later.as_known_at.nanos <= episode.evaluation_time.nanos
            &&& episode.post.last_source_sequence < later.last_source_sequence
        }),
{
    lemma_exact_arithmetic(passive_depth_of(later, episode.trade.side), episode.post_depth);
}

/// At a metric, the fraction of the lost depth is back.
pub open spec fn has_recovered(
    episode: EpisodeView,
    metric: MetricView,
    numerator: u32,
    denominator: u32,
) -> bool {
    (taken_from(metric, episode.trade.side) - episode.post_depth.units()) * denominator
        >= episode.depth_loss.units() * numerator
}

proof fn lemma_scan_finds_the_first(
    episode: EpisodeView,
    previous: MetricView,
    candidates: Seq<MetricView>,
    seen: Seq<Seq<u8>>,
    target: FixedDecimal,
    numerator: u32,
    denominator: u32,
    max_recovery_ns: u64,
)
    requires
        episode.post_depth.in_scale(),
        forall|i: int| 0 <= i < candidates.len() ==> metric_is_valid(#[trigger] candidates[i]),
        target.units() == episode.depth_loss.units() * numerator,
        recovery_scan(
            episode,
            previous,
            candidates,
            seen,
            target,
            decimal_of_units(denominator * unit()),
            max_recovery_ns,
        ) is Ok,
    ensures
        ({
            let nanos = recovery_scan(
                episode,
                previous,
                candidates,
                seen,
                target,
                decimal_of_units(denominator * unit()),
                max_recovery_ns,
            )->Ok_0;
            &&& nanos <= max_recovery_ns
            &&& exists|k: int|
                #![trigger candidates[k]]
                {
                    &&& 0 <= k < candidates.len()
                    &&& episode.post.event_time.nanos + nanos == candidates[k].event_time.nanos
                    &&& candidates[k].as_known_at.nanos <= episode.evaluation_time.nanos
                    &&& has_recovered(episode, candidates[k], numerator, denominator)
                    &&& forall|i: int|
                        0 <= i < k ==> !has_recovered(
                            episode,
                            #[trigger] candidates[i],
                            numerator,
                            denominator,
                        )
                }
        }),
    decreases candidates.len(),
{
    let candidate = candidates[0];
    let rest = candidates.drop_first();
    let depth = passive_depth_of(candidate, episode.trade.side);
    lemma_exact_arithmetic(depth, episode.post_depth);
    let recovered = depth.minus(episode.post_depth)->Some_0;
    lemma_times_whole(recovered, denominator as int);
    let scaled = recovered.times(decimal_of_units(denominator * unit()))->Some_0;
    assert(scaled.units() >= target.units() <==> has_recovered(
        episode,
        candidate,
        numerator,
        denominator,
    ));
    if scaled.units() < target.units() {
        assert forall|i: int| 0 <= i < rest.len() implies metric_is_valid(#[trigger] rest[i]) by {
            assert(rest[i] == candidates[i + 1]);
        }
        lemma_scan_finds_the_first(
            episode,
            candidate,
            rest,
            seen.push(candidate.lineage),
            target,
            numerator,
            denominator,
            max_recovery_ns,
        );
        let nanos = recovery_scan(
            episode,
            candidate,
            rest,
            seen.push(candidate.lineage),
            target,
            decimal_of_units(denominator * unit()),
            max_recovery_ns,
        )->Ok_0;
        let k = choose|k: int|
            #![trigger rest[k]]
            {
                &&& 0 <= k < rest.len()
                &&& episode.post.event_time.nanos + nanos == rest[k].event_time.nanos
                &&& rest[k].as_known_at.nanos <= episode.evaluation_time.nanos
                &&& has_recovered(episode, rest[k], numerator, denominator)
                &&& forall|i: int|
                    0 <= i < k ==> !has_recovered(
                        episode,
                        #[trigger] rest[i],
                        numerator,
                        denominator,
                    )
            };
        assert(candidates[k + 1] == rest[k]);
        assert forall|i: int| 0 <= i < k + 1 implies !has_recovered(
            episode,
            #[trigger] candidates[i],
            numerator,
            denominator,
        ) by {
            if i > 0 {
                assert(rest[i - 1] == candidates[i]);
            }
        }
    } else {
        assert(candidates[0] == candidate);
    }
}

/// The time to recovery leads from the metric behind the trade to the first one at which the
/// fraction of the lost depth is back: there it is, and at none before.
pub proof fn lemma_recovery_is_timed_to_the_first_metric(
    episode: EpisodeView,
    candidates: Seq<MetricView>,
    capacity: usize,
    numerator: u32,
    denominator: u32,
    max_recovery_ns: u64,
)
    requires
        episode.post_depth.in_scale(),
        episode.depth_loss.in_scale(),
        forall|i: int| 0 <= i < candidates.len() ==> metric_is_valid(#[trigger] candidates[i]),
        recovery_time(
            episode,
            candidates,
            capacity,
            numerator,
            denominator,
            max_recovery_ns,
        ) is Ok,
    ensures
        0 < numerator <= denominator,
        0 < candidates.len() <= capacity <= 4_096,
        ({
            let nanos = recovery_time(
                episode,
                candidates,
                capacity,
                numerator,
                denominator,
                max_recovery_ns,
            )->Ok_0;
            &&& nanos <= max_recovery_ns
            &&& exists|k: int|
                #![trigger candidates[k]]
                {
                    &&& 0 <= k < candidates.len()
                    &&& episode.post.event_time.nanos + nanos == candidates[k].event_time.nanos
                    &&& candidates[k].as_known_at.nanos <= episode.evaluation_time.nanos
                    &&& has_recovered(episode, candidates[k], numerator, denominator)
                    &&& forall|i: int|
                        0 <= i < k ==> !has_recovered(
                            episode,
                            #[trigger] candidates[i],
                            numerator,
                            denominator,
                        )
                }
        }),
{
    lemma_times_whole(episode.depth_loss, numerator as int);
    let target = episode.depth_loss.times(decimal_of_units(numerator * unit()))->Some_0;
    lemma_scan_finds_the_first(
        episode,
        episode.post,
        candidates,
        seq![episode.pre.lineage, episode.post.lineage, episode.trade.lineage],
        target,
        numerator,
        denominator,
        max_recovery_ns,
    );
}

/// Evidence of a book is a verified event of the book's own venue, of the same session and up to the
/// same sequence. A snapshot has the book's own levels, and only a delta that was applied vouches
/// for anything. It is worth no more than the worse of the event and the book.
pub proof fn lemma_evidence_is_of_the_same_book(
    book: BookSnapshotView,
    event: NormalizedEvent,
    applied: bool,
)
    requires
        book_evidence(book, event, applied) is Ok,
    ensures
        ({
            let evidence = book_evidence(book, event, applied)->Ok_0;
            &&& event.verified
            &&& event.metadata.concerns(book.instrument)
            &&& event.metadata.source.kind == SourceKind::Exchange
            &&& event.metadata.source.name@ == book.instrument.venue@
            &&& match event.payload {
                EventPayload::BookSnapshot { bids, asks, last_sequence } => bids@ == book.bids@
                    && asks@ == book.asks@ && last_sequence == book.last_source_sequence,
                EventPayload::BookDelta { last_sequence } => applied && last_sequence
                    == book.last_source_sequence,
                _ => false,
            }
            &&& event.metadata.connection_epoch == book.session.connection_epoch
            &&& event.metadata.subscription_epoch == book.session.subscription_epoch
            &&& event.metadata.sequence_number == Some(book.last_source_sequence)
            &&& evidence.quality_score_ppm <= event.metadata.quality_score_ppm
            &&& evidence.quality_score_ppm <= book.quality.quality_score_ppm
            &&& evidence.quality_score_ppm == event.metadata.quality_score_ppm
                || evidence.quality_score_ppm == book.quality.quality_score_ppm
            &&& evidence.lineage == event.id@ && evidence.source == event.metadata.source@
            &&& Some(evidence.event_time) == event.metadata.event_time_of()
            &&& evidence.as_known_at == event.metadata.normalization_timestamp
        }),
{
}

/// A definition adds to book evidence: it is known no earlier than either, worth no more than
/// either, and of the same source, and it lists the book's instrument at the time of the book.
pub proof fn lemma_definitions_bound_their_evidence(
    evidence: BookEvidenceView,
    definition: DefinitionEvidenceView,
    book: BookSnapshotView,
)
    requires
        defined_book_evidence(evidence, definition, book) is Ok,
    ensures
        ({
            let defined = defined_book_evidence(evidence, definition, book)->Ok_0;
            &&& defined.as_known_at.nanos >= evidence.as_known_at.nanos
            &&& defined.as_known_at.nanos >= definition.as_known_at.nanos
            &&& defined.as_known_at == evidence.as_known_at || defined.as_known_at
                == definition.as_known_at
            &&& defined.quality_score_ppm <= evidence.quality_score_ppm
            &&& defined.quality_score_ppm <= definition.quality_score_ppm
            &&& defined.quality_score_ppm == evidence.quality_score_ppm
                || defined.quality_score_ppm == definition.quality_score_ppm
            &&& defined.definition_lineage == Some(definition.lineage)
            &&& definition.lineage != evidence.lineage
            &&& definition.source == evidence.source && defined.source == evidence.source
            &&& definition.definition.id@ == book.instrument@
            &&& definition.definition.listed_at(evidence.event_time)
            &&& defined.lineage == evidence.lineage && defined.event_time == evidence.event_time
            &&& defined.state_digest == evidence.state_digest
        }),
{
}

/// Time that has passed is what the end exceeds the start by; time that runs backwards, or does
/// not fit a signed count, has none.
pub proof fn lemma_elapsed_time_leads_to_the_end(start: UnixNanos, end: UnixNanos)
    ensures
        elapsed(start, end) is Ok <==> start.nanos <= end.nanos && end.nanos - start.nanos
            <= i64::MAX,
        elapsed(start, end) is Ok ==> start.nanos + elapsed(start, end)->Ok_0 == end.nanos,
{
}

/// A definition is taken only from a verified event of the instrument's own venue, about that
/// instrument, that was known no earlier than it happened; it is known when the event was and as
/// good as the event.
pub proof fn lemma_definitions_come_from_their_venue(event: NormalizedEvent)
    requires
        definition_of_event(event) is Ok,
    ensures
        ({
            let evidence = definition_of_event(event)->Ok_0;
            &&& event.verified
            &&& event.payload == EventPayload::InstrumentDefinition(evidence.definition)
            &&& event.metadata.concerns(evidence.definition.id)
            &&& event.metadata.source.kind == SourceKind::Exchange
            &&& event.metadata.source.name@ == evidence.definition.id.venue@
            &&& event.metadata.event_time_of() is Some
            &&& event.metadata.event_time_of()->Some_0.nanos <= evidence.as_known_at.nanos
            &&& evidence.as_known_at == event.metadata.normalization_timestamp
            &&& evidence.source == event.metadata.source@
            &&& evidence.lineage == event.id@
            &&& evidence.quality_score_ppm == event.metadata.quality_score_ppm
        }),
{
}

/// A buyer takes from the asks and a seller from the bids.
pub proof fn lemma_aggressors_take_the_other_side(metrics: MetricView)
    ensures
        passive_depth_of(metrics, AggressorSide::Buy) == metrics.ask_quantity,
        passive_depth_of(metrics, AggressorSide::Sell) == metrics.bid_quantity,
{
}

/// Two metrics are compared only where they are of one instrument, session, policy, reference
/// and band, and the later one has a higher sequence, is no earlier in time or knowledge, and is
/// of another book.
pub proof fn lemma_metrics_are_compared_in_order(previous: MetricView, current: MetricView)
    ensures
        metric_pair_refusal(previous, current) is None <==> {
            &&& previous.instrument == current.instrument
            &&& previous.session == current.session
            &&& previous.policy == current.policy
            &&& previous.reference_price == current.reference_price
            &&& previous.band_bps == current.band_bps
            &&& previous.last_source_sequence < current.last_source_sequence
            &&& previous.event_time.nanos <= current.event_time.nanos
            &&& previous.as_known_at.nanos <= current.as_known_at.nanos
            &&& previous.lineage != current.lineage
        },
{
}

} // verus!
