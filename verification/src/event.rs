//! Normalized market events, as plain values, and the instruments that they speak of.

use vstd::prelude::*;

use crate::decimal::{FixedDecimal, Price, Quantity};
use crate::domain::{AssetId, InstrumentId, SourceId, SourceKind, UnixNanos};

verus! {

/// What is known of a listed instrument.
#[derive(Debug)]
pub struct InstrumentDefinition {
    pub id: InstrumentId,
    pub base_asset: AssetId,
    pub price_tick: Price,
    pub quantity_step: Quantity,
    pub listing_time: UnixNanos,
    pub delisting_time: Option<UnixNanos>,
}

impl Clone for InstrumentDefinition {
    fn clone(&self) -> (copy: Self)
        ensures
            copy == *self,
    {
        InstrumentDefinition {
            id: self.id.clone(),
            base_asset: self.base_asset.clone(),
            price_tick: self.price_tick,
            quantity_step: self.quantity_step,
            listing_time: self.listing_time,
            delisting_time: self.delisting_time,
        }
    }
}

/// Two definitions say the same of the same instrument.
pub open spec fn same_instrument_definition(
    a: InstrumentDefinition,
    b: InstrumentDefinition,
) -> bool {
    &&& a.id@ == b.id@
    &&& a.base_asset@ == b.base_asset@
    &&& a.price_tick == b.price_tick
    &&& a.quantity_step == b.quantity_step
    &&& a.listing_time == b.listing_time
    &&& a.delisting_time == b.delisting_time
}

impl InstrumentDefinition {
    pub fn same(&self, other: &Self) -> (answer: bool)
        ensures
            answer == same_instrument_definition(*self, *other),
    {
        self.id.same(&other.id) && self.base_asset.same(&other.base_asset) && self.price_tick
            == other.price_tick && self.quantity_step == other.quantity_step && self.listing_time
            == other.listing_time && same_time(self.delisting_time, other.delisting_time)
    }

    /// The instrument is listed at `time`.
    pub open spec fn listed_at(self, time: UnixNanos) -> bool {
        self.listing_time.nanos <= time.nanos && (self.delisting_time is Some ==> time.nanos
            < self.delisting_time->Some_0.nanos)
    }

    pub fn is_listed_at(&self, time: UnixNanos) -> (answer: bool)
        ensures
            answer == self.listed_at(time),
    {
        self.listing_time.value() <= time.value() && match self.delisting_time {
            Some(delisting) => time.value() < delisting.value(),
            None => true,
        }
    }
}

pub(crate) fn same_time(left: Option<UnixNanos>, right: Option<UnixNanos>) -> (answer: bool)
    ensures
        answer == (left == right),
{
    match (left, right) {
        (Some(left), Some(right)) => left == right,
        (None, None) => true,
        _ => false,
    }
}

/// One level of one side of a book.
#[derive(Clone, Copy, Debug, PartialEq, Eq, Structural)]
pub struct BookLevel {
    pub price: Price,
    pub quantity: Quantity,
    pub order_count: Option<u32>,
}

/// The side that initiated a trade, as the venue reports it.
#[derive(Clone, Copy, Debug, PartialEq, Eq, Structural)]
pub enum TradeSide {
    Buy,
    Sell,
    Unknown,
}

#[derive(Debug)]
pub enum EventPayload {
    Trade { price: Price, quantity: Quantity, side: TradeSide },
    BookSnapshot { bids: Vec<BookLevel>, asks: Vec<BookLevel>, last_sequence: u64 },
    BookDelta { last_sequence: u64 },
    InstrumentDefinition(InstrumentDefinition),
    MarkIndexObservation { mark_price: Price, index_price: Price, observed_at: UnixNanos },
    FundingObservation {
        funding_rate: FixedDecimal,
        observed_at: UnixNanos,
        next_funding_time: Option<UnixNanos>,
    },
    OpenInterestObservation {
        quantity: Quantity,
        quote_notional: Option<FixedDecimal>,
        observed_at: UnixNanos,
    },
    /// The quote notional is what the instrument's own definition makes of price and quantity,
    /// where it makes anything of them.
    LiquidationObservation {
        price: Price,
        quantity: Quantity,
        quote_notional: Option<FixedDecimal>,
        observed_at: UnixNanos,
    },
}

/// The quality flag of an event that reports only a part. This stands for the flag of the same
/// name of the event schema; it is written down here, not read from there.
pub const QUALITY_PARTIAL: u32 = 1;

/// Where an event comes from and when it was known.
#[derive(Debug)]
pub struct EventMetadata {
    pub source: SourceId,
    pub instrument_id: Option<InstrumentId>,
    pub exchange_timestamp: Option<UnixNanos>,
    pub exchange_transaction_timestamp: Option<UnixNanos>,
    pub normalization_timestamp: UnixNanos,
    pub receive_monotonic_ns: u64,
    pub connection_epoch: u64,
    pub subscription_epoch: u64,
    pub sequence_number: Option<u64>,
    /// Flags on the event's quality, of which [`QUALITY_PARTIAL`] is one.
    pub quality_flags: u32,
    pub quality_score_ppm: u32,
}

/// A normalized event. `verified` says that its identity and payload were authenticated.
#[derive(Debug)]
pub struct NormalizedEvent {
    pub id: [u8; 32],
    pub verified: bool,
    pub metadata: EventMetadata,
    pub payload: EventPayload,
}

impl EventMetadata {
    /// The transaction time, or else the exchange's own time.
    pub open spec fn event_time_of(self) -> Option<UnixNanos> {
        match self.exchange_transaction_timestamp {
            Some(time) => Some(time),
            None => self.exchange_timestamp,
        }
    }

    pub fn event_time(&self) -> (time: Option<UnixNanos>)
        ensures
            time == self.event_time_of(),
    {
        match self.exchange_transaction_timestamp {
            Some(time) => Some(time),
            None => self.exchange_timestamp,
        }
    }

    /// The event speaks of this instrument.
    pub open spec fn concerns(self, instrument: InstrumentId) -> bool {
        self.instrument_id is Some && self.instrument_id->Some_0@ == instrument@
    }

    pub fn is_about(&self, instrument: &InstrumentId) -> (answer: bool)
        ensures
            answer == self.concerns(*instrument),
    {
        match &self.instrument_id {
            Some(own) => own.same(instrument),
            None => false,
        }
    }

    /// The event was published by the venue that lists the instrument.
    pub open spec fn published_by_venue_of(self, instrument: InstrumentId) -> bool {
        self.source.kind == SourceKind::Exchange && self.source.name@ == instrument.venue@
    }

    pub fn is_published_by_venue_of(&self, instrument: &InstrumentId) -> (answer: bool)
        ensures
            answer == self.published_by_venue_of(*instrument),
    {
        self.source.kind == SourceKind::Exchange && self.source.name == instrument.venue.name
    }
}

/// An event is timed by its transaction where that is known, and by the exchange otherwise; an
/// event of neither time has none.
pub proof fn lemma_events_are_timed_by_their_transaction(metadata: EventMetadata)
    ensures
        metadata.exchange_transaction_timestamp is Some ==> metadata.event_time_of()
            == metadata.exchange_transaction_timestamp,
        metadata.exchange_transaction_timestamp is None ==> metadata.event_time_of()
            == metadata.exchange_timestamp,
        metadata.event_time_of() is None <==> metadata.exchange_transaction_timestamp is None
            && metadata.exchange_timestamp is None,
{
}

/// An instrument is listed from its listing on, up to but not at its delisting; once delisted it
/// stays so.
pub proof fn lemma_instruments_are_listed_until_delisted(
    instrument: InstrumentDefinition,
    earlier: UnixNanos,
    later: UnixNanos,
)
    requires
        earlier.nanos <= later.nanos,
    ensures
        instrument.listed_at(later) && instrument.listing_time.nanos <= earlier.nanos
            ==> instrument.listed_at(earlier),
        instrument.listed_at(earlier) ==> instrument.listing_time.nanos <= earlier.nanos,
        instrument.delisting_time is Some && instrument.delisting_time->Some_0.nanos
            <= later.nanos ==> !instrument.listed_at(later),
        instrument.delisting_time is None ==> (instrument.listed_at(later)
            <==> instrument.listing_time.nanos <= later.nanos),
        instrument.listing_time.nanos <= earlier.nanos && instrument.delisting_time is Some
            && earlier.nanos < instrument.delisting_time->Some_0.nanos ==> instrument.listed_at(
            earlier,
        ),
{
}

} // verus!
