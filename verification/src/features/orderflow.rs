//! Bounded deterministic order-flow observations with explicit side authority.

use vstd::prelude::*;

use super::book_evidence::{lower_score, valid_policy, valid_policy_id};
use super::FeatureComputationError;
use crate::decimal::{Price, Quantity};
use crate::digest::{
    blake3_digest, blake3_hash, encoded_i64, encoded_u32, framed, is_zero_digest, labelled,
    put_byte, put_bytes, put_framed, put_i64, put_u32, utf8, zero_digest,
};
use crate::domain::{source_label, InstrumentId, InstrumentView, SourceId, SourceView, UnixNanos};
use crate::event::{EventPayload, NormalizedEvent, TradeSide};
use crate::ordering::{
    byte_rank, bytes_precede, digest_views, first_repeated_digest, lemma_repeats, lemma_rank_concat,
    rank_precedes, sort_stably, stably_sorted, Ranked,
};

verus! {

pub const MAX_FLOW_TRADES: usize = 100_000;

#[derive(Clone, Copy, Debug, PartialEq, Eq, Structural)]
pub enum AggressorSide {
    Buy,
    Sell,
}

/// The rule by which a trade's aggressor is known: its identifier, its version, and whether the
/// side is inferred.
pub type AuthorityView = (Seq<char>, u32, bool);

/// By which rule the aggressor of a trade is known.
#[derive(Debug)]
pub struct AggressorAuthority {
    rule_id: String,
    rule_version: u32,
    inferred: bool,
}

impl View for AggressorAuthority {
    type V = AuthorityView;

    closed spec fn view(&self) -> AuthorityView {
        (self.rule_id@, self.rule_version, self.inferred)
    }
}

impl Clone for AggressorAuthority {
    fn clone(&self) -> (copy: Self)
        ensures
            copy@ == self@,
    {
        AggressorAuthority {
            rule_id: self.rule_id.clone(),
            rule_version: self.rule_version,
            inferred: self.inferred,
        }
    }
}

impl AggressorAuthority {
    /// An authority whose venue supplies the side.
    pub fn supplied(rule_id: String, rule_version: u32) -> (result: Result<
        Self,
        FeatureComputationError,
    >)
        ensures
            result is Ok <==> rule_version != 0 && valid_policy(utf8(rule_id@)),
            result is Ok ==> result->Ok_0@ == (rule_id@, rule_version, false),
            result is Err ==> result->Err_0 == FeatureComputationError::InvalidParameter,
    {
        Self::new(rule_id, rule_version, false)
    }

    /// An authority that infers the side.
    pub fn inferred(rule_id: String, rule_version: u32) -> (result: Result<
        Self,
        FeatureComputationError,
    >)
        ensures
            result is Ok <==> rule_version != 0 && valid_policy(utf8(rule_id@)),
            result is Ok ==> result->Ok_0@ == (rule_id@, rule_version, true),
            result is Err ==> result->Err_0 == FeatureComputationError::InvalidParameter,
    {
        Self::new(rule_id, rule_version, true)
    }

    fn new(rule_id: String, rule_version: u32, inferred: bool) -> (result: Result<
        Self,
        FeatureComputationError,
    >)
        ensures
            result is Ok <==> rule_version != 0 && valid_policy(utf8(rule_id@)),
            result is Ok ==> result->Ok_0@ == (rule_id@, rule_version, inferred),
            result is Err ==> result->Err_0 == FeatureComputationError::InvalidParameter,
    {
        if rule_version == 0 || !valid_policy_id(rule_id.as_str()) {
            return Err(FeatureComputationError::InvalidParameter);
        }
        Ok(AggressorAuthority { rule_id, rule_version, inferred })
    }

    pub fn rule_id(&self) -> (id: &str)
        ensures
            id@ == self@.0,
    {
        self.rule_id.as_str()
    }

    pub fn rule_version(&self) -> (version: u32)
        ensures
            version == self@.1,
    {
        self.rule_version
    }

    pub fn is_inferred(&self) -> (answer: bool)
        ensures
            answer == self@.2,
    {
        self.inferred
    }

    /// Whether both name the same rule.
    pub fn same(&self, other: &Self) -> (answer: bool)
        ensures
            answer == (self@ == other@),
    {
        self.rule_id == other.rule_id && self.rule_version == other.rule_version && self.inferred
            == other.inferred
    }
}

/// The contents of a [`FlowTradeObservation`].
pub struct FlowTradeView {
    pub instrument: InstrumentView,
    pub event_time: UnixNanos,
    pub as_known_at: UnixNanos,
    pub lineage: Seq<u8>,
    pub price: Price,
    pub quantity: Quantity,
    pub side: AggressorSide,
    pub authority: AuthorityView,
    pub authenticated: bool,
    pub source: Option<SourceView>,
    pub quality_score_ppm: u32,
}

/// A trade with a known aggressor.
#[derive(Debug)]
pub struct FlowTradeObservation {
    instrument: InstrumentId,
    event_time: UnixNanos,
    as_known_at: UnixNanos,
    lineage: [u8; 32],
    price: Price,
    quantity: Quantity,
    side: AggressorSide,
    authority: AggressorAuthority,
    authenticated: bool,
    source: Option<SourceId>,
    quality_score_ppm: u32,
}

pub open spec fn optional_source(source: Option<SourceId>) -> Option<SourceView> {
    match source {
        Some(source) => Some(source@),
        None => None,
    }
}

impl View for FlowTradeObservation {
    type V = FlowTradeView;

    closed spec fn view(&self) -> FlowTradeView {
        FlowTradeView {
            instrument: self.instrument@,
            event_time: self.event_time,
            as_known_at: self.as_known_at,
            lineage: self.lineage@,
            price: self.price,
            quantity: self.quantity,
            side: self.side,
            authority: self.authority@,
            authenticated: self.authenticated,
            source: optional_source(self.source),
            quality_score_ppm: self.quality_score_ppm,
        }
    }
}

impl Clone for FlowTradeObservation {
    fn clone(&self) -> (copy: Self)
        ensures
            copy@ == self@,
    {
        FlowTradeObservation {
            instrument: self.instrument.clone(),
            event_time: self.event_time,
            as_known_at: self.as_known_at,
            lineage: self.lineage,
            price: self.price,
            quantity: self.quantity,
            side: self.side,
            authority: self.authority.clone(),
            authenticated: self.authenticated,
            source: match &self.source {
                Some(source) => Some(source.clone()),
                None => None,
            },
            quality_score_ppm: self.quality_score_ppm,
        }
    }
}

/// A trade as one venue's connector normalized it.
#[derive(Debug)]
pub struct BinanceTradeReceipt {
    pub event: NormalizedEvent,
}

/// The authenticated trade of an event, or why it has none.
pub open spec fn authenticated_trade(event: NormalizedEvent, authority: AuthorityView) -> Result<
    FlowTradeView,
    FeatureComputationError,
> {
    let metadata = event.metadata;
    if !event.verified {
        Err(FeatureComputationError::UntrustedInput)
    } else if metadata.instrument_id is None {
        Err(FeatureComputationError::MixedEntity)
    } else if !metadata.published_by_venue_of(metadata.instrument_id->Some_0) {
        Err(FeatureComputationError::UntrustedInput)
    } else {
        match (event.payload, metadata.event_time_of()) {
            (EventPayload::Trade { price, quantity, side }, Some(event_time)) => {
                if metadata.normalization_timestamp.nanos < event_time.nanos {
                    Err(FeatureComputationError::FutureKnowledge)
                } else if side == TradeSide::Unknown {
                    Err(FeatureComputationError::SourceNotSupported)
                } else if event.id@ == zero_digest() || quantity.units() == 0 {
                    Err(FeatureComputationError::InvalidInput)
                } else {
                    Ok(
                        FlowTradeView {
                            instrument: metadata.instrument_id->Some_0@,
                            event_time,
                            as_known_at: metadata.normalization_timestamp,
                            lineage: event.id@,
                            price,
                            quantity,
                            side: if side == TradeSide::Buy {
                                AggressorSide::Buy
                            } else {
                                AggressorSide::Sell
                            },
                            authority,
                            authenticated: true,
                            source: Some(metadata.source@),
                            quality_score_ppm: metadata.quality_score_ppm,
                        },
                    )
                }
            },
            _ => Err(FeatureComputationError::InvalidInput),
        }
    }
}

/// What a trade computation returned, by its contents.
pub open spec fn trade_outcome(
    result: Result<FlowTradeObservation, FeatureComputationError>,
) -> Result<FlowTradeView, FeatureComputationError> {
    match result {
        Ok(trade) => Ok(trade@),
        Err(error) => Err(error),
    }
}

impl FlowTradeObservation {
    pub fn new(
        instrument: InstrumentId,
        event_time: UnixNanos,
        as_known_at: UnixNanos,
        lineage: [u8; 32],
        price: Price,
        quantity: Quantity,
        side: AggressorSide,
        authority: AggressorAuthority,
    ) -> (result: Result<Self, FeatureComputationError>)
        ensures
            result is Ok <==> as_known_at.nanos >= event_time.nanos && lineage@ != zero_digest()
                && quantity.units() != 0,
            result is Err ==> result->Err_0 == FeatureComputationError::InvalidInput,
            result is Ok ==> result->Ok_0@ == (FlowTradeView {
                instrument: instrument@,
                event_time,
                as_known_at,
                lineage: lineage@,
                price,
                quantity,
                side,
                authority: authority@,
                authenticated: false,
                source: None,
                quality_score_ppm: 0,
            }),
    {
        if as_known_at.value() < event_time.value() || is_zero_digest(&lineage)
            || quantity.value().is_zero() {
            return Err(FeatureComputationError::InvalidInput);
        }
        Ok(
            FlowTradeObservation {
                instrument,
                event_time,
                as_known_at,
                lineage,
                price,
                quantity,
                side,
                authority,
                authenticated: false,
                source: None,
                quality_score_ppm: 0,
            },
        )
    }

    /// A trade that a verified event of the instrument's own venue reports.
    pub fn try_from_authenticated_event(
        event: &NormalizedEvent,
        authority: AggressorAuthority,
    ) -> (result: Result<Self, FeatureComputationError>)
        ensures
            trade_outcome(result) == authenticated_trade(*event, authority@),
    {
        if !event.verified {
            return Err(FeatureComputationError::UntrustedInput);
        }
        let metadata = &event.metadata;
        let instrument = match &metadata.instrument_id {
            None => {
                return Err(FeatureComputationError::MixedEntity);
            },
            Some(instrument) => instrument,
        };
        if !metadata.is_published_by_venue_of(instrument) {
            return Err(FeatureComputationError::UntrustedInput);
        }
        let (price, quantity, reported) = match &event.payload {
            EventPayload::Trade { price, quantity, side } => (*price, *quantity, *side),
            _ => {
                return Err(FeatureComputationError::InvalidInput);
            },
        };
        let event_time = match metadata.event_time() {
            None => {
                return Err(FeatureComputationError::InvalidInput);
            },
            Some(event_time) => event_time,
        };
        if metadata.normalization_timestamp.value() < event_time.value() {
            return Err(FeatureComputationError::FutureKnowledge);
        }
        let side = match reported {
            TradeSide::Buy => AggressorSide::Buy,
            TradeSide::Sell => AggressorSide::Sell,
            TradeSide::Unknown => {
                return Err(FeatureComputationError::SourceNotSupported);
            },
        };
        let trade = Self::new(
            instrument.clone(),
            event_time,
            metadata.normalization_timestamp,
            event.id,
            price,
            quantity,
            side,
            authority,
        )?;
        Ok(
            FlowTradeObservation {
                authenticated: true,
                source: Some(metadata.source.clone()),
                quality_score_ppm: metadata.quality_score_ppm,
                ..trade
            },
        )
    }

    /// A trade of a venue that reports whether the buyer was the maker.
    pub fn try_from_binance_receipt(receipt: &BinanceTradeReceipt) -> (result: Result<
        Self,
        FeatureComputationError,
    >)
        ensures
            trade_outcome(result) == authenticated_trade(
                receipt.event,
                ("binance-buyer-maker-inversion"@, 1, false),
            ),
    {
        proof {
            lemma_binance_rule_is_valid();
        }
        let authority = AggressorAuthority::supplied("binance-buyer-maker-inversion".to_owned(), 1)?;
        Self::try_from_authenticated_event(&receipt.event, authority)
    }

    pub fn instrument(&self) -> (instrument: &InstrumentId)
        ensures
            instrument@ == self@.instrument,
    {
        &self.instrument
    }

    pub fn event_time(&self) -> (time: UnixNanos)
        ensures
            time == self@.event_time,
    {
        self.event_time
    }

    pub fn as_known_at(&self) -> (time: UnixNanos)
        ensures
            time == self@.as_known_at,
    {
        self.as_known_at
    }

    pub fn lineage(&self) -> (lineage: [u8; 32])
        ensures
            lineage@ == self@.lineage,
    {
        self.lineage
    }

    pub fn price(&self) -> (price: Price)
        ensures
            price == self@.price,
    {
        self.price
    }

    pub fn quantity(&self) -> (quantity: Quantity)
        ensures
            quantity == self@.quantity,
    {
        self.quantity
    }

    pub fn side(&self) -> (side: AggressorSide)
        ensures
            side == self@.side,
    {
        self.side
    }

    pub fn authority(&self) -> (authority: &AggressorAuthority)
        ensures
            authority@ == self@.authority,
    {
        &self.authority
    }

    pub fn is_authenticated(&self) -> (answer: bool)
        ensures
            answer == self@.authenticated,
    {
        self.authenticated
    }

    pub fn source(&self) -> (source: Option<&SourceId>)
        ensures
            match source {
                Some(source) => self@.source == Some(source@),
                None => self@.source is None,
            },
    {
        match &self.source {
            Some(source) => Some(source),
            None => None,
        }
    }

    pub fn quality_score_ppm(&self) -> (score: u32)
        ensures
            score == self@.quality_score_ppm,
    {
        self.quality_score_ppm
    }
}

proof fn lemma_binance_rule_is_valid()
    ensures
        valid_policy(utf8("binance-buyer-maker-inversion"@)),
{
    reveal_strlit("binance-buyer-maker-inversion");
    let text = "binance-buyer-maker-inversion"@;
    assert(vstd::utf8::is_ascii_chars(text));
    vstd::utf8::is_ascii_chars_encode_utf8(text);
    let bytes = utf8(text);
    assert forall|i: int| 0 <= i < bytes.len() implies #[trigger] super::book_evidence::policy_byte(
        bytes,
        i,
    ) by {
        assert(bytes[i] == text[i] as u8);
    }
}

/// The order of trades and quotes in a window: by event time, then by lineage.
pub open spec fn event_rank(event_time: UnixNanos, lineage: Seq<u8>) -> Seq<int> {
    seq![event_time.nanos as int] + byte_rank(lineage)
}

pub(crate) fn event_precedes(
    time: UnixNanos,
    lineage: &[u8; 32],
    other_time: UnixNanos,
    other_lineage: &[u8; 32],
) -> (before: bool)
    ensures
        before == rank_precedes(
            event_rank(time, lineage@),
            event_rank(other_time, other_lineage@),
        ),
{
    proof {
        let a = seq![time.nanos as int];
        let b = seq![other_time.nanos as int];
        lemma_rank_concat(a, b, byte_rank(lineage@), byte_rank(other_lineage@));
        reveal_with_fuel(rank_precedes, 2);
        assert(a[0] == time.nanos as int);
        assert(b[0] == other_time.nanos as int);
    }
    if time.value() != other_time.value() {
        time.value() < other_time.value()
    } else {
        bytes_precede(lineage.as_slice(), other_lineage.as_slice())
    }
}

impl Ranked for FlowTradeObservation {
    open spec fn rank(&self) -> Seq<int> {
        event_rank(self@.event_time, self@.lineage)
    }

    fn precedes(&self, other: &Self) -> (before: bool) {
        event_precedes(self.event_time, &self.lineage, other.event_time, &other.lineage)
    }
}

/// Why a window cannot be final at its evaluation time, if it cannot.
pub open spec fn final_window_refusal(
    capacity: usize,
    start: UnixNanos,
    end: UnixNanos,
    evaluation_time: UnixNanos,
) -> Option<FeatureComputationError> {
    if capacity == 0 || capacity > MAX_FLOW_TRADES || start.nanos >= end.nanos {
        Some(FeatureComputationError::InvalidParameter)
    } else if evaluation_time.nanos < end.nanos {
        Some(FeatureComputationError::WindowNotFinal)
    } else {
        None
    }
}

pub(crate) fn validate_finalized_window(
    capacity: usize,
    start: UnixNanos,
    end: UnixNanos,
    evaluation_time: UnixNanos,
) -> (result: Result<(), FeatureComputationError>)
    ensures
        match final_window_refusal(capacity, start, end, evaluation_time) {
            Some(error) => result == Err::<(), FeatureComputationError>(error),
            None => result == Ok::<(), FeatureComputationError>(()),
        },
{
    if capacity == 0 || capacity > MAX_FLOW_TRADES || start.value() >= end.value() {
        return Err(FeatureComputationError::InvalidParameter);
    }
    if evaluation_time.value() < end.value() {
        return Err(FeatureComputationError::WindowNotFinal);
    }
    Ok(())
}

/// The contents of a list of trades.
pub open spec fn flow_views(trades: Seq<FlowTradeObservation>) -> Seq<FlowTradeView> {
    Seq::new(trades.len(), |i: int| trades[i]@)
}

pub open spec fn flow_lineages(trades: Seq<FlowTradeView>) -> Seq<Seq<u8>> {
    Seq::new(trades.len(), |i: int| trades[i].lineage)
}

/// Why a trade does not belong behind the trades before it, if it does not.
pub open spec fn flow_step_refusal(
    before: Seq<FlowTradeView>,
    trade: FlowTradeView,
    instrument: InstrumentView,
    start: UnixNanos,
    end: UnixNanos,
    evaluation_time: UnixNanos,
) -> Option<FeatureComputationError> {
    if trade.instrument != instrument {
        Some(FeatureComputationError::MixedEntity)
    } else if trade.event_time.nanos < start.nanos || trade.event_time.nanos >= end.nanos {
        Some(FeatureComputationError::OutsideWindow)
    } else if trade.as_known_at.nanos > evaluation_time.nanos {
        Some(FeatureComputationError::FutureKnowledge)
    } else if flow_lineages(before).contains(trade.lineage) {
        Some(FeatureComputationError::DuplicateLineage)
    } else if before.len() > 0 && trade.as_known_at.nanos < before.last().as_known_at.nanos {
        Some(FeatureComputationError::NonMonotonicTime)
    } else {
        None
    }
}

/// The first failure among trades in window order, if there is one.
pub open spec fn flow_refusal(
    trades: Seq<FlowTradeView>,
    instrument: InstrumentView,
    start: UnixNanos,
    end: UnixNanos,
    evaluation_time: UnixNanos,
) -> Option<FeatureComputationError>
    decreases trades.len(),
{
    if trades.len() == 0 {
        None
    } else {
        match flow_refusal(trades.drop_last(), instrument, start, end, evaluation_time) {
            Some(error) => Some(error),
            None => flow_step_refusal(
                trades.drop_last(),
                trades.last(),
                instrument,
                start,
                end,
                evaluation_time,
            ),
        }
    }
}

proof fn lemma_flow_fails(
    trades: Seq<FlowTradeView>,
    count: int,
    instrument: InstrumentView,
    start: UnixNanos,
    end: UnixNanos,
    evaluation_time: UnixNanos,
)
    requires
        0 <= count <= trades.len(),
        flow_refusal(trades.take(count), instrument, start, end, evaluation_time) is Some,
    ensures
        flow_refusal(trades, instrument, start, end, evaluation_time) == flow_refusal(
            trades.take(count),
            instrument,
            start,
            end,
            evaluation_time,
        ),
    decreases trades.len() - count,
{
    if count < trades.len() {
        assert(trades.take(count + 1).drop_last() =~= trades.take(count));
        lemma_flow_fails(trades, count + 1, instrument, start, end, evaluation_time);
    } else {
        assert(trades.take(count) =~= trades);
    }
}

/// The contents of a [`TradeFlowWindow`].
pub struct FlowWindowView {
    pub trades: Seq<FlowTradeView>,
    pub instrument: InstrumentView,
    pub start: UnixNanos,
    pub end: UnixNanos,
    pub evaluation_time: UnixNanos,
}

/// The trades of one instrument inside one final window, in event order.
#[derive(Debug)]
pub struct TradeFlowWindow {
    observations: Vec<FlowTradeObservation>,
    instrument: InstrumentId,
    start: UnixNanos,
    end: UnixNanos,
    evaluation_time: UnixNanos,
}

impl View for TradeFlowWindow {
    type V = FlowWindowView;

    closed spec fn view(&self) -> FlowWindowView {
        FlowWindowView {
            trades: flow_views(self.observations@),
            instrument: self.instrument@,
            start: self.start,
            end: self.end,
            evaluation_time: self.evaluation_time,
        }
    }
}

/// The window that trades make, or why they make none. The trades are put in order first.
pub open spec fn flow_window(
    observations: Seq<FlowTradeObservation>,
    capacity: usize,
    start: UnixNanos,
    end: UnixNanos,
    evaluation_time: UnixNanos,
) -> Result<FlowWindowView, FeatureComputationError> {
    let trades = flow_views(stably_sorted(observations));
    match final_window_refusal(capacity, start, end, evaluation_time) {
        Some(error) => Err(error),
        None => if observations.len() == 0 {
            Err(FeatureComputationError::InsufficientHistory)
        } else if observations.len() > capacity {
            Err(FeatureComputationError::CapacityExceeded)
        } else {
            match flow_refusal(trades, trades[0].instrument, start, end, evaluation_time) {
                Some(error) => Err(error),
                None => Ok(
                    FlowWindowView {
                        trades,
                        instrument: trades[0].instrument,
                        start,
                        end,
                        evaluation_time,
                    },
                ),
            }
        },
    }
}

/// The bytes by which a trade enters a flow window's evidence.
pub open spec fn flow_trade_encoding(trade: FlowTradeView) -> Seq<u8> {
    trade.lineage + encoded_i64(trade.event_time.nanos) + encoded_i64(trade.as_known_at.nanos)
        + framed(trade.price.amount().ascii()) + framed(trade.quantity.amount().ascii()) + seq![
        match trade.side {
            AggressorSide::Buy => 1u8,
            AggressorSide::Sell => 2u8,
        },
    ] + framed(utf8(trade.authority.0)) + encoded_u32(trade.authority.1) + seq![
        if trade.authority.2 {
            1u8
        } else {
            0u8
        },
    ] + framed(source_label(trade.source->Some_0)) + encoded_u32(trade.quality_score_ppm)
}

pub open spec fn flow_trades_encoding(trades: Seq<FlowTradeView>) -> Seq<u8>
    decreases trades.len(),
{
    if trades.len() == 0 {
        Seq::empty()
    } else {
        flow_trades_encoding(trades.drop_last()) + flow_trade_encoding(trades.last())
    }
}

/// Every trade is authenticated, and there is one.
pub open spec fn all_authenticated(trades: Seq<FlowTradeView>) -> bool {
    trades.len() > 0 && forall|i: int|
        0 <= i < trades.len() ==> (#[trigger] trades[i]).authenticated
}

pub open spec fn all_sourced(trades: Seq<FlowTradeView>) -> bool {
    forall|i: int| 0 <= i < trades.len() ==> (#[trigger] trades[i]).source is Some
}

/// The evidence of a flow window, or why it has none.
pub open spec fn flow_evidence(window: FlowWindowView) -> Result<
    Seq<u8>,
    FeatureComputationError,
> {
    if !all_authenticated(window.trades) || !all_sourced(window.trades) {
        Err(FeatureComputationError::UntrustedInput)
    } else {
        Ok(
            blake3_digest(
                utf8("crypto-intelligence/trade-flow-window-evidence/v1"@) + encoded_i64(
                    window.start.nanos,
                ) + encoded_i64(window.end.nanos) + encoded_i64(window.evaluation_time.nanos)
                    + flow_trades_encoding(window.trades),
            ),
        )
    }
}

pub open spec fn lowest_flow_quality(trades: Seq<FlowTradeView>) -> Option<u32>
    decreases trades.len(),
{
    if trades.len() == 0 {
        None
    } else {
        match lowest_flow_quality(trades.drop_last()) {
            None => Some(trades.last().quality_score_ppm),
            Some(score) => Some(lower_score(score, trades.last().quality_score_ppm)),
        }
    }
}

pub open spec fn latest_flow_knowledge(trades: Seq<FlowTradeView>) -> Option<UnixNanos>
    decreases trades.len(),
{
    if trades.len() == 0 {
        None
    } else {
        match latest_flow_knowledge(trades.drop_last()) {
            None => Some(trades.last().as_known_at),
            Some(time) => Some(time.later(trades.last().as_known_at)),
        }
    }
}

/// Some trade rests on the authority.
pub open spec fn rests_on(trades: Seq<FlowTradeView>, authority: AuthorityView) -> bool {
    exists|i: int| 0 <= i < trades.len() && (#[trigger] trades[i]).authority == authority
}

/// Some trade comes from the source.
pub open spec fn flows_from(trades: Seq<FlowTradeView>, source: SourceView) -> bool {
    exists|i: int| 0 <= i < trades.len() && (#[trigger] trades[i]).source == Some(source)
}

impl TradeFlowWindow {
    pub fn new(
        observations: Vec<FlowTradeObservation>,
        capacity: usize,
        start: UnixNanos,
        end: UnixNanos,
        evaluation_time: UnixNanos,
    ) -> (result: Result<Self, FeatureComputationError>)
        ensures
            match flow_window(observations@, capacity, start, end, evaluation_time) {
                Err(error) => result is Err && result->Err_0 == error,
                Ok(window) => result is Ok && result->Ok_0@ == window,
            },
    {
        validate_finalized_window(capacity, start, end, evaluation_time)?;
        if observations.len() == 0 {
            return Err(FeatureComputationError::InsufficientHistory);
        }
        if observations.len() > capacity {
            return Err(FeatureComputationError::CapacityExceeded);
        }
        let sorted = sort_stably(observations);
        let ghost views = flow_views(sorted@);
        proof {
            assert(views[0] == sorted@[0]@);
        }
        let instrument = sorted[0].instrument.clone();
        check_flow(&sorted, &instrument, start, end, evaluation_time)?;
        Ok(TradeFlowWindow { observations: sorted, instrument, start, end, evaluation_time })
    }

    /// A window in which nothing traded.
    pub fn observed_empty(
        instrument: InstrumentId,
        capacity: usize,
        start: UnixNanos,
        end: UnixNanos,
        evaluation_time: UnixNanos,
    ) -> (result: Result<Self, FeatureComputationError>)
        ensures
            match final_window_refusal(capacity, start, end, evaluation_time) {
                Some(error) => result is Err && result->Err_0 == error,
                None => result is Ok && result->Ok_0@ == (FlowWindowView {
                    trades: Seq::empty(),
                    instrument: instrument@,
                    start,
                    end,
                    evaluation_time,
                }),
            },
    {
        validate_finalized_window(capacity, start, end, evaluation_time)?;
        let window = TradeFlowWindow {
            observations: Vec::new(),
            instrument,
            start,
            end,
            evaluation_time,
        };
        proof {
            assert(window@.trades =~= Seq::empty());
        }
        Ok(window)
    }

    pub fn observations(&self) -> (observations: &Vec<FlowTradeObservation>)
        ensures
            flow_views(observations@) == self@.trades,
    {
        &self.observations
    }

    /// The authorities that the trades rest on, each once, in the order of their first trades.
    pub fn authorities(&self) -> (authorities: Vec<AggressorAuthority>)
        ensures
            forall|i: int, j: int|
                0 <= i < j < authorities@.len() ==> (#[trigger] authorities@[i])@ != (
                #[trigger] authorities@[j])@,
            forall|i: int|
                0 <= i < authorities@.len() ==> rests_on(
                    self@.trades,
                    (#[trigger] authorities@[i])@,
                ),
            forall|k: int|
                0 <= k < self@.trades.len() ==> names_authority(
                    authorities@,
                    (#[trigger] self@.trades[k]).authority,
                ),
    {
        let ghost views = flow_views(self.observations@);
        let mut authorities: Vec<AggressorAuthority> = Vec::new();
        let mut k: usize = 0;
        while k < self.observations.len()
            invariant
                k <= self.observations@.len(),
                views == flow_views(self.observations@),
                forall|i: int, j: int|
                    0 <= i < j < authorities@.len() ==> (#[trigger] authorities@[i])@ != (
                    #[trigger] authorities@[j])@,
                forall|i: int|
                    0 <= i < authorities@.len() ==> rests_on(views, (#[trigger] authorities@[i])@),
                forall|n: int|
                    0 <= n < k ==> names_authority(authorities@, (#[trigger] views[n]).authority),
            decreases self.observations.len() - k,
        {
            proof {
                assert(views[k as int] == self.observations@[k as int]@);
            }
            let ghost before = authorities@;
            if !holds_authority(&authorities, &self.observations[k].authority) {
                authorities.push(self.observations[k].authority.clone());
                proof {
                    assert(rests_on(views, authorities@[authorities@.len() - 1]@));
                    assert forall|i: int| 0 <= i < authorities@.len() implies rests_on(
                        views,
                        (#[trigger] authorities@[i])@,
                    ) by {
                        if i < before.len() {
                            assert(authorities@[i] == before[i]);
                        }
                    }
                }
            }
            proof {
                assert forall|n: int| 0 <= n < k + 1 implies names_authority(
                    authorities@,
                    (#[trigger] views[n]).authority,
                ) by {
                    if n < k {
                        let i = choose|i: int|
                            0 <= i < before.len() && (#[trigger] before[i])@ == views[n].authority;
                        assert(authorities@[i] == before[i]);
                    } else if before.len() < authorities@.len() {
                        assert(authorities@[before.len() as int]@ == views[n].authority);
                    } else {
                        let i = choose|i: int|
                            0 <= i < before.len() && (#[trigger] before[i])@ == views[n].authority;
                        assert(authorities@[i] == before[i]);
                    }
                }
            }
            k += 1;
        }
        authorities
    }

    pub fn evaluation_time(&self) -> (time: UnixNanos)
        ensures
            time == self@.evaluation_time,
    {
        self.evaluation_time
    }

    pub fn start(&self) -> (time: UnixNanos)
        ensures
            time == self@.start,
    {
        self.start
    }

    pub fn end(&self) -> (time: UnixNanos)
        ensures
            time == self@.end,
    {
        self.end
    }

    pub fn instrument(&self) -> (instrument: &InstrumentId)
        ensures
            instrument@ == self@.instrument,
            instrument.product_type == self@.instrument.2,
    {
        &self.instrument
    }

    pub fn is_authenticated(&self) -> (answer: bool)
        ensures
            answer == all_authenticated(self@.trades),
    {
        let ghost views = flow_views(self.observations@);
        let mut i: usize = 0;
        while i < self.observations.len()
            invariant
                i <= self.observations@.len(),
                views == flow_views(self.observations@),
                forall|k: int| 0 <= k < i ==> (#[trigger] views[k]).authenticated,
            decreases self.observations.len() - i,
        {
            proof {
                assert(views[i as int] == self.observations@[i as int]@);
            }
            if !self.observations[i].authenticated {
                return false;
            }
            i += 1;
        }
        self.observations.len() > 0
    }

    /// The sources of the trades, each once, in canonical order.
    pub fn sources(&self) -> (sources: Vec<SourceId>)
        ensures
            crate::ordering::strictly_sorted_by_rank(sources@),
            forall|i: int|
                0 <= i < sources@.len() ==> flows_from(self@.trades, (#[trigger] sources@[i])@),
            forall|source: SourceView| #[trigger]
                flows_from(self@.trades, source) ==> crate::domain::source_views(
                    sources@,
                ).contains(source),
    {
        let ghost views = flow_views(self.observations@);
        let mut found: Vec<SourceId> = Vec::new();
        let mut k: usize = 0;
        while k < self.observations.len()
            invariant
                k <= self.observations@.len(),
                views == flow_views(self.observations@),
                crate::domain::source_views(found@).no_duplicates(),
                forall|i: int|
                    0 <= i < found@.len() ==> flows_from(views, (#[trigger] found@[i])@),
                forall|n: int|
                    0 <= n < k && (#[trigger] views[n]).source is Some
                        ==> crate::domain::source_views(found@).contains(views[n].source->Some_0),
            decreases self.observations.len() - k,
        {
            proof {
                assert(views[k as int] == self.observations@[k as int]@);
            }
            let ghost before = found@;
            if let Some(source) = &self.observations[k].source {
                if !crate::domain::holds_source(&found, source) {
                    found.push(source.clone());
                    proof {
                        let old_views = crate::domain::source_views(before);
                        let new_views = crate::domain::source_views(found@);
                        assert(new_views =~= old_views.push(source@));
                        assert forall|n: int|
                            0 <= n < k && (#[trigger] views[n]).source is Some implies new_views.contains(
                            views[n].source->Some_0,
                        ) by {
                            let at = old_views.index_of(views[n].source->Some_0);
                            assert(new_views[at] == views[n].source->Some_0);
                        }
                        assert(new_views[before.len() as int] == source@);
                        assert(views[k as int].source == Some(source@));
                        assert forall|i: int| 0 <= i < found@.len() implies flows_from(
                            views,
                            (#[trigger] found@[i])@,
                        ) by {
                            if i < before.len() {
                                assert(found@[i] == before[i]);
                            }
                        }
                    }
                }
            }
            k += 1;
        }
        let ghost unsorted = found@;
        let sources = crate::ordering::sort_by_rank(found);
        proof {
            let names = crate::domain::source_views(unsorted);
            assert forall|i: int, j: int| 0 <= i < j < unsorted.len() implies (
            #[trigger] unsorted[i].rank()) != (#[trigger] unsorted[j].rank()) by {
                assert(names[i] != names[j]);
                crate::domain::lemma_source_rank_injective(unsorted[i]@, unsorted[j]@);
            }
            crate::ordering::lemma_sorted_distinct(unsorted, sources@);
            assert forall|i: int| 0 <= i < sources@.len() implies flows_from(
                views,
                (#[trigger] sources@[i])@,
            ) by {
                assert(unsorted.contains(sources@[i]));
                let at = unsorted.index_of(sources@[i]);
                assert(unsorted[at] == sources@[i]);
            }
            assert forall|source: SourceView| #[trigger]
                flows_from(views, source) implies crate::domain::source_views(
                sources@,
            ).contains(source) by {
                let n = choose|n: int|
                    0 <= n < views.len() && (#[trigger] views[n]).source == Some(source);
                assert(names.contains(source));
                let at = names.index_of(source);
                assert(sources@.contains(unsorted[at]));
                let to = sources@.index_of(unsorted[at]);
                assert(crate::domain::source_views(sources@)[to] == source);
            }
        }
        sources
    }

    pub fn minimum_quality_score_ppm(&self) -> (score: Option<u32>)
        ensures
            score == lowest_flow_quality(self@.trades),
    {
        let ghost views = flow_views(self.observations@);
        let mut lowest: Option<u32> = None;
        let mut i: usize = 0;
        proof {
            assert(views.take(0) =~= Seq::empty());
        }
        while i < self.observations.len()
            invariant
                i <= self.observations@.len(),
                views == flow_views(self.observations@),
                lowest == lowest_flow_quality(views.take(i as int)),
            decreases self.observations.len() - i,
        {
            proof {
                assert(views.take(i + 1).drop_last() =~= views.take(i as int));
                assert(views.take(i + 1).last() == self.observations@[i as int]@);
            }
            let own: u32 = self.observations[i].quality_score_ppm;
            lowest = match lowest {
                None => Some(own),
                Some(score) => if own < score {
                    Some(own)
                } else {
                    Some(score)
                },
            };
            i += 1;
        }
        proof {
            assert(views.take(self.observations@.len() as int) =~= views);
        }
        lowest
    }

    pub fn maximum_as_known_at(&self) -> (time: Option<UnixNanos>)
        ensures
            time == latest_flow_knowledge(self@.trades),
    {
        let ghost views = flow_views(self.observations@);
        let mut latest: Option<UnixNanos> = None;
        let mut i: usize = 0;
        proof {
            assert(views.take(0) =~= Seq::empty());
        }
        while i < self.observations.len()
            invariant
                i <= self.observations@.len(),
                views == flow_views(self.observations@),
                latest == latest_flow_knowledge(views.take(i as int)),
            decreases self.observations.len() - i,
        {
            proof {
                assert(views.take(i + 1).drop_last() =~= views.take(i as int));
                assert(views.take(i + 1).last() == self.observations@[i as int]@);
            }
            let own = self.observations[i].as_known_at;
            latest = match latest {
                None => Some(own),
                Some(time) => Some(time.max_of(own)),
            };
            i += 1;
        }
        proof {
            assert(views.take(self.observations@.len() as int) =~= views);
        }
        latest
    }

    /// A digest of every authenticated trade of the window, in order.
    pub fn canonical_evidence_digest(&self) -> (result: Result<[u8; 32], FeatureComputationError>)
        ensures
            match flow_evidence(self@) {
                Err(error) => result is Err && result->Err_0 == error,
                Ok(digest) => result is Ok && result->Ok_0@ == digest,
            },
    {
        if !self.is_authenticated() {
            return Err(FeatureComputationError::UntrustedInput);
        }
        let ghost views = flow_views(self.observations@);
        let mut buffer = labelled("crypto-intelligence/trade-flow-window-evidence/v1");
        put_i64(&mut buffer, self.start.value());
        put_i64(&mut buffer, self.end.value());
        put_i64(&mut buffer, self.evaluation_time.value());
        let ghost head = buffer@;
        let mut i: usize = 0;
        proof {
            assert(views.take(0) =~= Seq::empty());
            assert(buffer@ =~= head + flow_trades_encoding(views.take(0)));
        }
        while i < self.observations.len()
            invariant
                i <= self.observations@.len(),
                views == flow_views(self.observations@),
                views == self@.trades,
                all_authenticated(views),
                buffer@ == head + flow_trades_encoding(views.take(i as int)),
                forall|k: int| 0 <= k < i ==> (#[trigger] views[k]).source is Some,
            decreases self.observations.len() - i,
        {
            proof {
                assert(views[i as int] == self.observations@[i as int]@);
                assert(views.take(i + 1).drop_last() =~= views.take(i as int));
                assert(views.take(i + 1).last() == self.observations@[i as int]@);
            }
            let bytes = match flow_trade_bytes(&self.observations[i]) {
                None => {
                    return Err(FeatureComputationError::UntrustedInput);
                },
                Some(bytes) => bytes,
            };
            put_bytes(&mut buffer, bytes.as_slice());
            proof {
                assert(buffer@ =~= head + flow_trades_encoding(views.take(i + 1)));
            }
            i += 1;
        }
        proof {
            assert(views.take(self.observations@.len() as int) =~= views);
        }
        Ok(blake3_hash(buffer.as_slice()))
    }
}

/// The bytes by which a trade enters a flow window's evidence, where it has a source.
fn flow_trade_bytes(trade: &FlowTradeObservation) -> (bytes: Option<Vec<u8>>)
    ensures
        bytes is Some <==> trade@.source is Some,
        bytes is Some ==> bytes->Some_0@ == flow_trade_encoding(trade@),
{
    let source = match &trade.source {
        None => {
            return None;
        },
        Some(source) => source,
    };
    let mut buffer: Vec<u8> = Vec::new();
    put_bytes(&mut buffer, trade.lineage.as_slice());
    proof {
        assert(buffer@ =~= trade@.lineage);
    }
    put_i64(&mut buffer, trade.event_time.value());
    put_i64(&mut buffer, trade.as_known_at.value());
    let price = trade.price.value().to_ascii();
    put_framed(&mut buffer, price.as_slice());
    let quantity = trade.quantity.value().to_ascii();
    put_framed(&mut buffer, quantity.as_slice());
    put_byte(
        &mut buffer,
        match trade.side {
            AggressorSide::Buy => 1,
            AggressorSide::Sell => 2,
        },
    );
    put_framed(&mut buffer, trade.authority.rule_id.as_str().as_bytes());
    put_u32(&mut buffer, trade.authority.rule_version);
    put_byte(
        &mut buffer,
        if trade.authority.inferred {
            1
        } else {
            0
        },
    );
    let label = source.label();
    put_framed(&mut buffer, label.as_bytes());
    put_u32(&mut buffer, trade.quality_score_ppm);
    Some(buffer)
}

/// The authority is among those listed.
pub open spec fn names_authority(
    authorities: Seq<AggressorAuthority>,
    authority: AuthorityView,
) -> bool {
    exists|i: int| 0 <= i < authorities.len() && (#[trigger] authorities[i])@ == authority
}

fn holds_authority(authorities: &Vec<AggressorAuthority>, wanted: &AggressorAuthority) -> (answer:
    bool)
    ensures
        answer == names_authority(authorities@, wanted@),
{
    let mut i: usize = 0;
    while i < authorities.len()
        invariant
            i <= authorities@.len(),
            forall|k: int| 0 <= k < i ==> (#[trigger] authorities@[k])@ != wanted@,
        decreases authorities.len() - i,
    {
        if authorities[i].same(wanted) {
            proof {
                assert(authorities@[i as int]@ == wanted@);
            }
            return true;
        }
        i += 1;
    }
    false
}

fn check_flow(
    sorted: &Vec<FlowTradeObservation>,
    instrument: &InstrumentId,
    start: UnixNanos,
    end: UnixNanos,
    evaluation_time: UnixNanos,
) -> (result: Result<(), FeatureComputationError>)
    ensures
        match flow_refusal(flow_views(sorted@), instrument@, start, end, evaluation_time) {
            Some(error) => result == Err::<(), FeatureComputationError>(error),
            None => result == Ok::<(), FeatureComputationError>(()),
        },
{
    let ghost views = flow_views(sorted@);
    let ghost names = flow_lineages(views);
    let mut lineages: Vec<[u8; 32]> = Vec::new();
    let mut n: usize = 0;
    while n < sorted.len()
        invariant
            n <= sorted@.len(),
            lineages@.len() == n,
            forall|k: int| 0 <= k < n ==> (#[trigger] lineages@[k])@ == sorted@[k]@.lineage,
        decreases sorted.len() - n,
    {
        lineages.push(sorted[n].lineage);
        n += 1;
    }
    proof {
        assert(digest_views(lineages@) =~= names);
    }
    let repeated: Option<usize> = first_repeated_digest(&lineages);
    let mut i: usize = 0;
    proof {
        assert(views.take(0) =~= Seq::empty());
    }
    while i < sorted.len()
        invariant
            i <= sorted@.len(),
            views == flow_views(sorted@),
            names == flow_lineages(views),
            names.len() == sorted@.len(),
            match repeated {
                None => names.no_duplicates(),
                Some(place) => i <= place < names.len() && names.take(place as int).no_duplicates()
                    && names.take(place as int).contains(names[place as int]),
            },
            flow_refusal(views.take(i as int), instrument@, start, end, evaluation_time) is None,
        decreases sorted.len() - i,
    {
        let trade = &sorted[i];
        let ghost before = views.take(i as int);
        let again: bool = match repeated {
            None => false,
            Some(place) => place == i,
        };
        proof {
            assert(views[i as int] == trade@);
            assert(views.take(i + 1).drop_last() =~= before);
            assert(views.take(i + 1).last() == trade@);
            if flow_refusal(views.take(i + 1), instrument@, start, end, evaluation_time) is Some {
                lemma_flow_fails(views, i + 1, instrument@, start, end, evaluation_time);
            }
            if i > 0 {
                assert(before.last() == sorted@[i - 1]@);
            }
            assert(flow_lineages(before) =~= names.take(i as int));
            lemma_repeats(names, repeated, i as int);
        }
        if !trade.instrument.same(instrument) {
            return Err(FeatureComputationError::MixedEntity);
        }
        if trade.event_time.value() < start.value() || trade.event_time.value() >= end.value() {
            return Err(FeatureComputationError::OutsideWindow);
        }
        if trade.as_known_at.value() > evaluation_time.value() {
            return Err(FeatureComputationError::FutureKnowledge);
        }
        if again {
            return Err(FeatureComputationError::DuplicateLineage);
        }
        if i > 0 && trade.as_known_at.value() < sorted[i - 1].as_known_at.value() {
            return Err(FeatureComputationError::NonMonotonicTime);
        }
        i += 1;
    }
    proof {
        assert(views.take(sorted@.len() as int) =~= views);
    }
    Ok(())
}

/// The trades of a window are of one instrument, inside the window, known in time and each of its
/// own lineage, and none is known before the trade before it.
pub proof fn lemma_flow_windows_are_sound(
    trades: Seq<FlowTradeView>,
    instrument: InstrumentView,
    start: UnixNanos,
    end: UnixNanos,
    evaluation_time: UnixNanos,
    i: int,
)
    requires
        flow_refusal(trades, instrument, start, end, evaluation_time) is None,
        0 <= i < trades.len(),
    ensures
        trades[i].instrument == instrument,
        start.nanos <= trades[i].event_time.nanos < end.nanos,
        trades[i].as_known_at.nanos <= evaluation_time.nanos,
        !flow_lineages(trades.take(i)).contains(trades[i].lineage),
        i > 0 ==> trades[i].as_known_at.nanos >= trades[i - 1].as_known_at.nanos,
    decreases trades.len(),
{
    let rest = trades.drop_last();
    if i < trades.len() - 1 {
        lemma_flow_windows_are_sound(rest, instrument, start, end, evaluation_time, i);
        assert(rest.take(i) =~= trades.take(i));
    } else {
        assert(rest =~= trades.take(i));
    }
}

/// An authenticated trade says what its event says: the same side, price and quantity of the same
/// instrument, at the venue's own time. Only a verified event of the instrument's own exchange makes
/// one, and only where it names the aggressor.
pub proof fn lemma_authenticated_trades_keep_their_event(
    event: NormalizedEvent,
    authority: AuthorityView,
)
    requires
        authenticated_trade(event, authority) is Ok,
    ensures
        ({
            let trade = authenticated_trade(event, authority)->Ok_0;
            &&& match event.payload {
                EventPayload::Trade { price, quantity, side } => {
                    &&& trade.price == price
                    &&& trade.quantity == quantity
                    &&& side == TradeSide::Buy ==> trade.side == AggressorSide::Buy
                    &&& side == TradeSide::Sell ==> trade.side == AggressorSide::Sell
                    &&& side != TradeSide::Unknown
                    &&& quantity.units() != 0
                },
                _ => false,
            }
            &&& event.verified && trade.authenticated
            &&& event.metadata.instrument_id is Some
            &&& trade.instrument == event.metadata.instrument_id->Some_0@
            &&& event.metadata.source.kind == crate::domain::SourceKind::Exchange
            &&& event.metadata.source.name@ == event.metadata.instrument_id->Some_0.venue@
            &&& Some(trade.event_time) == event.metadata.event_time_of()
            &&& trade.as_known_at == event.metadata.normalization_timestamp
            &&& trade.event_time.nanos <= trade.as_known_at.nanos
            &&& trade.lineage == event.id@ && trade.lineage != zero_digest()
            &&& trade.source == Some(event.metadata.source@)
            &&& trade.quality_score_ppm == event.metadata.quality_score_ppm
            &&& trade.authority == authority
        }),
{
}

/// The quality of trades is that of the worst of them, and their knowledge that of the last one to
/// be known.
pub proof fn lemma_flow_is_as_good_and_as_known_as_its_worst_trade(trades: Seq<FlowTradeView>)
    ensures
        match lowest_flow_quality(trades) {
            None => trades.len() == 0,
            Some(score) => {
                &&& forall|i: int|
                    0 <= i < trades.len() ==> score <= (#[trigger] trades[i]).quality_score_ppm
                &&& exists|i: int|
                    0 <= i < trades.len() && score == (#[trigger] trades[i]).quality_score_ppm
            },
        },
        match latest_flow_knowledge(trades) {
            None => trades.len() == 0,
            Some(time) => {
                &&& forall|i: int|
                    0 <= i < trades.len() ==> (#[trigger] trades[i]).as_known_at.nanos
                        <= time.nanos
                &&& exists|i: int|
                    0 <= i < trades.len() && time == (#[trigger] trades[i]).as_known_at
            },
        },
    decreases trades.len(),
{
    if trades.len() > 0 {
        let rest = trades.drop_last();
        let last = trades.len() - 1;
        lemma_flow_is_as_good_and_as_known_as_its_worst_trade(rest);
        assert(trades[last] == trades.last());
        assert(forall|i: int| 0 <= i < rest.len() ==> #[trigger] rest[i] == trades[i]);
        assert forall|i: int| 0 <= i < last implies (#[trigger] trades[i]) == rest[i] by {}
        if rest.len() > 0 {
            let score = lowest_flow_quality(rest)->Some_0;
            let i = choose|i: int|
                0 <= i < rest.len() && score == (#[trigger] rest[i]).quality_score_ppm;
            assert(trades[i].quality_score_ppm == score);
            let time = latest_flow_knowledge(rest)->Some_0;
            let k = choose|k: int|
                0 <= k < rest.len() && time == (#[trigger] rest[k]).as_known_at;
            assert(trades[k].as_known_at == time);
        }
    }
}

proof fn lemma_time_leads(a: FlowTradeObservation, b: FlowTradeObservation)
    requires
        !rank_precedes(b.rank(), a.rank()),
    ensures
        a@.event_time.nanos <= b@.event_time.nanos,
{
    assert(a.rank()[0] == a@.event_time.nanos);
    assert(b.rank()[0] == b@.event_time.nanos);
}

/// A window holds every trade that it was given and no other, in the order of event times. It is
/// final when it is evaluated, within its capacity, and its trades are of one instrument and lie
/// inside it.
pub proof fn lemma_flow_windows_hold_their_trades_in_order(
    observations: Seq<FlowTradeObservation>,
    capacity: usize,
    start: UnixNanos,
    end: UnixNanos,
    evaluation_time: UnixNanos,
)
    requires
        flow_window(observations, capacity, start, end, evaluation_time) is Ok,
    ensures
        ({
            let window = flow_window(observations, capacity, start, end, evaluation_time)->Ok_0;
            &&& window.trades.to_multiset() == flow_views(observations).to_multiset()
            &&& 0 < window.trades.len() == observations.len() <= capacity <= 100_000
            &&& forall|i: int, j: int|
                0 <= i < j < window.trades.len() ==> (
                #[trigger] window.trades[i]).event_time.nanos <= (
                #[trigger] window.trades[j]).event_time.nanos
            &&& forall|i: int|
                #![trigger window.trades[i]]
                0 <= i < window.trades.len() ==> {
                    &&& window.trades[i].instrument == window.instrument
                    &&& start.nanos <= window.trades[i].event_time.nanos < end.nanos
                    &&& window.trades[i].as_known_at.nanos <= evaluation_time.nanos
                }
            &&& (window.start, window.end, window.evaluation_time) == (start, end, evaluation_time)
            &&& start.nanos < end.nanos <= evaluation_time.nanos
        }),
{
    let window = flow_window(observations, capacity, start, end, evaluation_time)->Ok_0;
    let sorted = stably_sorted(observations);
    let image = |trade: FlowTradeObservation| trade@;
    crate::ordering::lemma_stably_sorted(observations);
    crate::ordering::lemma_images_keep_members(sorted, observations, image);
    assert(sorted.map_values(image) =~= flow_views(sorted));
    assert(observations.map_values(image) =~= flow_views(observations));
    assert forall|i: int, j: int| 0 <= i < j < window.trades.len() implies (
    #[trigger] window.trades[i]).event_time.nanos <= (
    #[trigger] window.trades[j]).event_time.nanos by {
        assert(!rank_precedes(sorted[j].rank(), sorted[i].rank()));
        lemma_time_leads(sorted[i], sorted[j]);
    }
    assert forall|i: int|
        #![trigger window.trades[i]]
        0 <= i < window.trades.len() implies {
        &&& window.trades[i].instrument == window.instrument
        &&& start.nanos <= window.trades[i].event_time.nanos < end.nanos
        &&& window.trades[i].as_known_at.nanos <= evaluation_time.nanos
    } by {
        lemma_flow_windows_are_sound(
            window.trades,
            window.instrument,
            start,
            end,
            evaluation_time,
            i,
        );
    }
}

} // verus!
