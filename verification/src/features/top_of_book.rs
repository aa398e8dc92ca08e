//! Runs of inside quotes: order-flow imbalance and how long a side has stood still.

use vstd::prelude::*;

use super::book_evidence::{
    elapsed, elapsed_ns, vouches_for_book, BookEvidencePolicy, BookEvidenceView,
    BookStateEvidence, PolicyView,
};
use super::orderbook::{book_refusal, inside, inside_levels, nothing, require_normal_book};
use super::orderflow::{event_precedes, event_rank, MAX_FLOW_TRADES};
use super::{difference_exact, exact, sum_exact, FeatureComputationError};
use crate::book::{BookSession, BookSnapshotView};
use crate::decimal::{
    lemma_decimal_of_units_places, lemma_exact_arithmetic, lemma_minus_units,
    lemma_moderate_sums_exist, lemma_nothing_is_within, lemma_plus_units, lemma_wider,
    lemma_zero_units, FixedDecimal, Price, Quantity, MAX_DECIMAL_SCALE,
};
use crate::digest::{is_zero_digest, zero_digest};
use crate::domain::{InstrumentId, InstrumentView, UnixNanos};
use crate::ordering::{
    digest_views, first_repeated_digest, lemma_repeats, sort_stably, stably_sorted, Ranked,
};

verus! {

/// The contents of a [`TopOfBookObservation`].
pub struct QuoteView {
    pub instrument: InstrumentView,
    pub session: BookSession,
    pub evidence_policy: PolicyView,
    pub last_source_sequence: u64,
    pub event_time: UnixNanos,
    pub as_known_at: UnixNanos,
    pub lineage: Seq<u8>,
    pub bid_price: Price,
    pub bid_quantity: Quantity,
    pub ask_price: Price,
    pub ask_quantity: Quantity,
    pub authenticated: bool,
}

/// The inside quotes of a book at one time.
#[derive(Debug)]
pub struct TopOfBookObservation {
    instrument: InstrumentId,
    session: BookSession,
    evidence_policy: BookEvidencePolicy,
    last_source_sequence: u64,
    event_time: UnixNanos,
    as_known_at: UnixNanos,
    lineage: [u8; 32],
    bid_price: Price,
    bid_quantity: Quantity,
    ask_price: Price,
    ask_quantity: Quantity,
    authenticated: bool,
}

impl View for TopOfBookObservation {
    type V = QuoteView;

    closed spec fn view(&self) -> QuoteView {
        QuoteView {
            instrument: self.instrument@,
            session: self.session,
            evidence_policy: self.evidence_policy@,
            last_source_sequence: self.last_source_sequence,
            event_time: self.event_time,
            as_known_at: self.as_known_at,
            lineage: self.lineage@,
            bid_price: self.bid_price,
            bid_quantity: self.bid_quantity,
            ask_price: self.ask_price,
            ask_quantity: self.ask_quantity,
            authenticated: self.authenticated,
        }
    }
}

/// The inside quotes of a book, or why it shows none.
pub open spec fn quote_of_book(
    book: BookSnapshotView,
    policy: PolicyView,
    event_time: UnixNanos,
    as_known_at: UnixNanos,
    lineage: Seq<u8>,
    authenticated: bool,
) -> Result<QuoteView, FeatureComputationError> {
    if book_refusal(book) is Some {
        Err(book_refusal(book)->Some_0)
    } else if as_known_at.nanos < event_time.nanos || lineage == zero_digest() {
        Err(FeatureComputationError::InvalidInput)
    } else {
        match inside(book) {
            Err(error) => Err(error),
            Ok((bid, ask)) => Ok(
                QuoteView {
                    instrument: book.instrument@,
                    session: book.session,
                    evidence_policy: policy,
                    last_source_sequence: book.last_source_sequence,
                    event_time,
                    as_known_at,
                    lineage,
                    bid_price: bid.price,
                    bid_quantity: bid.quantity,
                    ask_price: ask.price,
                    ask_quantity: ask.quantity,
                    authenticated,
                },
            ),
        }
    }
}

/// What a quote computation returned, by its contents.
pub open spec fn quote_outcome(
    result: Result<TopOfBookObservation, FeatureComputationError>,
) -> Result<QuoteView, FeatureComputationError> {
    match result {
        Ok(quote) => Ok(quote@),
        Err(error) => Err(error),
    }
}

/// The inside quotes of a book that evidence vouches for, or why there are none.
pub open spec fn vouched_quote(
    book: BookSnapshotView,
    policy: PolicyView,
    evidence: BookEvidenceView,
) -> Result<QuoteView, FeatureComputationError> {
    if !vouches_for_book(evidence, book) {
        Err(FeatureComputationError::UntrustedInput)
    } else {
        quote_of_book(
            book,
            policy,
            evidence.event_time,
            evidence.as_known_at,
            evidence.lineage,
            true,
        )
    }
}

impl TopOfBookObservation {
    pub fn from_snapshot(
        book: &BookSnapshotView,
        evidence_policy: BookEvidencePolicy,
        event_time: UnixNanos,
        as_known_at: UnixNanos,
        lineage: [u8; 32],
    ) -> (result: Result<Self, FeatureComputationError>)
        ensures
            quote_outcome(result) == quote_of_book(
                *book,
                evidence_policy@,
                event_time,
                as_known_at,
                lineage@,
                false,
            ),
    {
        require_normal_book(book)?;
        if as_known_at.value() < event_time.value() || is_zero_digest(&lineage) {
            return Err(FeatureComputationError::InvalidInput);
        }
        let (bid, ask) = inside_levels(book)?;
        Ok(
            TopOfBookObservation {
                instrument: book.instrument.clone(),
                session: book.session,
                evidence_policy,
                last_source_sequence: book.last_source_sequence,
                event_time,
                as_known_at,
                lineage,
                bid_price: bid.price,
                bid_quantity: bid.quantity,
                ask_price: ask.price,
                ask_quantity: ask.quantity,
                authenticated: false,
            },
        )
    }

    pub fn from_authenticated_snapshot(
        book: &BookSnapshotView,
        evidence_policy: BookEvidencePolicy,
        evidence: &BookStateEvidence,
    ) -> (result: Result<Self, FeatureComputationError>)
        ensures
            quote_outcome(result) == vouched_quote(*book, evidence_policy@, evidence@),
    {
        if !evidence.matches(book) {
            return Err(FeatureComputationError::UntrustedInput);
        }
        let quote = Self::from_snapshot(
            book,
            evidence_policy,
            evidence.event_time(),
            evidence.as_known_at(),
            evidence.lineage(),
        )?;
        Ok(TopOfBookObservation { authenticated: true, ..quote })
    }

    pub fn event_time(&self) -> (time: UnixNanos)
        ensures
            time == self@.event_time,
    {
        self.event_time
    }

    pub fn as_known_at(&self) -> (time: UnixNanos)
        ensures
            time == self@.as_known_at,
    {
        self.as_known_at
    }

    pub fn lineage(&self) -> (lineage: [u8; 32])
        ensures
            lineage@ == self@.lineage,
    {
        self.lineage
    }

    pub fn is_authenticated(&self) -> (answer: bool)
        ensures
            answer == self@.authenticated,
    {
        self.authenticated
    }

    pub(crate) fn instrument(&self) -> (instrument: &InstrumentId)
        ensures
            instrument@ == self@.instrument,
    {
        &self.instrument
    }

    pub(crate) fn inside_prices(&self) -> (prices: (Price, Price))
        ensures
            prices == (self@.bid_price, self@.ask_price),
    {
        (self.bid_price, self.ask_price)
    }
}

impl Ranked for TopOfBookObservation {
    open spec fn rank(&self) -> Seq<int> {
        event_rank(self@.event_time, self@.lineage)
    }

    fn precedes(&self, other: &Self) -> (before: bool) {
        event_precedes(self.event_time, &self.lineage, other.event_time, &other.lineage)
    }
}

/// The contents of a list of quotes.
pub open spec fn quote_views(quotes: Seq<TopOfBookObservation>) -> Seq<QuoteView> {
    Seq::new(quotes.len(), |i: int| quotes[i]@)
}

pub open spec fn quote_lineages(quotes: Seq<QuoteView>) -> Seq<Seq<u8>> {
    Seq::new(quotes.len(), |i: int| quotes[i].lineage)
}

/// Why a quote does not belong behind the quotes before it, if it does not.
pub open spec fn quote_step_refusal(
    quotes: Seq<QuoteView>,
    i: int,
    evaluation_time: UnixNanos,
) -> Option<FeatureComputationError> {
    let quote = quotes[i];
    let first = quotes[0];
    if quote.instrument != first.instrument {
        Some(FeatureComputationError::MixedEntity)
    } else if quote.session != first.session || quote.evidence_policy != first.evidence_policy {
        Some(FeatureComputationError::SourceHealthChanged)
    } else if quote.as_known_at.nanos > evaluation_time.nanos {
        Some(FeatureComputationError::FutureKnowledge)
    } else if quote_lineages(quotes).take(i).contains(quote.lineage) {
        Some(FeatureComputationError::DuplicateLineage)
    } else if i > 0 && (quote.last_source_sequence <= quotes[i - 1].last_source_sequence
        || quote.as_known_at.nanos < quotes[i - 1].as_known_at.nanos) {
        Some(FeatureComputationError::NonMonotonicTime)
    } else {
        None
    }
}

/// The first failure among quotes from a place on, if there is one.
pub open spec fn quotes_refusal(
    quotes: Seq<QuoteView>,
    from: int,
    evaluation_time: UnixNanos,
) -> Option<FeatureComputationError>
    decreases quotes.len() - from,
{
    if from >= quotes.len() {
        None
    } else {
        match quote_step_refusal(quotes, from, evaluation_time) {
            Some(error) => Some(error),
            None => quotes_refusal(quotes, from + 1, evaluation_time),
        }
    }
}

/// The inside quotes of one book session in event order: at least two.
#[derive(Debug)]
pub struct TopOfBookWindow {
    observations: Vec<TopOfBookObservation>,
    evaluation_time: UnixNanos,
}

/// The quotes of a window and its evaluation time.
pub type QuoteWindowView = (Seq<QuoteView>, UnixNanos);

impl View for TopOfBookWindow {
    type V = QuoteWindowView;

    closed spec fn view(&self) -> QuoteWindowView {
        (quote_views(self.observations@), self.evaluation_time)
    }
}

/// The window that quotes make, or why they make none.
pub open spec fn quote_window(
    observations: Seq<TopOfBookObservation>,
    capacity: usize,
    evaluation_time: UnixNanos,
) -> Result<QuoteWindowView, FeatureComputationError> {
    let quotes = quote_views(stably_sorted(observations));
    if capacity == 0 || capacity > MAX_FLOW_TRADES {
        Err(FeatureComputationError::InvalidParameter)
    } else if observations.len() < 2 {
        Err(FeatureComputationError::InsufficientHistory)
    } else if observations.len() > capacity {
        Err(FeatureComputationError::CapacityExceeded)
    } else {
        match quotes_refusal(quotes, 0, evaluation_time) {
            Some(error) => Err(error),
            None => Ok((quotes, evaluation_time)),
        }
    }
}

impl TopOfBookWindow {
    #[verifier::type_invariant]
    spec fn has_two(self) -> bool {
        self.observations@.len() >= 2
    }

    pub fn new(
        observations: Vec<TopOfBookObservation>,
        capacity: usize,
        evaluation_time: UnixNanos,
    ) -> (result: Result<Self, FeatureComputationError>)
        ensures
            match quote_window(observations@, capacity, evaluation_time) {
                Err(error) => result is Err && result->Err_0 == error,
                Ok(window) => result is Ok && result->Ok_0@ == window,
            },
    {
        if capacity == 0 || capacity > MAX_FLOW_TRADES {
            return Err(FeatureComputationError::InvalidParameter);
        }
        if observations.len() < 2 {
            return Err(FeatureComputationError::InsufficientHistory);
        }
        if observations.len() > capacity {
            return Err(FeatureComputationError::CapacityExceeded);
        }
        let sorted = sort_stably(observations);
        check_quotes(&sorted, evaluation_time)?;
        Ok(TopOfBookWindow { observations: sorted, evaluation_time })
    }

    pub fn observations(&self) -> (observations: &Vec<TopOfBookObservation>)
        ensures
            quote_views(observations@) == self@.0,
            observations@.len() >= 2,
    {
        proof {
            use_type_invariant(self);
        }
        &self.observations
    }

    pub fn evaluation_time(&self) -> (time: UnixNanos)
        ensures
            time == self@.1,
    {
        self.evaluation_time
    }
}

fn check_quotes(sorted: &Vec<TopOfBookObservation>, evaluation_time: UnixNanos) -> (result: Result<
    (),
    FeatureComputationError,
>)
    requires
        sorted@.len() > 0,
    ensures
        match quotes_refusal(quote_views(sorted@), 0, evaluation_time) {
            Some(error) => result == Err::<(), FeatureComputationError>(error),
            None => result == Ok::<(), FeatureComputationError>(()),
        },
{
    let ghost views = quote_views(sorted@);
    let ghost names = quote_lineages(views);
    let mut lineages: Vec<[u8; 32]> = Vec::new();
    let mut n: usize = 0;
    while n < sorted.len()
        invariant
            n <= sorted@.len(),
            lineages@.len() == n,
            forall|k: int| 0 <= k < n ==> (#[trigger] lineages@[k])@ == sorted@[k]@.lineage,
        decreases sorted.len() - n,
    {
        lineages.push(sorted[n].lineage);
        n += 1;
    }
    proof {
        assert(digest_views(lineages@) =~= names);
    }
    let repeated: Option<usize> = first_repeated_digest(&lineages);
    let first = &sorted[0];
    let mut i: usize = 0;
    while i < sorted.len()
        invariant
            i <= sorted@.len(),
            sorted@.len() > 0,
            *first == sorted@[0],
            views == quote_views(sorted@),
            names == quote_lineages(views),
            names.len() == sorted@.len(),
            match repeated {
                None => names.no_duplicates(),
                Some(place) => i <= place < names.len() && names.take(place as int).no_duplicates()
                    && names.take(place as int).contains(names[place as int]),
            },
            quotes_refusal(views, 0, evaluation_time) == quotes_refusal(
                views,
                i as int,
                evaluation_time,
            ),
        decreases sorted.len() - i,
    {
        let quote = &sorted[i];
        let again: bool = match repeated {
            None => false,
            Some(place) => place == i,
        };
        proof {
            assert(views[i as int] == sorted@[i as int]@);
            assert(views[0] == sorted@[0]@);
            lemma_repeats(names, repeated, i as int);
        }
        if !quote.instrument.same(&first.instrument) {
            return Err(FeatureComputationError::MixedEntity);
        }
        if quote.session != first.session || !quote.evidence_policy.same(&first.evidence_policy) {
            return Err(FeatureComputationError::SourceHealthChanged);
        }
        if quote.as_known_at.value() > evaluation_time.value() {
            return Err(FeatureComputationError::FutureKnowledge);
        }
        if again {
            return Err(FeatureComputationError::DuplicateLineage);
        }
        if i > 0 {
            let previous = &sorted[i - 1];
            proof {
                assert(views[i - 1] == sorted@[i - 1]@);
            }
            if quote.last_source_sequence <= previous.last_source_sequence
                || quote.as_known_at.value() < previous.as_known_at.value() {
                return Err(FeatureComputationError::NonMonotonicTime);
            }
        }
        i += 1;
    }
    Ok(())
}

#[derive(Clone, Copy, Debug, PartialEq, Eq, Structural)]
pub enum BookQuoteSide {
    Bid,
    Ask,
}

/// How long one side of a book has stood still, and for how much longer than allowed.
#[derive(Clone, Copy, Debug, PartialEq, Eq, Structural)]
pub struct QuoteSideStaleness {
    pub quote_age_ns: u64,
    pub stale_duration_ns: u64,
}

impl QuoteSideStaleness {
    pub fn quote_age_ns(self) -> (age: u64)
        ensures
            age == self.quote_age_ns,
    {
        self.quote_age_ns
    }

    pub fn stale_duration_ns(self) -> (duration: u64)
        ensures
            duration == self.stale_duration_ns,
    {
        self.stale_duration_ns
    }
}

/// How long both sides of a book have stood still.
#[derive(Clone, Copy, Debug, PartialEq, Eq, Structural)]
pub struct TopOfBookSideStaleness {
    pub bid: QuoteSideStaleness,
    pub ask: QuoteSideStaleness,
}

impl TopOfBookSideStaleness {
    pub fn bid_quote_age_ns(self) -> (age: u64)
        ensures
            age == self.bid.quote_age_ns,
    {
        self.bid.quote_age_ns
    }

    pub fn ask_quote_age_ns(self) -> (age: u64)
        ensures
            age == self.ask.quote_age_ns,
    {
        self.ask.quote_age_ns
    }

    pub fn bid_stale_duration_ns(self) -> (duration: u64)
        ensures
            duration == self.bid.stale_duration_ns,
    {
        self.bid.stale_duration_ns
    }

    pub fn ask_stale_duration_ns(self) -> (duration: u64)
        ensures
            duration == self.ask.stale_duration_ns,
    {
        self.ask.stale_duration_ns
    }
}

/// The price or the quantity of a side differs between two quotes.
pub open spec fn side_changed(previous: QuoteView, current: QuoteView, side: BookQuoteSide) -> bool {
    match side {
        BookQuoteSide::Bid => current.bid_price.units() != previous.bid_price.units()
            || current.bid_quantity.units() != previous.bid_quantity.units(),
        BookQuoteSide::Ask => current.ask_price.units() != previous.ask_price.units()
            || current.ask_quantity.units() != previous.ask_quantity.units(),
    }
}

/// The time of the last change of a side among quotes, if it changed.
pub open spec fn last_change(quotes: Seq<QuoteView>, side: BookQuoteSide) -> Option<UnixNanos>
    decreases quotes.len(),
{
    if quotes.len() < 2 {
        None
    } else if side_changed(quotes[quotes.len() - 2], quotes.last(), side) {
        Some(quotes.last().event_time)
    } else {
        last_change(quotes.drop_last(), side)
    }
}

/// How long a side has stood still at a time, or why that cannot be told.
pub open spec fn side_staleness(
    window: QuoteWindowView,
    side: BookQuoteSide,
    as_of: UnixNanos,
    stale_after_ns: u64,
) -> Result<QuoteSideStaleness, FeatureComputationError> {
    if stale_after_ns == 0 {
        Err(FeatureComputationError::InvalidParameter)
    } else if as_of.nanos < window.0.last().event_time.nanos || as_of.nanos > window.1.nanos {
        Err(FeatureComputationError::FutureKnowledge)
    } else {
        match last_change(window.0, side) {
            None => Err(FeatureComputationError::InsufficientHistory),
            Some(change) => match elapsed(change, as_of) {
                Err(error) => Err(error),
                Ok(quote_age_ns) => Ok(
                    QuoteSideStaleness {
                        quote_age_ns,
                        stale_duration_ns: if quote_age_ns < stale_after_ns {
                            0
                        } else {
                            (quote_age_ns - stale_after_ns) as u64
                        },
                    },
                ),
            },
        }
    }
}

pub fn top_of_book_staleness_for_side(
    window: &TopOfBookWindow,
    side: BookQuoteSide,
    as_of_event_time: UnixNanos,
    stale_after_ns: u64,
) -> (result: Result<QuoteSideStaleness, FeatureComputationError>)
    ensures
        result == side_staleness(window@, side, as_of_event_time, stale_after_ns),
{
    if stale_after_ns == 0 {
        return Err(FeatureComputationError::InvalidParameter);
    }
    let quotes = window.observations();
    let ghost views = window@.0;
    let last = &quotes[quotes.len() - 1];
    proof {
        assert(views.last() == last@);
    }
    if as_of_event_time.value() < last.event_time.value() || as_of_event_time.value()
        > window.evaluation_time.value() {
        return Err(FeatureComputationError::FutureKnowledge);
    }
    let mut change: Option<UnixNanos> = None;
    let mut i: usize = 1;
    while i < quotes.len()
        invariant
            1 <= i <= quotes@.len(),
            views == quote_views(quotes@),
            change == last_change(views.take(i as int), side),
        decreases quotes.len() - i,
    {
        let previous = &quotes[i - 1];
        let current = &quotes[i];
        proof {
            assert(views.take(i + 1).drop_last() =~= views.take(i as int));
            assert(views.take(i + 1).last() == current@);
            assert(views.take(i + 1)[i - 1] == previous@);
        }
        let changed: bool = match side {
            BookQuoteSide::Bid => !current.bid_price.value().equals(&previous.bid_price.value())
                || !current.bid_quantity.value().equals(&previous.bid_quantity.value()),
            BookQuoteSide::Ask => !current.ask_price.value().equals(&previous.ask_price.value())
                || !current.ask_quantity.value().equals(&previous.ask_quantity.value()),
        };
        if changed {
            change = Some(current.event_time);
        }
        i += 1;
    }
    proof {
        assert(views.take(quotes@.len() as int) =~= views);
    }
    let since = match change {
        None => {
            return Err(FeatureComputationError::InsufficientHistory);
        },
        Some(since) => since,
    };
    let quote_age_ns: u64 = elapsed_ns(since, as_of_event_time)?;
    let stale_duration_ns: u64 = if quote_age_ns < stale_after_ns {
        0
    } else {
        quote_age_ns - stale_after_ns
    };
    Ok(QuoteSideStaleness { quote_age_ns, stale_duration_ns })
}

/// The staleness of both sides, or why one of them has none.
pub open spec fn both_sides_staleness(
    window: QuoteWindowView,
    as_of: UnixNanos,
    stale_after_ns: u64,
) -> Result<TopOfBookSideStaleness, FeatureComputationError> {
    match (
        side_staleness(window, BookQuoteSide::Bid, as_of, stale_after_ns),
        side_staleness(window, BookQuoteSide::Ask, as_of, stale_after_ns),
    ) {
        (Err(error), _) => Err(error),
        (Ok(_), Err(error)) => Err(error),
        (Ok(bid), Ok(ask)) => Ok(TopOfBookSideStaleness { bid, ask }),
    }
}

pub fn top_of_book_side_staleness(
    window: &TopOfBookWindow,
    as_of_event_time: UnixNanos,
    stale_after_ns: u64,
) -> (result: Result<TopOfBookSideStaleness, FeatureComputationError>)
    ensures
        result == match (
            side_staleness(window@, BookQuoteSide::Bid, as_of_event_time, stale_after_ns),
            side_staleness(window@, BookQuoteSide::Ask, as_of_event_time, stale_after_ns),
        ) {
            (Err(error), _) => Err::<TopOfBookSideStaleness, FeatureComputationError>(error),
            (Ok(_), Err(error)) => Err(error),
            (Ok(bid), Ok(ask)) => Ok((TopOfBookSideStaleness { bid, ask })),
        },
        result == both_sides_staleness(window@, as_of_event_time, stale_after_ns),
{
    let bid = top_of_book_staleness_for_side(
        window,
        BookQuoteSide::Bid,
        as_of_event_time,
        stale_after_ns,
    )?;
    let ask = top_of_book_staleness_for_side(
        window,
        BookQuoteSide::Ask,
        as_of_event_time,
        stale_after_ns,
    )?;
    Ok(TopOfBookSideStaleness { bid, ask })
}

pub open spec fn plus_if(
    value: Result<FixedDecimal, FeatureComputationError>,
    condition: bool,
    term: FixedDecimal,
) -> Result<FixedDecimal, FeatureComputationError> {
    match value {
        Err(error) => Err(error),
        Ok(value) => if condition {
            exact(value.plus(term))
        } else {
            Ok(value)
        },
    }
}

pub open spec fn minus_if(
    value: Result<FixedDecimal, FeatureComputationError>,
    condition: bool,
    term: FixedDecimal,
) -> Result<FixedDecimal, FeatureComputationError> {
    match value {
        Err(error) => Err(error),
        Ok(value) => if condition {
            exact(value.minus(term))
        } else {
            Ok(value)
        },
    }
}

/// What one change of the inside adds to the order-flow imbalance: a bid that holds or rises adds
/// its new size, one that holds or falls takes off its old size, and asks count the other way.
pub open spec fn flow_increment(previous: QuoteView, current: QuoteView) -> Result<
    FixedDecimal,
    FeatureComputationError,
> {
    let risen = plus_if(
        Ok(nothing()),
        current.bid_price.units() >= previous.bid_price.units(),
        current.bid_quantity.amount(),
    );
    let fallen = minus_if(
        risen,
        current.bid_price.units() <= previous.bid_price.units(),
        previous.bid_quantity.amount(),
    );
    let offered = minus_if(
        fallen,
        current.ask_price.units() <= previous.ask_price.units(),
        current.ask_quantity.amount(),
    );
    plus_if(
        offered,
        current.ask_price.units() >= previous.ask_price.units(),
        previous.ask_quantity.amount(),
    )
}

/// The order-flow imbalance of quotes.
pub open spec fn order_flow(quotes: Seq<QuoteView>) -> Result<FixedDecimal, FeatureComputationError>
    decreases quotes.len(),
{
    if quotes.len() < 2 {
        Ok(nothing())
    } else {
        match order_flow(quotes.drop_last()) {
            Err(error) => Err(error),
            Ok(total) => match flow_increment(quotes[quotes.len() - 2], quotes.last()) {
                Err(error) => Err(error),
                Ok(increment) => exact(total.plus(increment)),
            },
        }
    }
}

proof fn lemma_order_flow_fails(quotes: Seq<QuoteView>, count: int)
    requires
        1 <= count <= quotes.len(),
        order_flow(quotes.take(count)) is Err,
    ensures
        order_flow(quotes) == order_flow(quotes.take(count)),
    decreases quotes.len() - count,
{
    if count < quotes.len() {
        assert(quotes.take(count + 1).drop_last() =~= quotes.take(count));
        lemma_order_flow_fails(quotes, count + 1);
    } else {
        assert(quotes.take(count) =~= quotes);
    }
}

fn flow_increment_of(previous: &TopOfBookObservation, current: &TopOfBookObservation) -> (result:
    Result<FixedDecimal, FeatureComputationError>)
    ensures
        result == flow_increment(previous@, current@),
{
    let mut increment = FixedDecimal::zero();
    if !current.bid_price.is_below(&previous.bid_price) {
        increment = sum_exact(increment, current.bid_quantity.value())?;
    }
    if !previous.bid_price.is_below(&current.bid_price) {
        increment = difference_exact(increment, previous.bid_quantity.value())?;
    }
    if !previous.ask_price.is_below(&current.ask_price) {
        increment = difference_exact(increment, current.ask_quantity.value())?;
    }
    if !current.ask_price.is_below(&previous.ask_price) {
        increment = sum_exact(increment, previous.ask_quantity.value())?;
    }
    Ok(increment)
}

pub fn top_of_book_ofi(window: &TopOfBookWindow) -> (result: Result<
    FixedDecimal,
    FeatureComputationError,
>)
    ensures
        result == order_flow(window@.0),
{
    let quotes = window.observations();
    let ghost views = window@.0;
    let mut total = FixedDecimal::zero();
    let mut i: usize = 1;
    while i < quotes.len()
        invariant
            1 <= i <= quotes@.len(),
            views == quote_views(quotes@),
            views == window@.0,
            order_flow(views.take(i as int)) == Ok::<FixedDecimal, FeatureComputationError>(total),
        decreases quotes.len() - i,
    {
        proof {
            assert(views.take(i + 1).drop_last() =~= views.take(i as int));
            assert(views.take(i + 1).last() == quotes@[i as int]@);
            assert(views.take(i + 1)[i - 1] == quotes@[i - 1]@);
            if order_flow(views.take(i + 1)) is Err {
                lemma_order_flow_fails(views, i + 1);
            }
        }
        let increment = flow_increment_of(&quotes[i - 1], &quotes[i])?;
        total = sum_exact(total, increment)?;
        i += 1;
    }
    proof {
        assert(views.take(quotes@.len() as int) =~= views);
    }
    Ok(total)
}

/// The quotes of a window are of one book session under one policy, each of its own lineage, in
/// the order of their sequences, and known in time.
pub proof fn lemma_quote_windows_are_sound(
    quotes: Seq<QuoteView>,
    evaluation_time: UnixNanos,
    i: int,
)
    requires
        quotes_refusal(quotes, 0, evaluation_time) is None,
        0 <= i < quotes.len(),
    ensures
        quotes[i].instrument == quotes[0].instrument,
        quotes[i].session == quotes[0].session,
        quotes[i].evidence_policy == quotes[0].evidence_policy,
        quotes[i].as_known_at.nanos <= evaluation_time.nanos,
        !quote_lineages(quotes).take(i).contains(quotes[i].lineage),
        i > 0 ==> quotes[i - 1].last_source_sequence < quotes[i].last_source_sequence,
{
    lemma_quote_steps_pass(quotes, 0, evaluation_time, i);
}

proof fn lemma_quote_steps_pass(
    quotes: Seq<QuoteView>,
    from: int,
    evaluation_time: UnixNanos,
    i: int,
)
    requires
        quotes_refusal(quotes, from, evaluation_time) is None,
        from <= i < quotes.len(),
    ensures
        quote_step_refusal(quotes, i, evaluation_time) is None,
    decreases i - from,
{
    if from < i {
        lemma_quote_steps_pass(quotes, from + 1, evaluation_time, i);
    }
}

/// Quotes that stand still carry no flow: where neither side changes, the imbalance is zero.
pub proof fn lemma_still_quotes_carry_no_flow(quotes: Seq<QuoteView>)
    requires
        order_flow(quotes) is Ok,
        forall|i: int|
            0 <= i < quotes.len() ==> (#[trigger] quotes[i]).bid_quantity.amount().places()
                <= MAX_DECIMAL_SCALE && quotes[i].ask_quantity.amount().places()
                <= MAX_DECIMAL_SCALE && !side_changed(quotes[0], quotes[i], BookQuoteSide::Bid)
                && !side_changed(quotes[0], quotes[i], BookQuoteSide::Ask),
    ensures
        order_flow(quotes)->Ok_0.units() == 0,
        order_flow(quotes)->Ok_0.places() <= MAX_DECIMAL_SCALE,
    decreases quotes.len(),
{
    lemma_zero_units();
    if quotes.len() >= 2 {
        let rest = quotes.drop_last();
        let previous = quotes[quotes.len() - 2];
        let current = quotes.last();
        assert(current == quotes[quotes.len() - 1]);
        assert forall|i: int| 0 <= i < rest.len() implies (
        #[trigger] rest[i]).bid_quantity.amount().places() <= MAX_DECIMAL_SCALE
            && rest[i].ask_quantity.amount().places() <= MAX_DECIMAL_SCALE && !side_changed(
            rest[0],
            rest[i],
            BookQuoteSide::Bid,
        ) && !side_changed(rest[0], rest[i], BookQuoteSide::Ask) by {
            assert(rest[i] == quotes[i]);
        }
        lemma_still_quotes_carry_no_flow(rest);
        let first = nothing().plus(current.bid_quantity.amount())->Some_0;
        let second = first.minus(previous.bid_quantity.amount())->Some_0;
        let third = second.minus(current.ask_quantity.amount())->Some_0;
        let fourth = third.plus(previous.ask_quantity.amount())->Some_0;
        lemma_plus_units(nothing(), current.bid_quantity.amount());
        lemma_decimal_of_units_places(nothing().units() + current.bid_quantity.units());
        lemma_minus_units(first, previous.bid_quantity.amount());
        lemma_decimal_of_units_places(first.units() - previous.bid_quantity.units());
        lemma_minus_units(second, current.ask_quantity.amount());
        lemma_decimal_of_units_places(second.units() - current.ask_quantity.units());
        lemma_plus_units(third, previous.ask_quantity.amount());
        lemma_decimal_of_units_places(third.units() + previous.ask_quantity.units());
        assert(fourth.units() == 0);
        let total = order_flow(rest)->Ok_0;
        lemma_plus_units(total, fourth);
        lemma_decimal_of_units_places(total.units() + fourth.units());
    }
}

/// What holds of the inside of every quote.
pub open spec fn quote_is_valid(quote: QuoteView) -> bool {
    &&& quote.bid_price.is_valid()
    &&& quote.ask_price.is_valid()
    &&& quote.bid_quantity.is_valid()
    &&& quote.ask_quantity.is_valid()
}

/// Every quote of a list is valid.
pub open spec fn quotes_are_valid(quotes: Seq<QuoteView>) -> bool {
    forall|i: int| 0 <= i < quotes.len() ==> quote_is_valid(#[trigger] quotes[i])
}

/// The price and the quantity of a side are the same in both quotes.
pub open spec fn stands_still(previous: QuoteView, current: QuoteView, side: BookQuoteSide) -> bool {
    match side {
        BookQuoteSide::Bid => previous.bid_price == current.bid_price && previous.bid_quantity
            == current.bid_quantity,
        BookQuoteSide::Ask => previous.ask_price == current.ask_price && previous.ask_quantity
            == current.ask_quantity,
    }
}

proof fn lemma_increment_units(previous: QuoteView, current: QuoteView)
    requires
        quote_is_valid(previous),
        quote_is_valid(current),
        flow_increment(previous, current) is Ok,
    ensures
        flow_increment(previous, current)->Ok_0.in_scale(),
        flow_increment(previous, current)->Ok_0.units() == (if current.bid_price.units()
            > previous.bid_price.units() {
            current.bid_quantity.units()
        } else if current.bid_price.units() < previous.bid_price.units() {
            -previous.bid_quantity.units()
        } else {
            current.bid_quantity.units() - previous.bid_quantity.units()
        }) + (if current.ask_price.units() > previous.ask_price.units() {
            previous.ask_quantity.units()
        } else if current.ask_price.units() < previous.ask_price.units() {
            -current.ask_quantity.units()
        } else {
            previous.ask_quantity.units() - current.ask_quantity.units()
        }),
{
    lemma_zero_units();
    let risen = plus_if(
        Ok(nothing()),
        previous.bid_price.units() <= current.bid_price.units(),
        current.bid_quantity.amount(),
    );
    let fallen = minus_if(
        risen,
        previous.bid_price.units() >= current.bid_price.units(),
        previous.bid_quantity.amount(),
    );
    let offered = minus_if(
        fallen,
        previous.ask_price.units() >= current.ask_price.units(),
        current.ask_quantity.amount(),
    );
    lemma_exact_arithmetic(nothing(), current.bid_quantity.amount());
    lemma_exact_arithmetic(risen->Ok_0, previous.bid_quantity.amount());
    lemma_exact_arithmetic(fallen->Ok_0, current.ask_quantity.amount());
    lemma_exact_arithmetic(offered->Ok_0, previous.ask_quantity.amount());
}

/// A bid that rises adds what is bid now, and one that falls takes off what was bid before; an ask
/// that rises adds what was asked before, and one that falls takes off what is asked now. A side
/// whose price holds counts by how its quantity changes, a bid for what it gains and an ask for
/// what it loses.
pub proof fn lemma_increments_follow_the_side_that_moves(previous: QuoteView, current: QuoteView)
    requires
        quote_is_valid(previous),
        quote_is_valid(current),
        flow_increment(previous, current) is Ok,
    ensures
        stands_still(previous, current, BookQuoteSide::Ask) ==> {
            let flow = flow_increment(previous, current)->Ok_0.units();
            &&& current.bid_price.units() > previous.bid_price.units() ==> flow
                == current.bid_quantity.units()
            &&& current.bid_price.units() < previous.bid_price.units() ==> flow
                == -previous.bid_quantity.units()
            &&& current.bid_price == previous.bid_price ==> flow == current.bid_quantity.units()
                - previous.bid_quantity.units()
        },
        stands_still(previous, current, BookQuoteSide::Bid) ==> {
            let flow = flow_increment(previous, current)->Ok_0.units();
            &&& current.ask_price.units() > previous.ask_price.units() ==> flow
                == previous.ask_quantity.units()
            &&& current.ask_price.units() < previous.ask_price.units() ==> flow
                == -current.ask_quantity.units()
            &&& current.ask_price == previous.ask_price ==> flow == previous.ask_quantity.units()
                - current.ask_quantity.units()
        },
{
    lemma_increment_units(previous, current);
}

/// Exchanging the previous and the current quote negates what the change adds.
pub proof fn lemma_increments_are_antisymmetric(previous: QuoteView, current: QuoteView)
    requires
        quote_is_valid(previous),
        quote_is_valid(current),
        flow_increment(previous, current) is Ok,
        flow_increment(current, previous) is Ok,
    ensures
        flow_increment(current, previous)->Ok_0.units() == -flow_increment(
            previous,
            current,
        )->Ok_0.units(),
{
    lemma_increment_units(previous, current);
    lemma_increment_units(current, previous);
}

/// The two sides count apart: a change of both adds what the changes of each add.
pub proof fn lemma_sides_count_apart(
    previous: QuoteView,
    current: QuoteView,
    bid_only: QuoteView,
    ask_only: QuoteView,
)
    requires
        quote_is_valid(previous),
        quote_is_valid(current),
        quote_is_valid(bid_only),
        quote_is_valid(ask_only),
        stands_still(bid_only, current, BookQuoteSide::Bid),
        stands_still(bid_only, previous, BookQuoteSide::Ask),
        stands_still(ask_only, current, BookQuoteSide::Ask),
        stands_still(ask_only, previous, BookQuoteSide::Bid),
        flow_increment(previous, current) is Ok,
        flow_increment(previous, bid_only) is Ok,
        flow_increment(previous, ask_only) is Ok,
    ensures
        flow_increment(previous, current)->Ok_0.units() == flow_increment(
            previous,
            bid_only,
        )->Ok_0.units() + flow_increment(previous, ask_only)->Ok_0.units(),
{
    lemma_increment_units(previous, current);
    lemma_increment_units(previous, bid_only);
    lemma_increment_units(previous, ask_only);
}

/// Quantities of moderate size and scale always have an increment.
pub proof fn lemma_moderate_quotes_have_increments(
    previous: QuoteView,
    current: QuoteView,
    places: nat,
    power: nat,
)
    requires
        places + power < 34,
        previous.bid_quantity.amount().within(places, power),
        previous.ask_quantity.amount().within(places, power),
        current.bid_quantity.amount().within(places, power),
        current.ask_quantity.amount().within(places, power),
    ensures
        flow_increment(previous, current) is Ok,
{
    lemma_nothing_is_within(places, power);
    lemma_wider(previous.bid_quantity.amount(), places, power);
    lemma_wider(previous.ask_quantity.amount(), places, power);
    lemma_wider(current.ask_quantity.amount(), places, power);
    lemma_wider(current.bid_quantity.amount(), places, power);
    let risen = plus_if(
        Ok(nothing()),
        previous.bid_price.units() <= current.bid_price.units(),
        current.bid_quantity.amount(),
    );
    lemma_moderate_sums_exist(nothing(), current.bid_quantity.amount(), places, power);
    lemma_wider(nothing(), places, power);
    assert(risen is Ok && risen->Ok_0.within(places, power + 1));
    lemma_moderate_sums_exist(risen->Ok_0, previous.bid_quantity.amount(), places, power + 1);
    let fallen = minus_if(
        risen,
        previous.bid_price.units() >= current.bid_price.units(),
        previous.bid_quantity.amount(),
    );
    lemma_wider(risen->Ok_0, places, power + 1);
    assert(fallen is Ok && fallen->Ok_0.within(places, power + 2));
    lemma_moderate_sums_exist(fallen->Ok_0, current.ask_quantity.amount(), places, power + 2);
    let offered = minus_if(
        fallen,
        previous.ask_price.units() >= current.ask_price.units(),
        current.ask_quantity.amount(),
    );
    lemma_wider(fallen->Ok_0, places, power + 2);
    assert(offered is Ok && offered->Ok_0.within(places, power + 3));
    lemma_moderate_sums_exist(offered->Ok_0, previous.ask_quantity.amount(), places, power + 3);
}

/// Imbalances accumulate: the imbalance of a list of quotes is that of its beginning up to any
/// quote, and that of the rest from the same quote on.
pub proof fn lemma_order_flow_accumulates(quotes: Seq<QuoteView>, at: int)
    requires
        0 <= at < quotes.len(),
        quotes_are_valid(quotes),
        order_flow(quotes) is Ok,
        order_flow(quotes.skip(at)) is Ok,
    ensures
        order_flow(quotes.take(at + 1)) is Ok,
        order_flow(quotes)->Ok_0.units() == order_flow(quotes.take(at + 1))->Ok_0.units()
            + order_flow(quotes.skip(at))->Ok_0.units(),
    decreases quotes.len(),
{
    lemma_zero_units();
    lemma_order_flow_scale(quotes);
    lemma_order_flow_scale(quotes.skip(at));
    if at == quotes.len() - 1 {
        assert(quotes.take(at + 1) =~= quotes);
    } else {
        let rest = quotes.drop_last();
        let tail = quotes.skip(at);
        assert(rest.take(at + 1) =~= quotes.take(at + 1));
        assert(rest.skip(at) =~= tail.drop_last());
        assert(quotes_are_valid(rest)) by {
            assert forall|i: int| 0 <= i < rest.len() implies quote_is_valid(
                #[trigger] rest[i],
            ) by {
                assert(rest[i] == quotes[i]);
            }
        }
        lemma_order_flow_scale(rest);
        lemma_order_flow_scale(rest.skip(at));
        lemma_order_flow_accumulates(rest, at);
        let previous = quotes[quotes.len() - 2];
        assert(tail[tail.len() - 2] == previous);
        assert(tail.last() == quotes.last());
        assert(quotes[quotes.len() - 1] == quotes.last());
        lemma_increment_units(previous, quotes.last());
        let increment = flow_increment(previous, quotes.last())->Ok_0;
        lemma_exact_arithmetic(order_flow(rest)->Ok_0, increment);
        lemma_exact_arithmetic(order_flow(tail.drop_last())->Ok_0, increment);
    }
}

/// The imbalance of two quotes is what the change from the one to the other adds.
pub proof fn lemma_order_flow_of_two_quotes(previous: QuoteView, current: QuoteView)
    requires
        quote_is_valid(previous),
        quote_is_valid(current),
        order_flow(seq![previous, current]) is Ok,
    ensures
        flow_increment(previous, current) is Ok,
        order_flow(seq![previous, current])->Ok_0.units() == flow_increment(
            previous,
            current,
        )->Ok_0.units(),
{
    let quotes = seq![previous, current];
    lemma_zero_units();
    assert(quotes.drop_last() =~= seq![previous]);
    assert(order_flow(quotes.drop_last()) == Ok::<FixedDecimal, FeatureComputationError>(
        nothing(),
    ));
    lemma_increment_units(previous, current);
    lemma_exact_arithmetic(nothing(), flow_increment(previous, current)->Ok_0);
}

proof fn lemma_order_flow_scale(quotes: Seq<QuoteView>)
    requires
        order_flow(quotes) is Ok,
        quotes_are_valid(quotes),
    ensures
        order_flow(quotes)->Ok_0.in_scale(),
        quotes.len() >= 2 ==> order_flow(quotes.drop_last()) is Ok && flow_increment(
            quotes[quotes.len() - 2],
            quotes.last(),
        ) is Ok,
    decreases quotes.len(),
{
    lemma_zero_units();
    if quotes.len() >= 2 {
        let rest = quotes.drop_last();
        assert(quotes_are_valid(rest)) by {
            assert forall|i: int| 0 <= i < rest.len() implies quote_is_valid(
                #[trigger] rest[i],
            ) by {
                assert(rest[i] == quotes[i]);
            }
        }
        lemma_order_flow_scale(rest);
        assert(quotes[quotes.len() - 1] == quotes.last());
        lemma_increment_units(quotes[quotes.len() - 2], quotes.last());
        lemma_exact_arithmetic(
            order_flow(rest)->Ok_0,
            flow_increment(quotes[quotes.len() - 2], quotes.last())->Ok_0,
        );
    }
}

/// A side's age counts from the last quote that changed the side: that quote differs from the one
/// before it in the side's price or quantity, and no later quote does. What the age exceeds the
/// allowance by is stale, and no more.
pub proof fn lemma_staleness_counts_from_the_last_change(
    window: QuoteWindowView,
    side: BookQuoteSide,
    as_of: UnixNanos,
    stale_after_ns: u64,
)
    requires
        side_staleness(window, side, as_of, stale_after_ns) is Ok,
    ensures
        ({
            let staleness = side_staleness(window, side, as_of, stale_after_ns)->Ok_0;
            let quotes = window.0;
            &&& exists|i: int|
                #![trigger quotes[i]]
                {
                    &&& 0 < i < quotes.len()
                    &&& staleness.quote_age_ns == as_of.nanos - quotes[i].event_time.nanos
                    &&& match side {
                        BookQuoteSide::Bid => quotes[i].bid_price.units() != quotes[i
                            - 1].bid_price.units() || quotes[i].bid_quantity.units() != quotes[i
                            - 1].bid_quantity.units(),
                        BookQuoteSide::Ask => quotes[i].ask_price.units() != quotes[i
                            - 1].ask_price.units() || quotes[i].ask_quantity.units() != quotes[i
                            - 1].ask_quantity.units(),
                    }
                    &&& forall|k: int|
                        i < k < quotes.len() ==> !side_changed(
                            quotes[k - 1],
                            #[trigger] quotes[k],
                            side,
                        )
                }
            &&& staleness.stale_duration_ns <= staleness.quote_age_ns
            &&& staleness.quote_age_ns <= stale_after_ns ==> staleness.stale_duration_ns == 0
            &&& staleness.quote_age_ns > stale_after_ns ==> staleness.stale_duration_ns
                + stale_after_ns == staleness.quote_age_ns
            &&& quotes.last().event_time.nanos <= as_of.nanos <= window.1.nanos
            &&& stale_after_ns > 0
        }),
{
    lemma_last_change(window.0, side);
}

/// A side whose price and quantity never differ from one quote to the next has no age.
pub proof fn lemma_sides_that_never_change_have_no_age(
    window: QuoteWindowView,
    side: BookQuoteSide,
    as_of: UnixNanos,
    stale_after_ns: u64,
)
    requires
        stale_after_ns > 0,
        window.0.last().event_time.nanos <= as_of.nanos <= window.1.nanos,
        forall|k: int|
            0 < k < window.0.len() ==> stands_still(window.0[k - 1], #[trigger] window.0[k], side),
    ensures
        side_staleness(window, side, as_of, stale_after_ns) == Err::<
            QuoteSideStaleness,
            FeatureComputationError,
        >(FeatureComputationError::InsufficientHistory),
{
    lemma_last_change(window.0, side);
}

proof fn lemma_last_change(quotes: Seq<QuoteView>, side: BookQuoteSide)
    ensures
        match last_change(quotes, side) {
            Some(time) => exists|i: int|
                #![trigger quotes[i]]
                0 < i < quotes.len() && time == quotes[i].event_time && side_changed(
                    quotes[i - 1],
                    quotes[i],
                    side,
                ) && forall|k: int|
                    i < k < quotes.len() ==> !side_changed(
                        quotes[k - 1],
                        #[trigger] quotes[k],
                        side,
                    ),
            None => forall|k: int|
                0 < k < quotes.len() ==> !side_changed(quotes[k - 1], #[trigger] quotes[k], side),
        },
    decreases quotes.len(),
{
    if quotes.len() >= 2 {
        let rest = quotes.drop_last();
        let end = quotes.len() - 1;
        assert(quotes[end] == quotes.last());
        if !side_changed(quotes[end - 1], quotes.last(), side) {
            lemma_last_change(rest, side);
            match last_change(rest, side) {
                Some(time) => {
                    let i = choose|i: int|
                        #![trigger rest[i]]
                        0 < i < rest.len() && time == rest[i].event_time && side_changed(
                            rest[i - 1],
                            rest[i],
                            side,
                        ) && forall|k: int|
                            i < k < rest.len() ==> !side_changed(
                                rest[k - 1],
                                #[trigger] rest[k],
                                side,
                            );
                    assert(quotes[i] == rest[i] && quotes[i - 1] == rest[i - 1]);
                    assert forall|k: int| i < k < quotes.len() implies !side_changed(
                        quotes[k - 1],
                        #[trigger] quotes[k],
                        side,
                    ) by {
                        if k < end {
                            assert(rest[k] == quotes[k]);
                        }
                    }
                },
                None => {
                    assert forall|k: int| 0 < k < quotes.len() implies !side_changed(
                        quotes[k - 1],
                        #[trigger] quotes[k],
                        side,
                    ) by {
                        if k < end {
                            assert(rest[k] == quotes[k]);
                        }
                    }
                },
            }
        } else {
            assert(0 < end < quotes.len() && quotes.last().event_time == quotes[end].event_time);
        }
    }
}

/// A quote shows the best level of each side of its book, bids as bids and asks as asks, and only a
/// synchronized book of recent updates is quoted.
pub proof fn lemma_quotes_show_the_inside(
    book: BookSnapshotView,
    policy: PolicyView,
    event_time: UnixNanos,
    as_known_at: UnixNanos,
    lineage: Seq<u8>,
    authenticated: bool,
)
    requires
        quote_of_book(book, policy, event_time, as_known_at, lineage, authenticated) is Ok,
    ensures
        ({
            let quote = quote_of_book(
                book,
                policy,
                event_time,
                as_known_at,
                lineage,
                authenticated,
            )->Ok_0;
            &&& quote.bid_price == book.bids@[0].price
            &&& quote.bid_quantity == book.bids@[0].quantity
            &&& quote.ask_price == book.asks@[0].price
            &&& quote.ask_quantity == book.asks@[0].quantity
            &&& quote.instrument == book.instrument@
            &&& quote.session == book.session
            &&& quote.last_source_sequence == book.last_source_sequence
            &&& quote.event_time.nanos <= quote.as_known_at.nanos
            &&& (quote.event_time, quote.as_known_at) == (event_time, as_known_at)
            &&& quote.lineage == lineage && lineage != zero_digest()
            &&& quote.authenticated == authenticated
            &&& book.quality.last_update_age_ms <= 3_000
        }),
{
}

proof fn lemma_quote_time_leads(a: TopOfBookObservation, b: TopOfBookObservation)
    requires
        !crate::ordering::rank_precedes(b.rank(), a.rank()),
    ensures
        a@.event_time.nanos <= b@.event_time.nanos,
{
    assert(a.rank()[0] == a@.event_time.nanos);
    assert(b.rank()[0] == b@.event_time.nanos);
}

/// A window holds every quote that it was given and no other, at least two and no more than its
/// capacity, in the order of event times.
pub proof fn lemma_quote_windows_hold_their_quotes_in_order(
    observations: Seq<TopOfBookObservation>,
    capacity: usize,
    evaluation_time: UnixNanos,
)
    requires
        quote_window(observations, capacity, evaluation_time) is Ok,
    ensures
        ({
            let quotes = quote_window(observations, capacity, evaluation_time)->Ok_0.0;
            &&& quotes.to_multiset() == quote_views(observations).to_multiset()
            &&& 2 <= quotes.len() == observations.len() <= capacity <= 100_000
            &&& forall|i: int, j: int|
                0 <= i < j < quotes.len() ==> (#[trigger] quotes[i]).event_time.nanos <= (
                #[trigger] quotes[j]).event_time.nanos
            &&& quote_window(observations, capacity, evaluation_time)->Ok_0.1 == evaluation_time
        }),
{
    let quotes = quote_window(observations, capacity, evaluation_time)->Ok_0.0;
    let sorted = stably_sorted(observations);
    let image = |quote: TopOfBookObservation| quote@;
    crate::ordering::lemma_stably_sorted(observations);
    crate::ordering::lemma_images_keep_members(sorted, observations, image);
    assert(sorted.map_values(image) =~= quote_views(sorted));
    assert(observations.map_values(image) =~= quote_views(observations));
    assert forall|i: int, j: int| 0 <= i < j < quotes.len() implies (
    #[trigger] quotes[i]).event_time.nanos <= (#[trigger] quotes[j]).event_time.nanos by {
        assert(!crate::ordering::rank_precedes(sorted[j].rank(), sorted[i].rank()));
        lemma_quote_time_leads(sorted[i], sorted[j]);
    }
}

/// The bid's age counts from the last change of the bid and the ask's from the last change of the
/// ask: after the quote that a side's age counts from, that side stands still to the end.
pub proof fn lemma_each_side_has_its_own_age(
    window: QuoteWindowView,
    as_of: UnixNanos,
    stale_after_ns: u64,
)
    requires
        both_sides_staleness(window, as_of, stale_after_ns) is Ok,
    ensures
        ({
            let both = both_sides_staleness(window, as_of, stale_after_ns)->Ok_0;
            let quotes = window.0;
            &&& exists|i: int|
                #![trigger quotes[i]]
                {
                    &&& 0 < i < quotes.len()
                    &&& both.bid.quote_age_ns == as_of.nanos - quotes[i].event_time.nanos
                    &&& quotes[i].bid_price.units() != quotes[i - 1].bid_price.units()
                        || quotes[i].bid_quantity.units() != quotes[i - 1].bid_quantity.units()
                    &&& forall|k: int|
                        i < k < quotes.len() ==> !side_changed(
                            quotes[k - 1],
                            #[trigger] quotes[k],
                            BookQuoteSide::Bid,
                        )
                }
            &&& exists|i: int|
                #![trigger quotes[i]]
                {
                    &&& 0 < i < quotes.len()
                    &&& both.ask.quote_age_ns == as_of.nanos - quotes[i].event_time.nanos
                    &&& quotes[i].ask_price.units() != quotes[i - 1].ask_price.units()
                        || quotes[i].ask_quantity.units() != quotes[i - 1].ask_quantity.units()
                    &&& forall|k: int|
                        i < k < quotes.len() ==> !side_changed(
                            quotes[k - 1],
                            #[trigger] quotes[k],
                            BookQuoteSide::Ask,
                        )
                }
        }),
{
    lemma_staleness_counts_from_the_last_change(window, BookQuoteSide::Bid, as_of, stale_after_ns);
    lemma_staleness_counts_from_the_last_change(window, BookQuoteSide::Ask, as_of, stale_after_ns);
}

} // verus!
