//! Order lifecycles that a venue certifies order by order.

use vstd::prelude::*;

use super::book_evidence::{elapsed, elapsed_ns, valid_policy, valid_policy_id};
use super::orderflow::{
    final_window_refusal, flow_lineages, flow_views, validate_finalized_window, FlowTradeView,
    FlowWindowView, TradeFlowWindow,
};
use super::{finite, finite_value, lemma_sum_last, sum_of, FeatureComputationError};
use crate::book::BookSession;
use crate::digest::{is_zero_digest, utf8, zero_digest};
use crate::domain::{InstrumentId, InstrumentView, UnixNanos};
use crate::ordering::{
    digest_views, first_repeated_digest, lemma_repeats, rank_precedes, sort_stably, stably_sorted,
    Ranked,
};

verus! {

/// What a venue's order events mean.
#[derive(Clone, Copy, Debug, PartialEq, Eq, Structural)]
pub enum LifecycleSemantics {
    AggregateL2,
    CertifiedL3,
    LicenseRestrictedL3,
}

/// Only certified order-by-order events show lifecycles.
pub fn require_order_lifecycle_semantics(semantics: LifecycleSemantics) -> (result: Result<
    (),
    FeatureComputationError,
>)
    ensures
        result == match semantics {
            LifecycleSemantics::AggregateL2 => Err::<(), FeatureComputationError>(
                FeatureComputationError::SourceNotSupported,
            ),
            LifecycleSemantics::CertifiedL3 => Ok(()),
            LifecycleSemantics::LicenseRestrictedL3 => Err(
                FeatureComputationError::PrivacyOrLicenseRestriction,
            ),
        },
{
    match semantics {
        LifecycleSemantics::AggregateL2 => Err(FeatureComputationError::SourceNotSupported),
        LifecycleSemantics::CertifiedL3 => Ok(()),
        LifecycleSemantics::LicenseRestrictedL3 => Err(
            FeatureComputationError::PrivacyOrLicenseRestriction,
        ),
    }
}

#[derive(Clone, Copy, Debug, PartialEq, Eq, Structural)]
pub enum LifecycleAction {
    Place,
    Cancel,
    Modify,
}

/// The contents of a [`LifecycleCapability`].
pub struct CapabilityView {
    pub schema_id: Seq<char>,
    pub schema_version: u32,
    pub certification_id: Seq<char>,
    pub certification_version: u32,
    pub license_authority_id: Seq<char>,
    pub license_authority_version: u32,
}

/// Under which schema, certification and license order events are read.
#[derive(Debug)]
pub struct LifecycleCapability {
    schema_id: String,
    schema_version: u32,
    certification_id: String,
    certification_version: u32,
    license_authority_id: String,
    license_authority_version: u32,
}

impl View for LifecycleCapability {
    type V = CapabilityView;

    closed spec fn view(&self) -> CapabilityView {
        CapabilityView {
            schema_id: self.schema_id@,
            schema_version: self.schema_version,
            certification_id: self.certification_id@,
            certification_version: self.certification_version,
            license_authority_id: self.license_authority_id@,
            license_authority_version: self.license_authority_version,
        }
    }
}

impl Clone for LifecycleCapability {
    fn clone(&self) -> (copy: Self)
        ensures
            copy@ == self@,
    {
        LifecycleCapability {
            schema_id: self.schema_id.clone(),
            schema_version: self.schema_version,
            certification_id: self.certification_id.clone(),
            certification_version: self.certification_version,
            license_authority_id: self.license_authority_id.clone(),
            license_authority_version: self.license_authority_version,
        }
    }
}

impl LifecycleCapability {
    pub fn new(
        schema_id: String,
        schema_version: u32,
        certification_id: String,
        certification_version: u32,
        license_authority_id: String,
        license_authority_version: u32,
    ) -> (result: Result<Self, FeatureComputationError>)
        ensures
            result is Ok <==> {
                &&& schema_version != 0
                &&& certification_version != 0
                &&& license_authority_version != 0
                &&& valid_policy(utf8(schema_id@))
                &&& valid_policy(utf8(certification_id@))
                &&& valid_policy(utf8(license_authority_id@))
            },
            result is Err ==> result->Err_0 == FeatureComputationError::InvalidParameter,
            result is Ok ==> result->Ok_0@ == (CapabilityView {
                schema_id: schema_id@,
                schema_version,
                certification_id: certification_id@,
                certification_version,
                license_authority_id: license_authority_id@,
                license_authority_version,
            }),
    {
        if schema_version == 0 || certification_version == 0 || license_authority_version == 0
            || !valid_policy_id(schema_id.as_str()) || !valid_policy_id(certification_id.as_str())
            || !valid_policy_id(license_authority_id.as_str()) {
            return Err(FeatureComputationError::InvalidParameter);
        }
        Ok(
            LifecycleCapability {
                schema_id,
                schema_version,
                certification_id,
                certification_version,
                license_authority_id,
                license_authority_version,
            },
        )
    }

    /// Whether both name the same schema, certification and license.
    pub fn same(&self, other: &Self) -> (answer: bool)
        ensures
            answer == (self@ == other@),
    {
        self.schema_id == other.schema_id && self.schema_version == other.schema_version
            && self.certification_id == other.certification_id && self.certification_version
            == other.certification_version && self.license_authority_id
            == other.license_authority_id && self.license_authority_version
            == other.license_authority_version
    }
}

/// What one order event reports.
#[derive(Debug)]
pub struct LifecycleObservationInput {
    pub instrument: InstrumentId,
    pub session: BookSession,
    pub source_sequence: u64,
    pub order_id: String,
    pub capability: LifecycleCapability,
    pub event_time: UnixNanos,
    pub as_known_at: UnixNanos,
    pub lineage: [u8; 32],
    pub action: LifecycleAction,
}

/// The contents of a [`LifecycleObservation`].
pub struct LifecycleView {
    pub instrument: InstrumentView,
    pub session: BookSession,
    pub source_sequence: u64,
    pub order_id: Seq<char>,
    pub capability: CapabilityView,
    pub event_time: UnixNanos,
    pub as_known_at: UnixNanos,
    pub lineage: Seq<u8>,
    pub action: LifecycleAction,
}

/// One valid order event.
#[derive(Debug)]
pub struct LifecycleObservation {
    input: LifecycleObservationInput,
}

/// The contents of an order event.
pub open spec fn lifecycle_view(input: LifecycleObservationInput) -> LifecycleView {
    LifecycleView {
        instrument: input.instrument@,
        session: input.session,
        source_sequence: input.source_sequence,
        order_id: input.order_id@,
        capability: input.capability@,
        event_time: input.event_time,
        as_known_at: input.as_known_at,
        lineage: input.lineage@,
        action: input.action,
    }
}

impl View for LifecycleObservation {
    type V = LifecycleView;

    closed spec fn view(&self) -> LifecycleView {
        lifecycle_view(self.input)
    }
}

impl LifecycleObservation {
    pub fn try_new(input: LifecycleObservationInput) -> (result: Result<
        Self,
        FeatureComputationError,
    >)
        ensures
            result is Ok <==> {
                &&& input.source_sequence != 0
                &&& valid_policy(utf8(input.order_id@))
                &&& input.as_known_at.nanos >= input.event_time.nanos
                &&& input.lineage@ != zero_digest()
            },
            result is Err ==> result->Err_0 == FeatureComputationError::InvalidInput,
            result is Ok ==> result->Ok_0@ == lifecycle_view(input),
    {
        if input.source_sequence == 0 || !valid_policy_id(input.order_id.as_str())
            || input.as_known_at.value() < input.event_time.value() || is_zero_digest(
            &input.lineage,
        ) {
            return Err(FeatureComputationError::InvalidInput);
        }
        Ok(LifecycleObservation { input })
    }
}

impl Ranked for LifecycleObservation {
    open spec fn rank(&self) -> Seq<int> {
        seq![self@.source_sequence as int]
    }

    fn precedes(&self, other: &Self) -> (before: bool) {
        proof {
            reveal_with_fuel(rank_precedes, 2);
            assert(self.rank()[0] == self@.source_sequence);
            assert(other.rank()[0] == other@.source_sequence);
        }
        self.input.source_sequence < other.input.source_sequence
    }
}

/// The contents of a list of order events.
pub open spec fn lifecycle_views(events: Seq<LifecycleObservation>) -> Seq<LifecycleView> {
    Seq::new(events.len(), |i: int| events[i]@)
}

pub open spec fn lifecycle_lineages(events: Seq<LifecycleView>) -> Seq<Seq<u8>> {
    Seq::new(events.len(), |i: int| events[i].lineage)
}

/// Why an order event does not belong behind the events before it, if it does not. The first
/// event sets the instrument, the session and the capability.
pub open spec fn lifecycle_step_refusal(
    events: Seq<LifecycleView>,
    i: int,
    start: UnixNanos,
    end: UnixNanos,
    evaluation_time: UnixNanos,
) -> Option<FeatureComputationError> {
    let event = events[i];
    let first = events[0];
    if event.instrument != first.instrument {
        Some(FeatureComputationError::MixedEntity)
    } else if event.session != first.session || event.capability != first.capability {
        Some(FeatureComputationError::SourceHealthChanged)
    } else if event.event_time.nanos < start.nanos || event.event_time.nanos >= end.nanos {
        Some(FeatureComputationError::OutsideWindow)
    } else if event.as_known_at.nanos > evaluation_time.nanos {
        Some(FeatureComputationError::FutureKnowledge)
    } else if lifecycle_lineages(events).take(i).contains(event.lineage) {
        Some(FeatureComputationError::DuplicateLineage)
    } else if i == 0 {
        None
    } else if event.as_known_at.nanos < events[i - 1].as_known_at.nanos {
        Some(FeatureComputationError::NonMonotonicTime)
    } else if event.source_sequence != events[i - 1].source_sequence + 1 {
        Some(FeatureComputationError::SequenceGap)
    } else if event.event_time.nanos < events[i - 1].event_time.nanos {
        Some(FeatureComputationError::NonMonotonicTime)
    } else {
        None
    }
}

/// The first failure among order events from a place on, if there is one.
pub open spec fn lifecycle_refusal(
    events: Seq<LifecycleView>,
    from: int,
    start: UnixNanos,
    end: UnixNanos,
    evaluation_time: UnixNanos,
) -> Option<FeatureComputationError>
    decreases events.len() - from,
{
    if from >= events.len() {
        None
    } else {
        match lifecycle_step_refusal(events, from, start, end, evaluation_time) {
            Some(error) => Some(error),
            None => lifecycle_refusal(events, from + 1, start, end, evaluation_time),
        }
    }
}

/// The contents of a [`LifecycleWindow`].
pub struct LifecycleWindowView {
    pub events: Seq<LifecycleView>,
    pub instrument: InstrumentView,
    pub session: BookSession,
    pub capability: CapabilityView,
    pub start: UnixNanos,
    pub end: UnixNanos,
    pub evaluation_time: UnixNanos,
}

/// The order events of one book session inside one final window, without gaps.
#[derive(Debug)]
pub struct LifecycleWindow {
    observations: Vec<LifecycleObservation>,
    instrument: InstrumentId,
    session: BookSession,
    capability: LifecycleCapability,
    start: UnixNanos,
    end: UnixNanos,
    evaluation_time: UnixNanos,
}

impl View for LifecycleWindow {
    type V = LifecycleWindowView;

    closed spec fn view(&self) -> LifecycleWindowView {
        LifecycleWindowView {
            events: lifecycle_views(self.observations@),
            instrument: self.instrument@,
            session: self.session,
            capability: self.capability@,
            start: self.start,
            end: self.end,
            evaluation_time: self.evaluation_time,
        }
    }
}

/// The window that order events make, or why they make none.
pub open spec fn lifecycle_window(
    observations: Seq<LifecycleObservation>,
    capacity: usize,
    start: UnixNanos,
    end: UnixNanos,
    evaluation_time: UnixNanos,
) -> Result<LifecycleWindowView, FeatureComputationError> {
    let events = lifecycle_views(stably_sorted(observations));
    match final_window_refusal(capacity, start, end, evaluation_time) {
        Some(error) => Err(error),
        None => if observations.len() == 0 {
            Err(FeatureComputationError::InsufficientHistory)
        } else if observations.len() > capacity {
            Err(FeatureComputationError::CapacityExceeded)
        } else {
            match lifecycle_refusal(events, 0, start, end, evaluation_time) {
                Some(error) => Err(error),
                None => Ok(
                    LifecycleWindowView {
                        events,
                        instrument: events[0].instrument,
                        session: events[0].session,
                        capability: events[0].capability,
                        start,
                        end,
                        evaluation_time,
                    },
                ),
            }
        },
    }
}

/// A window that its order events make is without gaps: their sequences count up by one.
pub proof fn lemma_lifecycle_windows_have_no_gaps(
    events: Seq<LifecycleView>,
    start: UnixNanos,
    end: UnixNanos,
    evaluation_time: UnixNanos,
    i: int,
)
    requires
        lifecycle_refusal(events, 0, start, end, evaluation_time) is None,
        0 <= i < events.len(),
    ensures
        events[i].source_sequence == events[0].source_sequence + i,
        start.nanos <= events[i].event_time.nanos < end.nanos,
        events[i].as_known_at.nanos <= evaluation_time.nanos,
        events[i].instrument == events[0].instrument,
        events[i].session == events[0].session,
        !lifecycle_lineages(events).take(i).contains(events[i].lineage),
    decreases i,
{
    lemma_lifecycle_steps_pass(events, 0, start, end, evaluation_time, i);
    if i > 0 {
        lemma_lifecycle_windows_have_no_gaps(events, start, end, evaluation_time, i - 1);
    }
}

proof fn lemma_lifecycle_steps_pass(
    events: Seq<LifecycleView>,
    from: int,
    start: UnixNanos,
    end: UnixNanos,
    evaluation_time: UnixNanos,
    i: int,
)
    requires
        lifecycle_refusal(events, from, start, end, evaluation_time) is None,
        from <= i < events.len(),
    ensures
        lifecycle_step_refusal(events, i, start, end, evaluation_time) is None,
    decreases i - from,
{
    if from < i {
        lemma_lifecycle_steps_pass(events, from + 1, start, end, evaluation_time, i);
    }
}

/// The order events of a window by what they did.
#[derive(Clone, Copy, Debug, PartialEq, Eq, Structural)]
pub struct LifecycleCounts {
    pub placements: usize,
    pub cancellations: usize,
    pub modifications: usize,
}

/// The order events of one kind.
pub open spec fn actions_of(events: Seq<LifecycleView>, action: LifecycleAction) -> nat
    decreases events.len(),
{
    if events.len() == 0 {
        0
    } else {
        actions_of(events.drop_last(), action) + if events.last().action == action {
            1nat
        } else {
            0
        }
    }
}

/// The counts of a list of order events.
pub open spec fn counts_events(counts: LifecycleCounts, events: Seq<LifecycleView>) -> bool {
    &&& counts.placements == actions_of(events, LifecycleAction::Place)
    &&& counts.cancellations == actions_of(events, LifecycleAction::Cancel)
    &&& counts.modifications == actions_of(events, LifecycleAction::Modify)
}

/// The three kinds of order events make up all of them.
pub proof fn lemma_actions_are_all_events(events: Seq<LifecycleView>)
    ensures
        actions_of(events, LifecycleAction::Place) + actions_of(events, LifecycleAction::Cancel)
            + actions_of(events, LifecycleAction::Modify) == events.len(),
    decreases events.len(),
{
    if events.len() > 0 {
        lemma_actions_are_all_events(events.drop_last());
    }
}

impl LifecycleWindow {
    #[verifier::type_invariant]
    spec fn lineages_differ(self) -> bool {
        lifecycle_lineages(lifecycle_views(self.observations@)).no_duplicates()
    }

    pub fn new(
        observations: Vec<LifecycleObservation>,
        capacity: usize,
        start: UnixNanos,
        end: UnixNanos,
        evaluation_time: UnixNanos,
    ) -> (result: Result<Self, FeatureComputationError>)
        ensures
            match lifecycle_window(observations@, capacity, start, end, evaluation_time) {
                Err(error) => result is Err && result->Err_0 == error,
                Ok(window) => result is Ok && result->Ok_0@ == window,
            },
    {
        validate_finalized_window(capacity, start, end, evaluation_time)?;
        if observations.len() == 0 {
            return Err(FeatureComputationError::InsufficientHistory);
        }
        if observations.len() > capacity {
            return Err(FeatureComputationError::CapacityExceeded);
        }
        let sorted = sort_stably(observations);
        let ghost views = lifecycle_views(sorted@);
        check_lifecycle(&sorted, start, end, evaluation_time)?;
        proof {
            let names = lifecycle_lineages(views);
            assert forall|i: int, j: int| 0 <= i < j < names.len() implies names[i] != names[j] by {
                lemma_lifecycle_windows_have_no_gaps(views, start, end, evaluation_time, j);
                if names[i] == names[j] {
                    assert(names.take(j)[i] == names[j]);
                }
            }
            assert(views[0] == sorted@[0]@);
        }
        let instrument = sorted[0].input.instrument.clone();
        let session = sorted[0].input.session;
        let capability = sorted[0].input.capability.clone();
        Ok(
            LifecycleWindow {
                observations: sorted,
                instrument,
                session,
                capability,
                start,
                end,
                evaluation_time,
            },
        )
    }

    /// A window in which nothing happened.
    pub fn observed_empty(
        instrument: InstrumentId,
        session: BookSession,
        capability: LifecycleCapability,
        capacity: usize,
        start: UnixNanos,
        end: UnixNanos,
        evaluation_time: UnixNanos,
    ) -> (result: Result<Self, FeatureComputationError>)
        ensures
            match final_window_refusal(capacity, start, end, evaluation_time) {
                Some(error) => result is Err && result->Err_0 == error,
                None => result is Ok && result->Ok_0@ == (LifecycleWindowView {
                    events: Seq::empty(),
                    instrument: instrument@,
                    session,
                    capability: capability@,
                    start,
                    end,
                    evaluation_time,
                }),
            },
    {
        validate_finalized_window(capacity, start, end, evaluation_time)?;
        let window = LifecycleWindow {
            observations: Vec::new(),
            instrument,
            session,
            capability,
            start,
            end,
            evaluation_time,
        };
        proof {
            assert(window@.events =~= Seq::empty());
        }
        Ok(window)
    }

    fn action_counts(&self) -> (counts: LifecycleCounts)
        ensures
            counts_events(counts, self@.events),
            counts.placements + counts.cancellations + counts.modifications <= usize::MAX,
    {
        let ghost views = lifecycle_views(self.observations@);
        let mut counts = LifecycleCounts { placements: 0, cancellations: 0, modifications: 0 };
        let mut i: usize = 0;
        proof {
            assert(views.take(0) =~= Seq::empty());
        }
        while i < self.observations.len()
            invariant
                i <= self.observations@.len(),
                views == lifecycle_views(self.observations@),
                counts_events(counts, views.take(i as int)),
                counts.placements + counts.cancellations + counts.modifications == i,
            decreases self.observations.len() - i,
        {
            proof {
                assert(views.take(i + 1).drop_last() =~= views.take(i as int));
                assert(views.take(i + 1).last() == self.observations@[i as int]@);
            }
            counts =
            match self.observations[i].input.action {
                LifecycleAction::Place => LifecycleCounts {
                    placements: counts.placements + 1,
                    ..counts
                },
                LifecycleAction::Cancel => LifecycleCounts {
                    cancellations: counts.cancellations + 1,
                    ..counts
                },
                LifecycleAction::Modify => LifecycleCounts {
                    modifications: counts.modifications + 1,
                    ..counts
                },
            };
            i += 1;
        }
        proof {
            assert(views.take(self.observations@.len() as int) =~= views);
        }
        counts
    }
}

fn check_lifecycle(
    sorted: &Vec<LifecycleObservation>,
    start: UnixNanos,
    end: UnixNanos,
    evaluation_time: UnixNanos,
) -> (result: Result<(), FeatureComputationError>)
    requires
        sorted@.len() > 0,
    ensures
        match lifecycle_refusal(lifecycle_views(sorted@), 0, start, end, evaluation_time) {
            Some(error) => result == Err::<(), FeatureComputationError>(error),
            None => result == Ok::<(), FeatureComputationError>(()),
        },
{
    let ghost views = lifecycle_views(sorted@);
    let ghost names = lifecycle_lineages(views);
    let lineages = lifecycle_digests(sorted);
    proof {
        assert(digest_views(lineages@) =~= names);
    }
    let repeated: Option<usize> = first_repeated_digest(&lineages);
    let first = &sorted[0];
    let mut i: usize = 0;
    while i < sorted.len()
        invariant
            i <= sorted@.len(),
            sorted@.len() > 0,
            *first == sorted@[0],
            views == lifecycle_views(sorted@),
            names == lifecycle_lineages(views),
            names.len() == sorted@.len(),
            match repeated {
                None => names.no_duplicates(),
                Some(place) => i <= place < names.len() && names.take(place as int).no_duplicates()
                    && names.take(place as int).contains(names[place as int]),
            },
            lifecycle_refusal(views, 0, start, end, evaluation_time) == lifecycle_refusal(
                views,
                i as int,
                start,
                end,
                evaluation_time,
            ),
        decreases sorted.len() - i,
    {
        let event = &sorted[i].input;
        let again: bool = match repeated {
            None => false,
            Some(place) => place == i,
        };
        proof {
            assert(views[i as int] == sorted@[i as int]@);
            assert(views[0] == sorted@[0]@);
            lemma_repeats(names, repeated, i as int);
        }
        if !event.instrument.same(&first.input.instrument) {
            return Err(FeatureComputationError::MixedEntity);
        }
        if event.session != first.input.session || !event.capability.same(
            &first.input.capability,
        ) {
            return Err(FeatureComputationError::SourceHealthChanged);
        }
        if event.event_time.value() < start.value() || event.event_time.value() >= end.value() {
            return Err(FeatureComputationError::OutsideWindow);
        }
        if event.as_known_at.value() > evaluation_time.value() {
            return Err(FeatureComputationError::FutureKnowledge);
        }
        if again {
            return Err(FeatureComputationError::DuplicateLineage);
        }
        if i > 0 {
            let previous = &sorted[i - 1].input;
            proof {
                assert(views[i - 1] == sorted@[i - 1]@);
            }
            if event.as_known_at.value() < previous.as_known_at.value() {
                return Err(FeatureComputationError::NonMonotonicTime);
            }
            if previous.source_sequence == u64::MAX || event.source_sequence
                != previous.source_sequence + 1 {
                return Err(FeatureComputationError::SequenceGap);
            }
            if event.event_time.value() < previous.event_time.value() {
                return Err(FeatureComputationError::NonMonotonicTime);
            }
        }
        i += 1;
    }
    Ok(())
}

fn lifecycle_digests(events: &Vec<LifecycleObservation>) -> (lineages: Vec<[u8; 32]>)
    ensures
        digest_views(lineages@) == lifecycle_lineages(lifecycle_views(events@)),
{
    let mut lineages: Vec<[u8; 32]> = Vec::new();
    let mut n: usize = 0;
    while n < events.len()
        invariant
            n <= events@.len(),
            lineages@.len() == n,
            forall|k: int| 0 <= k < n ==> (#[trigger] lineages@[k])@ == events@[k]@.lineage,
        decreases events.len() - n,
    {
        lineages.push(events[n].input.lineage);
        n += 1;
    }
    proof {
        assert(digest_views(lineages@) =~= lifecycle_lineages(lifecycle_views(events@)));
    }
    lineages
}

/// Why one trade does not go with a window's order events, if it does not.
pub open spec fn paired_trade_refusal(
    lifecycle: LifecycleWindowView,
    trades: Seq<FlowTradeView>,
    i: int,
) -> Option<FeatureComputationError> {
    if trades[i].instrument != lifecycle.instrument {
        Some(FeatureComputationError::MixedEntity)
    } else if trades[i].event_time.nanos < lifecycle.start.nanos || trades[i].event_time.nanos
        >= lifecycle.end.nanos {
        Some(FeatureComputationError::OutsideWindow)
    } else if lifecycle_lineages(lifecycle.events).contains(trades[i].lineage) || flow_lineages(
        trades,
    ).take(i).contains(trades[i].lineage) {
        Some(FeatureComputationError::DuplicateLineage)
    } else {
        None
    }
}

/// The first failure among trades from a place on, if there is one.
pub open spec fn paired_trades_refusal(
    lifecycle: LifecycleWindowView,
    trades: Seq<FlowTradeView>,
    from: int,
) -> Option<FeatureComputationError>
    decreases trades.len() - from,
{
    if from >= trades.len() {
        None
    } else {
        match paired_trade_refusal(lifecycle, trades, from) {
            Some(error) => Some(error),
            None => paired_trades_refusal(lifecycle, trades, from + 1),
        }
    }
}

/// Why a window of order events and one of trades do not go together, if they do not.
pub open spec fn pair_refusal(lifecycle: LifecycleWindowView, trades: FlowWindowView) -> Option<
    FeatureComputationError,
> {
    if lifecycle.evaluation_time != trades.evaluation_time {
        Some(FeatureComputationError::SourceHealthChanged)
    } else if lifecycle.instrument != trades.instrument {
        Some(FeatureComputationError::MixedEntity)
    } else if lifecycle.start != trades.start || lifecycle.end != trades.end {
        Some(FeatureComputationError::OutsideWindow)
    } else {
        paired_trades_refusal(lifecycle, trades.trades, 0)
    }
}

fn validate_lifecycle_trade_pair(lifecycle: &LifecycleWindow, trades: &TradeFlowWindow) -> (result:
    Result<(), FeatureComputationError>)
    ensures
        match pair_refusal(lifecycle@, trades@) {
            Some(error) => result == Err::<(), FeatureComputationError>(error),
            None => result == Ok::<(), FeatureComputationError>(()),
        },
{
    if lifecycle.evaluation_time != trades.evaluation_time() {
        return Err(FeatureComputationError::SourceHealthChanged);
    }
    if !lifecycle.instrument.same(trades.instrument()) {
        return Err(FeatureComputationError::MixedEntity);
    }
    if lifecycle.start != trades.start() || lifecycle.end != trades.end() {
        return Err(FeatureComputationError::OutsideWindow);
    }
    let listed = trades.observations();
    let ghost views = trades@.trades;
    let ghost own = lifecycle_lineages(lifecycle@.events);
    let ghost others = flow_lineages(views);
    let ghost names = own + others;
    let mut lineages = lifecycle_digests(&lifecycle.observations);
    let offset: usize = lineages.len();
    let mut n: usize = 0;
    proof {
        use_type_invariant(lifecycle);
        assert(names.take(offset as int) =~= own);
        assert(digest_views(lineages@) =~= names.take(offset as int));
    }
    while n < listed.len()
        invariant
            n <= listed@.len(),
            views == flow_views(listed@),
            others == flow_lineages(views),
            names == own + others,
            own.len() == offset,
            digest_views(lineages@) == names.take(offset + n),
        decreases listed.len() - n,
    {
        let ghost before = lineages@;
        lineages.push(listed[n].lineage());
        proof {
            assert(views[n as int] == listed@[n as int]@);
            assert(names.take(offset + n + 1) =~= names.take(offset + n).push(
                views[n as int].lineage,
            ));
            assert(digest_views(lineages@) =~= digest_views(before).push(views[n as int].lineage));
        }
        n += 1;
    }
    proof {
        assert(names.take(names.len() as int) =~= names);
    }
    let repeated: Option<usize> = first_repeated_digest(&lineages);
    proof {
        assert(digest_views(lineages@).len() == lineages@.len());
        if let Some(place) = repeated {
            assert(names[place as int] == lineages@[place as int]@);
            if place < offset {
                let at = names.take(place as int).index_of(names[place as int]);
                assert(own[at] == own[place as int]);
            }
        }
    }
    let mut i: usize = 0;
    while i < listed.len()
        invariant
            i <= listed@.len(),
            views == flow_views(listed@),
            views == trades@.trades,
            own == lifecycle_lineages(lifecycle@.events),
            others == flow_lineages(views),
            names == own + others,
            own.len() == offset,
            names.len() == lineages@.len(),
            match repeated {
                None => names.no_duplicates(),
                Some(place) => offset + i <= place < names.len() && names.take(
                    place as int,
                ).no_duplicates() && names.take(place as int).contains(names[place as int]),
            },
            lifecycle@.evaluation_time == trades@.evaluation_time,
            lifecycle@.instrument == trades@.instrument,
            lifecycle@.start == trades@.start,
            lifecycle@.end == trades@.end,
            pair_refusal(lifecycle@, trades@) == paired_trades_refusal(
                lifecycle@,
                views,
                i as int,
            ),
        decreases listed.len() - i,
    {
        let trade = &listed[i];
        let again: bool = match repeated {
            None => false,
            Some(place) => place == offset + i,
        };
        proof {
            assert(views[i as int] == trade@);
            lemma_repeats(names, repeated, offset + i);
            let earlier = names.take(offset + i);
            assert(earlier =~= own + others.take(i as int));
            let wanted = trade@.lineage;
            assert(names[offset + i] == wanted);
            if own.contains(wanted) {
                assert(earlier[own.index_of(wanted)] == wanted);
            }
            if others.take(i as int).contains(wanted) {
                assert(earlier[offset + others.take(i as int).index_of(wanted)] == wanted);
            }
            if earlier.contains(wanted) {
                let at = earlier.index_of(wanted);
                if at < offset {
                    assert(own[at] == wanted);
                } else {
                    assert(others.take(i as int)[at - offset] == wanted);
                }
            }
        }
        if !trade.instrument().same(&lifecycle.instrument) {
            return Err(FeatureComputationError::MixedEntity);
        }
        if trade.event_time().value() < lifecycle.start.value() || trade.event_time().value()
            >= lifecycle.end.value() {
            return Err(FeatureComputationError::OutsideWindow);
        }
        if again {
            return Err(FeatureComputationError::DuplicateLineage);
        }
        i += 1;
    }
    Ok(())
}

/// The exact terms of a window's rates of order events.
#[derive(Clone, Copy, Debug, PartialEq, Eq, Structural)]
pub struct LifecycleRateTerms {
    pub counts: LifecycleCounts,
    pub duration_ns: u64,
}

/// The outcome is that of the rates of a window's order events.
pub open spec fn are_rates(
    result: Result<LifecycleRateTerms, FeatureComputationError>,
    lifecycle: LifecycleWindowView,
) -> bool {
    match elapsed(lifecycle.start, lifecycle.end) {
        Err(error) => result is Err && result->Err_0 == error,
        Ok(duration_ns) => result is Ok && result->Ok_0.duration_ns == duration_ns
            && counts_events(result->Ok_0.counts, lifecycle.events),
    }
}

/// The exact terms of the rates of order events per second.
pub fn certified_lifecycle_rates(lifecycle: &LifecycleWindow) -> (result: Result<
    LifecycleRateTerms,
    FeatureComputationError,
>)
    ensures
        match elapsed(lifecycle@.start, lifecycle@.end) {
            Err(error) => result is Err && result->Err_0 == error,
            Ok(duration_ns) => result is Ok && result->Ok_0.duration_ns == duration_ns
                && counts_events(result->Ok_0.counts, lifecycle@.events),
        },
        are_rates(result, lifecycle@),
{
    let counts = lifecycle.action_counts();
    let duration_ns: u64 = elapsed_ns(lifecycle.start, lifecycle.end)?;
    Ok(LifecycleRateTerms { counts, duration_ns })
}

/// The exact terms of a window's ratios of order events to trades.
#[derive(Clone, Copy, Debug, PartialEq, Eq, Structural)]
pub struct LifecycleRatioTerms {
    pub cancellations: usize,
    pub quote_events: usize,
    pub trade_count: usize,
}

/// The outcome is that of the ratios of a window's order events to trades.
pub open spec fn are_ratios(
    result: Result<LifecycleRatioTerms, FeatureComputationError>,
    lifecycle: LifecycleWindowView,
    trades: FlowWindowView,
) -> bool {
    match pair_refusal(lifecycle, trades) {
        Some(error) => result is Err && result->Err_0 == error,
        None => if trades.trades.len() == 0 {
            result is Err && result->Err_0 == FeatureComputationError::ZeroDenominator
        } else {
            &&& result is Ok
            &&& result->Ok_0.cancellations == actions_of(lifecycle.events, LifecycleAction::Cancel)
            &&& result->Ok_0.quote_events == lifecycle.events.len()
            &&& result->Ok_0.trade_count == trades.trades.len()
        },
    }
}

/// The exact terms of the ratios of order events to trades.
pub fn certified_lifecycle_ratios(lifecycle: &LifecycleWindow, trades: &TradeFlowWindow) -> (result:
    Result<LifecycleRatioTerms, FeatureComputationError>)
    ensures
        match pair_refusal(lifecycle@, trades@) {
            Some(error) => result is Err && result->Err_0 == error,
            None => if trades@.trades.len() == 0 {
                result is Err && result->Err_0 == FeatureComputationError::ZeroDenominator
            } else {
                &&& result is Ok
                &&& result->Ok_0.cancellations == actions_of(
                    lifecycle@.events,
                    LifecycleAction::Cancel,
                )
                &&& result->Ok_0.quote_events == lifecycle@.events.len()
                &&& result->Ok_0.trade_count == trades@.trades.len()
            },
        },
        are_ratios(result, lifecycle@, trades@),
{
    validate_lifecycle_trade_pair(lifecycle, trades)?;
    let counts = lifecycle.action_counts();
    let trade_count: usize = trades.observations().len();
    if trade_count == 0 {
        return Err(FeatureComputationError::ZeroDenominator);
    }
    proof {
        lemma_actions_are_all_events(lifecycle@.events);
    }
    Ok(
        LifecycleRatioTerms {
            cancellations: counts.cancellations,
            quote_events: counts.placements + counts.cancellations + counts.modifications,
            trade_count,
        },
    )
}

/// The rates of a window's order events, by their bit patterns.
#[derive(Clone, Copy, Debug, PartialEq, Eq, Structural)]
pub struct LifecycleRates {
    pub placement_rate_per_second_bits: u64,
    pub cancellation_rate_per_second_bits: u64,
    pub modification_rate_per_second_bits: u64,
}

impl LifecycleRates {
    /// The rates as measured, where each is finite.
    pub fn from_bits(placement_bits: u64, cancellation_bits: u64, modification_bits: u64) -> (result:
        Result<Self, FeatureComputationError>)
        ensures
            result == if finite_value(placement_bits) is Ok && finite_value(cancellation_bits) is Ok
                && finite_value(modification_bits) is Ok {
                Ok::<Self, FeatureComputationError>(
                    (LifecycleRates {
                        placement_rate_per_second_bits: placement_bits,
                        cancellation_rate_per_second_bits: cancellation_bits,
                        modification_rate_per_second_bits: modification_bits,
                    }),
                )
            } else {
                Err(FeatureComputationError::AnalyticalUnavailable)
            },
    {
        Ok(
            LifecycleRates {
                placement_rate_per_second_bits: finite(placement_bits)?,
                cancellation_rate_per_second_bits: finite(cancellation_bits)?,
                modification_rate_per_second_bits: finite(modification_bits)?,
            },
        )
    }
}

/// The ratios of a window's order events to trades, by their bit patterns.
#[derive(Clone, Copy, Debug, PartialEq, Eq, Structural)]
pub struct LifecycleRatios {
    pub cancellation_to_trade_ratio_bits: u64,
    pub quote_to_trade_ratio_bits: u64,
}

impl LifecycleRatios {
    /// The ratios as measured, where each is finite.
    pub fn from_bits(cancellation_bits: u64, quote_bits: u64) -> (result: Result<
        Self,
        FeatureComputationError,
    >)
        ensures
            result == if finite_value(cancellation_bits) is Ok && finite_value(quote_bits) is Ok {
                Ok::<Self, FeatureComputationError>(
                    (LifecycleRatios {
                        cancellation_to_trade_ratio_bits: cancellation_bits,
                        quote_to_trade_ratio_bits: quote_bits,
                    }),
                )
            } else {
                Err(FeatureComputationError::AnalyticalUnavailable)
            },
    {
        Ok(
            LifecycleRatios {
                cancellation_to_trade_ratio_bits: finite(cancellation_bits)?,
                quote_to_trade_ratio_bits: finite(quote_bits)?,
            },
        )
    }
}

/// The rates and ratios of a window.
#[derive(Clone, Copy, Debug, PartialEq, Eq, Structural)]
pub struct LifecycleMetrics {
    pub rates: LifecycleRates,
    pub ratios: LifecycleRatios,
}

/// The measured rates and ratios of windows that go together.
pub fn certified_lifecycle_metrics(
    lifecycle: &LifecycleWindow,
    trades: &TradeFlowWindow,
    rates: LifecycleRates,
    ratios: LifecycleRatios,
) -> (result: Result<LifecycleMetrics, FeatureComputationError>)
    ensures
        result == match (
            elapsed(lifecycle@.start, lifecycle@.end),
            pair_refusal(lifecycle@, trades@),
        ) {
            (Err(error), _) => Err::<LifecycleMetrics, FeatureComputationError>(error),
            (Ok(_), Some(error)) => Err(error),
            (Ok(_), None) => if trades@.trades.len() == 0 {
                Err(FeatureComputationError::ZeroDenominator)
            } else {
                Ok((LifecycleMetrics { rates, ratios }))
            },
        },
{
    certified_lifecycle_rates(lifecycle)?;
    certified_lifecycle_ratios(lifecycle, trades)?;
    Ok(LifecycleMetrics { rates, ratios })
}

/// One for each order event of a kind, and nothing for the others.
pub open spec fn action_marks(events: Seq<LifecycleView>, action: LifecycleAction) -> Seq<int> {
    Seq::new(
        events.len(),
        |i: int|
            if events[i].action == action {
                1int
            } else {
                0
            },
    )
}

proof fn lemma_actions_are_marked(events: Seq<LifecycleView>, action: LifecycleAction)
    ensures
        actions_of(events, action) == sum_of(action_marks(events, action)),
    decreases events.len(),
{
    if events.len() > 0 {
        let rest = events.drop_last();
        lemma_actions_are_marked(rest, action);
        lemma_sum_last(action_marks(events, action));
        assert(action_marks(events, action).drop_last() =~= action_marks(rest, action));
    }
}

/// Rates count placements as placements, cancellations as cancellations and modifications as
/// modifications, over the time from the window's start to its end.
pub proof fn lemma_rates_count_by_action(
    result: Result<LifecycleRateTerms, FeatureComputationError>,
    lifecycle: LifecycleWindowView,
)
    requires
        are_rates(result, lifecycle),
    ensures
        result is Ok <==> 0 <= lifecycle.end.nanos - lifecycle.start.nanos <= i64::MAX,
        result is Ok ==> {
            let terms = result->Ok_0;
            &&& terms.counts.placements == sum_of(
                action_marks(lifecycle.events, LifecycleAction::Place),
            )
            &&& terms.counts.cancellations == sum_of(
                action_marks(lifecycle.events, LifecycleAction::Cancel),
            )
            &&& terms.counts.modifications == sum_of(
                action_marks(lifecycle.events, LifecycleAction::Modify),
            )
            &&& lifecycle.start.nanos + terms.duration_ns == lifecycle.end.nanos
        },
{
    lemma_actions_are_marked(lifecycle.events, LifecycleAction::Place);
    lemma_actions_are_marked(lifecycle.events, LifecycleAction::Cancel);
    lemma_actions_are_marked(lifecycle.events, LifecycleAction::Modify);
}

/// Ratios set the cancellations, and all order events, against the trades of the same window: of
/// one instrument, over one time, and with no event counted on both sides.
pub proof fn lemma_ratios_are_to_the_trades_of_the_same_window(
    result: Result<LifecycleRatioTerms, FeatureComputationError>,
    lifecycle: LifecycleWindowView,
    trades: FlowWindowView,
)
    requires
        are_ratios(result, lifecycle, trades),
        result is Ok,
    ensures
        result->Ok_0.cancellations == sum_of(
            action_marks(lifecycle.events, LifecycleAction::Cancel),
        ),
        result->Ok_0.quote_events == lifecycle.events.len(),
        result->Ok_0.trade_count == trades.trades.len(),
        result->Ok_0.trade_count > 0,
        lifecycle.instrument == trades.instrument,
        lifecycle.start == trades.start,
        lifecycle.end == trades.end,
        lifecycle.evaluation_time == trades.evaluation_time,
        forall|i: int|
            #![trigger trades.trades[i]]
            0 <= i < trades.trades.len() ==> {
                &&& trades.trades[i].instrument == lifecycle.instrument
                &&& lifecycle.start.nanos <= trades.trades[i].event_time.nanos
                    < lifecycle.end.nanos
                &&& !lifecycle_lineages(lifecycle.events).contains(trades.trades[i].lineage)
            },
{
    lemma_actions_are_marked(lifecycle.events, LifecycleAction::Cancel);
    assert forall|i: int|
        #![trigger trades.trades[i]]
        0 <= i < trades.trades.len() implies {
        &&& trades.trades[i].instrument == lifecycle.instrument
        &&& lifecycle.start.nanos <= trades.trades[i].event_time.nanos < lifecycle.end.nanos
        &&& !lifecycle_lineages(lifecycle.events).contains(trades.trades[i].lineage)
    } by {
        lemma_paired_trades_pass(lifecycle, trades.trades, 0, i);
    }
}

proof fn lemma_paired_trades_pass(
    lifecycle: LifecycleWindowView,
    trades: Seq<FlowTradeView>,
    from: int,
    i: int,
)
    requires
        paired_trades_refusal(lifecycle, trades, from) is None,
        from <= i < trades.len(),
    ensures
        paired_trade_refusal(lifecycle, trades, i) is None,
    decreases i - from,
{
    if from < i {
        lemma_paired_trades_pass(lifecycle, trades, from + 1, i);
    }
}

} // verus!
