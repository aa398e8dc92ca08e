//! Time-aware half-life averaging: which samples count, in which order, and from which checkpoint.

use vstd::prelude::*;

use crate::digest::same_digest;
use crate::domain::{FiniteF64, UnixNanos};
use crate::ordering::lemma_images_keep_members;
use crate::watermark::{frontier, TrackerView, WatermarkTracker};
use crate::window::{
    WindowDefinition, WindowError, WindowKind, WindowParameter, MAX_EWMA_SAMPLES,
};

verus! {

/// A sample and the order in which it arrived.
#[derive(Clone, Copy, Debug, PartialEq, Eq, Structural)]
pub struct EwmaSample {
    pub event_time: UnixNanos,
    pub arrival_sequence: u64,
    pub value: FiniteF64,
}

/// The average at a point in event time.
#[derive(Clone, Copy, Debug, PartialEq, Eq, Structural)]
pub struct EwmaCheckpoint {
    pub event_time: UnixNanos,
    pub value: FiniteF64,
}

/// A sample and the time since the one before it.
#[derive(Clone, Copy, Debug, PartialEq, Eq, Structural)]
pub struct EwmaStep {
    pub elapsed_nanos: i64,
    pub value: FiniteF64,
}

/// An average to be computed: start from the initial value, and decay it over each step.
#[derive(Debug)]
pub struct EwmaReplay {
    pub half_life_nanos: u64,
    pub initial: EwmaCheckpoint,
    pub steps: Vec<EwmaStep>,
}

/// What a compaction leaves to be computed.
#[derive(Debug)]
pub enum Compaction {
    /// The boundary is where it was.
    Unchanged,
    /// The boundary moves over no sample.
    Advanced,
    /// The boundary moves over samples, whose average becomes the checkpoint.
    Replay(EwmaReplay),
}

/// The steps over samples that follow a point in event time.
pub open spec fn steps_after(start: i64, samples: Seq<EwmaSample>) -> Seq<EwmaStep> {
    Seq::new(
        samples.len(),
        |i: int|
            EwmaStep {
                elapsed_nanos: (samples[i].event_time.nanos - (if i == 0 {
                    start
                } else {
                    samples[i - 1].event_time.nanos
                })) as i64,
                value: samples[i].value,
            },
    )
}

/// The replay of samples from a checkpoint, or from the first of them where there is none.
pub open spec fn replays(
    replay: EwmaReplay,
    half_life: u64,
    checkpoint: Option<EwmaCheckpoint>,
    samples: Seq<EwmaSample>,
) -> bool {
    &&& replay.half_life_nanos == half_life
    &&& match checkpoint {
        Some(checkpoint) => replay.initial == checkpoint && replay.steps@ == steps_after(
            checkpoint.event_time.nanos,
            samples,
        ),
        None => samples.len() > 0 && replay.initial == (EwmaCheckpoint {
            event_time: samples[0].event_time,
            value: samples[0].value,
        }) && replay.steps@ == steps_after(samples[0].event_time.nanos, samples.skip(1)),
    }
}

/// The number of leading samples at or before a time.
pub open spec fn samples_through(samples: Seq<EwmaSample>, time: i64) -> nat
    decreases samples.len(),
{
    if samples.len() == 0 || samples[0].event_time.nanos > time {
        0
    } else {
        1 + samples_through(samples.drop_first(), time)
    }
}

/// The samples with one more, behind all that are not later than it.
pub open spec fn with_sample(samples: Seq<EwmaSample>, sample: EwmaSample) -> Seq<EwmaSample> {
    samples.insert(samples_through(samples, sample.event_time.nanos) as int, sample)
}

/// Samples are in order of event time, and of arrival where that is equal.
pub open spec fn samples_ordered(samples: Seq<EwmaSample>) -> bool {
    forall|i: int, j: int|
        0 <= i < j < samples.len() ==> (#[trigger] samples[i]).event_time.nanos < (
        #[trigger] samples[j]).event_time.nanos || (samples[i].event_time.nanos
            == samples[j].event_time.nanos && samples[i].arrival_sequence
            < samples[j].arrival_sequence)
}

/// What an average holds.
pub struct EwmaView {
    pub half_life: u64,
    pub capacity: nat,
    pub samples: Seq<EwmaSample>,
    pub checkpoint: Option<EwmaCheckpoint>,
    pub compacted_through: Option<UnixNanos>,
    pub next_arrival: u64,
    pub value: Option<FiniteF64>,
    pub policy: Seq<u8>,
}

impl EwmaView {
    /// Buffered samples are in order, behind the compacted boundary, and within capacity; the
    /// checkpoint lies at or before the boundary.
    pub open spec fn well_formed(self) -> bool {
        &&& 0 < self.half_life <= i64::MAX
        &&& 0 < self.capacity <= MAX_EWMA_SAMPLES
        &&& self.samples.len() <= self.capacity
        &&& samples_ordered(self.samples)
        &&& forall|i: int|
            0 <= i < self.samples.len() ==> (#[trigger] self.samples[i]).event_time.nanos > 0
                && self.samples[i].arrival_sequence < self.next_arrival && (
            self.compacted_through is Some ==> self.samples[i].event_time.nanos
                > self.compacted_through->Some_0.nanos)
        &&& self.checkpoint is Some ==> self.compacted_through is Some && 0
            < self.checkpoint->Some_0.event_time.nanos <= self.compacted_through->Some_0.nanos
    }

    /// Why a sample is refused, if it is.
    pub open spec fn sample_refusal(self, event_time: UnixNanos) -> Option<WindowError> {
        if event_time.nanos <= 0 {
            Some(WindowError::InvalidEwmaInput)
        } else if self.compacted_through is Some && event_time.nanos
            <= self.compacted_through->Some_0.nanos {
            Some(WindowError::EwmaBeforeWatermark)
        } else if self.samples.len() >= self.capacity {
            Some(WindowError::EwmaCapacity)
        } else if self.next_arrival == u64::MAX {
            Some(WindowError::ArithmeticOverflow)
        } else {
            None
        }
    }

    /// The samples behind the arrival of one more.
    pub open spec fn admitted(self, event_time: UnixNanos, input: FiniteF64) -> Seq<EwmaSample> {
        with_sample(
            self.samples,
            EwmaSample { event_time, arrival_sequence: self.next_arrival, value: input },
        )
    }

    /// Why the boundary cannot follow a tracker, if it cannot.
    pub open spec fn compaction_refusal(self, tracker: TrackerView) -> Option<WindowError> {
        let boundary = frontier(tracker.slots, tracker.lateness, tracker.allowed_health);
        if tracker.policy != self.policy {
            Some(WindowError::ForeignWatermarkPolicy)
        } else if boundary is None {
            Some(WindowError::EwmaWatermarkUnavailable)
        } else if self.compacted_through is Some && boundary->Some_0.nanos
            < self.compacted_through->Some_0.nanos {
            Some(WindowError::EwmaWatermarkRegression)
        } else {
            None
        }
    }

    /// The state behind a compaction up to a boundary, with the replayed value of the prefix.
    pub open spec fn compacted(self, boundary: UnixNanos, replayed: FiniteF64) -> Self {
        let prefix = samples_through(self.samples, boundary.nanos) as int;
        EwmaView {
            samples: self.samples.skip(prefix),
            checkpoint: if prefix == 0 {
                self.checkpoint
            } else {
                Some(
                    EwmaCheckpoint {
                        event_time: self.samples[prefix - 1].event_time,
                        value: replayed,
                    },
                )
            },
            compacted_through: Some(boundary),
            ..self
        }
    }
}

/// The samples behind one half-life average.
#[derive(Debug)]
pub struct HalfLifeEwmaState {
    half_life_nanos: u64,
    capacity: usize,
    samples: Vec<EwmaSample>,
    checkpoint: Option<EwmaCheckpoint>,
    compacted_through: Option<UnixNanos>,
    next_arrival_sequence: u64,
    value: Option<FiniteF64>,
    policy_id: [u8; 32],
}

impl View for HalfLifeEwmaState {
    type V = EwmaView;

    closed spec fn view(&self) -> EwmaView {
        EwmaView {
            half_life: self.half_life_nanos,
            capacity: self.capacity as nat,
            samples: self.samples@,
            checkpoint: self.checkpoint,
            compacted_through: self.compacted_through,
            next_arrival: self.next_arrival_sequence,
            value: self.value,
            policy: self.policy_id@,
        }
    }
}

impl HalfLifeEwmaState {
    #[verifier::type_invariant]
    spec fn valid(self) -> bool {
        self@.well_formed()
    }

    pub fn try_from_definition(
        definition: &WindowDefinition,
        capacity: usize,
        tracker: &WatermarkTracker,
    ) -> (result: Result<Self, WindowError>)
        ensures
            match (definition.kind, definition.parameter) {
                (
                    WindowKind::ExponentiallyWeighted,
                    WindowParameter::ExponentiallyWeighted { half_life },
                ) => {
                    if half_life.nanos == 0 || half_life.nanos > i64::MAX {
                        result is Err && result->Err_0 == WindowError::InvalidWindowSpec
                    } else if capacity == 0 || capacity > MAX_EWMA_SAMPLES {
                        result is Err && result->Err_0 == WindowError::InvalidEwmaCapacity
                    } else {
                        result is Ok && result->Ok_0@ == EwmaView {
                            half_life: half_life.nanos,
                            capacity: capacity as nat,
                            samples: Seq::empty(),
                            checkpoint: None,
                            compacted_through: None,
                            next_arrival: 0,
                            value: None,
                            policy: tracker@.policy,
                        }
                    }
                },
                _ => result is Err && result->Err_0 == WindowError::DefinitionKindMismatch,
            },
    {
        let half_life = match (definition.kind, definition.parameter) {
            (
                WindowKind::ExponentiallyWeighted,
                WindowParameter::ExponentiallyWeighted { half_life },
            ) => half_life,
            _ => {
                return Err(WindowError::DefinitionKindMismatch);
            },
        };
        if half_life.value() == 0 || half_life.value() > i64::MAX as u64 {
            return Err(WindowError::InvalidWindowSpec);
        }
        if capacity == 0 || capacity > MAX_EWMA_SAMPLES {
            return Err(WindowError::InvalidEwmaCapacity);
        }
        let state = HalfLifeEwmaState {
            half_life_nanos: half_life.value(),
            capacity,
            samples: Vec::new(),
            checkpoint: None,
            compacted_through: None,
            next_arrival_sequence: 0,
            value: None,
            policy_id: tracker.policy_id(),
        };
        proof {
            assert(state.samples@ =~= Seq::empty());
        }
        Ok(state)
    }

    fn check_sample(&self, event_time: UnixNanos) -> (result: Result<(), WindowError>)
        ensures
            match self@.sample_refusal(event_time) {
                Some(error) => result == Err::<(), WindowError>(error),
                None => result == Ok::<(), WindowError>(()),
            },
    {
        if event_time.value() <= 0 {
            return Err(WindowError::InvalidEwmaInput);
        }
        if let Some(boundary) = self.compacted_through {
            if event_time.value() <= boundary.value() {
                return Err(WindowError::EwmaBeforeWatermark);
            }
        }
        if self.samples.len() >= self.capacity {
            return Err(WindowError::EwmaCapacity);
        }
        if self.next_arrival_sequence == u64::MAX {
            return Err(WindowError::ArithmeticOverflow);
        }
        Ok(())
    }

    /// The replay whose result is the average behind the arrival of a sample, in event-time
    /// order even where the sample is late.
    pub fn plan_update(&self, event_time: UnixNanos, input: FiniteF64) -> (result: Result<
        EwmaReplay,
        WindowError,
    >)
        ensures
            match self@.sample_refusal(event_time) {
                Some(error) => result is Err && result->Err_0 == error,
                None => result is Ok && replays(
                    result->Ok_0,
                    self@.half_life,
                    self@.checkpoint,
                    self@.admitted(event_time, input),
                ),
            },
    {
        proof {
            use_type_invariant(self);
        }
        if let Err(error) = self.check_sample(event_time) {
            return Err(error);
        }
        let mut samples = copy_samples(&self.samples, self.samples.len());
        let sample = EwmaSample {
            event_time,
            arrival_sequence: self.next_arrival_sequence,
            value: input,
        };
        let position: usize = leading_through(&samples, event_time);
        proof {
            assert(samples@ =~= self@.samples);
            lemma_admitted_ordered(self@, event_time, input);
        }
        samples.insert(position, sample);
        proof {
            assert(samples@ == self@.admitted(event_time, input));
            lemma_ordered_is_replayable(samples@, samples@[0].event_time.nanos);
            if self.checkpoint is Some {
                lemma_ordered_is_replayable(samples@, self.checkpoint->Some_0.event_time.nanos);
            }
        }
        Ok(replay_of(self.half_life_nanos, self.checkpoint, &samples))
    }

    /// Buffers a sample together with the average that its replay gave.
    pub fn record_update(
        &mut self,
        event_time: UnixNanos,
        input: FiniteF64,
        average: FiniteF64,
    ) -> (result: Result<(), WindowError>)
        ensures
            match old(self)@.sample_refusal(event_time) {
                Some(error) => result == Err::<(), WindowError>(error) && final(self)@ == old(
                    self,
                )@,
                None => result == Ok::<(), WindowError>(()) && final(self)@ == EwmaView {
                    samples: old(self)@.admitted(event_time, input),
                    next_arrival: (old(self)@.next_arrival + 1) as u64,
                    value: Some(average),
                    ..old(self)@
                },
            },
    {
        proof {
            use_type_invariant(&*self);
        }
        if let Err(error) = self.check_sample(event_time) {
            return Err(error);
        }
        let ghost before = self@;
        proof {
            lemma_admitted_ordered(self@, event_time, input);
        }
        let sample = EwmaSample {
            event_time,
            arrival_sequence: self.next_arrival_sequence,
            value: input,
        };
        let mut samples: Vec<EwmaSample> = Vec::new();
        core::mem::swap(&mut samples, &mut self.samples);
        let position: usize = leading_through(&samples, event_time);
        samples.insert(position, sample);
        self.next_arrival_sequence = self.next_arrival_sequence + 1;
        self.value = Some(average);
        self.samples = samples;
        Ok(())
    }

    /// What moving the boundary to a tracker's frontier leaves to be computed: the exact prefix
    /// that can no longer receive valid late events.
    pub fn plan_compaction(&self, tracker: &WatermarkTracker) -> (result: Result<
        Compaction,
        WindowError,
    >)
        ensures
            match self@.compaction_refusal(tracker@) {
                Some(error) => result is Err && result->Err_0 == error,
                None => {
                    let boundary = frontier(
                        tracker@.slots,
                        tracker@.lateness,
                        tracker@.allowed_health,
                    )->Some_0;
                    let prefix = samples_through(self@.samples, boundary.nanos) as int;
                    &&& result is Ok
                    &&& match result->Ok_0 {
                        Compaction::Unchanged => self@.compacted_through == Some(boundary),
                        Compaction::Advanced => self@.compacted_through != Some(boundary) && prefix
                            == 0,
                        Compaction::Replay(replay) => self@.compacted_through != Some(boundary)
                            && prefix > 0 && replays(
                            replay,
                            self@.half_life,
                            self@.checkpoint,
                            self@.samples.take(prefix),
                        ),
                    }
                },
            },
    {
        proof {
            use_type_invariant(self);
        }
        let boundary = match self.check_compaction(tracker) {
            Err(error) => {
                return Err(error);
            },
            Ok(boundary) => boundary,
        };
        if let Some(current) = self.compacted_through {
            if boundary.value() == current.value() {
                return Ok(Compaction::Unchanged);
            }
        }
        let prefix: usize = leading_through(&self.samples, boundary);
        if prefix == 0 {
            return Ok(Compaction::Advanced);
        }
        let samples = copy_samples(&self.samples, prefix);
        proof {
            assert(self@.samples.take(prefix as int) =~= samples@);
            assert forall|i: int, j: int| 0 <= i < j < samples@.len() implies (
            #[trigger] samples@[i]).event_time.nanos < (#[trigger] samples@[j]).event_time.nanos || (
            samples@[i].event_time.nanos == samples@[j].event_time.nanos
                && samples@[i].arrival_sequence < samples@[j].arrival_sequence) by {
                assert(samples@[i] == self@.samples[i]);
                assert(samples@[j] == self@.samples[j]);
            }
            assert forall|i: int| 0 <= i < samples@.len() implies #[trigger] samples@[i]
                == self@.samples[i] by {
            }
            lemma_ordered_is_replayable(samples@, samples@[0].event_time.nanos);
            if self.checkpoint is Some {
                lemma_ordered_is_replayable(samples@, self.checkpoint->Some_0.event_time.nanos);
            }
        }
        Ok(Compaction::Replay(replay_of(self.half_life_nanos, self.checkpoint, &samples)))
    }

    fn check_compaction(&self, tracker: &WatermarkTracker) -> (result: Result<
        UnixNanos,
        WindowError,
    >)
        ensures
            match self@.compaction_refusal(tracker@) {
                Some(error) => result == Err::<UnixNanos, WindowError>(error),
                None => result is Ok && frontier(
                    tracker@.slots,
                    tracker@.lateness,
                    tracker@.allowed_health,
                ) == Some(result->Ok_0),
            },
    {
        if !same_digest(&tracker.policy_id(), &self.policy_id) {
            return Err(WindowError::ForeignWatermarkPolicy);
        }
        match tracker.effective_frontier() {
            None => Err(WindowError::EwmaWatermarkUnavailable),
            Some(boundary) => {
                if let Some(current) = self.compacted_through {
                    if boundary.value() < current.value() {
                        return Err(WindowError::EwmaWatermarkRegression);
                    }
                }
                Ok(boundary)
            },
        }
    }

    /// Moves the boundary to a tracker's frontier. The samples that it passes become a checkpoint
    /// with the replayed average; later attempts to rewrite that prefix fail closed.
    pub fn compact(&mut self, tracker: &WatermarkTracker, replayed: FiniteF64) -> (result: Result<
        (),
        WindowError,
    >)
        ensures
            match old(self)@.compaction_refusal(tracker@) {
                Some(error) => result == Err::<(), WindowError>(error) && final(self)@ == old(
                    self,
                )@,
                None => {
                    let boundary = frontier(
                        tracker@.slots,
                        tracker@.lateness,
                        tracker@.allowed_health,
                    )->Some_0;
                    &&& result == Ok::<(), WindowError>(())
                    &&& final(self)@ == if old(self)@.compacted_through == Some(boundary) {
                        old(self)@
                    } else {
                        old(self)@.compacted(boundary, replayed)
                    }
                },
            },
    {
        proof {
            use_type_invariant(&*self);
        }
        let boundary = match self.check_compaction(tracker) {
            Err(error) => {
                return Err(error);
            },
            Ok(boundary) => boundary,
        };
        if let Some(current) = self.compacted_through {
            if boundary.value() == current.value() {
                return Ok(());
            }
        }
        let ghost before = self@;
        let prefix: usize = leading_through(&self.samples, boundary);
        proof {
            lemma_samples_through(before.samples, boundary.nanos);
        }
        let checkpoint = if prefix == 0 {
            self.checkpoint
        } else {
            Some(
                EwmaCheckpoint {
                    event_time: self.samples[prefix - 1].event_time,
                    value: replayed,
                },
            )
        };
        let mut samples: Vec<EwmaSample> = Vec::new();
        core::mem::swap(&mut samples, &mut self.samples);
        let rest = samples.split_off(prefix);
        proof {
            assert(rest@ =~= before.samples.skip(prefix as int));
            assert forall|i: int| 0 <= i < rest@.len() implies (
            #[trigger] rest@[i]).event_time.nanos > 0 && rest@[i].arrival_sequence
                < before.next_arrival && rest@[i].event_time.nanos > boundary.nanos by {
                assert(rest@[i] == before.samples[i + prefix]);
            }
            assert forall|i: int, j: int| 0 <= i < j < rest@.len() implies (
            #[trigger] rest@[i]).event_time.nanos < (#[trigger] rest@[j]).event_time.nanos || (
            rest@[i].event_time.nanos == rest@[j].event_time.nanos && rest@[i].arrival_sequence
                < rest@[j].arrival_sequence) by {
                assert(rest@[i] == before.samples[i + prefix]);
                assert(rest@[j] == before.samples[j + prefix]);
            }
        }
        self.compacted_through = Some(boundary);
        self.checkpoint = checkpoint;
        self.samples = rest;
        Ok(())
    }

    /// The latest recorded average.
    pub fn value(&self) -> (value: Option<FiniteF64>)
        ensures
            value == self@.value,
    {
        self.value
    }

    pub fn buffered_samples(&self) -> (count: usize)
        ensures
            count == self@.samples.len(),
    {
        self.samples.len()
    }

    pub fn compacted_through(&self) -> (boundary: Option<UnixNanos>)
        ensures
            boundary == self@.compacted_through,
    {
        self.compacted_through
    }
}

fn copy_samples(samples: &Vec<EwmaSample>, count: usize) -> (copy: Vec<EwmaSample>)
    requires
        count <= samples@.len(),
    ensures
        copy@ == samples@.take(count as int),
{
    let mut copy: Vec<EwmaSample> = Vec::new();
    let mut i: usize = 0;
    while i < count
        invariant
            i <= count <= samples@.len(),
            copy@ =~= samples@.take(i as int),
        decreases count - i,
    {
        copy.push(samples[i]);
        i += 1;
    }
    copy
}

fn leading_through(samples: &Vec<EwmaSample>, time: UnixNanos) -> (count: usize)
    ensures
        count == samples_through(samples@, time.nanos),
        count <= samples@.len(),
{
    let mut count: usize = 0;
    proof {
        assert(samples@.skip(0) =~= samples@);
    }
    while count < samples.len() && samples[count].event_time.value() <= time.value()
        invariant
            count <= samples@.len(),
            samples_through(samples@, time.nanos) == count + samples_through(
                samples@.skip(count as int),
                time.nanos,
            ),
        decreases samples.len() - count,
    {
        proof {
            assert(samples@.skip(count as int)[0] == samples@[count as int]);
            assert(samples@.skip(count as int).drop_first() =~= samples@.skip(count + 1));
        }
        count += 1;
    }
    proof {
        if count < samples@.len() {
            assert(samples@.skip(count as int)[0] == samples@[count as int]);
        }
    }
    count
}

/// Positive times in order, and a start that is no later than the first of them.
spec fn replayable(start: i64, samples: Seq<EwmaSample>) -> bool {
    &&& start > 0
    &&& forall|i: int|
        0 <= i < samples.len() ==> (#[trigger] samples[i]).event_time.nanos >= start
    &&& forall|i: int, j: int|
        0 <= i < j < samples.len() ==> (#[trigger] samples[i]).event_time.nanos <= (
        #[trigger] samples[j]).event_time.nanos
}

proof fn lemma_ordered_is_replayable(samples: Seq<EwmaSample>, start: i64)
    requires
        samples_ordered(samples),
        start > 0,
        samples.len() > 0 ==> start <= samples[0].event_time.nanos,
    ensures
        replayable(start, samples),
{
    assert forall|i: int| 0 <= i < samples.len() implies (#[trigger] samples[i]).event_time.nanos
        >= start by {
        if i > 0 {
            assert(samples[0].event_time.nanos <= samples[i].event_time.nanos);
        }
    }
}

fn replay_of(
    half_life_nanos: u64,
    checkpoint: Option<EwmaCheckpoint>,
    samples: &Vec<EwmaSample>,
) -> (replay: EwmaReplay)
    requires
        checkpoint is None ==> samples@.len() > 0 && replayable(
            samples@[0].event_time.nanos,
            samples@,
        ),
        checkpoint is Some ==> replayable(checkpoint->Some_0.event_time.nanos, samples@),
    ensures
        replays(replay, half_life_nanos, checkpoint, samples@),
{
    let initial = match checkpoint {
        Some(checkpoint) => checkpoint,
        None => EwmaCheckpoint { event_time: samples[0].event_time, value: samples[0].value },
    };
    let skipped: usize = match checkpoint {
        Some(_) => 0,
        None => 1,
    };
    let ghost rest = samples@.skip(skipped as int);
    let mut steps: Vec<EwmaStep> = Vec::new();
    let mut previous: i64 = initial.event_time.value();
    let mut i: usize = skipped;
    while i < samples.len()
        invariant
            skipped <= i <= samples@.len(),
            rest == samples@.skip(skipped as int),
            replayable(initial.event_time.nanos, samples@),
            previous == if i == skipped {
                initial.event_time.nanos
            } else {
                samples@[i - 1].event_time.nanos
            },
            steps@.len() == i - skipped,
            forall|k: int|
                0 <= k < steps@.len() ==> #[trigger] steps@[k] == steps_after(
                    initial.event_time.nanos,
                    rest,
                )[k],
        decreases samples.len() - i,
    {
        let sample = samples[i];
        proof {
            assert(rest[i - skipped] == samples@[i as int]);
            if i > skipped {
                assert(rest[i - skipped - 1] == samples@[i - 1]);
                assert(samples@[i - 1].event_time.nanos <= samples@[i as int].event_time.nanos);
            }
            assert(samples@[i as int].event_time.nanos >= initial.event_time.nanos);
        }
        let elapsed_nanos: i64 = sample.event_time.value() - previous;
        steps.push(EwmaStep { elapsed_nanos, value: sample.value });
        previous = sample.event_time.value();
        i += 1;
    }
    proof {
        assert(steps@ =~= steps_after(initial.event_time.nanos, rest));
        assert(samples@.skip(0) =~= samples@);
    }
    EwmaReplay { half_life_nanos, initial, steps }
}

proof fn lemma_samples_through(samples: Seq<EwmaSample>, time: i64)
    requires
        samples_ordered(samples),
    ensures
        samples_through(samples, time) <= samples.len(),
        forall|i: int|
            0 <= i < samples.len() ==> ((#[trigger] samples[i]).event_time.nanos <= time <==> i
                < samples_through(samples, time)),
    decreases samples.len(),
{
    if samples.len() > 0 {
        if samples[0].event_time.nanos > time {
            assert forall|i: int| 0 <= i < samples.len() implies (
            #[trigger] samples[i]).event_time.nanos > time by {
                if i > 0 {
                    assert(samples[0].event_time.nanos <= samples[i].event_time.nanos);
                }
            }
        } else {
            let rest = samples.drop_first();
            assert(samples_ordered(rest)) by {
                assert forall|i: int, j: int| 0 <= i < j < rest.len() implies (
                #[trigger] rest[i]).event_time.nanos < (#[trigger] rest[j]).event_time.nanos || (
                rest[i].event_time.nanos == rest[j].event_time.nanos && rest[i].arrival_sequence
                    < rest[j].arrival_sequence) by {
                    assert(rest[i] == samples[i + 1]);
                    assert(rest[j] == samples[j + 1]);
                }
            }
            lemma_samples_through(rest, time);
            assert forall|i: int| 0 <= i < samples.len() implies ((
            #[trigger] samples[i]).event_time.nanos <= time <==> i < samples_through(
                samples,
                time,
            )) by {
                if i > 0 {
                    assert(rest[i - 1] == samples[i]);
                }
            }
        }
    }
}

proof fn lemma_admitted_ordered(state: EwmaView, event_time: UnixNanos, input: FiniteF64)
    requires
        state.well_formed(),
        state.sample_refusal(event_time) is None,
    ensures
        samples_ordered(state.admitted(event_time, input)),
        state.admitted(event_time, input).len() == state.samples.len() + 1,
        forall|i: int|
            0 <= i < state.admitted(event_time, input).len() ==> (#[trigger] state.admitted(
                event_time,
                input,
            )[i]).event_time.nanos > 0 && state.admitted(event_time, input)[i].arrival_sequence
                <= state.next_arrival && (state.compacted_through is Some ==> state.admitted(
                event_time,
                input,
            )[i].event_time.nanos > state.compacted_through->Some_0.nanos),
{
    lemma_samples_through(state.samples, event_time.nanos);
    let position = samples_through(state.samples, event_time.nanos) as int;
    let after = state.admitted(event_time, input);
    assert forall|i: int, j: int| 0 <= i < j < after.len() implies (
    #[trigger] after[i]).event_time.nanos < (#[trigger] after[j]).event_time.nanos || (
    after[i].event_time.nanos == after[j].event_time.nanos && after[i].arrival_sequence
        < after[j].arrival_sequence) by {
        let a = if i < position {
            i
        } else {
            i - 1
        };
        let b = if j < position {
            j
        } else {
            j - 1
        };
        if i == position {
            assert(after[j] == state.samples[b]);
        } else if j == position {
            assert(after[i] == state.samples[a]);
        } else {
            assert(after[i] == state.samples[a]);
            assert(after[j] == state.samples[b]);
        }
    }
    assert forall|i: int| 0 <= i < after.len() implies (#[trigger] after[i]).event_time.nanos > 0
        && after[i].arrival_sequence <= state.next_arrival && (state.compacted_through is Some
        ==> after[i].event_time.nanos > state.compacted_through->Some_0.nanos) by {
        if i < position {
            assert(after[i] == state.samples[i]);
        } else if i > position {
            assert(after[i] == state.samples[i - 1]);
        }
    }
}

/// A sample as it arrives: its event time and its value.
pub type Arrival = (UnixNanos, FiniteF64);

/// The samples of a state behind the arrival of further ones, each in its turn.
pub open spec fn samples_after(state: EwmaView, arrivals: Seq<Arrival>) -> Seq<EwmaSample>
    decreases arrivals.len(),
{
    if arrivals.len() == 0 {
        state.samples
    } else {
        with_sample(
            samples_after(state, arrivals.drop_last()),
            EwmaSample {
                event_time: arrivals.last().0,
                arrival_sequence: (state.next_arrival + arrivals.len() - 1) as u64,
                value: arrivals.last().1,
            },
        )
    }
}

/// Times and values of samples.
pub open spec fn points(samples: Seq<EwmaSample>) -> Seq<Arrival> {
    samples.map_values(|sample: EwmaSample| (sample.event_time, sample.value))
}

/// No two samples are of one event time.
pub open spec fn times_differ(arrivals: Seq<Arrival>) -> bool {
    forall|i: int, j: int|
        0 <= i < j < arrivals.len() ==> (#[trigger] arrivals[i]).0.nanos != (
        #[trigger] arrivals[j]).0.nanos
}

/// The average that a replay comes to, whatever one step makes of an average and a sample.
pub open spec fn averaged(
    initial: FiniteF64,
    steps: Seq<EwmaStep>,
    step: spec_fn(FiniteF64, EwmaStep) -> Option<FiniteF64>,
) -> Option<FiniteF64>
    decreases steps.len(),
{
    if steps.len() == 0 {
        Some(initial)
    } else {
        match averaged(initial, steps.drop_last(), step) {
            None => None,
            Some(average) => step(average, steps.last()),
        }
    }
}

/// A state that recorded some arrivals and records one more holds what all of them leave.
pub proof fn lemma_updates_accumulate(
    start: EwmaView,
    arrivals: Seq<Arrival>,
    state: EwmaView,
    event_time: UnixNanos,
    value: FiniteF64,
)
    requires
        state.samples == samples_after(start, arrivals),
        state.next_arrival == start.next_arrival + arrivals.len(),
    ensures
        state.admitted(event_time, value) == samples_after(
            start,
            arrivals.push((event_time, value)),
        ),
{
    assert(arrivals.push((event_time, value)).drop_last() =~= arrivals);
}

proof fn lemma_samples_after(state: EwmaView, arrivals: Seq<Arrival>)
    requires
        state.well_formed(),
        state.next_arrival + arrivals.len() <= u64::MAX,
    ensures
        samples_ordered(samples_after(state, arrivals)),
        samples_after(state, arrivals).len() == state.samples.len() + arrivals.len(),
        forall|i: int|
            0 <= i < samples_after(state, arrivals).len() ==> (#[trigger] samples_after(
                state,
                arrivals,
            )[i]).arrival_sequence < state.next_arrival + arrivals.len(),
        points(samples_after(state, arrivals)).to_multiset() == (points(state.samples)
            + arrivals).to_multiset(),
    decreases arrivals.len(),
{
    if arrivals.len() == 0 {
        assert(points(state.samples) + arrivals =~= points(state.samples));
    } else {
        let rest = arrivals.drop_last();
        let last = arrivals.last();
        lemma_samples_after(state, rest);
        let before = samples_after(state, rest);
        let sample = EwmaSample {
            event_time: last.0,
            arrival_sequence: (state.next_arrival + arrivals.len() - 1) as u64,
            value: last.1,
        };
        let after = with_sample(before, sample);
        lemma_samples_through(before, last.0.nanos);
        lemma_with_sample_ordered(before, sample);
        let position = samples_through(before, last.0.nanos) as int;
        assert forall|i: int| 0 <= i < after.len() implies (#[trigger] after[i]).arrival_sequence
            < state.next_arrival + arrivals.len() by {
            if i < position {
                assert(after[i] == before[i]);
            } else if i > position {
                assert(after[i] == before[i - 1]);
            }
        }
        let inserted = points(after);
        assert(inserted =~= points(before).insert(position, last));
        assert(inserted.remove(position) =~= points(before));
        inserted.to_multiset_ensures();
        assert(inserted.contains(inserted[position]));
        assert(inserted.to_multiset() =~= points(before).to_multiset().insert(last));
        let all = points(state.samples) + rest;
        all.to_multiset_ensures();
        assert(points(state.samples) + arrivals =~= all.push(last));
    }
}

/// Times ascend strictly.
pub open spec fn times_ascend(arrivals: Seq<Arrival>) -> bool {
    forall|i: int, j: int|
        0 <= i < j < arrivals.len() ==> (#[trigger] arrivals[i]).0.nanos < (
        #[trigger] arrivals[j]).0.nanos
}

proof fn lemma_ascending_is_unique(a: Seq<Arrival>, b: Seq<Arrival>)
    requires
        times_ascend(a),
        times_ascend(b),
        a.to_multiset() == b.to_multiset(),
    ensures
        a == b,
    decreases a.len(),
{
    a.to_multiset_ensures();
    b.to_multiset_ensures();
    if a.len() == 0 {
        assert(a =~= b);
    } else {
        assert(a.contains(a.last()));
        assert(b.contains(b.last()));
        assert(b.to_multiset().count(a.last()) > 0);
        assert(a.to_multiset().count(b.last()) > 0);
        let i = b.index_of(a.last());
        let j = a.index_of(b.last());
        if i < b.len() - 1 {
            assert(b[i].0.nanos < b.last().0.nanos);
            if j < a.len() - 1 {
                assert(a[j].0.nanos < a.last().0.nanos);
            }
        }
        assert(a.last() == b.last());
        assert(a.drop_last() =~= a.remove(a.len() - 1));
        assert(b.drop_last() =~= b.remove(b.len() - 1));
        lemma_ascending_is_unique(a.drop_last(), b.drop_last());
        assert(a =~= a.drop_last().push(a.last()));
        assert(b =~= b.drop_last().push(b.last()));
    }
}

proof fn lemma_differing_times_ascend(samples: Seq<EwmaSample>, arrivals: Seq<Arrival>)
    requires
        samples_ordered(samples),
        points(samples).to_multiset() == arrivals.to_multiset(),
        times_differ(arrivals),
    ensures
        times_ascend(points(samples)),
{
    let time = |arrival: Arrival| arrival.0.nanos;
    let times = points(samples).map_values(time);
    let others = arrivals.map_values(time);
    lemma_images_keep_members(points(samples), arrivals, time);
    assert(others.no_duplicates()) by {
        assert forall|i: int, j: int| 0 <= i < others.len() && 0 <= j < others.len() && i
            != j implies others[i] != others[j] by {
            if i < j {
                assert(arrivals[i].0.nanos != arrivals[j].0.nanos);
            } else {
                assert(arrivals[j].0.nanos != arrivals[i].0.nanos);
            }
        }
    }
    others.lemma_multiset_has_no_duplicates();
    times.lemma_multiset_has_no_duplicates_conv();
    assert forall|i: int, j: int| 0 <= i < j < points(samples).len() implies (
    #[trigger] points(samples)[i]).0.nanos < (#[trigger] points(samples)[j]).0.nanos by {
        assert(times[i] != times[j]);
        assert(samples[i].event_time.nanos <= samples[j].event_time.nanos);
    }
}

proof fn lemma_points_decide_steps(start: i64, a: Seq<EwmaSample>, b: Seq<EwmaSample>)
    requires
        points(a) == points(b),
    ensures
        steps_after(start, a) == steps_after(start, b),
{
    assert(points(a).len() == a.len() && points(b).len() == b.len());
    assert forall|i: int| 0 <= i < a.len() implies #[trigger] a[i].event_time == b[i].event_time
        && a[i].value == b[i].value by {
        assert(points(a)[i] == (a[i].event_time, a[i].value));
        assert(points(b)[i] == (b[i].event_time, b[i].value));
    }
    assert(steps_after(start, a) =~= steps_after(start, b));
}

/// Samples of different event times leave the same average in whatever order they arrive: the
/// replays start alike and take the same steps, in event-time order.
pub proof fn lemma_arrival_order_does_not_matter(
    state: EwmaView,
    arrivals: Seq<Arrival>,
    others: Seq<Arrival>,
    first: EwmaReplay,
    second: EwmaReplay,
    step: spec_fn(FiniteF64, EwmaStep) -> Option<FiniteF64>,
)
    requires
        state.well_formed(),
        state.next_arrival + arrivals.len() <= u64::MAX,
        arrivals.to_multiset() == others.to_multiset(),
        times_differ(points(state.samples) + arrivals),
        replays(first, state.half_life, state.checkpoint, samples_after(state, arrivals)),
        replays(second, state.half_life, state.checkpoint, samples_after(state, others)),
    ensures
        points(samples_after(state, arrivals)) == points(samples_after(state, others)),
        times_ascend(points(samples_after(state, arrivals))),
        first.half_life_nanos == second.half_life_nanos,
        first.initial == second.initial,
        first.steps@ == second.steps@,
        averaged(first.initial.value, first.steps@, step) == averaged(
            second.initial.value,
            second.steps@,
            step,
        ),
{
    let held = points(state.samples);
    let a = samples_after(state, arrivals);
    let b = samples_after(state, others);
    arrivals.to_multiset_ensures();
    others.to_multiset_ensures();
    lemma_samples_after(state, arrivals);
    lemma_samples_after(state, others);
    vstd::seq_lib::lemma_multiset_commutative(held, arrivals);
    vstd::seq_lib::lemma_multiset_commutative(held, others);
    assert((held + arrivals).to_multiset() =~= (held + others).to_multiset());
    lemma_differing_times_ascend(a, held + arrivals);
    lemma_differing_times_ascend(b, held + arrivals);
    lemma_ascending_is_unique(points(a), points(b));
    assert(points(a).len() == a.len() && points(b).len() == b.len());
    match state.checkpoint {
        Some(checkpoint) => {
            lemma_points_decide_steps(checkpoint.event_time.nanos, a, b);
        },
        None => {
            assert(points(a)[0] == (a[0].event_time, a[0].value));
            assert(points(b)[0] == (b[0].event_time, b[0].value));
            assert(points(a.skip(1)) =~= points(a).skip(1));
            assert(points(b.skip(1)) =~= points(b).skip(1));
            lemma_points_decide_steps(a[0].event_time.nanos, a.skip(1), b.skip(1));
        },
    }
}

/// A compaction moves the boundary and drops just the samples that it passes. It keeps the average,
/// and what would rewrite the prefix is refused from then on.
pub proof fn lemma_compaction_drops_the_prefix(
    state: EwmaView,
    boundary: UnixNanos,
    replayed: FiniteF64,
    event_time: UnixNanos,
)
    requires
        state.well_formed(),
    ensures
        ({
            let compacted = state.compacted(boundary, replayed);
            let prefix = samples_through(state.samples, boundary.nanos) as int;
            &&& compacted.compacted_through == Some(boundary)
            &&& compacted.value == state.value
            &&& compacted.samples == state.samples.skip(prefix)
            &&& forall|i: int|
                0 <= i < state.samples.len() ==> ((#[trigger] state.samples[i]).event_time.nanos
                    > boundary.nanos <==> i >= prefix)
            &&& 0 < event_time.nanos <= boundary.nanos ==> compacted.sample_refusal(event_time)
                == Some(WindowError::EwmaBeforeWatermark)
        }),
{
    lemma_samples_through(state.samples, boundary.nanos);
}

proof fn lemma_through_behind(head: Seq<EwmaSample>, samples: Seq<EwmaSample>, time: i64)
    requires
        forall|i: int| 0 <= i < head.len() ==> (#[trigger] head[i]).event_time.nanos <= time,
    ensures
        samples_through(head + samples, time) == head.len() + samples_through(samples, time),
    decreases head.len(),
{
    if head.len() == 0 {
        assert(head + samples =~= samples);
    } else {
        assert((head + samples)[0] == head[0]);
        assert((head + samples).drop_first() =~= head.drop_first() + samples);
        lemma_through_behind(head.drop_first(), samples, time);
    }
}

/// Later arrivals leave a compacted prefix where it is.
proof fn lemma_prefix_stays(
    state: EwmaView,
    boundary: UnixNanos,
    replayed: FiniteF64,
    arrivals: Seq<Arrival>,
)
    requires
        state.well_formed(),
        state.next_arrival + arrivals.len() <= u64::MAX,
        forall|i: int|
            0 <= i < arrivals.len() ==> (#[trigger] arrivals[i]).0.nanos > boundary.nanos,
    ensures
        samples_after(state, arrivals) == state.samples.take(
            samples_through(state.samples, boundary.nanos) as int,
        ) + samples_after(state.compacted(boundary, replayed), arrivals),
        samples_after(state.compacted(boundary, replayed), arrivals).len()
            == state.samples.len() - samples_through(state.samples, boundary.nanos)
            + arrivals.len(),
    decreases arrivals.len(),
{
    let prefix = samples_through(state.samples, boundary.nanos) as int;
    let head = state.samples.take(prefix);
    let compacted = state.compacted(boundary, replayed);
    lemma_samples_through(state.samples, boundary.nanos);
    if arrivals.len() == 0 {
        assert(state.samples =~= head + state.samples.skip(prefix));
    } else {
        let rest = arrivals.drop_last();
        let last = arrivals.last();
        lemma_prefix_stays(state, boundary, replayed, rest);
        lemma_samples_after(state, rest);
        let tail = samples_after(compacted, rest);
        let sample = EwmaSample {
            event_time: last.0,
            arrival_sequence: (state.next_arrival + arrivals.len() - 1) as u64,
            value: last.1,
        };
        assert forall|i: int| 0 <= i < head.len() implies (#[trigger] head[i]).event_time.nanos
            <= last.0.nanos by {
            assert(head[i] == state.samples[i]);
        }
        lemma_through_behind(head, tail, last.0.nanos);
        lemma_samples_through(head + tail, last.0.nanos);
        assert(with_sample(head + tail, sample) =~= head + with_sample(tail, sample));
    }
}

proof fn lemma_averaged_in_two(
    initial: FiniteF64,
    first: Seq<EwmaStep>,
    second: Seq<EwmaStep>,
    step: spec_fn(FiniteF64, EwmaStep) -> Option<FiniteF64>,
)
    requires
        averaged(initial, first, step) is Some,
    ensures
        averaged(initial, first + second, step) == averaged(
            averaged(initial, first, step)->Some_0,
            second,
            step,
        ),
    decreases second.len(),
{
    if second.len() == 0 {
        assert(first + second =~= first);
    } else {
        assert((first + second).drop_last() =~= first + second.drop_last());
        lemma_averaged_in_two(initial, first, second.drop_last(), step);
    }
}

proof fn lemma_steps_in_two(start: i64, first: Seq<EwmaSample>, second: Seq<EwmaSample>)
    ensures
        steps_after(start, first + second) == steps_after(start, first) + steps_after(
            if first.len() == 0 {
                start
            } else {
                first.last().event_time.nanos
            },
            second,
        ),
{
    assert(steps_after(start, first + second) =~= steps_after(start, first) + steps_after(
        if first.len() == 0 {
            start
        } else {
            first.last().event_time.nanos
        },
        second,
    ));
}

/// A compaction changes no later average. Behind whatever samples arrive after the boundary, the
/// steps from the checkpoint are the rest of the steps that the uncompacted replay takes, so both
/// replays come to the same average, where the checkpoint holds the average of the prefix.
pub proof fn lemma_compaction_keeps_later_averages(
    state: EwmaView,
    boundary: UnixNanos,
    replayed: FiniteF64,
    arrivals: Seq<Arrival>,
    prefix: EwmaReplay,
    whole: EwmaReplay,
    rest: EwmaReplay,
    step: spec_fn(FiniteF64, EwmaStep) -> Option<FiniteF64>,
)
    requires
        state.well_formed(),
        state.next_arrival + arrivals.len() <= u64::MAX,
        forall|i: int|
            0 <= i < arrivals.len() ==> (#[trigger] arrivals[i]).0.nanos > boundary.nanos,
        samples_through(state.samples, boundary.nanos) > 0 ==> replays(
            prefix,
            state.half_life,
            state.checkpoint,
            state.samples.take(samples_through(state.samples, boundary.nanos) as int),
        ) && averaged(prefix.initial.value, prefix.steps@, step) == Some(replayed),
        replays(whole, state.half_life, state.checkpoint, samples_after(state, arrivals)),
        replays(
            rest,
            state.half_life,
            state.compacted(boundary, replayed).checkpoint,
            samples_after(state.compacted(boundary, replayed), arrivals),
        ),
    ensures
        averaged(whole.initial.value, whole.steps@, step) == averaged(
            rest.initial.value,
            rest.steps@,
            step,
        ),
        samples_through(state.samples, boundary.nanos) > 0 ==> whole.initial == prefix.initial
            && whole.steps@ == prefix.steps@ + rest.steps@,
        samples_through(state.samples, boundary.nanos) == 0 ==> whole.initial == rest.initial
            && whole.steps@ == rest.steps@,
{
    let count = samples_through(state.samples, boundary.nanos) as int;
    let head = state.samples.take(count);
    let tail = samples_after(state.compacted(boundary, replayed), arrivals);
    lemma_samples_through(state.samples, boundary.nanos);
    lemma_prefix_stays(state, boundary, replayed, arrivals);
    if count == 0 {
        assert(head + tail =~= tail);
    } else {
        assert(head.last() == state.samples[count - 1]);
        match state.checkpoint {
            Some(checkpoint) => {
                lemma_steps_in_two(checkpoint.event_time.nanos, head, tail);
            },
            None => {
                let first = head[0];
                assert((head + tail)[0] == first);
                assert((head + tail).skip(1) =~= head.skip(1) + tail);
                lemma_steps_in_two(first.event_time.nanos, head.skip(1), tail);
                if count > 1 {
                    assert(head.skip(1).last() == head.last());
                }
            },
        }
        lemma_averaged_in_two(prefix.initial.value, prefix.steps@, rest.steps@, step);
    }
}

proof fn lemma_with_sample_ordered(samples: Seq<EwmaSample>, sample: EwmaSample)
    requires
        samples_ordered(samples),
        forall|i: int|
            0 <= i < samples.len() ==> (#[trigger] samples[i]).arrival_sequence
                < sample.arrival_sequence,
    ensures
        samples_ordered(with_sample(samples, sample)),
{
    lemma_samples_through(samples, sample.event_time.nanos);
    let position = samples_through(samples, sample.event_time.nanos) as int;
    let after = with_sample(samples, sample);
    assert forall|i: int, j: int| 0 <= i < j < after.len() implies (
    #[trigger] after[i]).event_time.nanos < (#[trigger] after[j]).event_time.nanos || (
    after[i].event_time.nanos == after[j].event_time.nanos && after[i].arrival_sequence
        < after[j].arrival_sequence) by {
        let a = if i < position {
            i
        } else {
            i - 1
        };
        let b = if j < position {
            j
        } else {
            j - 1
        };
        if i == position {
            assert(after[j] == samples[b]);
        } else if j == position {
            assert(after[i] == samples[a]);
        } else {
            assert(after[i] == samples[a]);
            assert(after[j] == samples[b]);
        }
    }
}

/// The time that the first steps of a replay take.
pub open spec fn elapsed_through(steps: Seq<EwmaStep>, count: int) -> int
    decreases count,
{
    if count <= 0 {
        0
    } else {
        elapsed_through(steps, count - 1) + steps[count - 1].elapsed_nanos
    }
}

proof fn lemma_steps_lead_to_samples(start: i64, samples: Seq<EwmaSample>, i: int)
    requires
        0 <= i < samples.len(),
        start > 0,
        samples_ordered(samples),
        start <= samples[0].event_time.nanos,
    ensures
        start + elapsed_through(steps_after(start, samples), i + 1) == samples[i].event_time.nanos,
        steps_after(start, samples)[i].value == samples[i].value,
        steps_after(start, samples)[i].elapsed_nanos >= 0,
    decreases i,
{
    lemma_ordered_is_replayable(samples, start);
    if i > 0 {
        lemma_steps_lead_to_samples(start, samples, i - 1);
        assert(samples[i - 1].event_time.nanos <= samples[i].event_time.nanos);
    } else {
        assert(elapsed_through(steps_after(start, samples), 0) == 0);
    }
}

/// A replay starts from the checkpoint, or from the first sample where there is none, and leads
/// through every further sample in the order of event times: the steps up to a sample take the time
/// from the start to it, and none of them goes back.
pub proof fn lemma_replays_lead_through_every_sample(
    replay: EwmaReplay,
    half_life: u64,
    checkpoint: Option<EwmaCheckpoint>,
    samples: Seq<EwmaSample>,
    i: int,
)
    requires
        replays(replay, half_life, checkpoint, samples),
        samples_ordered(samples),
        0 <= i < samples.len(),
        samples[0].event_time.nanos > 0,
        checkpoint is Some ==> 0 < checkpoint->Some_0.event_time.nanos
            <= samples[0].event_time.nanos,
    ensures
        replay.half_life_nanos == half_life,
        match checkpoint {
            Some(checkpoint) => {
                &&& replay.initial == checkpoint
                &&& replay.steps@.len() == samples.len()
                &&& checkpoint.event_time.nanos + elapsed_through(replay.steps@, i + 1)
                    == samples[i].event_time.nanos
                &&& replay.steps@[i].value == samples[i].value
                &&& replay.steps@[i].elapsed_nanos >= 0
            },
            None => {
                &&& replay.initial.event_time == samples[0].event_time
                &&& replay.initial.value == samples[0].value
                &&& replay.steps@.len() == samples.len() - 1
                &&& samples[0].event_time.nanos + elapsed_through(replay.steps@, i)
                    == samples[i].event_time.nanos
                &&& i > 0 ==> replay.steps@[i - 1].value == samples[i].value
                    && replay.steps@[i - 1].elapsed_nanos >= 0
            },
        },
{
    match checkpoint {
        Some(checkpoint) => {
            lemma_steps_lead_to_samples(checkpoint.event_time.nanos, samples, i);
        },
        None => {
            let rest = samples.skip(1);
            assert forall|a: int, b: int| 0 <= a < b < rest.len() implies (
            #[trigger] rest[a]).event_time.nanos < (#[trigger] rest[b]).event_time.nanos || (
            rest[a].event_time.nanos == rest[b].event_time.nanos && rest[a].arrival_sequence
                < rest[b].arrival_sequence) by {
                assert(rest[a] == samples[a + 1] && rest[b] == samples[b + 1]);
            }
            if i > 0 {
                assert(rest[0] == samples[1] && rest[i - 1] == samples[i]);
                assert(samples[0].event_time.nanos <= samples[1].event_time.nanos);
                lemma_steps_lead_to_samples(samples[0].event_time.nanos, rest, i - 1);
            } else {
                assert(elapsed_through(replay.steps@, 0) == 0);
            }
        },
    }
}

/// A sample is taken in just where its time is positive and lies behind the compacted boundary, and
/// there is room. It stands behind all samples of its time and before all later ones, and the others
/// keep their order.
pub proof fn lemma_samples_take_their_place_in_time(
    state: EwmaView,
    event_time: UnixNanos,
    input: FiniteF64,
)
    requires
        state.well_formed(),
        state.next_arrival < u64::MAX,
    ensures
        state.sample_refusal(event_time) is None <==> {
            &&& event_time.nanos > 0
            &&& state.compacted_through is Some ==> event_time.nanos
                > state.compacted_through->Some_0.nanos
            &&& state.samples.len() < state.capacity
        },
        exists|at: int|
            #![trigger state.samples.take(at)]
            {
                let sample = EwmaSample {
                    event_time,
                    arrival_sequence: state.next_arrival,
                    value: input,
                };
                &&& 0 <= at <= state.samples.len()
                &&& state.admitted(event_time, input) == state.samples.take(at) + seq![sample]
                    + state.samples.skip(at)
                &&& forall|k: int|
                    0 <= k < state.samples.len() ==> ((
                    #[trigger] state.samples[k]).event_time.nanos <= event_time.nanos <==> k < at)
            },
{
    lemma_samples_through(state.samples, event_time.nanos);
    let at = samples_through(state.samples, event_time.nanos) as int;
    let sample = EwmaSample { event_time, arrival_sequence: state.next_arrival, value: input };
    assert(state.admitted(event_time, input) =~= state.samples.take(at) + seq![sample]
        + state.samples.skip(at));
}

/// A compaction follows the tracker that the average was set up with, to its frontier and never back.
pub proof fn lemma_compactions_follow_the_frontier(state: EwmaView, tracker: TrackerView)
    ensures
        ({
            let boundary = frontier(tracker.slots, tracker.lateness, tracker.allowed_health);
            state.compaction_refusal(tracker) is None <==> {
                &&& tracker.policy == state.policy
                &&& boundary is Some
                &&& state.compacted_through is Some ==> state.compacted_through->Some_0.nanos
                    <= boundary->Some_0.nanos
            }
        }),
{
}

} // verus!
