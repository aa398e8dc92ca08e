//! Typed deterministic window membership, aggregation, and revision lifecycle.

use vstd::prelude::*;

use crate::decimal::{DecimalError, FixedDecimal};
use crate::digest::same_digest;
use crate::domain::{DurationNanos, FinalityState, UnixNanos};
use crate::watermark::{
    CorrectionDecision, CorrectionView, DecisionView, Finalization, FinalizationDecision,
    WatermarkTracker,
};

verus! {

pub const MAX_SLIDING_MEMBERSHIPS: u64 = 1_024;

pub const MAX_LIFECYCLE_WINDOWS: usize = 4_096;

pub const MAX_REVISIONS_PER_WINDOW: usize = 64;

pub const MAX_EWMA_SAMPLES: usize = 4_096;

/// The anchor of every registered tumbling or sliding window: the Unix epoch.
pub const CANONICAL_UTC_ANCHOR: i64 = 0;

/// A half-open span of event time that starts at or after the epoch and is never empty.
#[derive(Clone, Copy, Debug, PartialEq, Eq, Structural)]
pub struct TimeWindow {
    start: UnixNanos,
    end: UnixNanos,
}

impl TimeWindow {
    #[verifier::type_invariant]
    spec fn well_formed(self) -> bool {
        0 <= self.start.nanos < self.end.nanos
    }

    /// First nanosecond inside the window.
    pub closed spec fn lower(self) -> i64 {
        self.start.nanos
    }

    /// First nanosecond behind the window.
    pub closed spec fn upper(self) -> i64 {
        self.end.nanos
    }

    pub open spec fn contains(self, time: i64) -> bool {
        self.lower() <= time < self.upper()
    }

    pub fn try_new(start: UnixNanos, end: UnixNanos) -> (result: Result<Self, WindowError>)
        ensures
            result is Ok <==> 0 <= start.nanos < end.nanos,
            result is Ok ==> result->Ok_0.lower() == start.nanos && result->Ok_0.upper()
                == end.nanos,
            result is Err ==> result->Err_0 == WindowError::InvalidTimeWindow,
    {
        if start.value() < 0 || end.value() <= start.value() {
            return Err(WindowError::InvalidTimeWindow);
        }
        Ok(TimeWindow { start, end })
    }

    pub fn start(self) -> (start: UnixNanos)
        ensures
            start.nanos == self.lower(),
            0 <= self.lower() < self.upper(),
    {
        proof {
            use_type_invariant(&self);
        }
        self.start
    }

    pub fn end(self) -> (end: UnixNanos)
        ensures
            end.nanos == self.upper(),
            0 <= self.lower() < self.upper(),
    {
        proof {
            use_type_invariant(&self);
        }
        self.end
    }
}

/// Windows with the same bounds are the same window.
pub proof fn lemma_window_bounds_identify(a: TimeWindow, b: TimeWindow)
    ensures
        a == b <==> a.lower() == b.lower() && a.upper() == b.upper(),
{
}

/// A count that is never zero.
#[derive(Clone, Copy, Debug, PartialEq, Eq, Structural)]
pub struct PositiveCount {
    value: u64,
}

impl PositiveCount {
    #[verifier::type_invariant]
    spec fn positive(self) -> bool {
        self.value > 0
    }

    pub closed spec fn count(self) -> u64 {
        self.value
    }

    pub fn new(value: u64) -> (result: Option<Self>)
        ensures
            result is Some <==> value > 0,
            result is Some ==> result->Some_0.count() == value,
    {
        if value == 0 {
            None
        } else {
            Some(PositiveCount { value })
        }
    }

    pub fn value(self) -> (value: u64)
        ensures
            value == self.count(),
            value > 0,
    {
        proof {
            use_type_invariant(&self);
        }
        self.value
    }
}

#[derive(Clone, Copy, Debug, PartialEq, Eq, Structural)]
pub enum WindowKind {
    Tumbling,
    Sliding,
    SessionAligned,
    ExponentiallyWeighted,
    EventCount,
    Volume,
    Notional,
}

#[allow(inconsistent_fields)]
#[derive(Clone, Copy, Debug, PartialEq, Eq, Structural)]
pub enum WindowParameter {
    Time { extent: DurationNanos, advance: Option<DurationNanos> },
    SessionAligned { extent: DurationNanos, utc_anchor: UnixNanos },
    ExponentiallyWeighted { half_life: DurationNanos },
    EventCount { events: PositiveCount, advance: Option<PositiveCount> },
    Threshold { threshold: FixedDecimal },
}

/// A window as a feature definition registers it.
#[derive(Debug)]
pub struct WindowDefinition {
    pub id: String,
    pub kind: WindowKind,
    pub parameter: WindowParameter,
}

#[derive(Clone, Copy, Debug, PartialEq, Eq, Structural)]
pub enum TimeWindowSpec {
    Tumbling { extent: DurationNanos, anchor: UnixNanos },
    Sliding { extent: DurationNanos, advance: DurationNanos, anchor: UnixNanos },
    SessionAligned { extent: DurationNanos, utc_anchor: UnixNanos },
}

/// Why a time window of this extent and anchor is refused, if it is.
pub open spec fn time_shape_refusal(extent: DurationNanos, anchor: UnixNanos) -> Option<WindowError> {
    if extent.nanos == 0 || extent.nanos > i64::MAX || anchor.nanos < 0 {
        Some(WindowError::InvalidWindowSpec)
    } else {
        None
    }
}

/// How many windows of this extent and advance can hold one event: the extent over the advance,
/// rounded up.
pub open spec fn membership_count(extent: int, advance: int) -> int {
    (extent + advance - 1) / advance
}

/// Why a sliding window of this extent and advance is refused, if it is.
pub open spec fn sliding_shape_refusal(
    extent: DurationNanos,
    advance: DurationNanos,
) -> Option<WindowError> {
    if advance.nanos == 0 || advance.nanos > extent.nanos {
        Some(WindowError::InvalidWindowSpec)
    } else if extent.nanos + advance.nanos - 1 > u64::MAX {
        Some(WindowError::ArithmeticOverflow)
    } else if membership_count(extent.nanos as int, advance.nanos as int)
        > MAX_SLIDING_MEMBERSHIPS {
        Some(WindowError::MembershipCapacity)
    } else {
        None
    }
}

/// The runtime form of a registered time window, or why it has none.
pub open spec fn window_spec_of(definition: WindowDefinition) -> Result<TimeWindowSpec, WindowError> {
    let canonical = UnixNanos { nanos: CANONICAL_UTC_ANCHOR };
    match (definition.kind, definition.parameter) {
        (WindowKind::Tumbling, WindowParameter::Time { extent, advance: None }) => {
            match time_shape_refusal(extent, canonical) {
                Some(error) => Err(error),
                None => Ok(TimeWindowSpec::Tumbling { extent, anchor: canonical }),
            }
        },
        (WindowKind::Sliding, WindowParameter::Time { extent, advance: Some(advance) }) => {
            match (time_shape_refusal(extent, canonical), sliding_shape_refusal(extent, advance)) {
                (Some(error), _) => Err(error),
                (None, Some(error)) => Err(error),
                (None, None) => Ok(TimeWindowSpec::Sliding { extent, advance, anchor: canonical }),
            }
        },
        (
            WindowKind::SessionAligned,
            WindowParameter::SessionAligned { extent, utc_anchor },
        ) => {
            match time_shape_refusal(extent, utc_anchor) {
                Some(error) => Err(error),
                None => Ok(TimeWindowSpec::SessionAligned { extent, utc_anchor }),
            }
        },
        _ => Err(WindowError::DefinitionKindMismatch),
    }
}

/// The latest time at or before `time` that lies a whole number of steps from the anchor.
pub open spec fn aligned_start(time: int, anchor: int, step: int) -> int {
    anchor + ((time - anchor) / step) * step
}

/// Why no window of this extent, aligned in steps, can be placed at `time`, if none can.
pub open spec fn placement_refusal(
    time: int,
    extent: int,
    anchor: int,
    step: int,
) -> Option<WindowError> {
    if extent > i64::MAX || step > i64::MAX {
        Some(WindowError::InvalidWindowSpec)
    } else if time - anchor > i64::MAX || ((time - anchor) / step) * step < i64::MIN {
        Some(WindowError::ArithmeticOverflow)
    } else {
        None
    }
}

impl TimeWindowSpec {
    /// The window advances by at least one nanosecond.
    pub open spec fn advances(self) -> bool {
        match self {
            TimeWindowSpec::Tumbling { extent, anchor } => extent.nanos > 0,
            TimeWindowSpec::Sliding { extent, advance, anchor } => advance.nanos > 0,
            TimeWindowSpec::SessionAligned { extent, utc_anchor } => extent.nanos > 0,
        }
    }

    pub open spec fn extent_of(self) -> int {
        match self {
            TimeWindowSpec::Tumbling { extent, anchor } => extent.nanos as int,
            TimeWindowSpec::Sliding { extent, advance, anchor } => extent.nanos as int,
            TimeWindowSpec::SessionAligned { extent, utc_anchor } => extent.nanos as int,
        }
    }

    pub open spec fn step_of(self) -> int {
        match self {
            TimeWindowSpec::Tumbling { extent, anchor } => extent.nanos as int,
            TimeWindowSpec::Sliding { extent, advance, anchor } => advance.nanos as int,
            TimeWindowSpec::SessionAligned { extent, utc_anchor } => extent.nanos as int,
        }
    }

    pub open spec fn anchor_of(self) -> int {
        match self {
            TimeWindowSpec::Tumbling { extent, anchor } => anchor.nanos as int,
            TimeWindowSpec::Sliding { extent, advance, anchor } => anchor.nanos as int,
            TimeWindowSpec::SessionAligned { extent, utc_anchor } => utc_anchor.nanos as int,
        }
    }

    /// Whether `start` opens a window of this kind that holds `time`.
    pub open spec fn opens_at(self, start: int, time: int) -> bool {
        &&& start >= 0
        &&& start <= time < start + self.extent_of()
        &&& (start - self.anchor_of()) % self.step_of() == 0
    }

    /// Why the windows that hold `time` cannot be computed, if they cannot.
    pub open spec fn membership_refusal(self, time: int) -> Option<WindowError> {
        let extent = self.extent_of();
        let step = self.step_of();
        let anchor = self.anchor_of();
        let latest = aligned_start(time, anchor, step);
        if time <= 0 {
            Some(WindowError::InvalidEventTime)
        } else if placement_refusal(time, extent, anchor, step) is Some {
            placement_refusal(time, extent, anchor, step)
        } else if self is Sliding {
            if extent > 0 && (latest + extent > i64::MAX || latest - (membership_count(extent, step) - 1)
                * step < i64::MIN) {
                Some(WindowError::ArithmeticOverflow)
            } else {
                None
            }
        } else if latest + extent > i64::MAX {
            Some(WindowError::ArithmeticOverflow)
        } else if latest < 0 {
            Some(WindowError::InvalidTimeWindow)
        } else {
            None
        }
    }

    /// Nothing refuses `time` before it is counted in steps from the anchor.
    pub open spec fn is_stepped(self, time: int) -> bool {
        &&& time > 0
        &&& self.extent_of() <= i64::MAX
        &&& self.step_of() <= i64::MAX
        &&& time - self.anchor_of() <= i64::MAX
    }

    /// Builds the only runtime time-window semantics permitted by a versioned registry
    /// definition.
    ///
    /// Registry time windows use the Unix epoch as their canonical UTC anchor. Session windows
    /// carry their explicit UTC anchor.
    pub fn try_from_definition(definition: &WindowDefinition) -> (result: Result<
        Self,
        WindowError,
    >)
        ensures
            result == window_spec_of(*definition),
            result is Ok ==> result->Ok_0.advances(),
    {
        let canonical = UnixNanos::new(CANONICAL_UTC_ANCHOR);
        match (definition.kind, definition.parameter) {
            (WindowKind::Tumbling, WindowParameter::Time { extent, advance: None }) => {
                match validate_time_shape(extent, canonical) {
                    Err(error) => Err(error),
                    Ok(()) => Ok(TimeWindowSpec::Tumbling { extent, anchor: canonical }),
                }
            },
            (WindowKind::Sliding, WindowParameter::Time { extent, advance: Some(advance) }) => {
                match validate_time_shape(extent, canonical) {
                    Err(error) => Err(error),
                    Ok(()) => match validate_sliding_shape(extent, advance) {
                        Err(error) => Err(error),
                        Ok(()) => Ok(
                            TimeWindowSpec::Sliding { extent, advance, anchor: canonical },
                        ),
                    },
                }
            },
            (
                WindowKind::SessionAligned,
                WindowParameter::SessionAligned { extent, utc_anchor },
            ) => {
                match validate_time_shape(extent, utc_anchor) {
                    Err(error) => Err(error),
                    Ok(()) => Ok(TimeWindowSpec::SessionAligned { extent, utc_anchor }),
                }
            },
            _ => Err(WindowError::DefinitionKindMismatch),
        }
    }

    /// Every window that holds an event at `event_time`, in ascending order.
    pub fn windows_for(self, event_time: UnixNanos) -> (result: Result<
        Vec<TimeWindow>,
        WindowError,
    >)
        requires
            self.is_stepped(event_time.nanos as int) ==> self.advances(),
        ensures
            match self.membership_refusal(event_time.nanos as int) {
                Some(error) => result == Err::<Vec<TimeWindow>, WindowError>(error),
                None => result is Ok && lists_windows(
                    self,
                    event_time.nanos as int,
                    result->Ok_0@,
                ),
            },
    {
        if event_time.value() <= 0 {
            return Err(WindowError::InvalidEventTime);
        }
        match self {
            TimeWindowSpec::Tumbling { extent, anchor }
            | TimeWindowSpec::SessionAligned { extent, utc_anchor: anchor } => {
                match aligned_window(event_time, extent, anchor) {
                    Err(error) => Err(error),
                    Ok(window) => {
                        let mut windows: Vec<TimeWindow> = Vec::new();
                        windows.push(window);
                        proof {
                            let step = self.step_of();
                            let time = event_time.nanos as int;
                            lemma_aligned(time, self.anchor_of(), step);
                            assert forall|start: int| self.opens_at(start, time) implies start
                                == window.lower() by {
                                lemma_aligned_unique(time, self.anchor_of(), step, start);
                            }
                            assert(windows@[0] == window);
                        }
                        Ok(windows)
                    },
                }
            },
            TimeWindowSpec::Sliding { extent, advance, anchor } => sliding_windows(
                event_time,
                extent,
                advance,
                anchor,
            ),
        }
    }
}

/// `windows` are exactly the windows of this kind that hold `time`, in ascending order.
pub open spec fn lists_windows(spec: TimeWindowSpec, time: int, windows: Seq<TimeWindow>) -> bool {
    &&& forall|i: int|
        0 <= i < windows.len() ==> spec.opens_at((#[trigger] windows[i]).lower() as int, time)
            && windows[i].upper() == windows[i].lower() + spec.extent_of()
    &&& forall|i: int, j: int|
        0 <= i < j < windows.len() ==> (#[trigger] windows[i]).lower() < (
        #[trigger] windows[j]).lower()
    &&& forall|start: int| #[trigger]
        spec.opens_at(start, time) ==> exists|i: int|
            0 <= i < windows.len() && (#[trigger] windows[i]).lower() == start
}

fn validate_sliding_shape(extent: DurationNanos, advance: DurationNanos) -> (result: Result<
    (),
    WindowError,
>)
    ensures
        match sliding_shape_refusal(extent, advance) {
            Some(error) => result == Err::<(), WindowError>(error),
            None => result == Ok::<(), WindowError>(()),
        },
{
    let extent_value: u64 = extent.value();
    let advance_value: u64 = advance.value();
    if advance_value == 0 || advance_value > extent_value {
        return Err(WindowError::InvalidWindowSpec);
    }
    match extent_value.checked_add(advance_value - 1) {
        None => Err(WindowError::ArithmeticOverflow),
        Some(reach) => {
            if reach / advance_value > MAX_SLIDING_MEMBERSHIPS {
                Err(WindowError::MembershipCapacity)
            } else {
                Ok(())
            }
        },
    }
}

fn validate_time_shape(extent: DurationNanos, anchor: UnixNanos) -> (result: Result<
    (),
    WindowError,
>)
    ensures
        match time_shape_refusal(extent, anchor) {
            Some(error) => result == Err::<(), WindowError>(error),
            None => result == Ok::<(), WindowError>(()),
        },
{
    if extent.value() == 0 || extent.value() > i64::MAX as u64 || anchor.value() < 0 {
        Err(WindowError::InvalidWindowSpec)
    } else {
        Ok(())
    }
}

/// Division that rounds towards negative infinity.
fn floor_div(dividend: i64, divisor: i64) -> (quotient: i64)
    requires
        divisor > 0,
    ensures
        quotient == dividend as int / divisor as int,
{
    if dividend >= 0 {
        proof {
            assert(0 <= dividend as int / divisor as int <= dividend) by (nonlinear_arith)
                requires
                    dividend >= 0,
                    divisor > 0,
            ;
        }
        ((dividend as u64) / (divisor as u64)) as i64
    } else {
        let magnitude: u64 = (-(dividend + 1)) as u64;
        let whole: u64 = magnitude / (divisor as u64);
        proof {
            let d = divisor as int;
            let m = magnitude as int;
            let q = whole as int;
            vstd::arithmetic::div_mod::lemma_fundamental_div_mod(m, d);
            let r = m % d;
            assert(dividend == d * (-q - 1) + (d - 1 - r)) by (nonlinear_arith)
                requires
                    m == d * q + r,
                    dividend == -m - 1,
            ;
            vstd::arithmetic::div_mod::lemma_fundamental_div_mod_converse(
                dividend as int,
                d,
                -q - 1,
                d - 1 - r,
            );
            assert(0 <= q <= m) by (nonlinear_arith)
                requires
                    m >= 0,
                    d > 0,
                    q == m / d,
            ;
        }
        -(whole as i64) - 1
    }
}

proof fn lemma_aligned(time: int, anchor: int, step: int)
    requires
        step > 0,
    ensures
        time - step < aligned_start(time, anchor, step) <= time,
        (aligned_start(time, anchor, step) - anchor) % step == 0,
{
    vstd::arithmetic::div_mod::lemma_fundamental_div_mod(time - anchor, step);
    let q = (time - anchor) / step;
    vstd::arithmetic::div_mod::lemma_mod_multiples_basic(q, step);
    assert(step * q == q * step) by (nonlinear_arith);
}

/// The aligned times are whole steps apart.
proof fn lemma_aligned_unique(time: int, anchor: int, step: int, start: int)
    requires
        step > 0,
        start <= time,
        (start - anchor) % step == 0,
    ensures
        ({
            let offset = (aligned_start(time, anchor, step) - start) / step;
            &&& offset >= 0
            &&& start == aligned_start(time, anchor, step) - offset * step
            &&& time < start + step ==> offset == 0
        }),
{
    lemma_aligned(time, anchor, step);
    let latest = aligned_start(time, anchor, step);
    let p = (time - anchor) / step;
    let q = (start - anchor) / step;
    vstd::arithmetic::div_mod::lemma_fundamental_div_mod(start - anchor, step);
    assert(latest - start == (p - q) * step) by (nonlinear_arith)
        requires
            latest == anchor + p * step,
            start - anchor == step * q,
    ;
    vstd::arithmetic::div_mod::lemma_div_multiples_vanish(p - q, step);
    assert((p - q) * step == step * (p - q)) by (nonlinear_arith);
    assert(p - q >= 0) by (nonlinear_arith)
        requires
            latest - start == (p - q) * step,
            latest > time - step,
            start <= time,
            step > 0,
    ;
    if time < start + step {
        assert(p - q < 1) by (nonlinear_arith)
            requires
                latest - start == (p - q) * step,
                latest <= time,
                time < start + step,
                step > 0,
        ;
    }
}

fn aligned_window(event_time: UnixNanos, extent: DurationNanos, anchor: UnixNanos) -> (result:
    Result<TimeWindow, WindowError>)
    requires
        event_time.nanos > 0,
        extent.nanos <= i64::MAX && event_time.nanos - anchor.nanos <= i64::MAX ==> extent.nanos
            > 0,
    ensures
        ({
            let latest = aligned_start(
                event_time.nanos as int,
                anchor.nanos as int,
                extent.nanos as int,
            );
            match (TimeWindowSpec::Tumbling { extent, anchor }).membership_refusal(
                event_time.nanos as int,
            ) {
                Some(error) => result == Err::<TimeWindow, WindowError>(error),
                None => result is Ok && result->Ok_0.lower() == latest && result->Ok_0.upper()
                    == latest + extent.nanos,
            }
        }),
{
    if extent.value() > i64::MAX as u64 {
        return Err(WindowError::InvalidWindowSpec);
    }
    let step: i64 = extent.value() as i64;
    match latest_start(event_time, anchor, step) {
        None => Err(WindowError::ArithmeticOverflow),
        Some(start) => match start.checked_add(step) {
            None => Err(WindowError::ArithmeticOverflow),
            Some(end) => TimeWindow::try_new(UnixNanos::new(start), UnixNanos::new(end)),
        },
    }
}

/// The latest aligned time at or before an event.
fn latest_start(event_time: UnixNanos, anchor: UnixNanos, step: i64) -> (start: Option<i64>)
    requires
        event_time.nanos > 0,
        step >= 0,
        event_time.nanos - anchor.nanos <= i64::MAX ==> step > 0,
    ensures
        start is None <==> event_time.nanos - anchor.nanos > i64::MAX || ((event_time.nanos
            - anchor.nanos) / step as int) * step < i64::MIN,
        start is Some ==> start->Some_0 == aligned_start(
            event_time.nanos as int,
            anchor.nanos as int,
            step as int,
        ),
{
    proof {
        if step > 0 {
            lemma_aligned(event_time.nanos as int, anchor.nanos as int, step as int);
        }
    }
    match event_time.value().checked_sub(anchor.value()) {
        None => None,
        Some(delta) => match floor_div(delta, step).checked_mul(step) {
            None => None,
            Some(shift) => anchor.value().checked_add(shift),
        },
    }
}

fn sliding_windows(
    event_time: UnixNanos,
    extent: DurationNanos,
    advance: DurationNanos,
    anchor: UnixNanos,
) -> (result: Result<Vec<TimeWindow>, WindowError>)
    requires
        event_time.nanos > 0,
        extent.nanos <= i64::MAX && advance.nanos <= i64::MAX && event_time.nanos - anchor.nanos
            <= i64::MAX ==> advance.nanos > 0,
    ensures
        ({
            let spec = TimeWindowSpec::Sliding { extent, advance, anchor };
            match spec.membership_refusal(event_time.nanos as int) {
                Some(error) => result == Err::<Vec<TimeWindow>, WindowError>(error),
                None => result is Ok && lists_windows(
                    spec,
                    event_time.nanos as int,
                    result->Ok_0@,
                ),
            }
        }),
{
    if extent.value() > i64::MAX as u64 || advance.value() > i64::MAX as u64 {
        return Err(WindowError::InvalidWindowSpec);
    }
    let span: i64 = extent.value() as i64;
    let step: i64 = advance.value() as i64;
    let ghost spec = TimeWindowSpec::Sliding { extent, advance, anchor };
    let ghost time = event_time.nanos as int;
    let latest: i64 = match latest_start(event_time, anchor, step) {
        None => {
            return Err(WindowError::ArithmeticOverflow);
        },
        Some(latest) => latest,
    };
    let memberships: u64 = (extent.value() + (advance.value() - 1)) / advance.value();
    let ghost total = memberships as int;
    let mut windows: Vec<TimeWindow> = Vec::new();
    let mut remaining: u64 = memberships;
    proof {
        lemma_aligned(time, anchor.nanos as int, step as int);
        lemma_membership_reach(span as int, step as int);
        if total > 0 {
            assert(total - 1 <= (total - 1) * step) by (nonlinear_arith)
                requires
                    total > 0,
                    step >= 1,
            ;
        }
        assert(total == membership_count(span as int, step as int));
    }
    while remaining > 0
        invariant
            spec == (TimeWindowSpec::Sliding { extent, advance, anchor }),
            time == event_time.nanos > 0,
            span == extent.nanos,
            step == advance.nanos,
            step > 0,
            latest == aligned_start(time, anchor.nanos as int, step as int),
            latest <= time,
            (latest - anchor.nanos) % (step as int) == 0,
            placement_refusal(time, span as int, anchor.nanos as int, step as int) is None,
            total == membership_count(span as int, step as int),
            remaining <= total,
            total > 0 ==> (total - 1) * step < span,
            total <= i64::MAX,
            total > 0 ==> span > 0,
            remaining == 0 && total > 0 ==> latest + span <= i64::MAX,
            remaining < total ==> latest - (total - 1) * step >= i64::MIN,
            forall|i: int|
                0 <= i < windows@.len() ==> spec.opens_at((#[trigger] windows@[i]).lower() as int, time)
                    && windows@[i].upper() == windows@[i].lower() + span
                    && windows@[i].lower() < latest - (remaining - 1) * step,
            forall|i: int, j: int|
                0 <= i < j < windows@.len() ==> (#[trigger] windows@[i]).lower() < (
                #[trigger] windows@[j]).lower(),
            forall|offset: int|
                remaining <= offset < total && #[trigger] spec.opens_at(
                    latest - offset * step,
                    time,
                ) ==> exists|i: int|
                    0 <= i < windows@.len() && (#[trigger] windows@[i]).lower() == latest - offset
                        * step,
        decreases remaining,
    {
        let offset: i64 = (remaining - 1) as i64;
        proof {
            assert(offset * step <= (total - 1) * step) by (nonlinear_arith)
                requires
                    0 <= offset <= total - 1,
                    step > 0,
            ;
            assert(offset * step >= 0) by (nonlinear_arith)
                requires
                    0 <= offset,
                    step > 0,
            ;
            if offset == 0 {
                assert(offset * step == 0) by (nonlinear_arith)
                    requires
                        offset == 0,
                ;
            }
        }
        let shift: i64 = match offset.checked_mul(step) {
            None => {
                return Err(WindowError::ArithmeticOverflow);
            },
            Some(shift) => shift,
        };
        let start: i64 = match latest.checked_sub(shift) {
            None => {
                return Err(WindowError::ArithmeticOverflow);
            },
            Some(start) => start,
        };
        let end: i64 = match start.checked_add(span) {
            None => {
                return Err(WindowError::ArithmeticOverflow);
            },
            Some(end) => end,
        };
        let ghost before = windows@;
        if start >= 0 && start <= event_time.value() && event_time.value() < end {
            match TimeWindow::try_new(UnixNanos::new(start), UnixNanos::new(end)) {
                Err(error) => {
                    return Err(error);
                },
                Ok(window) => {
                    windows.push(window);
                    proof {
                        lemma_step_back_aligned(
                            latest as int,
                            anchor.nanos as int,
                            step as int,
                            offset as int,
                        );
                        assert(spec.opens_at(start as int, time));
                    }
                },
            }
        }
        proof {
            assert((remaining - 2) * step == offset * step - step) by (nonlinear_arith)
                requires
                    offset == remaining - 1,
            ;
            assert forall|past: int|
                remaining - 1 <= past < total && #[trigger] spec.opens_at(
                    latest - past * step,
                    time,
                ) implies exists|i: int|
                0 <= i < windows@.len() && (#[trigger] windows@[i]).lower() == latest - past
                    * step by {
                if past == offset {
                    assert(windows@[windows@.len() - 1].lower() == start);
                } else {
                    let i = choose|i: int|
                        0 <= i < before.len() && (#[trigger] before[i]).lower() == latest - past
                            * step;
                    assert(windows@[i] == before[i]);
                }
            }
        }
        remaining -= 1;
    }
    proof {
        assert forall|start: int| #[trigger] spec.opens_at(start, time) implies exists|i: int|
            0 <= i < windows@.len() && (#[trigger] windows@[i]).lower() == start by {
            lemma_aligned_unique(time, anchor.nanos as int, step as int, start);
            let offset = (latest - start) / (step as int);
            lemma_offset_in_reach(span as int, step as int, offset);
            assert(spec.opens_at(latest - offset * step, time));
        }
    }
    Ok(windows)
}

proof fn lemma_membership_reach(span: int, step: int)
    requires
        span >= 0,
        step > 0,
    ensures
        membership_count(span, step) >= 0,
        membership_count(span, step) > 0 ==> (membership_count(span, step) - 1) * step < span,
        membership_count(span, step) > 0 <==> span > 0,
{
    let total = membership_count(span, step);
    vstd::arithmetic::div_mod::lemma_fundamental_div_mod(span + step - 1, step);
    assert((total - 1) * step < span) by (nonlinear_arith)
        requires
            span + step - 1 >= step * total,
            step > 0,
    ;
    assert(total >= 0) by (nonlinear_arith)
        requires
            span + step - 1 < step * total + step,
            span >= 0,
            step > 0,
    ;
    if span > 0 {
        assert(total > 0) by (nonlinear_arith)
            requires
                span + step - 1 < step * total + step,
                span > 0,
                step > 0,
        ;
    } else {
        assert(total <= 0) by (nonlinear_arith)
            requires
                span + step - 1 >= step * total,
                span == 0,
                step > 0,
        ;
    }
}

/// An offset whose window still reaches the latest start is below the membership count.
proof fn lemma_offset_in_reach(span: int, step: int, offset: int)
    requires
        step > 0,
        offset >= 0,
        offset * step < span,
    ensures
        offset < membership_count(span, step),
{
    let total = membership_count(span, step);
    vstd::arithmetic::div_mod::lemma_fundamental_div_mod(span + step - 1, step);
    assert(offset < total) by (nonlinear_arith)
        requires
            span + step - 1 < step * total + step,
            offset * step < span,
            step > 0,
    ;
}

proof fn lemma_step_back_aligned(latest: int, anchor: int, step: int, offset: int)
    requires
        step > 0,
        (latest - anchor) % step == 0,
    ensures
        (latest - offset * step - anchor) % step == 0,
{
    vstd::arithmetic::div_mod::lemma_mod_multiples_vanish(-offset, latest - anchor, step);
    assert(step * (-offset) + (latest - anchor) == latest - offset * step - anchor)
        by (nonlinear_arith);
}

/// Why a window engine refuses a request.
#[derive(Clone, Copy, Debug, PartialEq, Eq, Structural)]
pub enum WindowError {
    /// Invalid time window.
    InvalidTimeWindow,
    /// Invalid time-window specification.
    InvalidWindowSpec,
    /// Event time must be positive.
    InvalidEventTime,
    /// Sliding-window membership exceeds the configured bound.
    MembershipCapacity,
    /// Registry window kind and parameter do not match this engine.
    DefinitionKindMismatch,
    /// EWMA input must have a positive time and finite value.
    InvalidEwmaInput,
    /// EWMA sample capacity must be in inclusive range 1..=4_096.
    InvalidEwmaCapacity,
    /// EWMA sample capacity reached.
    EwmaCapacity,
    /// EWMA watermark regressed.
    EwmaWatermarkRegression,
    /// EWMA watermark is unavailable while required sources are incomplete or unhealthy.
    EwmaWatermarkUnavailable,
    /// EWMA event is at or before the compacted watermark.
    EwmaBeforeWatermark,
    /// Window state invariant failed.
    InvalidWindowState,
    /// Threshold must be positive.
    InvalidThreshold,
    /// Observed threshold amount must be positive.
    InvalidAmount,
    /// Invalid lifecycle capacity.
    InvalidLifecycle,
    /// Window lifecycle capacity reached.
    WindowCapacity,
    /// Window revision capacity reached.
    RevisionCapacity,
    /// Window does not exist.
    UnknownWindow,
    /// Invalid window lifecycle transition.
    InvalidTransition,
    /// Finalization decision was already applied or predates the latest decision.
    StaleFinalizationDecision,
    /// Watermark decision belongs to a different tracker policy.
    ForeignWatermarkPolicy,
    /// Window arithmetic overflow.
    ArithmeticOverflow,
    /// Decimal arithmetic failed.
    Decimal(DecimalError),
}

/// Every event belongs to exactly one tumbling window, and consecutive windows share a bound.
pub proof fn lemma_tumbling_windows_partition_time(extent: DurationNanos, a: int, b: int)
    requires
        0 < extent.nanos <= i64::MAX,
        a >= 0,
        b >= 0,
    ensures
        ({
            let step = extent.nanos as int;
            let first = aligned_start(a, 0, step);
            let second = aligned_start(b, 0, step);
            &&& first <= a < first + step
            &&& (first <= b < first + step <==> first == second)
            &&& aligned_start(first + step, 0, step) == first + step
        }),
{
    let step = extent.nanos as int;
    lemma_aligned(a, 0, step);
    lemma_aligned(b, 0, step);
    let first = aligned_start(a, 0, step);
    if first <= b < first + step {
        lemma_aligned_unique(b, 0, step, first);
        assert(0 * step == 0);
    }
    vstd::arithmetic::div_mod::lemma_mod_multiples_vanish(1, first, step);
    assert(step * 1 + first == first + step);
    lemma_aligned(first + step, 0, step);
    lemma_aligned_unique(first + step, 0, step, first + step);
}

/// A registered sliding window puts an event into no more windows than its membership bound.
pub proof fn lemma_sliding_memberships_are_bounded(
    definition: WindowDefinition,
    time: int,
    windows: Seq<TimeWindow>,
)
    requires
        window_spec_of(definition) is Ok,
        window_spec_of(definition)->Ok_0 is Sliding,
        lists_windows(window_spec_of(definition)->Ok_0, time, windows),
    ensures
        windows.len() <= MAX_SLIDING_MEMBERSHIPS,
{
    let spec = window_spec_of(definition)->Ok_0;
    let step = spec.step_of();
    let extent = spec.extent_of();
    let anchor = spec.anchor_of();
    let total = membership_count(extent, step);
    let latest = aligned_start(time, anchor, step);
    lemma_membership_reach(extent, step);
    assert forall|i: int| 0 <= i < windows.len() implies latest - (#[trigger] windows[i]).lower()
        >= (windows.len() - 1 - i) * step && (latest - windows[i].lower()) / step < total
        && latest - windows[i].lower() == ((latest - windows[i].lower()) / step) * step by {
        lemma_window_steps(spec, time, windows, i);
    }
    if windows.len() > 0 {
        let last = windows.len() - 1;
        let reach = (latest - windows[0].lower()) / step;
        assert(last <= reach) by (nonlinear_arith)
            requires
                latest - windows[0].lower() >= last * step,
                latest - windows[0].lower() == reach * step,
                step > 0,
        ;
    }
}

proof fn lemma_window_steps(spec: TimeWindowSpec, time: int, windows: Seq<TimeWindow>, i: int)
    requires
        lists_windows(spec, time, windows),
        spec.step_of() > 0,
        0 <= i < windows.len(),
    ensures
        ({
            let step = spec.step_of();
            let gap = aligned_start(time, spec.anchor_of(), step) - windows[i].lower();
            &&& gap >= (windows.len() - 1 - i) * step
            &&& gap == (gap / step) * step
            &&& gap / step < membership_count(spec.extent_of(), step)
        }),
    decreases windows.len() - i,
{
    let step = spec.step_of();
    let anchor = spec.anchor_of();
    let latest = aligned_start(time, anchor, step);
    let start = windows[i].lower() as int;
    assert(spec.opens_at(start, time));
    lemma_aligned(time, anchor, step);
    lemma_aligned_unique(time, anchor, step, start);
    let offset = (latest - start) / step;
    lemma_offset_in_reach(spec.extent_of(), step, offset);
    if i < windows.len() - 1 {
        let next = windows[i + 1].lower() as int;
        assert(spec.opens_at(next, time));
        lemma_window_steps(spec, time, windows, i + 1);
        lemma_aligned_unique(time, anchor, step, next);
        let nearer = (latest - next) / step;
        assert(windows[i].lower() < windows[i + 1].lower());
        assert(offset >= nearer + 1) by (nonlinear_arith)
            requires
                start < next,
                start == latest - offset * step,
                next == latest - nearer * step,
                step > 0,
        ;
        assert(offset * step >= nearer * step + step) by (nonlinear_arith)
            requires
                offset >= nearer + 1,
                step > 0,
        ;
        assert((windows.len() - 1 - i) * step == (windows.len() - 1 - (i + 1)) * step + step)
            by (nonlinear_arith);
    } else {
        assert((windows.len() - 1 - i) * step == 0) by (nonlinear_arith)
            requires
                windows.len() - 1 - i == 0,
        ;
    }
}

/// A closed window of events, counted from one.
#[derive(Clone, Copy, Debug, PartialEq, Eq, Structural)]
pub struct CountWindow {
    pub index: u64,
    pub start_event: u64,
    pub end_event: u64,
}

/// Closes a window of `extent` events after every `advance` events.
#[derive(Clone, Copy, Debug, PartialEq, Eq, Structural)]
pub struct EventCountState {
    extent: u64,
    advance: u64,
    observed: u64,
    next_index: u64,
}

/// The number of windows that close within the first `observed` events.
pub open spec fn closed_windows(observed: int, extent: int, advance: int) -> int {
    if observed < extent {
        0
    } else {
        (observed - extent) / advance + 1
    }
}

/// A window closes with event number `observed`.
pub open spec fn closes_at(observed: int, extent: int, advance: int) -> bool {
    observed >= extent && (observed - extent) % advance == 0
}

/// The window that closes with event number `observed`, if one does.
pub open spec fn counted(observed: int, extent: int, advance: int) -> Option<CountWindow> {
    if closes_at(observed, extent, advance) {
        Some(
            CountWindow {
                index: closed_windows(observed - 1, extent, advance) as u64,
                start_event: (observed - extent + 1) as u64,
                end_event: observed as u64,
            },
        )
    } else {
        None
    }
}

impl EventCountState {
    #[verifier::type_invariant]
    spec fn well_formed(self) -> bool {
        &&& 0 < self.advance <= self.extent
        &&& self.next_index == closed_windows(
            self.observed as int,
            self.extent as int,
            self.advance as int,
        )
    }

    pub closed spec fn span(self) -> u64 {
        self.extent
    }

    pub closed spec fn stride(self) -> u64 {
        self.advance
    }

    /// The number of events observed so far.
    pub closed spec fn seen(self) -> u64 {
        self.observed
    }

    pub fn try_from_definition(definition: &WindowDefinition) -> (result: Result<
        Self,
        WindowError,
    >)
        ensures
            match (definition.kind, definition.parameter) {
                (WindowKind::EventCount, WindowParameter::EventCount { events, advance }) => {
                    let stride = match advance {
                        Some(advance) => advance.count(),
                        None => events.count(),
                    };
                    if stride > events.count() {
                        result == Err::<Self, WindowError>(WindowError::InvalidWindowSpec)
                    } else {
                        result is Ok && result->Ok_0.span() == events.count()
                            && result->Ok_0.stride() == stride && result->Ok_0.seen() == 0
                    }
                },
                _ => result == Err::<Self, WindowError>(WindowError::DefinitionKindMismatch),
            },
    {
        match (definition.kind, definition.parameter) {
            (WindowKind::EventCount, WindowParameter::EventCount { events, advance }) => {
                let extent: u64 = events.value();
                let stride: u64 = match advance {
                    Some(advance) => advance.value(),
                    None => extent,
                };
                if stride > extent {
                    return Err(WindowError::InvalidWindowSpec);
                }
                Ok(EventCountState { extent, advance: stride, observed: 0, next_index: 0 })
            },
            _ => Err(WindowError::DefinitionKindMismatch),
        }
    }

    /// Counts one event, and hands out the window that it closes, if it closes one.
    pub fn observe(&mut self) -> (result: Result<Option<CountWindow>, WindowError>)
        ensures
            final(self).span() == old(self).span(),
            final(self).stride() == old(self).stride(),
            old(self).seen() == u64::MAX ==> {
                &&& result == Err::<Option<CountWindow>, WindowError>(
                    WindowError::ArithmeticOverflow,
                )
                &&& final(self).seen() == old(self).seen()
            },
            old(self).seen() < u64::MAX ==> {
                let seen = old(self).seen() + 1;
                let extent = old(self).span() as int;
                let advance = old(self).stride() as int;
                &&& final(self).seen() == seen
                &&& if closes_at(seen, extent, advance) {
                    result == Ok::<Option<CountWindow>, WindowError>(
                        Some(
                            (CountWindow {
                                index: closed_windows(seen - 1, extent, advance) as u64,
                                start_event: (seen - extent + 1) as u64,
                                end_event: seen as u64,
                            }),
                        ),
                    )
                } else {
                    result == Ok::<Option<CountWindow>, WindowError>(None)
                }
            },
            old(self).seen() < u64::MAX ==> result == Ok::<Option<CountWindow>, WindowError>(
                counted(old(self).seen() + 1, old(self).span() as int, old(self).stride() as int),
            ),
    {
        proof {
            use_type_invariant(&*self);
        }
        let extent: u64 = self.extent;
        let advance: u64 = self.advance;
        let index: u64 = self.next_index;
        if self.observed == u64::MAX {
            return Err(WindowError::ArithmeticOverflow);
        }
        let observed: u64 = self.observed + 1;
        proof {
            lemma_closed_windows_step(observed as int, extent as int, advance as int);
        }
        if observed < extent || (observed - extent) % advance != 0 {
            *self = EventCountState { extent, advance, observed, next_index: index };
            return Ok(None);
        }
        let window = CountWindow {
            index,
            start_event: observed - (extent - 1),
            end_event: observed,
        };
        *self = EventCountState { extent, advance, observed, next_index: index + 1 };
        Ok(Some(window))
    }
}

proof fn lemma_closed_windows_step(observed: int, extent: int, advance: int)
    requires
        observed >= 1,
        0 < advance <= extent,
    ensures
        closed_windows(observed, extent, advance) == closed_windows(observed - 1, extent, advance)
            + if closes_at(observed, extent, advance) {
            1int
        } else {
            0
        },
        0 <= closed_windows(observed, extent, advance) <= observed,
{
    if observed > extent {
        let x = observed - extent;
        vstd::arithmetic::div_mod::lemma_fundamental_div_mod(x, advance);
        vstd::arithmetic::div_mod::lemma_fundamental_div_mod(x - 1, advance);
        let q = x / advance;
        let r = x % advance;
        if r == 0 {
            assert(x - 1 == advance * (q - 1) + (advance - 1)) by (nonlinear_arith)
                requires
                    x == advance * q,
            ;
            vstd::arithmetic::div_mod::lemma_fundamental_div_mod_converse(
                x - 1,
                advance,
                q - 1,
                advance - 1,
            );
        } else {
            assert(advance * q == q * advance) by (nonlinear_arith);
            vstd::arithmetic::div_mod::lemma_fundamental_div_mod_converse(x - 1, advance, q, r - 1);
        }
        assert(0 <= q <= x) by (nonlinear_arith)
            requires
                x == advance * q + r,
                0 <= r < advance,
                advance >= 1,
                x >= 0,
        ;
    } else if observed == extent {
        assert(0int / advance == 0 && 0int % advance == 0) by (nonlinear_arith)
            requires
                advance > 0,
        ;
    }
}

/// The window with index `k` holds the events from `k * advance + 1` to `k * advance + extent`.
pub proof fn lemma_count_windows_are_evenly_spaced(observed: int, extent: int, advance: int)
    requires
        observed >= 1,
        0 < advance <= extent,
        closes_at(observed, extent, advance),
    ensures
        observed == closed_windows(observed - 1, extent, advance) * advance + extent,
{
    lemma_closed_windows_step(observed, extent, advance);
    let k = closed_windows(observed - 1, extent, advance);
    assert(k == (observed - extent) / advance);
    vstd::arithmetic::div_mod::lemma_fundamental_div_mod(observed - extent, advance);
    assert(advance * k == k * advance) by (nonlinear_arith);
}

#[derive(Clone, Copy, Debug, PartialEq, Eq, Structural)]
pub enum ThresholdKind {
    Volume,
    Notional,
}

/// A closed window of accumulated amounts.
#[derive(Clone, Copy, Debug, PartialEq, Eq, Structural)]
pub struct ThresholdWindow {
    pub kind: ThresholdKind,
    pub index: u64,
    pub total: FixedDecimal,
}

/// Closes a window whenever the accumulated amount reaches the threshold.
#[derive(Clone, Copy, Debug, PartialEq, Eq, Structural)]
pub struct ThresholdWindowState {
    kind: ThresholdKind,
    threshold: FixedDecimal,
    accumulated: FixedDecimal,
    next_index: u64,
}

impl ThresholdWindowState {
    /// The threshold is positive, and the accumulated amount has not reached it.
    #[verifier::type_invariant]
    spec fn well_formed(self) -> bool {
        0 <= self.accumulated.units() < self.threshold.units()
    }

    pub closed spec fn amount_kind(self) -> ThresholdKind {
        self.kind
    }

    pub closed spec fn limit(self) -> FixedDecimal {
        self.threshold
    }

    pub closed spec fn total(self) -> FixedDecimal {
        self.accumulated
    }

    pub closed spec fn index(self) -> u64 {
        self.next_index
    }

    pub fn try_from_definition(definition: &WindowDefinition) -> (result: Result<
        Self,
        WindowError,
    >)
        ensures
            match (definition.kind, definition.parameter) {
                (WindowKind::Volume, WindowParameter::Threshold { threshold })
                | (WindowKind::Notional, WindowParameter::Threshold { threshold }) => {
                    if threshold.units() <= 0 {
                        result == Err::<Self, WindowError>(WindowError::InvalidThreshold)
                    } else {
                        &&& result is Ok
                        &&& result->Ok_0.amount_kind() == (if definition.kind == WindowKind::Volume {
                            ThresholdKind::Volume
                        } else {
                            ThresholdKind::Notional
                        })
                        &&& result->Ok_0.limit() == threshold
                        &&& result->Ok_0.total().units() == 0
                        &&& result->Ok_0.index() == 0
                    }
                },
                _ => result == Err::<Self, WindowError>(WindowError::DefinitionKindMismatch),
            },
    {
        let (kind, threshold) = match (definition.kind, definition.parameter) {
            (WindowKind::Volume, WindowParameter::Threshold { threshold }) => (
                ThresholdKind::Volume,
                threshold,
            ),
            (WindowKind::Notional, WindowParameter::Threshold { threshold }) => (
                ThresholdKind::Notional,
                threshold,
            ),
            _ => {
                return Err(WindowError::DefinitionKindMismatch);
            },
        };
        if !threshold.is_positive() {
            return Err(WindowError::InvalidThreshold);
        }
        Ok(
            ThresholdWindowState {
                kind,
                threshold,
                accumulated: FixedDecimal::zero(),
                next_index: 0,
            },
        )
    }

    /// Why an amount is refused, if it is.
    pub open spec fn refusal(self, amount: FixedDecimal) -> Option<WindowError> {
        if amount.units() <= 0 {
            Some(WindowError::InvalidAmount)
        } else if !self.total().sum_fits(amount) {
            Some(WindowError::Decimal(DecimalError::Unrepresentable))
        } else if self.total().units() + amount.units() >= self.limit().units() && self.index()
            == u64::MAX {
            Some(WindowError::ArithmeticOverflow)
        } else {
            None
        }
    }

    /// Adds an amount, and hands out the window that it closes, if it closes one.
    pub fn observe(&mut self, amount: FixedDecimal) -> (result: Result<
        Option<ThresholdWindow>,
        WindowError,
    >)
        ensures
            final(self).amount_kind() == old(self).amount_kind(),
            final(self).limit() == old(self).limit(),
            match old(self).refusal(amount) {
                Some(error) => result == Err::<Option<ThresholdWindow>, WindowError>(error)
                    && *final(self) == *old(self),
                None => {
                    let sum = old(self).total().units() + amount.units();
                    if sum < old(self).limit().units() {
                        &&& result == Ok::<Option<ThresholdWindow>, WindowError>(None)
                        &&& final(self).total().units() == sum
                        &&& final(self).index() == old(self).index()
                    } else {
                        &&& result is Ok && result->Ok_0 is Some
                        &&& result->Ok_0->Some_0.kind == old(self).amount_kind()
                        &&& result->Ok_0->Some_0.index == old(self).index()
                        &&& result->Ok_0->Some_0.total.units() == sum
                        &&& final(self).total().units() == 0
                        &&& final(self).index() == old(self).index() + 1
                    }
                },
            },
            old(self).refusal(amount) is None ==> result is Ok && accumulates(
                *old(self),
                *final(self),
                amount,
                result->Ok_0,
            ),
    {
        proof {
            use_type_invariant(&*self);
        }
        if !amount.is_positive() {
            return Err(WindowError::InvalidAmount);
        }
        let accumulated = match self.accumulated.checked_add(amount) {
            Err(error) => {
                return Err(WindowError::Decimal(error));
            },
            Ok(accumulated) => accumulated,
        };
        if accumulated.less_than(&self.threshold) {
            *self =
            ThresholdWindowState {
                kind: self.kind,
                threshold: self.threshold,
                accumulated,
                next_index: self.next_index,
            };
            return Ok(None);
        }
        if self.next_index == u64::MAX {
            return Err(WindowError::ArithmeticOverflow);
        }
        let window = ThresholdWindow {
            kind: self.kind,
            index: self.next_index,
            total: accumulated,
        };
        *self =
        ThresholdWindowState {
            kind: self.kind,
            threshold: self.threshold,
            accumulated: FixedDecimal::zero(),
            next_index: self.next_index + 1,
        };
        Ok(Some(window))
    }
}

/// An amount is added to what was accumulated, and closes a window where the limit is reached.
pub open spec fn accumulates(
    before: ThresholdWindowState,
    after: ThresholdWindowState,
    amount: FixedDecimal,
    closed: Option<ThresholdWindow>,
) -> bool {
    let sum = before.total().units() + amount.units();
    if sum < before.limit().units() {
        &&& closed is None
        &&& after.total().units() == sum
        &&& after.index() == before.index()
    } else {
        &&& closed is Some
        &&& closed->Some_0.kind == before.amount_kind()
        &&& closed->Some_0.index == before.index()
        &&& closed->Some_0.total.units() == sum
        &&& after.total().units() == 0
        &&& after.index() == before.index() + 1
    }
}

#[allow(inconsistent_fields)]
#[derive(Clone, Copy, Debug, PartialEq, Eq, Structural)]
pub enum EmissionAction {
    Provisional { revision: u32 },
    RevisedProvisional { replaces_revision: u32, revision: u32 },
    Final { revision: u32 },
    Corrected { replaces_revision: u32, revision: u32 },
    Invalid { revision: u32 },
}

/// One revision of a window's value.
#[derive(Clone, Copy, Debug, PartialEq, Eq, Structural)]
pub struct WindowEmission {
    pub revision: u32,
    pub finality: FinalityState,
    pub decision_sequence: u64,
}

impl WindowEmission {
    pub fn revision(&self) -> (revision: u32)
        ensures
            revision == self.revision,
    {
        self.revision
    }

    pub fn finality(&self) -> (finality: FinalityState)
        ensures
            finality == self.finality,
    {
        self.finality
    }
}

/// The finality that a decision gives a revision.
pub open spec fn finality_of(state: Finalization) -> FinalityState {
    match state {
        Finalization::Provisional => FinalityState::Provisional,
        Finalization::Final => FinalityState::Final,
        Finalization::Invalid => FinalityState::Invalid,
    }
}

pub fn finality_state(state: Finalization) -> (finality: FinalityState)
    ensures
        finality == finality_of(state),
{
    match state {
        Finalization::Provisional => FinalityState::Provisional,
        Finalization::Final => FinalityState::Final,
        Finalization::Invalid => FinalityState::Invalid,
    }
}

/// A further revision of a history, or why it cannot have one.
pub open spec fn appended(
    history: Seq<WindowEmission>,
    capacity: nat,
    finality: FinalityState,
    sequence: u64,
) -> Result<WindowEmission, WindowError> {
    if history.len() >= capacity {
        Err(WindowError::RevisionCapacity)
    } else if history.last().revision == u32::MAX {
        Err(WindowError::ArithmeticOverflow)
    } else {
        Ok(
            WindowEmission {
                revision: (history.last().revision + 1) as u32,
                finality,
                decision_sequence: sequence,
            },
        )
    }
}

/// A decision may move a history on: a provisional value to any state, and a settled one only to
/// an invalid one.
pub open spec fn may_follow(previous: FinalityState, state: Finalization) -> bool {
    match state {
        Finalization::Provisional => previous == FinalityState::Provisional,
        Finalization::Final => previous == FinalityState::Provisional,
        Finalization::Invalid => previous != FinalityState::Invalid,
    }
}

/// A value that a correction may replace.
pub open spec fn correctable(previous: FinalityState) -> bool {
    previous == FinalityState::Final || previous == FinalityState::Corrected || previous
        == FinalityState::Invalid
}

/// The next revision of a known window, or why the decision is refused.
pub open spec fn revised(
    history: Seq<WindowEmission>,
    capacity: nat,
    decision: DecisionView,
) -> Result<WindowEmission, WindowError> {
    if history.len() == 0 {
        Err(WindowError::InvalidWindowState)
    } else if decision.sequence <= history.last().decision_sequence {
        Err(WindowError::StaleFinalizationDecision)
    } else if !may_follow(history.last().finality, decision.state) {
        Err(WindowError::InvalidTransition)
    } else {
        appended(history, capacity, finality_of(decision.state), decision.sequence)
    }
}

/// The corrected revision of a known window, or why the correction is refused.
pub open spec fn corrected(
    history: Seq<WindowEmission>,
    capacity: nat,
    decision: CorrectionView,
) -> Result<WindowEmission, WindowError> {
    if history.len() == 0 || !correctable(history.last().finality) {
        Err(WindowError::InvalidTransition)
    } else if decision.sequence <= history.last().decision_sequence {
        Err(WindowError::StaleFinalizationDecision)
    } else {
        appended(history, capacity, FinalityState::Corrected, decision.sequence)
    }
}

/// The action that announces a further revision.
pub open spec fn announced(
    previous: WindowEmission,
    emission: WindowEmission,
) -> EmissionAction {
    match emission.finality {
        FinalityState::Provisional => EmissionAction::RevisedProvisional {
            replaces_revision: previous.revision,
            revision: emission.revision,
        },
        FinalityState::Final => EmissionAction::Final { revision: emission.revision },
        FinalityState::Invalid => EmissionAction::Invalid { revision: emission.revision },
        FinalityState::Corrected => EmissionAction::Corrected {
            replaces_revision: previous.revision,
            revision: emission.revision,
        },
    }
}

/// What a lifecycle holds.
pub struct LifecycleView {
    pub window_capacity: nat,
    pub revision_capacity: nat,
    pub histories: Seq<(TimeWindow, Seq<WindowEmission>)>,
    pub policy: Seq<u8>,
}

/// The position of a window's history, or the number of histories where there is none.
pub open spec fn history_position(
    histories: Seq<(TimeWindow, Seq<WindowEmission>)>,
    window: TimeWindow,
) -> int
    decreases histories.len(),
{
    if histories.len() == 0 {
        0
    } else if histories[0].0 == window {
        0
    } else {
        1 + history_position(histories.drop_first(), window)
    }
}

/// A history that only this lifecycle's rules can have produced: revisions count up from one,
/// each under a later decision, and each allowed behind the one before.
pub open spec fn lawful_history(history: Seq<WindowEmission>) -> bool {
    &&& history.len() > 0
    &&& forall|i: int|
        0 <= i < history.len() ==> (#[trigger] history[i]).revision == i + 1
    &&& history[0].finality != FinalityState::Corrected
    &&& forall|i: int| 0 < i < history.len() ==> #[trigger] lawful_step(history, i)
}

/// A revision rests on a later decision than the one before it, and may stand behind it.
pub open spec fn lawful_step(history: Seq<WindowEmission>, i: int) -> bool {
    may_replace(history[i - 1], history[i])
}

pub open spec fn may_replace(previous: WindowEmission, next: WindowEmission) -> bool {
    &&& previous.decision_sequence < next.decision_sequence
    &&& match next.finality {
        FinalityState::Provisional => previous.finality == FinalityState::Provisional,
        FinalityState::Final => previous.finality == FinalityState::Provisional,
        FinalityState::Invalid => previous.finality != FinalityState::Invalid,
        FinalityState::Corrected => correctable(previous.finality),
    }
}

impl LifecycleView {
    /// Every window has one lawful history, and neither capacity is exceeded.
    pub open spec fn well_formed(self) -> bool {
        &&& 0 < self.window_capacity <= MAX_LIFECYCLE_WINDOWS
        &&& 2 <= self.revision_capacity <= MAX_REVISIONS_PER_WINDOW
        &&& self.histories.len() <= self.window_capacity
        &&& forall|i: int|
            0 <= i < self.histories.len() ==> lawful_history((#[trigger] self.histories[i]).1)
                && self.histories[i].1.len() <= self.revision_capacity
        &&& forall|i: int, j: int|
            0 <= i < j < self.histories.len() ==> (#[trigger] self.histories[i]).0 != (
            #[trigger] self.histories[j]).0
    }

    /// The state and the action behind a decision, or why it is refused.
    pub open spec fn applied(self, decision: DecisionView) -> Result<
        (Self, EmissionAction),
        WindowError,
    > {
        let position = history_position(self.histories, decision.window);
        let history = self.histories[position].1;
        if decision.policy != self.policy {
            Err(WindowError::ForeignWatermarkPolicy)
        } else if position == self.histories.len() {
            if self.histories.len() >= self.window_capacity {
                Err(WindowError::WindowCapacity)
            } else {
                Ok(
                    (
                        LifecycleView {
                            histories: self.histories.push(
                                (
                                    decision.window,
                                    seq![
                                        WindowEmission {
                                            revision: 1,
                                            finality: finality_of(decision.state),
                                            decision_sequence: decision.sequence,
                                        },
                                    ],
                                ),
                            ),
                            ..self
                        },
                        match decision.state {
                            Finalization::Provisional => EmissionAction::Provisional {
                                revision: 1,
                            },
                            Finalization::Final => EmissionAction::Final { revision: 1 },
                            Finalization::Invalid => EmissionAction::Invalid { revision: 1 },
                        },
                    ),
                )
            }
        } else {
            match revised(history, self.revision_capacity, decision) {
                Err(error) => Err(error),
                Ok(emission) => Ok(
                    (
                        self.extended(position, emission),
                        announced(history.last(), emission),
                    ),
                ),
            }
        }
    }

    /// The state and the action behind a correction, or why it is refused.
    pub open spec fn amended(self, decision: CorrectionView) -> Result<
        (Self, EmissionAction),
        WindowError,
    > {
        let position = history_position(self.histories, decision.window);
        let history = self.histories[position].1;
        if decision.policy != self.policy {
            Err(WindowError::ForeignWatermarkPolicy)
        } else if position == self.histories.len() {
            Err(WindowError::UnknownWindow)
        } else {
            match corrected(history, self.revision_capacity, decision) {
                Err(error) => Err(error),
                Ok(emission) => Ok(
                    (
                        self.extended(position, emission),
                        announced(history.last(), emission),
                    ),
                ),
            }
        }
    }

    /// The state with one more revision in the history at a position.
    pub open spec fn extended(self, position: int, emission: WindowEmission) -> Self {
        LifecycleView {
            histories: self.histories.update(
                position,
                (self.histories[position].0, self.histories[position].1.push(emission)),
            ),
            ..self
        }
    }
}

#[derive(Debug)]
struct WindowHistory {
    window: TimeWindow,
    emissions: Vec<WindowEmission>,
}

/// The revisions of every window under one watermark policy.
#[derive(Debug)]
pub struct WindowLifecycle {
    window_capacity: usize,
    revision_capacity: usize,
    histories: Vec<WindowHistory>,
    policy_id: [u8; 32],
}

closed spec fn history_views(histories: Seq<WindowHistory>) -> Seq<
    (TimeWindow, Seq<WindowEmission>),
> {
    Seq::new(histories.len(), |i: int| (histories[i].window, histories[i].emissions@))
}

impl View for WindowLifecycle {
    type V = LifecycleView;

    closed spec fn view(&self) -> LifecycleView {
        LifecycleView {
            window_capacity: self.window_capacity as nat,
            revision_capacity: self.revision_capacity as nat,
            histories: history_views(self.histories@),
            policy: self.policy_id@,
        }
    }
}

impl WindowLifecycle {
    #[verifier::type_invariant]
    spec fn lawful(self) -> bool {
        self@.well_formed()
    }

    pub fn try_new(
        tracker: &WatermarkTracker,
        window_capacity: usize,
        revision_capacity: usize,
    ) -> (result: Result<Self, WindowError>)
        ensures
            result is Ok <==> 0 < window_capacity <= MAX_LIFECYCLE_WINDOWS && 2
                <= revision_capacity <= MAX_REVISIONS_PER_WINDOW,
            result is Err ==> result->Err_0 == WindowError::InvalidLifecycle,
            result is Ok ==> result->Ok_0@ == (LifecycleView {
                window_capacity: window_capacity as nat,
                revision_capacity: revision_capacity as nat,
                histories: Seq::empty(),
                policy: tracker@.policy,
            }) && result->Ok_0@.well_formed(),
    {
        if window_capacity == 0 || window_capacity > MAX_LIFECYCLE_WINDOWS || revision_capacity < 2
            || revision_capacity > MAX_REVISIONS_PER_WINDOW {
            return Err(WindowError::InvalidLifecycle);
        }
        let histories: Vec<WindowHistory> = Vec::new();
        proof {
            assert(history_views(histories@) =~= Seq::empty());
        }
        let lifecycle = WindowLifecycle {
            window_capacity,
            revision_capacity,
            histories,
            policy_id: tracker.policy_id(),
        };
        proof {
            assert(lifecycle@.histories =~= Seq::empty());
        }
        Ok(lifecycle)
    }

    /// The position of a window's history, or the number of histories.
    fn position(&self, window: TimeWindow) -> (position: usize)
        ensures
            position == history_position(self@.histories, window),
            position <= self.histories@.len(),
            position < self.histories@.len() ==> self.histories@[position as int].window == window,
    {
        let ghost views = history_views(self.histories@);
        let mut i: usize = 0;
        proof {
            assert(views.skip(0) =~= views);
        }
        while i < self.histories.len()
            invariant
                i <= self.histories.len(),
                views == history_views(self.histories@),
                history_position(views, window) == i + history_position(
                    views.skip(i as int),
                    window,
                ),
            decreases self.histories.len() - i,
        {
            proof {
                assert(views.skip(i as int)[0].0 == self.histories@[i as int].window);
                assert(views.skip(i as int).drop_first() =~= views.skip(i + 1));
            }
            if self.histories[i].window == window {
                return i;
            }
            i += 1;
        }
        i
    }

    /// Adds a revision to the history at a position.
    fn extend(&mut self, position: usize, emission: WindowEmission)
        requires
            position < old(self).histories@.len(),
            old(self)@.extended(position as int, emission).well_formed(),
        ensures
            final(self)@ == old(self)@.extended(position as int, emission),
    {
        proof {
            use_type_invariant(&*self);
        }
        let ghost before = self.histories@;
        let mut emissions: Vec<WindowEmission> = Vec::new();
        let mut i: usize = 0;
        while i < self.histories[position].emissions.len()
            invariant
                position < self.histories@.len(),
                self.histories@ == before,
                i <= self.histories@[position as int].emissions@.len(),
                emissions@ =~= self.histories@[position as int].emissions@.take(i as int),
            decreases self.histories@[position as int].emissions@.len() - i,
        {
            emissions.push(self.histories[position].emissions[i]);
            i += 1;
        }
        emissions.push(emission);
        let history = WindowHistory { window: self.histories[position].window, emissions };
        let mut histories: Vec<WindowHistory> = Vec::new();
        core::mem::swap(&mut histories, &mut self.histories);
        histories.set(position, history);
        proof {
            assert(emissions@ =~= before[position as int].emissions@.push(emission));
            assert(history_views(histories@) =~= history_views(before).update(
                position as int,
                (
                    history_views(before)[position as int].0,
                    history_views(before)[position as int].1.push(emission),
                ),
            ));
        }
        self.histories = histories;
    }

    /// Applies opaque, exact-window evidence from a [`WatermarkTracker`].
    ///
    /// This is the only method that can create provisional, final, or invalid emissions, so
    /// finality cannot bypass watermark, lateness, or health policy.
    pub fn apply(&mut self, decision: FinalizationDecision) -> (result: Result<
        EmissionAction,
        WindowError,
    >)
        ensures
            match old(self)@.applied(decision@) {
                Err(error) => result == Err::<EmissionAction, WindowError>(error) && final(self)@
                    == old(self)@,
                Ok((state, action)) => result == Ok::<EmissionAction, WindowError>(action)
                    && final(self)@ == state,
            },
            old(self)@.well_formed(),
            final(self)@.well_formed(),
    {
        proof {
            use_type_invariant(&*self);
        }
        if !same_digest(&decision.policy_id(), &self.policy_id) {
            return Err(WindowError::ForeignWatermarkPolicy);
        }
        let window = decision.window();
        let state = decision.state();
        let position: usize = self.position(window);
        if position == self.histories.len() {
            if self.histories.len() >= self.window_capacity {
                return Err(WindowError::WindowCapacity);
            }
            proof {
                lemma_applying_keeps_histories_lawful(self@, decision@);
            }
            let ghost before = self.histories@;
            let mut emissions: Vec<WindowEmission> = Vec::new();
            emissions.push(
                WindowEmission {
                    revision: 1,
                    finality: finality_state(state),
                    decision_sequence: decision.evaluation_sequence(),
                },
            );
            let mut histories: Vec<WindowHistory> = Vec::new();
            core::mem::swap(&mut histories, &mut self.histories);
            histories.push(WindowHistory { window, emissions });
            proof {
                let expected = old(self)@.applied(decision@)->Ok_0.0.histories;
                assert(emissions@ =~= expected.last().1);
                assert(history_views(histories@) =~= history_views(before).push(
                    (window, emissions@),
                ));
            }
            self.histories = histories;
            return Ok(
                match state {
                    Finalization::Provisional => EmissionAction::Provisional { revision: 1 },
                    Finalization::Final => EmissionAction::Final { revision: 1 },
                    Finalization::Invalid => EmissionAction::Invalid { revision: 1 },
                },
            );
        }
        let ghost history = self@.histories[position as int].1;
        let count: usize = self.histories[position].emissions.len();
        if count == 0 {
            return Err(WindowError::InvalidWindowState);
        }
        let previous = self.histories[position].emissions[count - 1];
        if decision.evaluation_sequence() <= previous.decision_sequence {
            return Err(WindowError::StaleFinalizationDecision);
        }
        let allowed: bool = match state {
            Finalization::Provisional => previous.finality == FinalityState::Provisional,
            Finalization::Final => previous.finality == FinalityState::Provisional,
            Finalization::Invalid => previous.finality != FinalityState::Invalid,
        };
        if !allowed {
            return Err(WindowError::InvalidTransition);
        }
        let emission = match append_revision(
            &self.histories[position].emissions,
            self.revision_capacity,
            finality_state(state),
            decision.evaluation_sequence(),
        ) {
            Err(error) => {
                return Err(error);
            },
            Ok(emission) => emission,
        };
        proof {
            lemma_applying_keeps_histories_lawful(self@, decision@);
        }
        self.extend(position, emission);
        Ok(
            match state {
                Finalization::Provisional => EmissionAction::RevisedProvisional {
                    replaces_revision: previous.revision,
                    revision: emission.revision,
                },
                Finalization::Final => EmissionAction::Final { revision: emission.revision },
                Finalization::Invalid => EmissionAction::Invalid { revision: emission.revision },
            },
        )
    }

    /// Replaces the settled value of a window by a corrected one.
    pub fn correct(&mut self, decision: CorrectionDecision) -> (result: Result<
        EmissionAction,
        WindowError,
    >)
        ensures
            match old(self)@.amended(decision@) {
                Err(error) => result == Err::<EmissionAction, WindowError>(error) && final(self)@
                    == old(self)@,
                Ok((state, action)) => result == Ok::<EmissionAction, WindowError>(action)
                    && final(self)@ == state,
            },
            old(self)@.well_formed(),
            final(self)@.well_formed(),
    {
        proof {
            use_type_invariant(&*self);
        }
        if !same_digest(&decision.policy_id(), &self.policy_id) {
            return Err(WindowError::ForeignWatermarkPolicy);
        }
        let position: usize = self.position(decision.window());
        if position == self.histories.len() {
            return Err(WindowError::UnknownWindow);
        }
        let count: usize = self.histories[position].emissions.len();
        if count == 0 {
            return Err(WindowError::InvalidTransition);
        }
        let previous = self.histories[position].emissions[count - 1];
        if previous.finality == FinalityState::Provisional {
            return Err(WindowError::InvalidTransition);
        }
        if decision.evaluation_sequence() <= previous.decision_sequence {
            return Err(WindowError::StaleFinalizationDecision);
        }
        let emission = match append_revision(
            &self.histories[position].emissions,
            self.revision_capacity,
            FinalityState::Corrected,
            decision.evaluation_sequence(),
        ) {
            Err(error) => {
                return Err(error);
            },
            Ok(emission) => emission,
        };
        proof {
            lemma_correcting_keeps_histories_lawful(self@, decision@);
        }
        self.extend(position, emission);
        Ok(
            EmissionAction::Corrected {
                replaces_revision: previous.revision,
                revision: emission.revision,
            },
        )
    }

    /// The revisions of a window, oldest first.
    pub fn history(&self, window: TimeWindow) -> (history: Option<&[WindowEmission]>)
        ensures
            match history {
                Some(history) => {
                    let position = history_position(self@.histories, window);
                    position < self@.histories.len() && history@ == self@.histories[position].1
                        && lawful_history(history@)
                },
                None => history_position(self@.histories, window) == self@.histories.len(),
            },
            self@.well_formed(),
    {
        proof {
            use_type_invariant(self);
        }
        let position: usize = self.position(window);
        if position == self.histories.len() {
            None
        } else {
            Some(self.histories[position].emissions.as_slice())
        }
    }
}

fn append_revision(
    history: &Vec<WindowEmission>,
    revision_capacity: usize,
    finality: FinalityState,
    decision_sequence: u64,
) -> (result: Result<WindowEmission, WindowError>)
    requires
        history@.len() > 0,
    ensures
        result == appended(history@, revision_capacity as nat, finality, decision_sequence),
{
    if history.len() >= revision_capacity {
        return Err(WindowError::RevisionCapacity);
    }
    match history[history.len() - 1].revision.checked_add(1) {
        None => Err(WindowError::ArithmeticOverflow),
        Some(revision) => Ok(WindowEmission { revision, finality, decision_sequence }),
    }
}

proof fn lemma_history_position(
    histories: Seq<(TimeWindow, Seq<WindowEmission>)>,
    window: TimeWindow,
)
    ensures
        0 <= history_position(histories, window) <= histories.len(),
        history_position(histories, window) < histories.len() ==> histories[history_position(
            histories,
            window,
        )].0 == window,
        history_position(histories, window) == histories.len() ==> forall|i: int|
            0 <= i < histories.len() ==> (#[trigger] histories[i]).0 != window,
    decreases histories.len(),
{
    if histories.len() > 0 && histories[0].0 != window {
        let rest = histories.drop_first();
        lemma_history_position(rest, window);
        if history_position(rest, window) == rest.len() {
            assert forall|i: int| 0 <= i < histories.len() implies (#[trigger] histories[i]).0
                != window by {
                if i > 0 {
                    assert(rest[i - 1].0 != window);
                }
            }
        }
    }
}

/// An accepted decision keeps every history lawful, and leaves every other window's history as
/// it was.
pub proof fn lemma_applying_keeps_histories_lawful(state: LifecycleView, decision: DecisionView)
    requires
        state.well_formed(),
        state.applied(decision) is Ok,
    ensures
        state.applied(decision)->Ok_0.0.well_formed(),
        forall|i: int|
            0 <= i < state.histories.len() && (#[trigger] state.histories[i]).0 != decision.window
                ==> state.applied(decision)->Ok_0.0.histories[i] == state.histories[i],
{
    lemma_history_position(state.histories, decision.window);
    let position = history_position(state.histories, decision.window);
    let after = state.applied(decision)->Ok_0.0;
    if position == state.histories.len() {
        assert forall|i: int| 0 <= i < after.histories.len() implies lawful_history(
            (#[trigger] after.histories[i]).1,
        ) && after.histories[i].1.len() <= after.revision_capacity by {
            if i < position {
                assert(after.histories[i] == state.histories[i]);
            }
        }
    } else {
        lemma_extending_keeps_well_formed(
            state,
            position,
            revised(state.histories[position].1, state.revision_capacity, decision)->Ok_0,
        );
    }
}

/// An accepted correction keeps every history lawful, and leaves every other window's history as
/// it was.
pub proof fn lemma_correcting_keeps_histories_lawful(
    state: LifecycleView,
    decision: CorrectionView,
)
    requires
        state.well_formed(),
        state.amended(decision) is Ok,
    ensures
        state.amended(decision)->Ok_0.0.well_formed(),
        forall|i: int|
            0 <= i < state.histories.len() && (#[trigger] state.histories[i]).0 != decision.window
                ==> state.amended(decision)->Ok_0.0.histories[i] == state.histories[i],
{
    lemma_history_position(state.histories, decision.window);
    let position = history_position(state.histories, decision.window);
    lemma_extending_keeps_well_formed(
        state,
        position,
        corrected(state.histories[position].1, state.revision_capacity, decision)->Ok_0,
    );
}

proof fn lemma_extending_keeps_well_formed(
    state: LifecycleView,
    position: int,
    emission: WindowEmission,
)
    requires
        state.well_formed(),
        0 <= position < state.histories.len(),
        state.histories[position].1.len() < state.revision_capacity,
        emission.revision == state.histories[position].1.last().revision + 1,
        may_replace(state.histories[position].1.last(), emission),
    ensures
        state.extended(position, emission).well_formed(),
{
    let after = state.extended(position, emission);
    let history = state.histories[position].1;
    let longer = history.push(emission);
    assert(lawful_history(history));
    assert(lawful_history(longer)) by {
        assert forall|i: int| 0 <= i < longer.len() implies (#[trigger] longer[i]).revision == i
            + 1 by {
            if i < history.len() {
                assert(longer[i] == history[i]);
            } else {
                assert(history[history.len() - 1].revision == history.len());
            }
        }
        assert forall|i: int| 0 < i < longer.len() implies #[trigger] lawful_step(longer, i) by {
            if i < history.len() {
                assert(lawful_step(history, i));
            }
        }
    }
    assert forall|i: int| 0 <= i < after.histories.len() implies lawful_history(
        (#[trigger] after.histories[i]).1,
    ) && after.histories[i].1.len() <= after.revision_capacity by {
        assert(lawful_history(state.histories[i].1));
    }
    assert forall|i: int, j: int| 0 <= i < j < after.histories.len() implies (
    #[trigger] after.histories[i]).0 != (#[trigger] after.histories[j]).0 by {
        assert(state.histories[i].0 != state.histories[j].0);
    }
}

/// A decision can be applied once: applying it again is refused as stale.
pub proof fn lemma_decisions_apply_once(state: LifecycleView, decision: DecisionView)
    requires
        state.well_formed(),
        state.applied(decision) is Ok,
    ensures
        state.applied(decision)->Ok_0.0.applied(decision) == Err::<
            (LifecycleView, EmissionAction),
            WindowError,
        >(WindowError::StaleFinalizationDecision),
{
    lemma_history_position(state.histories, decision.window);
    let after = state.applied(decision)->Ok_0.0;
    lemma_applying_keeps_histories_lawful(state, decision);
    lemma_history_position(after.histories, decision.window);
    let before = history_position(state.histories, decision.window);
    let position = history_position(after.histories, decision.window);
    if before == state.histories.len() {
        assert(after.histories[before].0 == decision.window);
    } else {
        assert(after.histories[before].0 == decision.window);
    }
    assert(position < after.histories.len());
    assert(position == before) by {
        if position < before {
            assert(after.histories[position].0 != after.histories[before].0);
        } else if position > before {
            assert(after.histories[before].0 != after.histories[position].0);
        }
    }
}

/// A time lies a whole number of steps from an anchor.
pub open spec fn lies_on_a_step(time: int, anchor: int, step: int) -> bool {
    (time - anchor) % step == 0
}

/// The windows listed for a time are those that hold it: each begins no later than the time and ends
/// behind it, is as long as the specification says, and begins a whole number of steps from the
/// anchor, and every such window from the epoch on is listed. Tumbling and session windows step by
/// their length, and sliding ones by their advance.
pub proof fn lemma_listed_windows_hold_their_time(
    spec: TimeWindowSpec,
    time: int,
    windows: Seq<TimeWindow>,
)
    requires
        lists_windows(spec, time, windows),
    ensures
        ({
            let (extent, step, anchor) = match spec {
                TimeWindowSpec::Tumbling { extent, anchor } => (
                    extent.nanos as int,
                    extent.nanos as int,
                    anchor.nanos as int,
                ),
                TimeWindowSpec::Sliding { extent, advance, anchor } => (
                    extent.nanos as int,
                    advance.nanos as int,
                    anchor.nanos as int,
                ),
                TimeWindowSpec::SessionAligned { extent, utc_anchor } => (
                    extent.nanos as int,
                    extent.nanos as int,
                    utc_anchor.nanos as int,
                ),
            };
            &&& forall|i: int|
                #![trigger windows[i]]
                0 <= i < windows.len() ==> {
                    &&& 0 <= windows[i].lower() <= time < windows[i].upper()
                    &&& windows[i].upper() - windows[i].lower() == extent
                    &&& (windows[i].lower() - anchor) % step == 0
                }
            &&& forall|start: int|
                0 <= start <= time < start + extent && #[trigger] lies_on_a_step(
                    start,
                    anchor,
                    step,
                ) ==> exists|i: int|
                    0 <= i < windows.len() && (#[trigger] windows[i]).lower() == start
            &&& forall|i: int, j: int|
                0 <= i < j < windows.len() ==> (#[trigger] windows[i]).lower() < (
                #[trigger] windows[j]).lower()
        }),
{
    let (extent, step, anchor) = (spec.extent_of(), spec.step_of(), spec.anchor_of());
    assert forall|i: int|
        #![trigger windows[i]]
        0 <= i < windows.len() implies {
        &&& 0 <= windows[i].lower() <= time < windows[i].upper()
        &&& windows[i].upper() - windows[i].lower() == extent
        &&& (windows[i].lower() - anchor) % step == 0
    } by {
        assert(spec.opens_at(windows[i].lower() as int, time));
    }
    assert forall|start: int|
        0 <= start <= time < start + extent && #[trigger] lies_on_a_step(
            start,
            anchor,
            step,
        ) implies exists|i: int|
        0 <= i < windows.len() && (#[trigger] windows[i]).lower() == start by {
        assert(spec.opens_at(start, time));
    }
}

/// A time belongs to just one tumbling or session window.
pub proof fn lemma_tumbling_times_have_one_window(
    spec: TimeWindowSpec,
    time: int,
    windows: Seq<TimeWindow>,
)
    requires
        lists_windows(spec, time, windows),
        spec.advances(),
        !(spec is Sliding),
    ensures
        windows.len() <= 1,
{
    if windows.len() > 1 {
        let step = spec.step_of();
        let anchor = spec.anchor_of();
        let (a, b) = (windows[0].lower() as int, windows[1].lower() as int);
        assert(spec.opens_at(a, time) && spec.opens_at(b, time));
        lemma_aligned_unique(time, anchor, step, a);
        lemma_aligned_unique(time, anchor, step, b);
        assert(a == b);
    }
}

/// A registered tumbling or sliding window counts from the Unix epoch, and a session window from its
/// own anchor; each keeps its registered length and advance. Nothing else is a time window.
pub proof fn lemma_registered_windows_keep_their_shape(definition: WindowDefinition)
    ensures
        window_spec_of(definition) is Ok ==> match (definition.kind, definition.parameter) {
            (WindowKind::Tumbling, WindowParameter::Time { extent, advance: None }) => {
                window_spec_of(definition)->Ok_0 == (TimeWindowSpec::Tumbling {
                    extent,
                    anchor: UnixNanos { nanos: 0 },
                }) && 0 < extent.nanos <= i64::MAX
            },
            (WindowKind::Sliding, WindowParameter::Time { extent, advance: Some(advance) }) => {
                window_spec_of(definition)->Ok_0 == (TimeWindowSpec::Sliding {
                    extent,
                    advance,
                    anchor: UnixNanos { nanos: 0 },
                }) && 0 < advance.nanos <= extent.nanos <= i64::MAX
            },
            (
                WindowKind::SessionAligned,
                WindowParameter::SessionAligned { extent, utc_anchor },
            ) => {
                window_spec_of(definition)->Ok_0 == (TimeWindowSpec::SessionAligned {
                    extent,
                    utc_anchor,
                }) && 0 < extent.nanos <= i64::MAX && utc_anchor.nanos >= 0
            },
            _ => false,
        },
{
}

/// A count window closes just where a whole number of advances lies between the first full window
/// and the event. It holds the last events, as many as its extent, and windows follow each other by
/// their advance.
pub proof fn lemma_count_windows_hold_the_last_events(observed: int, extent: int, advance: int)
    requires
        1 <= observed <= u64::MAX,
        0 < advance <= extent <= u64::MAX,
    ensures
        counted(observed, extent, advance) is Some <==> exists|k: int|
            k >= 0 && observed == #[trigger] (k * advance) + extent,
        counted(observed, extent, advance) is Some ==> {
            let window = counted(observed, extent, advance)->Some_0;
            &&& window.end_event == observed
            &&& window.end_event - window.start_event + 1 == extent
            &&& window.start_event == window.index * advance + 1
        },
{
    lemma_closed_windows_step(observed, extent, advance);
    if closes_at(observed, extent, advance) {
        lemma_count_windows_are_evenly_spaced(observed, extent, advance);
        let k = closed_windows(observed - 1, extent, advance);
        lemma_closed_windows_are_few(observed, extent, advance);
        assert(observed == (k * advance) + extent);
        assert(counted(observed, extent, advance)->Some_0.index == k);
    } else if exists|k: int| k >= 0 && observed == #[trigger] (k * advance) + extent {
        let k = choose|k: int| k >= 0 && observed == #[trigger] (k * advance) + extent;
        vstd::arithmetic::div_mod::lemma_mod_multiples_basic(k, advance);
        assert(k * advance >= 0) by (nonlinear_arith)
            requires
                k >= 0,
                advance > 0,
        ;
    }
}

proof fn lemma_closed_windows_are_few(observed: int, extent: int, advance: int)
    requires
        1 <= observed,
        0 < advance <= extent,
    ensures
        0 <= closed_windows(observed - 1, extent, advance) <= observed,
{
    if observed - 1 >= extent {
        lemma_closed_windows_step(observed - 1, extent, advance);
    }
}

/// Amounts are neither lost nor made up: what is accumulated and what a window closes with is what
/// was accumulated before and the amount. A window closes just where that reaches the limit, takes
/// all of it, and is counted.
pub proof fn lemma_amounts_are_conserved(
    before: ThresholdWindowState,
    after: ThresholdWindowState,
    amount: FixedDecimal,
    closed: Option<ThresholdWindow>,
)
    requires
        accumulates(before, after, amount, closed),
    ensures
        match closed {
            Some(window) => {
                &&& window.total.units() + after.total().units() == before.total().units()
                    + amount.units()
                &&& window.total.units() >= before.limit().units()
                &&& after.total().units() == 0
                &&& window.index == before.index()
                &&& after.index() == window.index + 1
                &&& window.kind == before.amount_kind()
            },
            None => {
                &&& after.total().units() == before.total().units() + amount.units()
                &&& after.total().units() < before.limit().units()
                &&& after.index() == before.index()
            },
        },
{
}

/// A window's first revision is announced with the finality that its decision gives it, and every
/// further one behind the last: numbered one higher, under a later decision. A value that is settled
/// is never made provisional or final again by a decision, only invalid.
pub proof fn lemma_decisions_extend_one_history(state: LifecycleView, decision: DecisionView)
    requires
        state.well_formed(),
        state.applied(decision) is Ok,
    ensures
        ({
            let (after, action) = state.applied(decision)->Ok_0;
            let position = history_position(state.histories, decision.window);
            let history = after.histories[position].1;
            let own = history.last();
            &&& decision.policy == state.policy
            &&& 0 <= position < after.histories.len()
            &&& after.histories[position].0 == decision.window
            &&& own.decision_sequence == decision.sequence
            &&& match decision.state {
                Finalization::Provisional => own.finality == FinalityState::Provisional,
                Finalization::Final => own.finality == FinalityState::Final,
                Finalization::Invalid => own.finality == FinalityState::Invalid,
            }
            &&& own.revision == history.len()
            &&& if position == state.histories.len() {
                &&& history.len() == 1
                &&& after.histories.len() == state.histories.len() + 1
                &&& match decision.state {
                    Finalization::Provisional => action == (EmissionAction::Provisional {
                        revision: 1,
                    }),
                    Finalization::Final => action == (EmissionAction::Final { revision: 1 }),
                    Finalization::Invalid => action == (EmissionAction::Invalid { revision: 1 }),
                }
            } else {
                let earlier = state.histories[position].1;
                &&& history.drop_last() == earlier
                &&& earlier.last().decision_sequence < decision.sequence
                &&& earlier.last().finality != FinalityState::Provisional ==> decision.state
                    == Finalization::Invalid && earlier.last().finality != FinalityState::Invalid
                &&& match decision.state {
                    Finalization::Provisional => action == (EmissionAction::RevisedProvisional {
                        replaces_revision: earlier.last().revision,
                        revision: own.revision,
                    }),
                    Finalization::Final => action == (EmissionAction::Final {
                        revision: own.revision,
                    }),
                    Finalization::Invalid => action == (EmissionAction::Invalid {
                        revision: own.revision,
                    }),
                }
            }
        }),
{
    lemma_history_position(state.histories, decision.window);
    lemma_applying_keeps_histories_lawful(state, decision);
    let (after, _) = state.applied(decision)->Ok_0;
    let position = history_position(state.histories, decision.window);
    let history = after.histories[position].1;
    assert(lawful_history(history));
    assert(history[history.len() - 1].revision == history.len());
    if position < state.histories.len() {
        assert(history.drop_last() =~= state.histories[position].1);
    }
}

/// A correction replaces the last revision of a known window that is settled, never a provisional
/// one, and only under a later decision of the same policy. It is announced with what it replaces.
pub proof fn lemma_corrections_replace_settled_values(state: LifecycleView, decision: CorrectionView)
    requires
        state.well_formed(),
        state.amended(decision) is Ok,
    ensures
        ({
            let (after, action) = state.amended(decision)->Ok_0;
            let position = history_position(state.histories, decision.window);
            let earlier = state.histories[position].1;
            let own = after.histories[position].1.last();
            &&& decision.policy == state.policy
            &&& 0 <= position < state.histories.len()
            &&& state.histories[position].0 == decision.window
            &&& earlier.last().finality != FinalityState::Provisional
            &&& earlier.last().decision_sequence < decision.sequence
            &&& after.histories[position].1.drop_last() == earlier
            &&& own.finality == FinalityState::Corrected
            &&& own.revision == earlier.last().revision + 1
            &&& own.decision_sequence == decision.sequence
            &&& action == (EmissionAction::Corrected {
                replaces_revision: earlier.last().revision,
                revision: own.revision,
            })
        }),
{
    lemma_history_position(state.histories, decision.window);
    let (after, _) = state.amended(decision)->Ok_0;
    let position = history_position(state.histories, decision.window);
    assert(after.histories[position].1.drop_last() =~= state.histories[position].1);
}

/// A fresh decision on a known window is refused only for a reason: another policy, an earlier
/// sequence, a transition that is not allowed, or a history that is full.
pub proof fn lemma_decisions_are_refused_for_a_reason(state: LifecycleView, decision: DecisionView)
    requires
        state.well_formed(),
        state.applied(decision) is Err,
    ensures
        ({
            let position = history_position(state.histories, decision.window);
            let history = state.histories[position].1;
            let error = state.applied(decision)->Err_0;
            ||| decision.policy != state.policy && error == WindowError::ForeignWatermarkPolicy
            ||| position == state.histories.len() && state.histories.len()
                >= state.window_capacity && error == WindowError::WindowCapacity
            ||| position < state.histories.len() && decision.sequence
                <= history.last().decision_sequence && error
                == WindowError::StaleFinalizationDecision
            ||| position < state.histories.len() && history.last().finality
                != FinalityState::Provisional && (decision.state != Finalization::Invalid
                || history.last().finality == FinalityState::Invalid) && error
                == WindowError::InvalidTransition
            ||| position < state.histories.len() && history.len() == state.revision_capacity
                && error == WindowError::RevisionCapacity
        }),
{
    lemma_history_position(state.histories, decision.window);
    let position = history_position(state.histories, decision.window);
    if position < state.histories.len() {
        let history = state.histories[position].1;
        assert(lawful_history(history));
        assert(history[history.len() - 1].revision == history.len());
    }
}

} // verus!
