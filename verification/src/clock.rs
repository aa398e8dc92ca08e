//! Pure, externally driven logical time and deterministic timer ordering.

use vstd::prelude::*;

use crate::domain::UnixNanos;
use crate::ordering::{
    insert_by_rank, lemma_rank_order_is_total, rank_precedes, sorted_by_rank, Ranked,
};

verus! {

/// Most timers that one clock can hold.
pub const MAX_TIMER_CAPACITY: usize = 4_096;

/// A timer's identity, never zero.
#[derive(Clone, Copy, Debug, PartialEq, Eq, Structural)]
pub struct TimerId {
    value: u64,
}

impl TimerId {
    #[verifier::type_invariant]
    spec fn nonzero(self) -> bool {
        self.value != 0
    }

    pub closed spec fn number(self) -> u64 {
        self.value
    }

    pub fn new(value: u64) -> (result: Result<Self, ClockError>)
        ensures
            result is Ok <==> value != 0,
            result is Ok ==> result->Ok_0.number() == value,
            result is Err ==> result->Err_0 == ClockError::InvalidTimerId,
    {
        if value == 0 {
            Err(ClockError::InvalidTimerId)
        } else {
            Ok(TimerId { value })
        }
    }

    pub fn value(self) -> (value: u64)
        ensures
            value == self.number(),
            value != 0,
    {
        proof {
            use_type_invariant(&self);
        }
        self.value
    }
}

/// A timer and the time at which it fires.
#[derive(Clone, Copy, Debug, PartialEq, Eq, Structural)]
pub struct Timer {
    pub deadline: UnixNanos,
    pub id: TimerId,
}

impl Ranked for Timer {
    open spec fn rank(&self) -> Seq<int> {
        seq![self.deadline.nanos as int, self.id.number() as int]
    }

    fn precedes(&self, other: &Self) -> (before: bool) {
        proof {
            reveal_with_fuel(rank_precedes, 3);
            assert(self.rank().drop_first()[0] == self.id.number() as int);
            assert(other.rank().drop_first()[0] == other.id.number() as int);
        }
        self.deadline.nanos < other.deadline.nanos || (self.deadline.nanos == other.deadline.nanos
            && self.id.value() < other.id.value())
    }
}

/// A clock that moves only when it is told to, and the timers that wait on it.
#[derive(Debug)]
pub struct LogicalClock {
    now: UnixNanos,
    capacity: usize,
    timers: Vec<Timer>,
}

/// Some pending timer has this identity.
pub open spec fn has_timer(timers: Seq<Timer>, id: TimerId) -> bool {
    exists|i: int| 0 <= i < timers.len() && (#[trigger] timers[i]).id == id
}

/// The number of leading timers that are due at `target`.
pub open spec fn due_count(timers: Seq<Timer>, target: UnixNanos) -> nat
    decreases timers.len(),
{
    if timers.len() == 0 || timers[0].deadline.nanos > target.nanos {
        0
    } else {
        1 + due_count(timers.drop_first(), target)
    }
}

impl LogicalClock {
    #[verifier::type_invariant]
    spec fn well_formed(self) -> bool {
        &&& 0 < self.capacity <= MAX_TIMER_CAPACITY
        &&& self.is_lawful()
    }

    /// Logical time is positive; the pending timers are within capacity, not overdue, in firing
    /// order, and have distinct identities.
    pub open spec fn is_lawful(self) -> bool {
        &&& self.time().nanos > 0
        &&& self.pending().len() <= self.limit()
        &&& sorted_by_rank(self.pending())
        &&& forall|i: int, j: int|
            0 <= i < j < self.pending().len() ==> (#[trigger] self.pending()[i]).id != (
            #[trigger] self.pending()[j]).id
        &&& forall|i: int|
            0 <= i < self.pending().len() ==> (#[trigger] self.pending()[i]).deadline.nanos
                >= self.time().nanos
    }

    /// The current logical time.
    pub closed spec fn time(self) -> UnixNanos {
        self.now
    }

    /// The number of timers that the clock can hold.
    pub closed spec fn limit(self) -> nat {
        self.capacity as nat
    }

    /// The pending timers in firing order: by deadline, then by identity.
    pub closed spec fn pending(self) -> Seq<Timer> {
        self.timers@
    }

    pub fn try_new(now: UnixNanos, capacity: usize) -> (result: Result<Self, ClockError>)
        ensures
            result is Ok <==> now.nanos > 0 && 0 < capacity <= MAX_TIMER_CAPACITY,
            result is Err ==> result->Err_0 == ClockError::InvalidClock,
            result is Ok ==> result->Ok_0.time() == now && result->Ok_0.limit() == capacity
                && result->Ok_0.pending() == Seq::<Timer>::empty(),
    {
        if now.value() <= 0 || capacity == 0 || capacity > MAX_TIMER_CAPACITY {
            return Err(ClockError::InvalidClock);
        }
        let clock = LogicalClock { now, capacity, timers: Vec::new() };
        proof {
            assert(clock.timers@ =~= Seq::<Timer>::empty());
        }
        Ok(clock)
    }

    pub fn now(&self) -> (now: UnixNanos)
        ensures
            now == self.time(),
            now.nanos > 0,
            self.is_lawful(),
    {
        proof {
            use_type_invariant(self);
        }
        self.now
    }

    /// The position of a timer among the pending ones.
    fn position(&self, id: TimerId) -> (position: Option<usize>)
        ensures
            position is Some <==> has_timer(self.pending(), id),
            position is Some ==> position->Some_0 < self.pending().len()
                && self.pending()[position->Some_0 as int].id == id,
    {
        let mut i: usize = 0;
        while i < self.timers.len()
            invariant
                i <= self.timers.len(),
                forall|k: int| 0 <= k < i ==> (#[trigger] self.timers@[k]).id != id,
            decreases self.timers.len() - i,
        {
            if self.timers[i].id == id {
                proof {
                    assert(self.pending()[i as int].id == id);
                }
                return Some(i);
            }
            i += 1;
        }
        None
    }

    /// Why a timer cannot be scheduled, if it cannot.
    pub open spec fn schedule_refusal(self, id: TimerId, deadline: UnixNanos) -> Option<ClockError> {
        if deadline.nanos < self.time().nanos {
            Some(ClockError::DeadlineBeforeNow)
        } else if has_timer(self.pending(), id) {
            Some(ClockError::DuplicateTimer)
        } else if self.pending().len() >= self.limit() {
            Some(ClockError::TimerCapacity)
        } else {
            None
        }
    }

    pub fn schedule(&mut self, id: TimerId, deadline: UnixNanos) -> (result: Result<(), ClockError>)
        ensures
            final(self).is_lawful(),
            final(self).time() == old(self).time(),
            final(self).limit() == old(self).limit(),
            match old(self).schedule_refusal(id, deadline) {
                Some(error) => result == Err::<(), ClockError>(error) && final(self).pending()
                    == old(self).pending(),
                None => result == Ok::<(), ClockError>(()) && sorted_by_rank(final(self).pending())
                    && final(self).pending().to_multiset() == old(self).pending().to_multiset().insert(
                    Timer { deadline, id },
                ),
            },
    {
        proof {
            use_type_invariant(&*self);
        }
        if deadline.value() < self.now.value() {
            return Err(ClockError::DeadlineBeforeNow);
        }
        if self.position(id).is_some() {
            return Err(ClockError::DuplicateTimer);
        }
        if self.timers.len() >= self.capacity {
            return Err(ClockError::TimerCapacity);
        }
        let mut timers: Vec<Timer> = Vec::new();
        core::mem::swap(&mut timers, &mut self.timers);
        let ghost before = timers@;
        let timer = Timer { deadline, id };
        insert_by_rank(&mut timers, timer);
        proof {
            lemma_inserted_timer(before, timers@, timer);
        }
        self.timers = timers;
        Ok(())
    }

    pub fn cancel(&mut self, id: TimerId) -> (found: bool)
        ensures
            final(self).is_lawful(),
            found == has_timer(old(self).pending(), id),
            final(self).time() == old(self).time(),
            final(self).limit() == old(self).limit(),
            !found ==> final(self).pending() == old(self).pending(),
            found ==> exists|i: int|
                0 <= i < old(self).pending().len() && (#[trigger] old(self).pending()[i]).id == id
                    && final(self).pending() == old(self).pending().remove(i),
    {
        proof {
            use_type_invariant(&*self);
        }
        match self.position(id) {
            Some(position) => {
                let mut timers: Vec<Timer> = Vec::new();
                core::mem::swap(&mut timers, &mut self.timers);
                let ghost before = timers@;
                let _ = timers.remove(position);
                proof {
                    assert forall|i: int, j: int|
                        0 <= i < j < timers@.len() implies !rank_precedes(
                        #[trigger] timers@[j].rank(),
                        #[trigger] timers@[i].rank(),
                    ) by {
                        let a = if i < position {
                            i
                        } else {
                            i + 1
                        };
                        let b = if j < position {
                            j
                        } else {
                            j + 1
                        };
                        assert(timers@[i] == before[a]);
                        assert(timers@[j] == before[b]);
                    }
                    assert(before[position as int].id == id);
                }
                self.timers = timers;
                true
            },
            None => false,
        }
    }

    /// Moves logical time forward and hands out the timers that are due, in firing order.
    pub fn advance_to(&mut self, target: UnixNanos) -> (result: Result<Vec<TimerId>, ClockError>)
        ensures
            final(self).is_lawful(),
            final(self).limit() == old(self).limit(),
            target.nanos < old(self).time().nanos ==> {
                &&& result == Err::<Vec<TimerId>, ClockError>(
                    ClockError::Regression { current: old(self).time(), attempted: target },
                )
                &&& final(self).time() == old(self).time()
                &&& final(self).pending() == old(self).pending()
            },
            target.nanos >= old(self).time().nanos ==> {
                let due = due_count(old(self).pending(), target) as int;
                &&& result is Ok
                &&& final(self).time() == target
                &&& result->Ok_0@ == timer_ids(old(self).pending().take(due))
                &&& final(self).pending() == old(self).pending().skip(due)
            },
            moves(*old(self), *final(self), target, fired(result)),
    {
        proof {
            use_type_invariant(&*self);
        }
        if target.value() < self.now.value() {
            return Err(ClockError::Regression { current: self.now, attempted: target });
        }
        let mut timers: Vec<Timer> = Vec::new();
        core::mem::swap(&mut timers, &mut self.timers);
        let ghost all = timers@;
        let mut due: Vec<TimerId> = Vec::new();
        let mut count: usize = 0;
        proof {
            assert(all.skip(0) =~= all);
        }
        while count < timers.len() && timers[count].deadline.value() <= target.value()
            invariant
                timers@ == all,
                count <= all.len(),
                due@ =~= timer_ids(all.take(count as int)),
                due_count(all, target) == count + due_count(all.skip(count as int), target),
            decreases timers.len() - count,
        {
            due.push(timers[count].id);
            proof {
                assert(all.skip(count as int)[0] == all[count as int]);
                assert(all.skip(count as int).drop_first() =~= all.skip(count + 1));
            }
            count += 1;
        }
        proof {
            if count < all.len() {
                assert(all.skip(count as int)[0] == all[count as int]);
            }
            lemma_timers_after(all, count as int, target);
        }
        let rest = timers.split_off(count);
        proof {
            assert(rest@ =~= all.skip(count as int));
            lemma_sorted_rest(all, count as int);
        }
        self.now = target;
        self.timers = rest;
        Ok(due)
    }
}

/// The timers that were handed out, or why none were.
pub open spec fn fired(result: Result<Vec<TimerId>, ClockError>) -> Result<
    Seq<TimerId>,
    ClockError,
> {
    match result {
        Ok(ids) => Ok(ids@),
        Err(error) => Err(error),
    }
}

/// A clock is moved to a time: it hands out what is due, or stays where a move back is refused.
pub open spec fn moves(
    before: LogicalClock,
    after: LogicalClock,
    target: UnixNanos,
    outcome: Result<Seq<TimerId>, ClockError>,
) -> bool {
    if target.nanos < before.time().nanos {
        &&& outcome == Err::<Seq<TimerId>, ClockError>(
            ClockError::Regression { current: before.time(), attempted: target },
        )
        &&& after.time() == before.time()
        &&& after.pending() == before.pending()
    } else {
        let due = due_count(before.pending(), target) as int;
        &&& outcome == Ok::<Seq<TimerId>, ClockError>(timer_ids(before.pending().take(due)))
        &&& after.time() == target
        &&& after.pending() == before.pending().skip(due)
    }
}

/// A clock follows a timestamp. An event time that lies behind the clock leaves it where it is.
pub open spec fn follows(
    before: RecordedClock,
    after: RecordedClock,
    timestamp: RecordedTimestamp,
    outcome: Result<Seq<TimerId>, ClockError>,
) -> bool {
    let target = before.target(timestamp);
    if target.nanos < before.clock().time().nanos && before.driven_by() == ClockBasis::EventTime {
        &&& outcome == Ok::<Seq<TimerId>, ClockError>(Seq::empty())
        &&& after.clock().time() == before.clock().time()
        &&& after.clock().pending() == before.clock().pending()
    } else {
        moves(before.clock(), after.clock(), target, outcome)
    }
}

/// The identities of timers, in order.
pub open spec fn timer_ids(timers: Seq<Timer>) -> Seq<TimerId> {
    Seq::new(timers.len(), |i: int| timers[i].id)
}

proof fn lemma_inserted_timer(before: Seq<Timer>, after: Seq<Timer>, timer: Timer)
    requires
        after.to_multiset() == before.to_multiset().insert(timer),
        !has_timer(before, timer.id),
        forall|i: int, j: int|
            0 <= i < j < before.len() ==> (#[trigger] before[i]).id != (#[trigger] before[j]).id,
    ensures
        after.len() == before.len() + 1,
        forall|i: int|
            0 <= i < after.len() ==> (#[trigger] after[i]) == timer || before.contains(after[i]),
        forall|i: int, j: int|
            0 <= i < j < after.len() ==> (#[trigger] after[i]).id != (#[trigger] after[j]).id,
{
    before.to_multiset_ensures();
    after.to_multiset_ensures();
    assert forall|i: int| 0 <= i < after.len() implies (#[trigger] after[i]) == timer
        || before.contains(after[i]) by {
        assert(after.contains(after[i]));
        assert(after.to_multiset().count(after[i]) > 0);
    }
    assert forall|i: int, j: int| 0 <= i < j < after.len() implies (#[trigger] after[i]).id != (
    #[trigger] after[j]).id by {
        if after[i].id == after[j].id {
            if after[i] != after[j] {
                if after[i] == timer {
                    assert(before.contains(after[j]));
                } else if after[j] == timer {
                    assert(before.contains(after[i]));
                } else {
                    let a = before.index_of(after[i]);
                    let b = before.index_of(after[j]);
                    assert(before[a] == after[i] && before[b] == after[j]);
                    assert(a != b);
                }
            } else {
                lemma_two_occurrences(after, i, j);
                let x = after[i];
                if x == timer {
                    assert(before.to_multiset().count(x) > 0);
                    assert(before.contains(x));
                    assert(has_timer(before, timer.id));
                } else {
                    assert(before.to_multiset().count(x) >= 2);
                    lemma_distinct_count(before, x);
                }
            }
        }
    }
}

proof fn lemma_two_occurrences(timers: Seq<Timer>, i: int, j: int)
    requires
        0 <= i < j < timers.len(),
        timers[i] == timers[j],
    ensures
        timers.to_multiset().count(timers[i]) >= 2,
{
    let rest = timers.remove(i);
    vstd::seq_lib::to_multiset_remove(timers, i);
    rest.to_multiset_ensures();
    timers.to_multiset_ensures();
    let x = timers[i];
    assert(rest[j - 1] == x);
    assert(rest.contains(x));
    assert(rest.to_multiset().count(x) > 0);
    assert(timers.to_multiset().contains(x)) by {
        assert(timers.contains(x));
    }
    assert(rest.to_multiset().count(x) == timers.to_multiset().count(x) - 1);
}

proof fn lemma_distinct_count(timers: Seq<Timer>, x: Timer)
    requires
        forall|i: int, j: int|
            0 <= i < j < timers.len() ==> (#[trigger] timers[i]).id != (#[trigger] timers[j]).id,
    ensures
        timers.to_multiset().count(x) <= 1,
{
    assert(timers.no_duplicates()) by {
        assert forall|i: int, j: int|
            0 <= i < timers.len() && 0 <= j < timers.len() && i != j implies timers[i] != timers[j] by {
            if i < j {
                assert(timers[i].id != timers[j].id);
            } else {
                assert(timers[j].id != timers[i].id);
            }
        }
    }
    timers.lemma_multiset_has_no_duplicates();
    timers.to_multiset_ensures();
    if timers.to_multiset().count(x) > 0 {
        assert(timers.to_multiset().contains(x));
    }
}

proof fn lemma_sorted_rest(timers: Seq<Timer>, count: int)
    requires
        sorted_by_rank(timers),
        0 <= count <= timers.len(),
    ensures
        sorted_by_rank(timers.skip(count)),
{
    let rest = timers.skip(count);
    assert forall|i: int, j: int| 0 <= i < j < rest.len() implies !rank_precedes(
        #[trigger] rest[j].rank(),
        #[trigger] rest[i].rank(),
    ) by {
        assert(rest[i] == timers[i + count]);
        assert(rest[j] == timers[j + count]);
    }
}

/// Behind the first timer that is not due, none is.
proof fn lemma_timers_after(timers: Seq<Timer>, count: int, target: UnixNanos)
    requires
        sorted_by_rank(timers),
        0 <= count <= timers.len(),
        count < timers.len() ==> timers[count].deadline.nanos > target.nanos,
    ensures
        forall|i: int|
            count <= i < timers.len() ==> (#[trigger] timers[i]).deadline.nanos > target.nanos,
{
    reveal_with_fuel(rank_precedes, 2);
    assert forall|i: int| count <= i < timers.len() implies (#[trigger] timers[i]).deadline.nanos
        > target.nanos by {
        if i > count {
            assert(!rank_precedes(timers[i].rank(), timers[count].rank()));
            assert(timers[i].rank()[0] == timers[i].deadline.nanos as int);
            assert(timers[count].rank()[0] == timers[count].deadline.nanos as int);
        }
    }
}

/// Advancing hands out exactly the timers whose deadline has come: none early, none late, each
/// once.
pub proof fn lemma_due_timers_are_exactly_the_elapsed(timers: Seq<Timer>, target: UnixNanos)
    requires
        sorted_by_rank(timers),
    ensures
        due_count(timers, target) <= timers.len(),
        forall|i: int|
            0 <= i < timers.len() ==> ((#[trigger] timers[i]).deadline.nanos <= target.nanos <==> i
                < due_count(timers, target)),
    decreases timers.len(),
{
    if timers.len() > 0 {
        if timers[0].deadline.nanos > target.nanos {
            lemma_timers_after(timers, 0, target);
        } else {
            let rest = timers.drop_first();
            lemma_sorted_rest(timers, 1);
            assert(rest =~= timers.skip(1));
            lemma_due_timers_are_exactly_the_elapsed(rest, target);
            assert forall|i: int| 0 <= i < timers.len() implies ((
            #[trigger] timers[i]).deadline.nanos <= target.nanos <==> i < due_count(
                timers,
                target,
            )) by {
                if i > 0 {
                    assert(rest[i - 1] == timers[i]);
                }
            }
        }
    }
}

/// Advancing in two steps hands out the same timers, in the same order, as advancing in one.
pub proof fn lemma_advancing_in_two_steps(timers: Seq<Timer>, first: UnixNanos, second: UnixNanos)
    requires
        sorted_by_rank(timers),
        first.nanos <= second.nanos,
    ensures
        ({
            let early = due_count(timers, first) as int;
            let rest = timers.skip(early);
            let late = due_count(rest, second) as int;
            &&& timer_ids(timers.take(early)) + timer_ids(rest.take(late)) == timer_ids(
                timers.take(due_count(timers, second) as int),
            )
            &&& rest.skip(late) == timers.skip(due_count(timers, second) as int)
        }),
{
    lemma_due_timers_are_exactly_the_elapsed(timers, first);
    lemma_due_timers_are_exactly_the_elapsed(timers, second);
    let early = due_count(timers, first) as int;
    let rest = timers.skip(early);
    lemma_sorted_rest(timers, early);
    lemma_due_timers_are_exactly_the_elapsed(rest, second);
    let late = due_count(rest, second) as int;
    let total = due_count(timers, second) as int;
    assert(early <= total) by {
        if early > total {
            assert(timers[total].deadline.nanos <= first.nanos);
        }
    }
    assert(early + late == total) by {
        if early + late < total {
            assert(rest[late] == timers[early + late]);
        } else if early + late > total {
            assert(rest[total - early] == timers[total]);
        }
    }
    assert(timer_ids(timers.take(early)) + timer_ids(rest.take(late)) =~= timer_ids(
        timers.take(total),
    ));
    assert(rest.skip(late) =~= timers.skip(total));
}

/// The event and receive times under which an event was recorded.
#[derive(Clone, Copy, Debug, PartialEq, Eq, Structural)]
pub struct RecordedTimestamp {
    event_time: UnixNanos,
    receive_time: UnixNanos,
}

impl RecordedTimestamp {
    #[verifier::type_invariant]
    spec fn positive(self) -> bool {
        self.event_time.nanos > 0 && self.receive_time.nanos > 0
    }

    pub closed spec fn event(self) -> UnixNanos {
        self.event_time
    }

    pub closed spec fn receive(self) -> UnixNanos {
        self.receive_time
    }

    pub fn try_new(event_time: UnixNanos, receive_time: UnixNanos) -> (result: Result<
        Self,
        ClockError,
    >)
        ensures
            result is Ok <==> event_time.nanos > 0 && receive_time.nanos > 0,
            result is Ok ==> result->Ok_0.event() == event_time && result->Ok_0.receive()
                == receive_time,
            result is Err ==> result->Err_0 == ClockError::InvalidRecordedTimestamp,
    {
        if event_time.value() <= 0 || receive_time.value() <= 0 {
            return Err(ClockError::InvalidRecordedTimestamp);
        }
        Ok(RecordedTimestamp { event_time, receive_time })
    }

    pub fn event_time(self) -> (time: UnixNanos)
        ensures
            time == self.event(),
            time.nanos > 0,
    {
        proof {
            use_type_invariant(&self);
        }
        self.event_time
    }

    pub fn receive_time(self) -> (time: UnixNanos)
        ensures
            time == self.receive(),
            time.nanos > 0,
    {
        proof {
            use_type_invariant(&self);
        }
        self.receive_time
    }
}

/// Which recorded time drives a clock.
#[derive(Clone, Copy, Debug, PartialEq, Eq, Structural)]
pub enum ClockBasis {
    EventTime,
    ReceiveTime,
}

/// A logical clock that recorded timestamps drive.
#[derive(Debug)]
pub struct RecordedClock {
    logical: LogicalClock,
    basis: ClockBasis,
}

impl RecordedClock {
    pub closed spec fn clock(self) -> LogicalClock {
        self.logical
    }

    pub closed spec fn driven_by(self) -> ClockBasis {
        self.basis
    }

    /// The time to which a timestamp moves the clock.
    pub open spec fn target(self, timestamp: RecordedTimestamp) -> UnixNanos {
        match self.driven_by() {
            ClockBasis::EventTime => timestamp.event(),
            ClockBasis::ReceiveTime => timestamp.receive(),
        }
    }

    pub fn try_new(logical: LogicalClock, basis: ClockBasis) -> (clock: Self)
        ensures
            clock.clock() == logical,
            clock.driven_by() == basis,
    {
        RecordedClock { logical, basis }
    }

    pub fn schedule(&mut self, id: TimerId, deadline: UnixNanos) -> (result: Result<(), ClockError>)
        ensures
            final(self).driven_by() == old(self).driven_by(),
            final(self).clock().time() == old(self).clock().time(),
            final(self).clock().limit() == old(self).clock().limit(),
            match old(self).clock().schedule_refusal(id, deadline) {
                Some(error) => result == Err::<(), ClockError>(error)
                    && final(self).clock().pending() == old(self).clock().pending(),
                None => result == Ok::<(), ClockError>(()) && sorted_by_rank(
                    final(self).clock().pending(),
                ) && final(self).clock().pending().to_multiset()
                    == old(self).clock().pending().to_multiset().insert(Timer { deadline, id }),
            },
    {
        self.logical.schedule(id, deadline)
    }

    pub fn cancel(&mut self, id: TimerId) -> (found: bool)
        ensures
            found == has_timer(old(self).clock().pending(), id),
            final(self).driven_by() == old(self).driven_by(),
            final(self).clock().time() == old(self).clock().time(),
            final(self).clock().limit() == old(self).clock().limit(),
            !found ==> final(self).clock().pending() == old(self).clock().pending(),
            found ==> exists|i: int|
                0 <= i < old(self).clock().pending().len() && (#[trigger] old(
                    self,
                ).clock().pending()[i]).id == id && final(self).clock().pending() == old(
                    self,
                ).clock().pending().remove(i),
    {
        self.logical.cancel(id)
    }

    /// Moves the clock to the timestamp's own time. An event time that lies behind the clock
    /// leaves it where it is; a receive time that does is an error.
    pub fn advance(&mut self, timestamp: RecordedTimestamp) -> (result: Result<
        Vec<TimerId>,
        ClockError,
    >)
        ensures
            final(self).driven_by() == old(self).driven_by(),
            final(self).clock().limit() == old(self).clock().limit(),
            old(self).target(timestamp).nanos < old(self).clock().time().nanos ==> {
                &&& final(self).clock().time() == old(self).clock().time()
                &&& final(self).clock().pending() == old(self).clock().pending()
                &&& match old(self).driven_by() {
                    ClockBasis::EventTime => result is Ok && result->Ok_0@ == Seq::<
                        TimerId,
                    >::empty(),
                    ClockBasis::ReceiveTime => result == Err::<Vec<TimerId>, ClockError>(
                        ClockError::Regression {
                            current: old(self).clock().time(),
                            attempted: timestamp.receive(),
                        },
                    ),
                }
            },
            old(self).target(timestamp).nanos >= old(self).clock().time().nanos ==> {
                let target = old(self).target(timestamp);
                let due = due_count(old(self).clock().pending(), target) as int;
                &&& result is Ok
                &&& final(self).clock().time() == target
                &&& result->Ok_0@ == timer_ids(old(self).clock().pending().take(due))
                &&& final(self).clock().pending() == old(self).clock().pending().skip(due)
            },
            follows(*old(self), *final(self), timestamp, fired(result)),
    {
        match self.basis {
            ClockBasis::EventTime => {
                let target = timestamp.event_time();
                if target.value() < self.logical.now().value() {
                    Ok(Vec::new())
                } else {
                    self.logical.advance_to(target)
                }
            },
            ClockBasis::ReceiveTime => self.logical.advance_to(timestamp.receive_time()),
        }
    }

    pub fn now(&self) -> (now: UnixNanos)
        ensures
            now == self.clock().time(),
            now.nanos > 0,
    {
        self.logical.now()
    }
}

/// Why a clock refuses a request.
#[derive(Clone, Copy, Debug, PartialEq, Eq, Structural)]
pub enum ClockError {
    /// Timer ID must be nonzero.
    InvalidTimerId,
    /// Invalid logical clock configuration.
    InvalidClock,
    /// Recorded event and receive times must be positive.
    InvalidRecordedTimestamp,
    /// Timer ID is already scheduled.
    DuplicateTimer,
    /// Timer capacity reached.
    TimerCapacity,
    /// Timer deadline precedes the current logical time.
    DeadlineBeforeNow,
    /// Logical time regressed.
    Regression { current: UnixNanos, attempted: UnixNanos },
}

/// Cancelling a timer right after scheduling it leaves the pending timers as they were.
pub proof fn lemma_cancel_undoes_schedule(
    before: Seq<Timer>,
    scheduled: Seq<Timer>,
    timer: Timer,
    position: int,
)
    requires
        sorted_by_rank(before),
        forall|i: int, j: int|
            0 <= i < j < before.len() ==> (#[trigger] before[i]).id != (#[trigger] before[j]).id,
        !has_timer(before, timer.id),
        sorted_by_rank(scheduled),
        scheduled.to_multiset() == before.to_multiset().insert(timer),
        0 <= position < scheduled.len(),
        scheduled[position].id == timer.id,
    ensures
        scheduled.remove(position) == before,
{
    lemma_inserted_timer(before, scheduled, timer);
    let rest = scheduled.remove(position);
    assert(scheduled[position] == timer) by {
        if scheduled[position] != timer {
            assert(before.contains(scheduled[position]));
        }
    }
    vstd::seq_lib::to_multiset_remove(scheduled, position);
    assert(rest.to_multiset() =~= before.to_multiset());
    assert forall|i: int, j: int| 0 <= i < j < rest.len() implies !rank_precedes(
        #[trigger] rest[j].rank(),
        #[trigger] rest[i].rank(),
    ) by {
        let a = if i < position {
            i
        } else {
            i + 1
        };
        let b = if j < position {
            j
        } else {
            j + 1
        };
        assert(rest[i] == scheduled[a]);
        assert(rest[j] == scheduled[b]);
    }
    assert forall|i: int, j: int| 0 <= i < j < before.len() implies rank_precedes(
        #[trigger] before[i].rank(),
        #[trigger] before[j].rank(),
    ) by {
        lemma_rank_order_is_total(before[i].rank(), before[j].rank());
        assert(before[i].id != before[j].id);
        assert(before[i].rank()[1] != before[j].rank()[1]);
    }
    crate::ordering::lemma_sorted_arrangement_is_unique(before, rest);
}

/// Timers fire by their deadlines, the earliest first, and those of one deadline by their
/// identities.
pub proof fn lemma_timers_fire_by_deadline(timers: Seq<Timer>, i: int, j: int)
    requires
        sorted_by_rank(timers),
        0 <= i < j < timers.len(),
    ensures
        timers[i].deadline.nanos <= timers[j].deadline.nanos,
        timers[i].deadline == timers[j].deadline ==> timers[i].id.number()
            <= timers[j].id.number(),
{
    reveal_with_fuel(rank_precedes, 3);
    let (a, b) = (timers[j].rank(), timers[i].rank());
    assert(!rank_precedes(a, b));
    assert(a[0] == timers[j].deadline.nanos && b[0] == timers[i].deadline.nanos);
    assert(a.drop_first()[0] == timers[j].id.number());
    assert(b.drop_first()[0] == timers[i].id.number());
}

/// A clock that is moved stands at the time it was moved to, and never goes back. It hands out the
/// timers whose deadline has come, the earliest first, and keeps all others.
pub proof fn lemma_clocks_hand_out_what_is_due(
    before: LogicalClock,
    after: LogicalClock,
    target: UnixNanos,
    outcome: Result<Seq<TimerId>, ClockError>,
)
    requires
        before.is_lawful(),
        moves(before, after, target, outcome),
    ensures
        after.time().nanos >= before.time().nanos,
        outcome is Ok <==> target.nanos >= before.time().nanos,
        outcome is Ok ==> after.time() == target,
        outcome is Err ==> after.pending() == before.pending() && after.time() == before.time(),
        outcome is Ok ==> {
            let count = outcome->Ok_0.len() as int;
            &&& count <= before.pending().len()
            &&& after.pending() == before.pending().skip(count)
            &&& forall|i: int|
                #![trigger before.pending()[i]]
                0 <= i < before.pending().len() ==> (before.pending()[i].deadline.nanos
                    <= target.nanos <==> i < count) && (i < count ==> outcome->Ok_0[i]
                    == before.pending()[i].id)
        },
{
    lemma_due_timers_are_exactly_the_elapsed(before.pending(), target);
}

/// A recorded clock is driven by the event times or by the receive times of what was recorded, as it
/// was set up. It never goes back: an event time that lies behind it is passed over, and a receive
/// time that does is refused.
pub proof fn lemma_recorded_clocks_follow_their_basis(
    before: RecordedClock,
    after: RecordedClock,
    timestamp: RecordedTimestamp,
    outcome: Result<Seq<TimerId>, ClockError>,
)
    requires
        before.clock().is_lawful(),
        follows(before, after, timestamp, outcome),
    ensures
        after.clock().time().nanos >= before.clock().time().nanos,
        before.driven_by() == ClockBasis::EventTime ==> {
            &&& outcome is Ok
            &&& after.clock().time().nanos == if timestamp.event().nanos
                > before.clock().time().nanos {
                timestamp.event().nanos
            } else {
                before.clock().time().nanos
            }
        },
        before.driven_by() == ClockBasis::ReceiveTime ==> {
            &&& outcome is Ok <==> timestamp.receive().nanos >= before.clock().time().nanos
            &&& outcome is Ok ==> after.clock().time() == timestamp.receive()
        },
{
}

/// A timer is scheduled just where its deadline has not passed, no pending timer has its identity,
/// and there is room for it.
pub proof fn lemma_timers_are_scheduled_ahead_of_time(
    clock: LogicalClock,
    id: TimerId,
    deadline: UnixNanos,
)
    ensures
        clock.schedule_refusal(id, deadline) is None <==> {
            &&& deadline.nanos >= clock.time().nanos
            &&& forall|i: int|
                0 <= i < clock.pending().len() ==> (#[trigger] clock.pending()[i]).id != id
            &&& clock.pending().len() < clock.limit()
        },
        deadline.nanos < clock.time().nanos ==> clock.schedule_refusal(id, deadline) == Some(
            ClockError::DeadlineBeforeNow,
        ),
{
}

} // verus!
