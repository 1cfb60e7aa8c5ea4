//! A single-threaded queue of delayed events.
//!
//! Events without a trigger time are due at once and come out before every
//! timed event, in the order they were scheduled; timed events come out by
//! trigger time, and among equal trigger times in the order they were
//! scheduled. A clear is deferred: it empties the queue when the next round
//! of processing begins, so events scheduled in between are dropped too.
//!
//! A round of processing is driven from outside: call
//! [`Scheduler::begin_processing`], then [`Scheduler::pop_due`] until it
//! returns `None`, handing each event to the handler and scheduling what the
//! handler returns.

use vstd::prelude::*;

verus! {

/// An event and the time at which it falls due (`None`: at once).
pub struct ScheduledEvent<E> {
    pub trigger_time: Option<u64>,
    pub event: E,
}

/// Does `a` come out strictly before `b`?
pub open spec fn sorts_before(a: Option<u64>, b: Option<u64>) -> bool {
    match (a, b) {
        (None, Some(_)) => true,
        (Some(x), Some(y)) => x < y,
        _ => false,
    }
}

/// Is position `i` the next to come out of `q`: nothing before it sorts
/// before it or with it, and nothing after it sorts before it?
pub open spec fn is_earliest<E>(q: Seq<ScheduledEvent<E>>, i: int) -> bool {
    &&& 0 <= i < q.len()
    &&& forall|j: int| 0 <= j < i ==> sorts_before(q[i].trigger_time, #[trigger] q[j].trigger_time)
    &&& forall|j: int|
        i < j < q.len() ==> !sorts_before(#[trigger] q[j].trigger_time, q[i].trigger_time)
}

/// Is an event with this trigger time due at `now`?
pub open spec fn is_due(t: Option<u64>, now: u64) -> bool {
    match t {
        None => true,
        Some(x) => x <= now,
    }
}

/// Trigger time of an event scheduled at `now` with an optional delay; a
/// time past the end of `u64` is held at its largest value.
pub open spec fn trigger_for(now: u64, delay: Option<u64>) -> Option<u64> {
    match delay {
        None => None,
        Some(d) => Some(
            if now + d <= u64::MAX {
                (now + d) as u64
            } else {
                u64::MAX
            },
        ),
    }
}

impl<E> ScheduledEvent<E> {
    /// Does this event come out strictly before `other` (see [`sorts_before`])?
    pub fn comes_before(&self, other: &ScheduledEvent<E>) -> (r: bool)
        ensures
            r == sorts_before(self.trigger_time, other.trigger_time),
    {
        match (self.trigger_time, other.trigger_time) {
            (None, Some(_)) => true,
            (Some(x), Some(y)) => x < y,
            _ => false,
        }
    }
}

/// What a scheduler holds.
pub struct SchedulerModel<E> {
    pub queue: Seq<ScheduledEvent<E>>,
    pub clear_pending: bool,
}

pub struct Scheduler<E> {
    queue: Vec<ScheduledEvent<E>>,
    clear_on_next: bool,
}

impl<E> View for Scheduler<E> {
    type V = SchedulerModel<E>;

    closed spec fn view(&self) -> SchedulerModel<E> {
        SchedulerModel { queue: self.queue@, clear_pending: self.clear_on_next }
    }
}

/// The scheduler after `event` is scheduled at `now` with `delay`.
pub open spec fn after_schedule<E>(
    m: SchedulerModel<E>,
    event: E,
    delay: Option<u64>,
    now: u64,
) -> SchedulerModel<E> {
    SchedulerModel {
        queue: m.queue.push(ScheduledEvent { trigger_time: trigger_for(now, delay), event }),
        ..m
    }
}

/// The scheduler after a clear is asked for.
pub open spec fn after_clear<E>(m: SchedulerModel<E>) -> SchedulerModel<E> {
    SchedulerModel { clear_pending: true, ..m }
}

/// The scheduler when a round of processing begins.
pub open spec fn after_begin<E>(m: SchedulerModel<E>) -> SchedulerModel<E> {
    if m.clear_pending {
        SchedulerModel { queue: Seq::empty(), clear_pending: false }
    } else {
        m
    }
}

impl<E> Scheduler<E> {
    pub fn new() -> (r: Scheduler<E>)
        ensures
            r@.queue.len() == 0,
            !r@.clear_pending,
    {
        Scheduler { queue: Vec::new(), clear_on_next: false }
    }

    /// Queue `event`, due after `delay` from `now`, or at once without one.
    pub fn schedule(&mut self, event: E, delay: Option<u64>, now: u64)
        ensures
            final(self)@ == after_schedule(old(self)@, event, delay, now),
    {
        let trigger_time = match delay {
            None => None,
            Some(d) => Some(now.saturating_add(d)),
        };
        self.queue.push(ScheduledEvent { trigger_time, event });
    }

    /// Ask for every pending event to be dropped when the next round of
    /// processing begins.
    pub fn clear(&mut self)
        ensures
            final(self)@ == after_clear(old(self)@),
    {
        self.clear_on_next = true;
    }

    /// Start a round of processing: carry out a pending clear.
    pub fn begin_processing(&mut self)
        ensures
            final(self)@ == after_begin(old(self)@),
    {
        if self.clear_on_next {
            self.queue.clear();
            self.clear_on_next = false;
        }
        proof {
            assert(self@.queue =~= after_begin(old(self)@).queue);
        }
    }

    /// Number of events waiting.
    pub fn len(&self) -> (r: usize)
        ensures
            r == self@.queue.len(),
    {
        self.queue.len()
    }

    /// Take out the next event if it is due at `now`: the earliest one (see
    /// [`is_earliest`]), when it has no trigger time or its time is not after
    /// `now`. `None` when the queue is empty or its next event lies in the
    /// future.
    pub fn pop_due(&mut self, now: u64) -> (r: Option<E>)
        ensures
            final(self)@.clear_pending == old(self)@.clear_pending,
            match r {
                Some(e) => exists|i: int|
                    is_earliest(old(self)@.queue, i) && is_due(old(self)@.queue[i].trigger_time, now)
                        && e == old(self)@.queue[i].event && final(self)@.queue == old(
                        self,
                    )@.queue.remove(i),
                None => final(self)@.queue == old(self)@.queue && forall|i: int|
                    is_earliest(old(self)@.queue, i) ==> !is_due(
                        old(self)@.queue[i].trigger_time,
                        now,
                    ),
            },
    {
        let n = self.queue.len();
        if n == 0 {
            return None;
        }
        let mut best: usize = 0;
        let mut k: usize = 1;
        while k < n
            invariant
                n == self.queue@.len(),
                best < k <= n,
                forall|j: int|
                    0 <= j < best ==> sorts_before(
                        self.queue@[best as int].trigger_time,
                        #[trigger] self.queue@[j].trigger_time,
                    ),
                forall|j: int|
                    best < j < k ==> !sorts_before(
                        #[trigger] self.queue@[j].trigger_time,
                        self.queue@[best as int].trigger_time,
                    ),
            decreases n - k,
        {
            if self.queue[k].comes_before(&self.queue[best]) {
                best = k;
            }
            k += 1;
        }
        assert(is_earliest(self.queue@, best as int));
        let due = match self.queue[best].trigger_time {
            None => true,
            Some(t) => t <= now,
        };
        if due {
            let ev = self.queue.remove(best);
            Some(ev.event)
        } else {
            proof {
                lemma_earliest_unique(self.queue@, best as int);
            }
            None
        }
    }
}

/// At most one position is the next to come out.
pub proof fn lemma_earliest_unique<E>(q: Seq<ScheduledEvent<E>>, i: int)
    requires
        is_earliest(q, i),
    ensures
        forall|k: int| is_earliest(q, k) ==> k == i,
{
    assert forall|k: int| is_earliest(q, k) implies k == i by {
        if k < i {
            assert(sorts_before(q[i].trigger_time, q[k].trigger_time));
        } else if k > i {
            assert(sorts_before(q[k].trigger_time, q[i].trigger_time));
        }
    }
}

/// The scheduler after each `(event, delay)` of `evs` is scheduled at `now`,
/// in order.
pub open spec fn after_schedules<E>(
    m: SchedulerModel<E>,
    evs: Seq<(E, Option<u64>)>,
    now: u64,
) -> SchedulerModel<E>
    decreases evs.len(),
{
    if evs.len() == 0 {
        m
    } else {
        let last = evs.last();
        after_schedule(after_schedules(m, evs.drop_last(), now), last.0, last.1, now)
    }
}

proof fn lemma_schedules_keep_clear<E>(m: SchedulerModel<E>, evs: Seq<(E, Option<u64>)>, now: u64)
    ensures
        after_schedules(m, evs, now).clear_pending == m.clear_pending,
    decreases evs.len(),
{
    if evs.len() > 0 {
        lemma_schedules_keep_clear(m, evs.drop_last(), now);
    }
}

/// A clear drops everything that is pending when the next round of
/// processing begins, including whatever was scheduled between the clear
/// and that round.
pub proof fn lemma_clear_discards_all<E>(
    m: SchedulerModel<E>,
    evs: Seq<(E, Option<u64>)>,
    now: u64,
)
    ensures
        after_begin(after_schedules(after_clear(m), evs, now)).queue.len() == 0,
        !after_begin(after_schedules(after_clear(m), evs, now)).clear_pending,
{
    lemma_schedules_keep_clear(after_clear(m), evs, now);
}

/// Events without a trigger time come out before every timed event, in the
/// order they were scheduled: the next event to come out is the first
/// untimed one, whenever there is one.
pub proof fn lemma_untimed_first_in_order<E>(q: Seq<ScheduledEvent<E>>, i: int)
    requires
        0 <= i < q.len(),
        q[i].trigger_time is None,
        forall|j: int| 0 <= j < i ==> (#[trigger] q[j].trigger_time) is Some,
    ensures
        is_earliest(q, i),
{
}

/// A timed event comes out only once no untimed event is waiting and no
/// event with an earlier trigger time is waiting.
pub proof fn lemma_timed_after_earlier<E>(q: Seq<ScheduledEvent<E>>, i: int)
    requires
        is_earliest(q, i),
        q[i].trigger_time is Some,
    ensures
        forall|j: int|
            0 <= j < q.len() ==> ((#[trigger] q[j].trigger_time) is Some && q[j].trigger_time->0
                >= q[i].trigger_time->0),
{
    assert forall|j: int| 0 <= j < q.len() implies ((#[trigger] q[j].trigger_time) is Some
        && q[j].trigger_time->0 >= q[i].trigger_time->0) by {
        if j < i {
            assert(sorts_before(q[i].trigger_time, q[j].trigger_time));
        } else if j > i {
            assert(!sorts_before(q[j].trigger_time, q[i].trigger_time));
        }
    }
}

} // verus!
