//! The timer wheel and the suspensions built on it.
//!
//! An instant is a number of nanoseconds since an origin that the caller
//! fixes once; a duration is a number of nanoseconds. The wheel keeps its
//! entries in firing order: by deadline, and among equal deadlines by id.

use crate::task::Poll;
use vstd::prelude::*;

verus! {

/// The period, in nanoseconds, at which the wheel's driver looks for expired
/// entries.
pub const DRIVER_PERIOD_NANOS: u64 = 1_000_000;

/// One pending wakeup.
pub struct Timer<W> {
    /// The entry's number, which breaks ties between equal deadlines.
    pub id: u64,
    /// The instant from which the entry is due.
    pub deadline: u64,
    /// What to invoke when the entry fires.
    pub waker: W,
}

/// Whether an entry with the first deadline and id fires no later than one
/// with the second: the order by deadline, then by id.
pub open spec fn fires_no_later(a_deadline: u64, a_id: u64, b_deadline: u64, b_id: u64) -> bool {
    a_deadline < b_deadline || (a_deadline == b_deadline && a_id <= b_id)
}

/// Whether `timers` stands in firing order.
pub open spec fn in_firing_order<W>(timers: Seq<Timer<W>>) -> bool {
    forall|i: int, j: int|
        0 <= i < j < timers.len() ==> fires_no_later(
            #[trigger] timers[i].deadline,
            timers[i].id,
            #[trigger] timers[j].deadline,
            timers[j].id,
        )
}

/// The place of a new entry among `timers`: behind every entry that fires no
/// later than it, so that entries with one deadline and one id keep the order
/// in which they came.
pub open spec fn slot_for<W>(timers: Seq<Timer<W>>, deadline: u64, id: u64) -> int
    decreases timers.len(),
{
    if timers.len() == 0 {
        0
    } else if fires_no_later(timers.last().deadline, timers.last().id, deadline, id) {
        timers.len() as int
    } else {
        slot_for(timers.drop_last(), deadline, id)
    }
}

/// How many entries at the front of `timers` are due at `now`.
pub open spec fn due_count<W>(timers: Seq<Timer<W>>, now: u64) -> int
    decreases timers.len(),
{
    if timers.len() == 0 || timers.first().deadline > now {
        0
    } else {
        1 + due_count(timers.drop_first(), now)
    }
}

/// What a wheel holds: its entries in firing order and the next id.
pub ghost struct Wheel<W> {
    pub timers: Seq<Timer<W>>,
    pub next_id: u64,
}

impl<W> Wheel<W> {
    /// The id after `next_id`; it wraps at the machine's limit.
    pub open spec fn id_after(self) -> u64 {
        if self.next_id == u64::MAX {
            0
        } else {
            (self.next_id + 1) as u64
        }
    }

    /// The wheel after a wakeup for `deadline` was added under the next id.
    pub open spec fn add(self, deadline: u64, waker: W) -> Wheel<W> {
        Wheel {
            timers: self.timers.insert(
                slot_for(self.timers, deadline, self.next_id),
                Timer { id: self.next_id, deadline, waker },
            ),
            next_id: self.id_after(),
        }
    }

    /// The entries that fire at `now`, in firing order.
    pub open spec fn due(self, now: u64) -> Seq<Timer<W>> {
        self.timers.take(due_count(self.timers, now))
    }

    /// The wheel after the entries due at `now` have left it.
    pub open spec fn after_firing(self, now: u64) -> Wheel<W> {
        Wheel { timers: self.timers.skip(due_count(self.timers, now)), next_id: self.next_id }
    }
}

/// `slot_for` splits the entries in two: before it none fires later than the
/// new entry, from it on every one does.
pub proof fn lemma_slot_for<W>(timers: Seq<Timer<W>>, deadline: u64, id: u64)
    requires
        in_firing_order(timers),
    ensures
        0 <= slot_for(timers, deadline, id) <= timers.len(),
        forall|i: int|
            0 <= i < slot_for(timers, deadline, id) ==> fires_no_later(
                (#[trigger] timers[i]).deadline,
                timers[i].id,
                deadline,
                id,
            ),
        forall|i: int|
            slot_for(timers, deadline, id) <= i < timers.len() ==> !fires_no_later(
                (#[trigger] timers[i]).deadline,
                timers[i].id,
                deadline,
                id,
            ),
    decreases timers.len(),
{
    if timers.len() > 0 && !fires_no_later(timers.last().deadline, timers.last().id, deadline, id) {
        let rest = timers.drop_last();
        assert(in_firing_order(rest));
        lemma_slot_for(rest, deadline, id);
        assert forall|i: int| 0 <= i < slot_for(timers, deadline, id) implies fires_no_later(
            (#[trigger] timers[i]).deadline,
            timers[i].id,
            deadline,
            id,
        ) by {
            assert(timers[i] == rest[i]);
        }
        assert forall|i: int|
            slot_for(timers, deadline, id) <= i < timers.len() implies !fires_no_later(
            (#[trigger] timers[i]).deadline,
            timers[i].id,
            deadline,
            id,
        ) by {
            if i < rest.len() {
                assert(timers[i] == rest[i]);
            }
        }
    }
}

/// Adding an entry keeps the firing order.
pub proof fn lemma_add_keeps_order<W>(wheel: Wheel<W>, deadline: u64, waker: W)
    requires
        in_firing_order(wheel.timers),
    ensures
        in_firing_order(wheel.add(deadline, waker).timers),
        wheel.add(deadline, waker).timers.len() == wheel.timers.len() + 1,
{
    lemma_slot_for(wheel.timers, deadline, wheel.next_id);
}

/// In a wheel in firing order, the entries that `due_count` counts are all
/// the entries whose deadline has come, and no others.
pub proof fn lemma_due_count<W>(timers: Seq<Timer<W>>, now: u64)
    requires
        in_firing_order(timers),
    ensures
        0 <= due_count(timers, now) <= timers.len(),
        forall|i: int| 0 <= i < due_count(timers, now) ==> (#[trigger] timers[i]).deadline <= now,
        forall|i: int|
            due_count(timers, now) <= i < timers.len() ==> (#[trigger] timers[i]).deadline > now,
    decreases timers.len(),
{
    if timers.len() > 0 && timers.first().deadline <= now {
        let rest = timers.drop_first();
        assert(in_firing_order(rest));
        lemma_due_count(rest, now);
        assert forall|i: int| 0 <= i < due_count(timers, now) implies (
        #[trigger] timers[i]).deadline <= now by {
            if i > 0 {
                assert(timers[i] == rest[i - 1]);
            }
        }
        assert forall|i: int| due_count(timers, now) <= i < timers.len() implies (
        #[trigger] timers[i]).deadline > now by {
            assert(timers[i] == rest[i - 1]);
        }
    }
}

/// A wakeup fires exactly when its deadline has come: at `now` the entries
/// that leave a wheel in firing order are those with a deadline of `now` or
/// earlier, and an entry with a later deadline stays.
pub proof fn lemma_fires_when_due<W>(wheel: Wheel<W>, now: u64, i: int)
    requires
        in_firing_order(wheel.timers),
        0 <= i < wheel.timers.len(),
    ensures
        wheel.timers[i].deadline <= now <==> i < wheel.due(now).len(),
        wheel.timers[i].deadline <= now ==> wheel.due(now)[i] == wheel.timers[i],
        wheel.timers[i].deadline > now ==> wheel.after_firing(now).timers[i - wheel.due(
            now,
        ).len()] == wheel.timers[i],
{
    lemma_due_count(wheel.timers, now);
}

/// The overshoot is bounded by the driver's pace: an entry that was not yet
/// due when the driver looked at `prev` and is due when it looks at `now`
/// fires at `now`, later than its deadline by less than the time between the
/// two looks.
pub proof fn lemma_overshoot_bounded<W>(wheel: Wheel<W>, prev: u64, now: u64, i: int)
    requires
        in_firing_order(wheel.timers),
        0 <= i < wheel.timers.len(),
        prev < wheel.timers[i].deadline <= now,
    ensures
        i >= wheel.due(prev).len(),
        i < wheel.due(now).len(),
        wheel.due(now)[i] == wheel.timers[i],
        now - wheel.timers[i].deadline < now - prev,
{
    lemma_due_count(wheel.timers, prev);
    lemma_due_count(wheel.timers, now);
}

/// The deadline-ordered set of pending wakeups.
pub struct TimerWheel<W> {
    timers: Vec<Timer<W>>,
    next_id: u64,
}

impl<W> View for TimerWheel<W> {
    type V = Wheel<W>;

    closed spec fn view(&self) -> Wheel<W> {
        Wheel { timers: self.timers@, next_id: self.next_id }
    }
}

impl<W> TimerWheel<W> {
    /// The entries stand in firing order.
    pub open spec fn wf(&self) -> bool {
        in_firing_order(self@.timers)
    }

    /// An empty wheel whose first id is 1.
    pub fn new() -> (wheel: Self)
        ensures
            wheel.wf(),
            wheel@.timers == Seq::<Timer<W>>::empty(),
            wheel@.next_id == 1,
    {
        TimerWheel { timers: Vec::new(), next_id: 1 }
    }

    /// The number of pending wakeups.
    pub fn len(&self) -> (n: usize)
        ensures
            n == self@.timers.len(),
    {
        self.timers.len()
    }

    /// Adds a wakeup for `deadline` and returns its id. The entry takes its
    /// place in firing order, behind the entries already there that fire no
    /// later.
    pub fn add_timer(&mut self, deadline: u64, waker: W) -> (id: u64)
        requires
            old(self).wf(),
        ensures
            final(self).wf(),
            id == old(self)@.next_id,
            final(self)@ == old(self)@.add(deadline, waker),
    {
        let id = self.next_id;
        self.next_id = self.next_id.wrapping_add(1);
        let ghost pre = self.timers@;
        let mut p: usize = self.timers.len();
        assert(pre.take(p as int) =~= pre);
        while p > 0 && !no_later(self.timers[p - 1].deadline, self.timers[p - 1].id, deadline, id)
            invariant
                p <= pre.len(),
                self.timers@ == pre,
                slot_for(pre, deadline, id) == slot_for(pre.take(p as int), deadline, id),
            decreases p,
        {
            assert(pre.take(p as int).drop_last() =~= pre.take(p - 1));
            p -= 1;
        }
        proof {
            lemma_add_keeps_order(old(self)@, deadline, waker);
        }
        self.timers.insert(p, Timer { id, deadline, waker });
        id
    }

    /// Takes out every entry that is due at `now` and returns them in firing
    /// order; every entry with a later deadline stays.
    pub fn pop_expired(&mut self, now: u64) -> (fired: Vec<Timer<W>>)
        requires
            old(self).wf(),
        ensures
            final(self).wf(),
            fired@ == old(self)@.due(now),
            final(self)@ == old(self)@.after_firing(now),
            forall|i: int| 0 <= i < fired@.len() ==> (#[trigger] fired@[i]).deadline <= now,
            forall|i: int|
                0 <= i < final(self)@.timers.len() ==> (#[trigger] final(self)@.timers[i]).deadline
                    > now,
            fired@ + final(self)@.timers == old(self)@.timers,
    {
        let ghost pre = self.timers@;
        let n = self.timers.len();
        let mut k: usize = 0;
        assert(pre.skip(0) =~= pre);
        while k < n && self.timers[k].deadline <= now
            invariant
                k <= n,
                n == pre.len(),
                self.timers@ == pre,
                due_count(pre, now) == k + due_count(pre.skip(k as int), now),
            decreases n - k,
        {
            assert(pre.skip(k as int).drop_first() =~= pre.skip(k + 1));
            k += 1;
        }
        proof {
            lemma_due_count(pre, now);
        }
        let mut fired = self.timers.split_off(k);
        std::mem::swap(&mut self.timers, &mut fired);
        fired
    }
}

/// Whether an entry with the first deadline and id fires no later than one
/// with the second.
pub fn no_later(a_deadline: u64, a_id: u64, b_deadline: u64, b_id: u64) -> (b: bool)
    ensures
        b == fires_no_later(a_deadline, a_id, b_deadline, b_id),
{
    a_deadline < b_deadline || (a_deadline == b_deadline && a_id <= b_id)
}

/// A suspension registers with the wheel once: the first time it is found
/// not yet due. The pair is the suspension's timer id and the wheel, after a
/// poll that found the deadline ahead.
pub open spec fn register_once<W>(
    timer_id: Option<u64>,
    wheel: Wheel<W>,
    deadline: u64,
    waker: W,
) -> (Option<u64>, Wheel<W>) {
    if timer_id is Some {
        (timer_id, wheel)
    } else {
        (Some(wheel.next_id), wheel.add(deadline, waker))
    }
}

/// Polls a suspension that ends at `deadline`: ready from the deadline on,
/// pending before it, and registered with the wheel by its first pending
/// poll.
pub fn poll_deadline<W>(
    deadline: u64,
    timer_id: &mut Option<u64>,
    now: u64,
    wheel: &mut TimerWheel<W>,
    waker: W,
) -> (r: Poll<()>)
    requires
        old(wheel).wf(),
    ensures
        final(wheel).wf(),
        r == Poll::Ready(()) <==> now >= deadline,
        r == Poll::<()>::Pending <==> now < deadline,
        now >= deadline ==> *final(timer_id) == *old(timer_id) && final(wheel)@ == old(wheel)@,
        now < deadline ==> (*final(timer_id), final(wheel)@) == register_once(
            *old(timer_id),
            old(wheel)@,
            deadline,
            waker,
        ),
{
    if now >= deadline {
        return Poll::Ready(());
    }
    if timer_id.is_none() {
        let id = wheel.add_timer(deadline, waker);
        *timer_id = Some(id);
    }
    Poll::Pending
}

/// A suspension for a duration, counted from the instant it was made.
pub struct SleepFuture {
    deadline: u64,
    timer_id: Option<u64>,
}

impl SleepFuture {
    /// The instant from which the sleep is over.
    pub closed spec fn deadline(&self) -> u64 {
        self.deadline
    }

    /// The id under which the sleep stands in the wheel, once it does.
    pub closed spec fn timer_id(&self) -> Option<u64> {
        self.timer_id
    }

    /// A sleep of `duration` that starts at `now`.
    pub fn new(now: u64, duration: u64) -> (s: Self)
        requires
            now + duration <= u64::MAX,
        ensures
            s.deadline() == now + duration,
            s.timer_id() is None,
    {
        SleepFuture { deadline: now + duration, timer_id: None }
    }

    /// Polls the sleep at `now`. It is ready exactly when the duration has
    /// passed; before that it stays pending, and its first pending poll puts
    /// `waker` into the wheel.
    pub fn poll<W>(&mut self, now: u64, wheel: &mut TimerWheel<W>, waker: W) -> (r: Poll<()>)
        requires
            old(wheel).wf(),
        ensures
            final(wheel).wf(),
            final(self).deadline() == old(self).deadline(),
            r == Poll::Ready(()) <==> now >= old(self).deadline(),
            r == Poll::<()>::Pending <==> now < old(self).deadline(),
            now >= old(self).deadline() ==> final(self).timer_id() == old(self).timer_id()
                && final(wheel)@ == old(wheel)@,
            now < old(self).deadline() ==> (final(self).timer_id(), final(wheel)@)
                == register_once(old(self).timer_id(), old(wheel)@, old(self).deadline(), waker),
    {
        poll_deadline(self.deadline, &mut self.timer_id, now, wheel, waker)
    }
}

/// A suspension until a given instant.
pub struct SleepUntilFuture {
    deadline: u64,
    timer_id: Option<u64>,
}

impl SleepUntilFuture {
    /// The instant from which the sleep is over.
    pub closed spec fn deadline(&self) -> u64 {
        self.deadline
    }

    /// The id under which the sleep stands in the wheel, once it does.
    pub closed spec fn timer_id(&self) -> Option<u64> {
        self.timer_id
    }

    /// A sleep that lasts until `deadline`.
    pub fn new(deadline: u64) -> (s: Self)
        ensures
            s.deadline() == deadline,
            s.timer_id() is None,
    {
        SleepUntilFuture { deadline, timer_id: None }
    }

    /// Polls the sleep at `now`. It is ready exactly when the instant has
    /// come; before that it stays pending, and its first pending poll puts
    /// `waker` into the wheel.
    pub fn poll<W>(&mut self, now: u64, wheel: &mut TimerWheel<W>, waker: W) -> (r: Poll<()>)
        requires
            old(wheel).wf(),
        ensures
            final(wheel).wf(),
            final(self).deadline() == old(self).deadline(),
            r == Poll::Ready(()) <==> now >= old(self).deadline(),
            r == Poll::<()>::Pending <==> now < old(self).deadline(),
            now >= old(self).deadline() ==> final(self).timer_id() == old(self).timer_id()
                && final(wheel)@ == old(wheel)@,
            now < old(self).deadline() ==> (final(self).timer_id(), final(wheel)@)
                == register_once(old(self).timer_id(), old(wheel)@, old(self).deadline(), waker),
    {
        poll_deadline(self.deadline, &mut self.timer_id, now, wheel, waker)
    }
}

/// The failure of an operation that did not finish before its deadline.
#[derive(Debug, Clone, Copy, PartialEq, Eq, Structural)]
pub struct TimeoutError;

impl TimeoutError {
    /// The failure as it is shown to a reader.
    pub fn to_text(&self) -> (s: String)
        ensures
            s@ == "operation timed out"@,
    {
        "operation timed out".to_owned()
    }
}

/// The race of an operation against a deadline. The operation itself stays
/// with the caller, who polls it first and hands over what it yielded.
pub struct TimeoutFuture {
    deadline: u64,
    timer_id: Option<u64>,
}

impl TimeoutFuture {
    /// The instant from which the operation counts as late.
    pub closed spec fn deadline(&self) -> u64 {
        self.deadline
    }

    /// The id under which the deadline stands in the wheel, once it does.
    pub closed spec fn timer_id(&self) -> Option<u64> {
        self.timer_id
    }

    /// A race that the operation loses `duration` after `now`.
    pub fn new(now: u64, duration: u64) -> (t: Self)
        requires
            now + duration <= u64::MAX,
        ensures
            t.deadline() == now + duration,
            t.timer_id() is None,
    {
        TimeoutFuture { deadline: now + duration, timer_id: None }
    }

    /// Decides one poll of the race at `now`, given what the operation
    /// yielded when it was polled just before. From the deadline on the
    /// operation has lost: the race ends with a timeout, and a value that the
    /// operation yields only then is dropped. Before the deadline a finished
    /// operation wins with its value, and an unfinished one leaves the race
    /// pending; the first pending poll puts `waker` into the wheel. The entry
    /// of a race that the operation wins is not taken back: it fires later
    /// and wakes nothing that still waits.
    pub fn poll<T, W>(&mut self, inner: Poll<T>, now: u64, wheel: &mut TimerWheel<W>, waker: W) -> (r:
        Poll<Result<T, TimeoutError>>)
        requires
            old(wheel).wf(),
        ensures
            final(wheel).wf(),
            final(self).deadline() == old(self).deadline(),
            r == timeout_outcome(inner, now, old(self).deadline()),
            r is Pending ==> (final(self).timer_id(), final(wheel)@) == register_once(
                old(self).timer_id(),
                old(wheel)@,
                old(self).deadline(),
                waker,
            ),
            !(r is Pending) ==> final(self).timer_id() == old(self).timer_id() && final(wheel)@
                == old(wheel)@,
    {
        if now >= self.deadline {
            return Poll::Ready(Err(TimeoutError));
        }
        match inner {
            Poll::Ready(output) => Poll::Ready(Ok(output)),
            Poll::Pending => {
                poll_deadline(self.deadline, &mut self.timer_id, now, wheel, waker);
                Poll::Pending
            },
        }
    }
}

/// What a race yields at `now`: a timeout from the deadline on, whatever the
/// operation has yielded; before the deadline the operation's value if it
/// has one, and nothing yet otherwise.
pub open spec fn timeout_outcome<T>(inner: Poll<T>, now: u64, deadline: u64) -> Poll<
    Result<T, TimeoutError>,
> {
    if now >= deadline {
        Poll::Ready(Err(TimeoutError))
    } else {
        match inner {
            Poll::Ready(output) => Poll::Ready(Ok(output)),
            Poll::Pending => Poll::Pending,
        }
    }
}

/// The race is decided by the deadline alone: it ends with a value only
/// before the deadline, and from the deadline on it ends with a timeout.
pub proof fn lemma_timeout_decided_by_deadline<T>(inner: Poll<T>, now: u64, deadline: u64)
    ensures
        timeout_outcome(inner, now, deadline) matches Poll::Ready(Ok(v)) ==> now < deadline
            && inner == Poll::Ready(v),
        timeout_outcome(inner, now, deadline) == Poll::<Result<T, TimeoutError>>::Ready(
            Err(TimeoutError),
        ) <==> now >= deadline,
        timeout_outcome(inner, now, deadline) is Pending <==> now < deadline && inner is Pending,
{
}

/// A source of ticks at a fixed phase: each boundary lies one period after
/// the boundary before it, whenever the ticks are taken.
pub struct Interval {
    period: u64,
    next_tick: u64,
}

impl Interval {
    /// The distance between two boundaries.
    pub closed spec fn spec_period(&self) -> u64 {
        self.period
    }

    /// The boundary that the next tick waits for.
    pub closed spec fn spec_next_tick(&self) -> u64 {
        self.next_tick
    }

    /// The interval after `k` ticks were taken from it.
    pub closed spec fn after(self, k: nat) -> Interval
        decreases k,
    {
        if k == 0 {
            self
        } else {
            let before = self.after((k - 1) as nat);
            Interval { period: before.period, next_tick: (before.next_tick + before.period) as u64 }
        }
    }

    /// An interval of `period` whose first boundary lies one period after
    /// `now`.
    pub fn new(now: u64, period: u64) -> (iv: Self)
        requires
            now + period <= u64::MAX,
        ensures
            iv.spec_period() == period,
            iv.spec_next_tick() == now + period,
    {
        Interval { period, next_tick: now + period }
    }

    /// The distance between two boundaries.
    pub fn period(&self) -> (p: u64)
        ensures
            p == self.spec_period(),
    {
        self.period
    }

    /// The boundary that the next tick waits for.
    pub fn next_tick(&self) -> (t: u64)
        ensures
            t == self.spec_next_tick(),
    {
        self.next_tick
    }

    /// Takes one tick: returns the boundary that was waited for and moves the
    /// interval to the boundary one period after it. The instant at which the
    /// tick is taken plays no part.
    pub fn advance(&mut self) -> (tick_time: u64)
        requires
            old(self).spec_next_tick() + old(self).spec_period() <= u64::MAX,
        ensures
            tick_time == old(self).spec_next_tick(),
            *final(self) == old(self).after(1),
            final(self).spec_period() == old(self).spec_period(),
            final(self).spec_next_tick() == old(self).spec_next_tick() + old(self).spec_period(),
    {
        let tick_time = self.next_tick;
        self.next_tick = self.next_tick + self.period;
        proof {
            reveal_with_fuel(Interval::after, 2);
        }
        tick_time
    }

    /// Fixed phase: after `k` ticks the next boundary lies `k` periods after
    /// the present one, and the period is what it was.
    pub proof fn lemma_fixed_phase(self, k: nat)
        requires
            self.spec_next_tick() + k * self.spec_period() <= u64::MAX,
        ensures
            self.after(k).spec_period() == self.spec_period(),
            self.after(k).spec_next_tick() == self.spec_next_tick() + k * self.spec_period(),
        decreases k,
    {
        if k > 0 {
            assert((k - 1) * self.period + self.period == k * self.period) by (nonlinear_arith);
            assert((k - 1) * self.period >= 0) by (nonlinear_arith)
                requires
                    k >= 1,
            ;
            self.lemma_fixed_phase((k - 1) as nat);
        } else {
            assert(k * self.period == 0) by (nonlinear_arith)
                requires
                    k == 0,
            ;
        }
    }
}

/// An interval of `period` whose first boundary lies one period after `now`.
pub fn interval(now: u64, period: u64) -> (iv: Interval)
    requires
        now + period <= u64::MAX,
    ensures
        iv.spec_period() == period,
        iv.spec_next_tick() == now + period,
{
    Interval::new(now, period)
}

/// A suspension that gives the scheduler one turn: its first poll is
/// pending and asks for the wakeup that brings the task back into a queue,
/// its second is ready.
pub struct YieldNow {
    yielded: bool,
}

impl YieldNow {
    /// Whether the turn was given.
    pub closed spec fn yielded(&self) -> bool {
        self.yielded
    }

    /// A suspension that has not given its turn yet.
    pub fn new() -> (y: Self)
        ensures
            !y.yielded(),
    {
        YieldNow { yielded: false }
    }

    /// Polls the suspension: pending the first time, ready from then on.
    /// The first poll hands `waker` back for the caller to invoke at once,
    /// so that the suspended task is queued again and its second poll comes;
    /// every later poll hands nothing back and drops `waker`.
    pub fn poll<W>(&mut self, waker: W) -> (r: (Poll<()>, Option<W>))
        ensures
            final(self).yielded(),
            r.0 == Poll::Ready(()) <==> old(self).yielded(),
            r.0 == Poll::<()>::Pending <==> !old(self).yielded(),
            r.1 == (if old(self).yielded() {
                None
            } else {
                Some(waker)
            }),
    {
        if self.yielded {
            (Poll::Ready(()), None)
        } else {
            self.yielded = true;
            (Poll::Pending, Some(waker))
        }
    }
}

} // verus!
