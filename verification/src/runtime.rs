//! The runtime: a scheduler, its counters and a shutdown flag, with the
//! policy of the worker loop and the configuration that fixes the number of
//! workers.

use crate::scheduler::{Contention, Queues, Scheduler};
use crate::task::{AfterPoll, TaskState};
use std::collections::VecDeque;
use vstd::prelude::*;

verus! {

/// The number of fruitless searches in a row after which a worker sleeps
/// instead of yielding.
pub const MAX_IDLE: usize = 1000;

/// How long, in nanoseconds, a worker sleeps when it has searched
/// `MAX_IDLE` times in vain.
pub const IDLE_SLEEP_NANOS: u64 = 100_000;

/// The counters of a runtime. Each one wraps at the machine's limit.
#[derive(Debug, Clone, Copy, PartialEq, Eq, Structural)]
pub struct RuntimeStats {
    /// Tasks handed to the runtime.
    pub tasks_spawned: u64,
    /// Tasks that have run to their end.
    pub tasks_completed: u64,
    /// Tasks handed to the runtime that have not run to their end.
    pub active_tasks: u64,
    /// I/O operations completed.
    pub io_operations: u64,
    /// Timer operations completed.
    pub timer_operations: u64,
}

/// `n + 1`, wrapping at the limit of `u64`.
pub open spec fn wrapping_succ(n: u64) -> u64 {
    if n == u64::MAX {
        0
    } else {
        (n + 1) as u64
    }
}

/// `n - 1`, wrapping at zero.
pub open spec fn wrapping_pred(n: u64) -> u64 {
    if n == 0 {
        u64::MAX
    } else {
        (n - 1) as u64
    }
}

impl RuntimeStats {
    /// The counters after one task was spawned.
    pub open spec fn spawned(self) -> RuntimeStats {
        RuntimeStats {
            tasks_spawned: wrapping_succ(self.tasks_spawned),
            active_tasks: wrapping_succ(self.active_tasks),
            ..self
        }
    }

    /// The counters after one task ran to its end.
    pub open spec fn completed(self) -> RuntimeStats {
        RuntimeStats {
            tasks_completed: wrapping_succ(self.tasks_completed),
            active_tasks: wrapping_pred(self.active_tasks),
            ..self
        }
    }

    /// Every spawned task is either complete or active.
    pub open spec fn balanced(self) -> bool {
        self.tasks_spawned == self.tasks_completed + self.active_tasks
    }

    /// Counters that are all zero.
    pub open spec fn zero() -> RuntimeStats {
        RuntimeStats {
            tasks_spawned: 0,
            tasks_completed: 0,
            active_tasks: 0,
            io_operations: 0,
            timer_operations: 0,
        }
    }

    /// Counters that are all zero.
    pub fn new() -> (s: Self)
        ensures
            s == RuntimeStats::zero(),
            s.balanced(),
    {
        RuntimeStats {
            tasks_spawned: 0,
            tasks_completed: 0,
            active_tasks: 0,
            io_operations: 0,
            timer_operations: 0,
        }
    }

    /// Counts one spawned task.
    pub fn record_spawn(&mut self)
        ensures
            *final(self) == old(self).spawned(),
    {
        self.tasks_spawned = self.tasks_spawned.wrapping_add(1);
        self.active_tasks = self.active_tasks.wrapping_add(1);
    }

    /// Counts one task that ran to its end.
    pub fn record_completion(&mut self)
        ensures
            *final(self) == old(self).completed(),
    {
        self.tasks_completed = self.tasks_completed.wrapping_add(1);
        self.active_tasks = self.active_tasks.wrapping_sub(1);
    }

    /// The counters as they stand, together with the time, in nanoseconds,
    /// for which the runtime has been up.
    pub fn snapshot(&self, uptime: u64) -> (snap: RuntimeStatsSnapshot)
        ensures
            snap == (RuntimeStatsSnapshot {
                uptime,
                tasks_spawned: self.tasks_spawned,
                tasks_completed: self.tasks_completed,
                active_tasks: self.active_tasks,
                io_operations: self.io_operations,
                timer_operations: self.timer_operations,
            }),
    {
        RuntimeStatsSnapshot {
            uptime,
            tasks_spawned: self.tasks_spawned,
            tasks_completed: self.tasks_completed,
            active_tasks: self.active_tasks,
            io_operations: self.io_operations,
            timer_operations: self.timer_operations,
        }
    }

    /// Spawning keeps the counters balanced as long as the spawn counter has
    /// not reached the machine's limit.
    pub proof fn lemma_spawn_keeps_balance(self)
        requires
            self.balanced(),
            self.tasks_spawned < u64::MAX,
        ensures
            self.spawned().balanced(),
            self.spawned().tasks_spawned == self.tasks_spawned + 1,
            self.spawned().active_tasks == self.active_tasks + 1,
            self.spawned().tasks_completed == self.tasks_completed,
    {
    }

    /// The completion of an active task keeps the counters balanced.
    pub proof fn lemma_completion_keeps_balance(self)
        requires
            self.balanced(),
            self.active_tasks > 0,
        ensures
            self.completed().balanced(),
            self.completed().tasks_completed == self.tasks_completed + 1,
            self.completed().active_tasks == self.active_tasks - 1,
            self.completed().tasks_spawned == self.tasks_spawned,
    {
    }

    /// The counters after the events, taken in order.
    pub open spec fn replay(self, events: Seq<StatEvent>) -> RuntimeStats
        decreases events.len(),
    {
        if events.len() == 0 {
            self
        } else {
            let before = self.replay(events.drop_last());
            match events.last() {
                StatEvent::Spawned => before.spawned(),
                StatEvent::Completed => before.completed(),
            }
        }
    }

    /// Nothing is lost and nothing counted twice. Take any course of spawns
    /// and completions in which a task completes only after it was spawned,
    /// and whose spawns the spawn counter can hold. Then the counters count
    /// exactly the spawns and the completions, every spawned task is complete
    /// or active, and when as many tasks have completed as were spawned, no
    /// task of that course is still active.
    pub proof fn lemma_counters_are_exact(self, events: Seq<StatEvent>)
        requires
            self.balanced(),
            self.tasks_spawned + spawns(events) <= u64::MAX,
            forall|k: int|
                0 <= k <= events.len() ==> completions(#[trigger] events.take(k))
                    <= self.active_tasks + spawns(events.take(k)),
        ensures
            self.replay(events).balanced(),
            self.replay(events).tasks_spawned == self.tasks_spawned + spawns(events),
            self.replay(events).tasks_completed == self.tasks_completed + completions(events),
            self.replay(events).active_tasks == self.active_tasks + spawns(events) - completions(
                events,
            ),
            spawns(events) == completions(events) ==> self.replay(events).active_tasks
                == self.active_tasks,
        decreases events.len(),
    {
        if events.len() > 0 {
            let rest = events.drop_last();
            assert forall|k: int| 0 <= k <= rest.len() implies completions(
                #[trigger] rest.take(k),
            ) <= self.active_tasks + spawns(rest.take(k)) by {
                assert(rest.take(k) =~= events.take(k));
            }
            self.lemma_counters_are_exact(rest);
            assert(events.take(events.len() as int) =~= events);
        }
    }
}

/// What moves the counters.
pub ghost enum StatEvent {
    /// A task was spawned.
    Spawned,
    /// A task ran to its end.
    Completed,
}

/// The number of spawns among the events.
pub open spec fn spawns(events: Seq<StatEvent>) -> nat
    decreases events.len(),
{
    if events.len() == 0 {
        0
    } else {
        spawns(events.drop_last()) + (if events.last() is Spawned {
            1nat
        } else {
            0nat
        })
    }
}

/// The number of completions among the events.
pub open spec fn completions(events: Seq<StatEvent>) -> nat
    decreases events.len(),
{
    if events.len() == 0 {
        0
    } else {
        completions(events.drop_last()) + (if events.last() is Completed {
            1nat
        } else {
            0nat
        })
    }
}

impl Default for RuntimeStats {
    fn default() -> (s: Self)
        ensures
            s == RuntimeStats::zero(),
    {
        RuntimeStats::new()
    }
}

/// The counters of a runtime at one moment.
#[derive(Debug, Clone, Copy, PartialEq, Eq, Structural)]
pub struct RuntimeStatsSnapshot {
    /// For how long the runtime has been up, in nanoseconds.
    pub uptime: u64,
    /// Tasks handed to the runtime.
    pub tasks_spawned: u64,
    /// Tasks that have run to their end.
    pub tasks_completed: u64,
    /// Tasks handed to the runtime that have not run to their end.
    pub active_tasks: u64,
    /// I/O operations completed.
    pub io_operations: u64,
    /// Timer operations completed.
    pub timer_operations: u64,
}

/// What a worker does after it has looked for work.
#[derive(Debug, Clone, Copy, PartialEq, Eq)]
pub enum WorkerStep<T> {
    /// Leave the loop: the runtime shuts down.
    Exit,
    /// Run the task that was found, then look again.
    Run(T),
    /// Nothing found: give up the processor once, then look again.
    Yield,
    /// Nothing found for a long while: sleep for `IDLE_SLEEP_NANOS`, then
    /// look again.
    Sleep,
}

/// The loop state of one worker: how often in a row it has found nothing.
#[derive(Debug, Clone, Copy, PartialEq, Eq, Structural)]
pub struct Worker {
    idle_count: usize,
}

impl Worker {
    /// The number of fruitless searches in a row.
    pub closed spec fn idle_count(&self) -> usize {
        self.idle_count
    }

    /// The count stays below the point at which the worker sleeps.
    pub open spec fn wf(&self) -> bool {
        self.idle_count() < MAX_IDLE
    }

    /// A worker that has not searched yet.
    pub fn new() -> (w: Self)
        ensures
            w.wf(),
            w.idle_count() == 0,
    {
        Worker { idle_count: 0 }
    }

    /// Notes a fruitless search and says how to back off: by a yield, and by
    /// a sleep at every `MAX_IDLE`-th fruitless search in a row, after which
    /// the count starts again.
    pub fn idle(&mut self) -> (sleep: bool)
        requires
            old(self).wf(),
        ensures
            final(self).wf(),
            sleep == (old(self).idle_count() + 1 >= MAX_IDLE),
            final(self).idle_count() == (if sleep {
                0
            } else {
                old(self).idle_count() + 1
            }),
    {
        self.idle_count = self.idle_count + 1;
        if self.idle_count < MAX_IDLE {
            false
        } else {
            self.idle_count = 0;
            true
        }
    }

    /// The step of a worker whose search was fruitless, or who found the
    /// queues held and did not search at all: a yield, and a sleep at every
    /// `MAX_IDLE`-th such turn in a row.
    pub fn back_off<T>(&mut self) -> (step: WorkerStep<T>)
        requires
            old(self).wf(),
        ensures
            final(self).wf(),
            step == (if old(self).idle_count() + 1 >= MAX_IDLE {
                WorkerStep::<T>::Sleep
            } else {
                WorkerStep::<T>::Yield
            }),
            final(self).idle_count() == (if old(self).idle_count() + 1 >= MAX_IDLE {
                0
            } else {
                old(self).idle_count() + 1
            }),
    {
        if self.idle() {
            WorkerStep::Sleep
        } else {
            WorkerStep::Yield
        }
    }

    /// Notes that a task was found: the count starts again.
    pub fn busy(&mut self)
        ensures
            final(self).wf(),
            final(self).idle_count() == 0,
    {
        self.idle_count = 0;
    }
}

/// The number of available processors, as the `num_cpus` crate's `get`
/// reports it. The number depends on the machine and on the limits set for
/// the process, so nothing is claimed about it.
pub assume_specification[ num_cpus::get ]() -> (n: usize)
;

/// The number of workers for a machine with `cpus` processors: one per
/// processor, and one where no processor is reported.
pub fn workers_for(cpus: usize) -> (n: usize)
    ensures
        n == (if cpus == 0 {
            1
        } else {
            cpus
        }),
        n >= 1,
{
    if cpus == 0 {
        1
    } else {
        cpus
    }
}

/// The number of workers for this machine: at least one.
pub fn default_workers() -> (n: usize)
    ensures
        n >= 1,
{
    workers_for(num_cpus::get())
}

/// What one who found the runtime's queues held has left for the runtime:
/// it waits in an overflow queue until someone who holds the queues takes
/// it in.
pub enum Deferred<T> {
    /// A newly spawned task, to be counted and queued.
    Spawn(T),
    /// A task that comes back after its wakeup, to be queued.
    Requeue(T),
    /// The news that a task has run to its end, to be counted.
    Completion,
}

/// The tasks to be queued among the deferred items, in order.
pub open spec fn queued_of<T>(items: Seq<Deferred<T>>) -> Seq<T>
    decreases items.len(),
{
    if items.len() == 0 {
        Seq::empty()
    } else {
        let before = queued_of(items.drop_last());
        match items.last() {
            Deferred::Spawn(task) => before.push(task),
            Deferred::Requeue(task) => before.push(task),
            Deferred::Completion => before,
        }
    }
}

/// The counters after the spawns and the completions among the deferred
/// items were counted, in order.
pub open spec fn counted<T>(stats: RuntimeStats, items: Seq<Deferred<T>>) -> RuntimeStats
    decreases items.len(),
{
    if items.len() == 0 {
        stats
    } else {
        let before = counted(stats, items.drop_last());
        match items.last() {
            Deferred::Spawn(_) => before.spawned(),
            Deferred::Requeue(_) => before,
            Deferred::Completion => before.completed(),
        }
    }
}

/// A runtime for tasks of type `T`.
pub struct Runtime<T> {
    scheduler: Scheduler<T>,
    stats: RuntimeStats,
    shutdown: bool,
}

impl<T> Runtime<T> {
    /// The runtime's queues.
    pub closed spec fn queues(&self) -> Queues<T> {
        self.scheduler@
    }

    /// The runtime's counters.
    pub closed spec fn counters(&self) -> RuntimeStats {
        self.stats
    }

    /// Whether the runtime was shut down.
    pub closed spec fn is_down(&self) -> bool {
        self.shutdown
    }

    /// A runtime with one worker per available processor, and at least one;
    /// its queues are empty and its counters at zero.
    pub fn new() -> (rt: Self)
        ensures
            rt.queues().locals.len() >= 1,
            rt.queues().global == Seq::<T>::empty(),
            rt.queues().locals == Seq::new(rt.queues().locals.len(), |i: int| Seq::<T>::empty()),
            rt.queues().next == 0,
            rt.queues().tasks() == vstd::multiset::Multiset::<T>::empty(),
            rt.counters() == RuntimeStats::zero(),
            !rt.is_down(),
    {
        Self::with_workers(default_workers())
    }

    /// A runtime with `num_workers` workers, empty queues and counters at
    /// zero.
    pub fn with_workers(num_workers: usize) -> (rt: Self)
        ensures
            rt.queues().global == Seq::<T>::empty(),
            rt.queues().locals == Seq::new(num_workers as nat, |i: int| Seq::<T>::empty()),
            rt.queues().next == 0,
            rt.queues().tasks() == vstd::multiset::Multiset::<T>::empty(),
            rt.counters() == RuntimeStats::zero(),
            !rt.is_down(),
    {
        let rt = Runtime {
            scheduler: Scheduler::new(num_workers),
            stats: RuntimeStats::new(),
            shutdown: false,
        };
        proof {
            rt.queues().lemma_empty_queues();
        }
        rt
    }

    /// The number of workers.
    pub fn num_workers(&self) -> (n: usize)
        ensures
            n == self.queues().locals.len(),
    {
        self.scheduler.num_workers()
    }

    /// Takes in a task: counts it as spawned and active and puts it in a
    /// queue. The task does not run before a worker finds it; it is queued
    /// once, beside everything that was queued before.
    pub fn spawn(&mut self, task: T, contention: &Contention)
        requires
            old(self).queues().locals.len() > 0,
        ensures
            final(self).queues() == old(self).queues().schedule(task, *contention),
            final(self).queues().tasks() == old(self).queues().tasks().insert(task),
            final(self).counters() == old(self).counters().spawned(),
            final(self).is_down() == old(self).is_down(),
    {
        proof {
            self.queues().lemma_schedule_adds_one(task, *contention);
        }
        self.stats.record_spawn();
        self.scheduler.schedule(task, contention);
    }

    /// Counts a task that ran to its end, with a value or with a failure.
    pub fn task_finished(&mut self)
        ensures
            final(self).queues() == old(self).queues(),
            final(self).counters() == old(self).counters().completed(),
            final(self).is_down() == old(self).is_down(),
    {
        self.stats.record_completion();
    }

    /// Takes in what was left for the runtime while its queues were held.
    /// Each task among the items goes the way of a task whose worker's queue
    /// is held: to the back of the global queue, in the order in which the
    /// items came. The spawns and the completions among them are counted.
    /// The overflow queue is empty afterwards.
    pub fn absorb(&mut self, overflow: &mut VecDeque<Deferred<T>>)
        requires
            old(self).queues().locals.len() > 0,
        ensures
            final(overflow)@.len() == 0,
            final(self).queues() == old(self).queues().absorbed(queued_of(old(overflow)@)),
            final(self).queues().global == old(self).queues().global + queued_of(old(overflow)@),
            final(self).queues().locals == old(self).queues().locals,
            final(self).counters() == counted(old(self).counters(), old(overflow)@),
            final(self).is_down() == old(self).is_down(),
    {
        let ghost first = self.queues();
        let ghost stats = self.counters();
        let ghost all = overflow@;
        let ghost mut k: int = 0;
        let held = Contention::all(self.scheduler.num_workers());
        while overflow.len() > 0
            invariant
                0 <= k <= all.len(),
                overflow@ == all.skip(k),
                first.locals.len() > 0,
                self.queues() == first.absorbed(queued_of(all.take(k))),
                self.queues().locals == first.locals,
                self.counters() == counted(stats, all.take(k)),
                self.is_down() == old(self).is_down(),
                held.locals@.len() == first.locals.len(),
                forall|i: int| 0 <= i < first.locals.len() ==> held.local_held(i),
            decreases overflow.len(),
        {
            let ghost before = self.queues();
            proof {
                assert(all.take(k + 1).drop_last() =~= all.take(k));
                vstd::arithmetic::div_mod::lemma_mod_pos_bound(
                    before.next as int,
                    before.locals.len() as int,
                );
            }
            match overflow.pop_front() {
                Some(Deferred::Spawn(task)) => {
                    proof {
                        assert(queued_of(all.take(k)).push(task).drop_last() =~= queued_of(
                            all.take(k),
                        ));
                    }
                    self.stats.record_spawn();
                    self.scheduler.schedule(task, &held);
                },
                Some(Deferred::Requeue(task)) => {
                    proof {
                        assert(queued_of(all.take(k)).push(task).drop_last() =~= queued_of(
                            all.take(k),
                        ));
                    }
                    self.scheduler.schedule(task, &held);
                },
                Some(Deferred::Completion) => {
                    self.stats.record_completion();
                },
                None => {},
            }
            proof {
                k = k + 1;
            }
        }
        proof {
            first.lemma_absorbed(queued_of(all));
        }
    }

    /// Carries out a wakeup for `task`, whose state is `state`. A parked
    /// task goes back into a queue, as a spawned task does; for a task that
    /// a worker polls the wakeup is noted in its state; a task that is
    /// queued or has run to its end is left alone and `task` is dropped.
    pub fn wake(&mut self, state: &mut TaskState, task: T, contention: &Contention) -> (queued: bool)
        requires
            old(self).queues().locals.len() > 0,
        ensures
            (*final(state), queued) == old(state).woken(),
            final(self).queues() == (if queued {
                old(self).queues().schedule(task, *contention)
            } else {
                old(self).queues()
            }),
            final(self).counters() == old(self).counters(),
            final(self).is_down() == old(self).is_down(),
    {
        let queued = state.wake();
        if queued {
            self.scheduler.schedule(task, contention);
        }
        queued
    }

    /// Settles a task after one poll by a worker. A task that has finished,
    /// with a value or with a failure, is counted as complete; the queues and
    /// with them every other task stay as they are. One that has not
    /// finished leaves the worker all the same: it is parked until its
    /// wakeup comes, or, where the wakeup came during the poll, it goes back
    /// into a queue at once.
    pub fn task_polled(
        &mut self,
        state: &mut TaskState,
        task: T,
        finished: bool,
        contention: &Contention,
    ) -> (after: AfterPoll)
        requires
            old(self).queues().locals.len() > 0,
        ensures
            (*final(state), after) == old(state).polled(finished),
            final(self).queues() == (if after == AfterPoll::Requeue {
                old(self).queues().schedule(task, *contention)
            } else {
                old(self).queues()
            }),
            final(self).counters() == (if after == AfterPoll::Finished {
                old(self).counters().completed()
            } else {
                old(self).counters()
            }),
            final(self).is_down() == old(self).is_down(),
    {
        let after = state.end_poll(finished);
        match after {
            AfterPoll::Finished => {
                self.stats.record_completion();
            },
            AfterPoll::Requeue => {
                self.scheduler.schedule(task, contention);
            },
            AfterPoll::Parked => {},
        }
        after
    }

    /// One turn of the loop of worker `worker_id`: leave if the runtime is
    /// shut down, else look for work as the scheduler prescribes and run what
    /// was found, else back off.
    pub fn worker_step(&mut self, worker_id: usize, worker: &mut Worker, contention: &Contention) -> (step:
        WorkerStep<T>)
        requires
            worker_id < old(self).queues().locals.len(),
            old(worker).wf(),
        ensures
            final(worker).wf(),
            final(self).counters() == old(self).counters(),
            final(self).is_down() == old(self).is_down(),
            old(self).is_down() ==> step is Exit && final(self).queues() == old(self).queues()
                && *final(worker) == *old(worker),
            !old(self).is_down() ==> {
                let found = old(self).queues().find_work(worker_id as int, *contention);
                &&& final(self).queues() == found.1
                &&& match found.0 {
                    Some(task) => step == WorkerStep::Run(task) && final(worker).idle_count() == 0,
                    None => if old(worker).idle_count() + 1 >= MAX_IDLE {
                        step is Sleep && final(worker).idle_count() == 0
                    } else {
                        step is Yield && final(worker).idle_count() == old(worker).idle_count() + 1
                    },
                }
            },
    {
        if self.shutdown {
            return WorkerStep::Exit;
        }
        match self.scheduler.find_work(worker_id, contention) {
            Some(task) => {
                worker.busy();
                WorkerStep::Run(task)
            },
            None => worker.back_off(),
        }
    }

    /// The counters as they stand, with the time, in nanoseconds, for which
    /// the runtime has been up.
    pub fn stats(&self, uptime: u64) -> (snap: RuntimeStatsSnapshot)
        ensures
            snap == (RuntimeStatsSnapshot {
                uptime,
                tasks_spawned: self.counters().tasks_spawned,
                tasks_completed: self.counters().tasks_completed,
                active_tasks: self.counters().active_tasks,
                io_operations: self.counters().io_operations,
                timer_operations: self.counters().timer_operations,
            }),
    {
        self.stats.snapshot(uptime)
    }

    /// Asks the workers to leave their loops. Queued tasks stay queued.
    pub fn shutdown(&mut self)
        ensures
            final(self).is_down(),
            final(self).queues() == old(self).queues(),
            final(self).counters() == old(self).counters(),
    {
        self.shutdown = true;
    }

    /// Whether the runtime was shut down.
    pub fn is_shutdown(&self) -> (b: bool)
        ensures
            b == self.is_down(),
    {
        self.shutdown
    }
}

/// The configuration from which a runtime is built.
#[derive(Debug)]
pub struct Builder {
    worker_threads: Option<usize>,
    thread_name: String,
    thread_stack_size: Option<usize>,
    enable_all: bool,
}

impl Builder {
    /// The configured number of workers, if one was set.
    pub closed spec fn spec_worker_threads(&self) -> Option<usize> {
        self.worker_threads
    }

    /// The name given to worker threads.
    pub closed spec fn spec_thread_name(&self) -> Seq<char> {
        self.thread_name@
    }

    /// The configured stack size of worker threads, if one was set.
    pub closed spec fn spec_thread_stack_size(&self) -> Option<usize> {
        self.thread_stack_size
    }

    /// Whether every feature was asked for.
    pub closed spec fn spec_enable_all(&self) -> bool {
        self.enable_all
    }

    /// The number of workers that a runtime built from this configuration
    /// has on a machine with `cpus` processors: the configured number where
    /// one was set and is not zero, else one per processor, and at least one.
    pub open spec fn spec_workers(&self, cpus: usize) -> usize {
        match self.spec_worker_threads() {
            Some(n) if n > 0 => n,
            _ => if cpus == 0 {
                1
            } else {
                cpus
            },
        }
    }

    /// A configuration with nothing set: worker threads are named
    /// `cycle-worker`, their number and stack size are left to the machine.
    pub fn new() -> (b: Self)
        ensures
            b.spec_worker_threads() is None,
            b.spec_thread_name() == "cycle-worker"@,
            b.spec_thread_stack_size() is None,
            !b.spec_enable_all(),
    {
        Builder {
            worker_threads: None,
            thread_name: "cycle-worker".to_owned(),
            thread_stack_size: None,
            enable_all: false,
        }
    }

    /// Sets the number of workers.
    pub fn worker_threads(self, val: usize) -> (b: Self)
        ensures
            b.spec_worker_threads() == Some(val),
            b.spec_thread_name() == self.spec_thread_name(),
            b.spec_thread_stack_size() == self.spec_thread_stack_size(),
            b.spec_enable_all() == self.spec_enable_all(),
    {
        let mut b = self;
        b.worker_threads = Some(val);
        b
    }

    /// Sets the name given to worker threads.
    pub fn thread_name(self, val: String) -> (b: Self)
        ensures
            b.spec_worker_threads() == self.spec_worker_threads(),
            b.spec_thread_name() == val@,
            b.spec_thread_stack_size() == self.spec_thread_stack_size(),
            b.spec_enable_all() == self.spec_enable_all(),
    {
        let mut b = self;
        b.thread_name = val;
        b
    }

    /// Sets the stack size of worker threads.
    pub fn thread_stack_size(self, val: usize) -> (b: Self)
        ensures
            b.spec_worker_threads() == self.spec_worker_threads(),
            b.spec_thread_name() == self.spec_thread_name(),
            b.spec_thread_stack_size() == Some(val),
            b.spec_enable_all() == self.spec_enable_all(),
    {
        let mut b = self;
        b.thread_stack_size = Some(val);
        b
    }

    /// Asks for every feature.
    pub fn enable_all(self) -> (b: Self)
        ensures
            b.spec_worker_threads() == self.spec_worker_threads(),
            b.spec_thread_name() == self.spec_thread_name(),
            b.spec_thread_stack_size() == self.spec_thread_stack_size(),
            b.spec_enable_all(),
    {
        let mut b = self;
        b.enable_all = true;
        b
    }

    /// The configured number of workers, if one was set.
    pub fn configured_workers(&self) -> (n: Option<usize>)
        ensures
            n == self.spec_worker_threads(),
    {
        self.worker_threads
    }

    /// The name given to worker threads.
    pub fn configured_thread_name(&self) -> (name: &String)
        ensures
            name@ == self.spec_thread_name(),
    {
        &self.thread_name
    }

    /// The configured stack size of worker threads, if one was set.
    pub fn configured_stack_size(&self) -> (n: Option<usize>)
        ensures
            n == self.spec_thread_stack_size(),
    {
        self.thread_stack_size
    }

    /// The number of workers on a machine with `cpus` processors.
    pub fn workers(&self, cpus: usize) -> (n: usize)
        ensures
            n == self.spec_workers(cpus),
            n >= 1,
    {
        match self.worker_threads {
            Some(n) if n > 0 => n,
            _ => workers_for(cpus),
        }
    }

    /// Builds the runtime: empty queues, counters at zero, and the
    /// configured number of workers or, where none was set, one per
    /// available processor.
    pub fn build<T>(self) -> (rt: Runtime<T>)
        ensures
            rt.queues().locals.len() >= 1,
            self.spec_worker_threads() matches Some(n) ==> (n > 0 ==> rt.queues().locals.len() == n),
            rt.queues().global == Seq::<T>::empty(),
            rt.queues().locals == Seq::new(rt.queues().locals.len(), |i: int| Seq::<T>::empty()),
            rt.queues().next == 0,
            rt.queues().tasks() == vstd::multiset::Multiset::<T>::empty(),
            rt.counters() == RuntimeStats::zero(),
            !rt.is_down(),
    {
        let n = self.workers(num_cpus::get());
        Runtime::with_workers(n)
    }
}

impl Default for Builder {
    fn default() -> (b: Self)
        ensures
            b.spec_worker_threads() is None,
            b.spec_thread_name() == "cycle-worker"@,
            b.spec_thread_stack_size() is None,
            !b.spec_enable_all(),
    {
        Builder::new()
    }
}

} // verus!
