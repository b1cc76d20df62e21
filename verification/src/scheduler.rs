//! The work-stealing scheduler: one global queue, one local queue per worker.
//!
//! The scheduler is a sequential core. A caller that shares it between threads
//! tells each call which queues it found held by someone else; a held queue is
//! passed over, never waited for.

use std::collections::VecDeque;
use vstd::multiset::Multiset;
use vstd::prelude::*;

verus! {

/// The queues that a call finds held by another party. A local queue whose
/// index lies beyond `locals` counts as free.
#[derive(Debug, Clone)]
pub struct Contention {
    /// Whether the global queue is held.
    pub global: bool,
    /// For each worker, whether its local queue is held.
    pub locals: Vec<bool>,
}

impl Contention {
    /// Whether the local queue of worker `i` is held.
    pub open spec fn local_held(&self, i: int) -> bool {
        0 <= i < self.locals@.len() && self.locals@[i]
    }

    /// Every queue of `num_workers` workers is held, and the global queue
    /// too: what a caller found who could not get at the queues at all.
    pub fn all(num_workers: usize) -> (c: Self)
        ensures
            c.global,
            c.locals@.len() == num_workers,
            forall|i: int| 0 <= i < num_workers ==> c.local_held(i),
    {
        let mut locals: Vec<bool> = Vec::with_capacity(num_workers);
        let mut i: usize = 0;
        while i < num_workers
            invariant
                i <= num_workers,
                locals@.len() == i,
                forall|j: int| 0 <= j < i ==> locals@[j],
            decreases num_workers - i,
        {
            locals.push(true);
            i += 1;
        }
        Contention { global: true, locals }
    }

    /// No queue is held.
    pub fn none() -> (c: Self)
        ensures
            !c.global,
            forall|i: int| !c.local_held(i),
    {
        Contention { global: false, locals: Vec::new() }
    }

    /// Whether the local queue of worker `i` is held.
    pub fn is_local_held(&self, i: usize) -> (b: bool)
        ensures
            b == self.local_held(i as int),
    {
        i < self.locals.len() && self.locals[i]
    }
}

/// What a scheduler holds: the global queue and the local queues, each oldest
/// first, and the round-robin counter.
pub ghost struct Queues<T> {
    pub global: Seq<T>,
    pub locals: Seq<Seq<T>>,
    pub next: nat,
}

impl<T> Queues<T> {
    /// The counter after one more assignment; it wraps at the machine's limit.
    pub open spec fn next_after(self) -> nat {
        if self.next == usize::MAX {
            0
        } else {
            self.next + 1
        }
    }

    /// The worker that the next scheduled task is assigned to.
    pub open spec fn target(self) -> int
        recommends
            self.locals.len() > 0,
    {
        self.next as int % self.locals.len() as int
    }

    /// The queues after `task` was scheduled by one who found its worker's
    /// queue held: the task stands at the back of the global queue, and the
    /// turn has passed to the next worker.
    pub open spec fn overflowed(self, task: T) -> Queues<T> {
        Queues { global: self.global.push(task), locals: self.locals, next: self.next_after() }
    }

    /// The queues after each of `tasks`, in order, was scheduled by one who
    /// found its worker's queue held.
    pub open spec fn absorbed(self, tasks: Seq<T>) -> Queues<T>
        decreases tasks.len(),
    {
        if tasks.len() == 0 {
            self
        } else {
            self.absorbed(tasks.drop_last()).overflowed(tasks.last())
        }
    }

    /// The queues after `task` was scheduled: at the back of the assigned
    /// worker's local queue, or of the global queue where that one is held.
    pub open spec fn schedule(self, task: T, c: Contention) -> Queues<T>
        recommends
            self.locals.len() > 0,
    {
        let w = self.target();
        if c.local_held(w) {
            self.overflowed(task)
        } else {
            Queues {
                global: self.global,
                locals: self.locals.update(w, self.locals[w].push(task)),
                next: self.next_after(),
            }
        }
    }

    /// Whether the local queue of worker `i` is free and holds a task.
    pub open spec fn available(self, c: Contention, i: int) -> bool {
        0 <= i < self.locals.len() && !c.local_held(i) && self.locals[i].len() > 0
    }

    /// Whether the global queue is free and holds a task.
    pub open spec fn global_available(self, c: Contention) -> bool {
        !c.global && self.global.len() > 0
    }

    /// The first worker at or after `start`, other than `w`, whose local queue
    /// is free and holds a task.
    pub open spec fn victim_from(self, w: int, c: Contention, start: int) -> Option<int>
        decreases self.locals.len() - start,
    {
        if start < 0 || start >= self.locals.len() {
            None
        } else if start != w && self.available(c, start) {
            Some(start)
        } else {
            self.victim_from(w, c, start + 1)
        }
    }

    /// What worker `w` steals: the newest task of the first other worker whose
    /// local queue is free and holds one; and the queues afterwards.
    pub open spec fn steal(self, w: int, c: Contention) -> (Option<T>, Queues<T>) {
        match self.victim_from(w, c, 0) {
            Some(v) => (
                Some(self.locals[v].last()),
                Queues { locals: self.locals.update(v, self.locals[v].drop_last()), ..self },
            ),
            None => (None, self),
        }
    }

    /// What worker `w` finds: the oldest task of its own queue, else the
    /// oldest of the global queue, else a stolen one; and the queues
    /// afterwards. A held queue counts as empty.
    pub open spec fn find_work(self, w: int, c: Contention) -> (Option<T>, Queues<T>) {
        if self.available(c, w) {
            (
                Some(self.locals[w].first()),
                Queues { locals: self.locals.update(w, self.locals[w].drop_first()), ..self },
            )
        } else if self.global_available(c) {
            (Some(self.global.first()), Queues { global: self.global.drop_first(), ..self })
        } else {
            self.steal(w, c)
        }
    }

    /// Whether some queue is free and holds a task.
    pub open spec fn has_work(self, c: Contention) -> bool {
        self.global_available(c) || exists|i: int| self.available(c, i)
    }

    /// Every task in the local queues `0..n`, as a multiset.
    pub open spec fn local_tasks(self, n: int) -> Multiset<T>
        decreases n,
    {
        if n <= 0 || n > self.locals.len() {
            Multiset::empty()
        } else {
            self.local_tasks(n - 1).add(self.locals[n - 1].to_multiset())
        }
    }

    /// Every queued task, as a multiset.
    pub open spec fn tasks(self) -> Multiset<T> {
        self.global.to_multiset().add(self.local_tasks(self.locals.len() as int))
    }
}

/// A scheduler of tasks of type `T`.
pub struct Scheduler<T> {
    global: VecDeque<T>,
    workers: Vec<VecDeque<T>>,
    next_worker: usize,
}

impl<T> View for Scheduler<T> {
    type V = Queues<T>;

    closed spec fn view(&self) -> Queues<T> {
        Queues {
            global: self.global@,
            locals: Seq::new(self.workers@.len(), |i: int| self.workers@[i]@),
            next: self.next_worker as nat,
        }
    }
}

impl<T> Scheduler<T> {
    /// The number of workers, fixed when the scheduler is made.
    pub open spec fn spec_num_workers(&self) -> nat {
        self@.locals.len()
    }

    /// A scheduler for `num_workers` workers, with every queue empty.
    pub fn new(num_workers: usize) -> (s: Self)
        ensures
            s@.global == Seq::<T>::empty(),
            s@.locals == Seq::new(num_workers as nat, |i: int| Seq::<T>::empty()),
            s@.next == 0,
    {
        let mut workers: Vec<VecDeque<T>> = Vec::with_capacity(num_workers);
        let mut i: usize = 0;
        while i < num_workers
            invariant
                i <= num_workers,
                workers@.len() == i,
                forall|j: int| 0 <= j < i ==> (#[trigger] workers@[j])@ == Seq::<T>::empty(),
            decreases num_workers - i,
        {
            workers.push(VecDeque::new());
            i += 1;
        }
        Scheduler { global: VecDeque::new(), workers, next_worker: 0 }
    }

    /// The number of workers.
    pub fn num_workers(&self) -> (n: usize)
        ensures
            n == self.spec_num_workers(),
    {
        self.workers.len()
    }

    /// Puts `task` in a queue: workers take turns, and a task whose worker's
    /// queue is held goes to the global queue instead.
    pub fn schedule(&mut self, task: T, contention: &Contention)
        requires
            old(self)@.locals.len() > 0,
        ensures
            final(self)@ == old(self)@.schedule(task, *contention),
    {
        let worker_id = self.next_worker % self.workers.len();
        self.next_worker = self.next_worker.wrapping_add(1);
        if !contention.is_local_held(worker_id) {
            self.workers[worker_id].push_back(task);
            assert(self@.locals =~= old(self)@.locals.update(
                worker_id as int,
                old(self)@.locals[worker_id as int].push(task),
            ));
        } else {
            self.global.push_back(task);
        }
    }

    /// Takes the newest task of the first other worker whose local queue is
    /// free and holds one. Workers are tried in the order of their numbers.
    pub fn steal_work(&mut self, worker_id: usize, contention: &Contention) -> (r: Option<T>)
        ensures
            (r, final(self)@) == old(self)@.steal(worker_id as int, *contention),
    {
        let ghost pre = self@;
        let n = self.workers.len();
        let mut i: usize = 0;
        while i < n
            invariant
                i <= n,
                n == pre.locals.len(),
                pre == old(self)@,
                self@ == pre,
                pre.victim_from(worker_id as int, *contention, 0) == pre.victim_from(
                    worker_id as int,
                    *contention,
                    i as int,
                ),
            decreases n - i,
        {
            if i != worker_id && !contention.is_local_held(i) {
                let r = self.workers[i].pop_back();
                if r.is_some() {
                    assert(self@.locals =~= pre.locals.update(
                        i as int,
                        pre.locals[i as int].drop_last(),
                    ));
                    return r;
                }
                assert(self@.locals =~= pre.locals);
            }
            i += 1;
        }
        None
    }

    /// Finds the next task for worker `worker_id`: the oldest of its own
    /// queue, else the oldest of the global queue, else a stolen one. A held
    /// queue is passed over. A task is found exactly when some free queue
    /// holds one.
    pub fn find_work(&mut self, worker_id: usize, contention: &Contention) -> (r: Option<T>)
        requires
            worker_id < old(self)@.locals.len(),
        ensures
            (r, final(self)@) == old(self)@.find_work(worker_id as int, *contention),
            r is Some <==> old(self)@.has_work(*contention),
    {
        let ghost pre = self@;
        proof {
            pre.lemma_find_work_finds(worker_id as int, *contention);
        }
        if !contention.is_local_held(worker_id) {
            let r = self.workers[worker_id].pop_front();
            if r.is_some() {
                assert(self@.locals =~= pre.locals.update(
                    worker_id as int,
                    pre.locals[worker_id as int].drop_first(),
                ));
                return r;
            }
            assert(self@.locals =~= pre.locals);
        }
        if !contention.global {
            let r = self.global.pop_front();
            if r.is_some() {
                return r;
            }
        }
        self.steal_work(worker_id, contention)
    }

    /// Whether some free queue holds a task. The answer describes the moment
    /// of the call and the queues that were free then; it is a probe, not a
    /// promise about a later call.
    pub fn has_work(&self, contention: &Contention) -> (b: bool)
        ensures
            b == self@.has_work(*contention),
    {
        if !contention.global && self.global.len() > 0 {
            return true;
        }
        let n = self.workers.len();
        let mut i: usize = 0;
        while i < n
            invariant
                i <= n,
                n == self@.locals.len(),
                forall|j: int| 0 <= j < i ==> !self@.available(*contention, j),
            decreases n - i,
        {
            if !contention.is_local_held(i) && self.workers[i].len() > 0 {
                assert(self@.available(*contention, i as int));
                return true;
            }
            i += 1;
        }
        false
    }
}

impl<T> Queues<T> {
    /// `victim_from` finds the first free, non-empty queue at or after
    /// `start` that is not the thief's own, and finds none only where there
    /// is none.
    pub proof fn lemma_victim_from(self, w: int, c: Contention, start: int)
        requires
            0 <= start,
        ensures
            match self.victim_from(w, c, start) {
                Some(v) => {
                    &&& start <= v < self.locals.len()
                    &&& v != w
                    &&& self.available(c, v)
                    &&& forall|j: int| start <= j < v && j != w ==> !self.available(c, j)
                },
                None => forall|j: int| start <= j && j != w ==> !self.available(c, j),
            },
        decreases self.locals.len() - start,
    {
        if start < self.locals.len() && !(start != w && self.available(c, start)) {
            self.lemma_victim_from(w, c, start + 1);
        }
    }

    /// A worker finds a task exactly when some free queue holds one.
    pub proof fn lemma_find_work_finds(self, w: int, c: Contention)
        requires
            0 <= w < self.locals.len(),
        ensures
            self.find_work(w, c).0 is Some <==> self.has_work(c),
    {
        self.lemma_victim_from(w, c, 0);
    }

    /// The queues with the local queue of worker `i` replaced by `q`.
    pub open spec fn with_local(self, i: int, q: Seq<T>) -> Queues<T> {
        Queues { locals: self.locals.update(i, q), ..self }
    }

    /// Replacing one local queue exchanges that queue's tasks for the new
    /// queue's tasks and leaves the others as they were.
    proof fn lemma_with_local_tasks(self, i: int, q: Seq<T>, n: int)
        requires
            0 <= i < self.locals.len(),
            0 <= n <= self.locals.len(),
        ensures
            n <= i ==> self.with_local(i, q).local_tasks(n) == self.local_tasks(n),
            n > i ==> self.with_local(i, q).local_tasks(n).add(self.locals[i].to_multiset())
                == self.local_tasks(n).add(q.to_multiset()),
        decreases n,
    {
        if n > 0 {
            let other = self.with_local(i, q);
            self.lemma_with_local_tasks(i, q, n - 1);
            if n - 1 > i {
                let a = self.local_tasks(n - 1);
                let b = other.local_tasks(n - 1);
                let l = self.locals[i].to_multiset();
                let qm = q.to_multiset();
                let last = self.locals[n - 1].to_multiset();
                assert forall|v: T|
                    b.add(last).add(l).count(v) == #[trigger] a.add(last).add(qm).count(v) by {
                    assert(b.add(l).count(v) == a.add(qm).count(v));
                }
            }
        }
    }

    /// A local queue that gains one task adds that task, once, to the tasks
    /// of the local queues.
    proof fn lemma_local_gains(self, i: int, q: Seq<T>, task: T)
        requires
            0 <= i < self.locals.len(),
            q.to_multiset() == self.locals[i].to_multiset().insert(task),
        ensures
            self.with_local(i, q).local_tasks(self.locals.len() as int) == self.local_tasks(
                self.locals.len() as int,
            ).insert(task),
    {
        let n = self.locals.len() as int;
        let after = self.with_local(i, q).local_tasks(n);
        let before = self.local_tasks(n);
        let l = self.locals[i].to_multiset();
        self.lemma_with_local_tasks(i, q, n);
        assert forall|v: T| after.count(v) == #[trigger] before.insert(task).count(v) by {
            assert(after.add(l).count(v) == before.add(q.to_multiset()).count(v));
        }
    }

    /// A local queue that gives up one task takes that task, once, from the
    /// tasks of the local queues.
    proof fn lemma_local_loses(self, i: int, q: Seq<T>, task: T)
        requires
            0 <= i < self.locals.len(),
            self.locals[i].to_multiset() == q.to_multiset().insert(task),
        ensures
            self.local_tasks(self.locals.len() as int) == self.with_local(i, q).local_tasks(
                self.locals.len() as int,
            ).insert(task),
    {
        let n = self.locals.len() as int;
        let after = self.with_local(i, q).local_tasks(n);
        let before = self.local_tasks(n);
        let l = self.locals[i].to_multiset();
        self.lemma_with_local_tasks(i, q, n);
        assert forall|v: T| before.count(v) == #[trigger] after.insert(task).count(v) by {
            assert(after.add(l).count(v) == before.add(q.to_multiset()).count(v));
        }
    }

    /// A sequence holds its first element and the rest, and its last element
    /// and the rest.
    proof fn lemma_ends(q: Seq<T>)
        requires
            q.len() > 0,
        ensures
            q.to_multiset() == q.drop_first().to_multiset().insert(q.first()),
            q.to_multiset() == q.drop_last().to_multiset().insert(q.last()),
    {
        broadcast use vstd::seq_lib::to_multiset_build;

        assert(q =~= q.drop_last().push(q.last()));
        q.to_multiset_ensures();
        assert(q.drop_first() =~= q.remove(0));
    }

    /// Scheduling loses and duplicates nothing: afterwards the queues hold
    /// what they held before and the new task, once.
    pub proof fn lemma_schedule_adds_one(self, task: T, c: Contention)
        requires
            self.locals.len() > 0,
        ensures
            self.schedule(task, c).tasks() == self.tasks().insert(task),
            self.schedule(task, c).locals.len() == self.locals.len(),
    {
        broadcast use vstd::seq_lib::to_multiset_build;

        let n = self.locals.len() as int;
        let w = self.target();
        let after = self.schedule(task, c);
        vstd::arithmetic::div_mod::lemma_mod_pos_bound(self.next as int, n);
        if c.local_held(w) {
            after.lemma_same_locals(self, n);
        } else {
            let q = self.locals[w].push(task);
            self.lemma_local_gains(w, q, task);
            after.lemma_same_locals(self.with_local(w, q), n);
        }
    }

    /// The tasks of the local queues depend on the local queues alone.
    proof fn lemma_same_locals(self, other: Queues<T>, n: int)
        requires
            self.locals == other.locals,
        ensures
            self.local_tasks(n) == other.local_tasks(n),
        decreases n,
    {
        if 0 < n <= self.locals.len() {
            self.lemma_same_locals(other, n - 1);
        }
    }

    /// Finding work loses and duplicates nothing: the task that is handed out
    /// leaves the queues once, every other task stays, and where nothing is
    /// handed out nothing changes.
    pub proof fn lemma_find_work_takes_one(self, w: int, c: Contention)
        requires
            0 <= w < self.locals.len(),
        ensures
            self.find_work(w, c).1.locals.len() == self.locals.len(),
            self.find_work(w, c).1.next == self.next,
            match self.find_work(w, c).0 {
                Some(task) => self.tasks() == self.find_work(w, c).1.tasks().insert(task),
                None => self.find_work(w, c).1 == self,
            },
    {
        let n = self.locals.len() as int;
        let after = self.find_work(w, c).1;
        if self.available(c, w) {
            let q = self.locals[w];
            Self::lemma_ends(q);
            self.lemma_local_loses(w, q.drop_first(), q.first());
            after.lemma_same_locals(self.with_local(w, q.drop_first()), n);
        } else if self.global_available(c) {
            Self::lemma_ends(self.global);
            after.lemma_same_locals(self, n);
        } else {
            self.lemma_victim_from(w, c, 0);
            match self.victim_from(w, c, 0) {
                Some(v) => {
                    let q = self.locals[v];
                    Self::lemma_ends(q);
                    self.lemma_local_loses(v, q.drop_last(), q.last());
                    after.lemma_same_locals(self.with_local(v, q.drop_last()), n);
                },
                None => {},
            }
        }
    }

    /// No starvation by placement: where the thief's own queue and the
    /// global queue offer nothing and another worker's free queue holds
    /// tasks, the thief gets the newest task of the first such queue.
    pub proof fn lemma_idle_worker_steals(self, w: int, c: Contention, v: int)
        requires
            0 <= w < self.locals.len(),
            v != w,
            self.available(c, v),
            !self.available(c, w),
            !self.global_available(c),
            forall|j: int| 0 <= j < v && j != w ==> !self.available(c, j),
        ensures
            self.find_work(w, c) == (
                Some(self.locals[v].last()),
                self.with_local(v, self.locals[v].drop_last()),
            ),
    {
        self.lemma_victim_from(w, c, 0);
    }

    /// Queues that are all empty hold no task.
    pub proof fn lemma_empty_queues(self)
        requires
            self.global.len() == 0,
            forall|i: int| 0 <= i < self.locals.len() ==> (#[trigger] self.locals[i]).len() == 0,
        ensures
            self.tasks() == Multiset::<T>::empty(),
    {
        self.lemma_empty_locals(self.locals.len() as int);
        assert(self.global.to_multiset().len() == 0) by {
            self.global.to_multiset_ensures();
        }
    }

    /// Local queues that are all empty hold no task.
    proof fn lemma_empty_locals(self, n: int)
        requires
            forall|i: int| 0 <= i < self.locals.len() ==> (#[trigger] self.locals[i]).len() == 0,
        ensures
            self.local_tasks(n) == Multiset::<T>::empty(),
        decreases n,
    {
        if 0 < n <= self.locals.len() {
            self.lemma_empty_locals(n - 1);
            self.locals[n - 1].to_multiset_ensures();
        }
    }

    /// A task in one of the local queues `0..n` is among their tasks.
    proof fn lemma_local_task_counted(self, i: int, n: int, task: T)
        requires
            0 <= i < n <= self.locals.len(),
            self.locals[i].contains(task),
        ensures
            self.local_tasks(n).count(task) > 0,
        decreases n,
    {
        if i == n - 1 {
            self.locals[i].to_multiset_ensures();
        } else {
            self.lemma_local_task_counted(i, n - 1, task);
        }
    }

    /// Where no queue is held, there is work exactly when a task is queued.
    pub proof fn lemma_free_work(self, c: Contention)
        requires
            !c.global,
            forall|i: int| !c.local_held(i),
        ensures
            self.has_work(c) <==> self.tasks().len() > 0,
    {
        if self.has_work(c) {
            if self.global_available(c) {
                self.global.to_multiset_ensures();
            } else {
                let i = choose|i: int| self.available(c, i);
                self.lemma_local_task_counted(i, self.locals.len() as int, self.locals[i][0]);
            }
        } else {
            assert forall|i: int| 0 <= i < self.locals.len() implies (
            #[trigger] self.locals[i]).len() == 0 by {
                assert(!self.available(c, i));
            }
            self.lemma_empty_queues();
        }
    }

    /// The queues after `tasks` were scheduled one after the other, each
    /// under the contention of its moment.
    pub open spec fn schedule_all(self, tasks: Seq<T>, held: Seq<Contention>) -> Queues<T>
        recommends
            held.len() == tasks.len(),
        decreases tasks.len(),
    {
        if tasks.len() == 0 {
            self
        } else {
            self.schedule_all(tasks.drop_last(), held.drop_last()).schedule(
                tasks.last(),
                held.last(),
            )
        }
    }

    /// What a course of searches finds, as a multiset, and the queues after
    /// it.
    pub open spec fn search_all(self, searches: Seq<Search>) -> (Multiset<T>, Queues<T>)
        decreases searches.len(),
    {
        if searches.len() == 0 {
            (Multiset::empty(), self)
        } else {
            let (found, queues) = self.search_all(searches.drop_last());
            let step = queues.find_work(searches.last().worker, searches.last().held);
            match step.0 {
                Some(task) => (found.insert(task), step.1),
                None => (found, step.1),
            }
        }
    }

    /// However the tasks are scheduled, the queues then hold what they held
    /// and each of the tasks, once.
    pub proof fn lemma_schedule_all(self, tasks: Seq<T>, held: Seq<Contention>)
        requires
            self.locals.len() > 0,
            held.len() == tasks.len(),
        ensures
            self.schedule_all(tasks, held).tasks() == self.tasks().add(tasks.to_multiset()),
            self.schedule_all(tasks, held).locals.len() == self.locals.len(),
        decreases tasks.len(),
    {
        broadcast use vstd::seq_lib::to_multiset_build;

        if tasks.len() == 0 {
            tasks.to_multiset_ensures();
        } else {
            let before = self.schedule_all(tasks.drop_last(), held.drop_last());
            self.lemma_schedule_all(tasks.drop_last(), held.drop_last());
            before.lemma_schedule_adds_one(tasks.last(), held.last());
            assert(tasks =~= tasks.drop_last().push(tasks.last()));
        }
    }

    /// Whatever the course of searches, every task is either found, once, or
    /// still queued: none is lost and none is handed out twice.
    pub proof fn lemma_search_all(self, searches: Seq<Search>)
        requires
            forall|k: int|
                0 <= k < searches.len() ==> 0 <= (#[trigger] searches[k]).worker
                    < self.locals.len(),
        ensures
            self.search_all(searches).0.add(self.search_all(searches).1.tasks()) == self.tasks(),
            self.search_all(searches).1.locals.len() == self.locals.len(),
        decreases searches.len(),
    {
        if searches.len() > 0 {
            let rest = searches.drop_last();
            let queues = self.search_all(rest).1;
            assert forall|k: int| 0 <= k < rest.len() implies 0 <= (#[trigger] rest[k]).worker
                < self.locals.len() by {}
            self.lemma_search_all(rest);
            let last = searches[searches.len() - 1];
            queues.lemma_find_work_takes_one(last.worker, last.held);
        }
    }

    /// No starvation: where no queue is held, every search finds a task as
    /// long as one is queued, whichever worker searches and wherever the
    /// tasks were put. So a course of at least as many searches as there are
    /// tasks finds every task and leaves the queues empty.
    pub proof fn lemma_free_searches_drain(self, searches: Seq<Search>)
        requires
            forall|k: int|
                0 <= k < searches.len() ==> 0 <= (#[trigger] searches[k]).worker
                    < self.locals.len(),
            forall|k: int|
                0 <= k < searches.len() ==> !(#[trigger] searches[k]).held.global && forall|i: int|
                    !searches[k].held.local_held(i),
        ensures
            self.search_all(searches).1.tasks().len() == (if searches.len() >= self.tasks().len() {
                0
            } else {
                self.tasks().len() - searches.len()
            }),
            searches.len() >= self.tasks().len() ==> self.search_all(searches).0 == self.tasks(),
        decreases searches.len(),
    {
        broadcast use vstd::multiset::lemma_insert_len;

        self.lemma_search_all(searches);
        if searches.len() > 0 {
            let rest = searches.drop_last();
            let queues = self.search_all(rest).1;
            assert forall|k: int| 0 <= k < rest.len() implies 0 <= (#[trigger] rest[k]).worker
                < self.locals.len() && !rest[k].held.global && (forall|i: int|
                !rest[k].held.local_held(i)) by {}
            self.lemma_free_searches_drain(rest);
            self.lemma_search_all(rest);
            let last = searches[searches.len() - 1];
            queues.lemma_free_work(last.held);
            queues.lemma_find_work_finds(last.worker, last.held);
            queues.lemma_find_work_takes_one(last.worker, last.held);
        }
    }

    /// One who finds every queue held finds no work and changes nothing.
    pub proof fn lemma_held_search_is_fruitless(self, w: int, c: Contention)
        requires
            c.global,
            forall|i: int| 0 <= i < self.locals.len() ==> c.local_held(i),
        ensures
            self.find_work(w, c) == (None::<T>, self),
            !self.has_work(c),
    {
        self.lemma_victim_from(w, c, 0);
    }

    /// Tasks that were scheduled past held queues stand at the back of the
    /// global queue in the order in which they came; the local queues are
    /// as they were, and nothing is lost or doubled.
    pub proof fn lemma_absorbed(self, tasks: Seq<T>)
        ensures
            self.absorbed(tasks).global == self.global + tasks,
            self.absorbed(tasks).locals == self.locals,
            self.absorbed(tasks).tasks() == self.tasks().add(tasks.to_multiset()),
        decreases tasks.len(),
    {
        broadcast use vstd::seq_lib::to_multiset_build;

        let n = self.locals.len() as int;
        if tasks.len() == 0 {
            tasks.to_multiset_ensures();
        } else {
            let rest = tasks.drop_last();
            self.lemma_absorbed(rest);
            let before = self.absorbed(rest);
            assert(tasks =~= rest.push(tasks.last()));
            let after = self.absorbed(tasks);
            after.lemma_same_locals(before, n);
            assert(after.tasks() =~= before.tasks().insert(tasks.last()));
        }
    }
}

/// One search for work: the worker that searches and the queues it finds
/// held.
pub ghost struct Search {
    pub worker: int,
    pub held: Contention,
}

} // verus!
