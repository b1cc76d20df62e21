//! The outcome slot shared by a running task and the handle that observes it.

use vstd::prelude::*;

verus! {

/// The reason a task ended without a value.
#[derive(Debug, Clone)]
pub struct JoinError {
    message: String,
}

impl View for JoinError {
    type V = Seq<char>;

    closed spec fn view(&self) -> Seq<char> {
        self.message@
    }
}

impl JoinError {
    /// A failure that carries `message`.
    pub fn new(message: &str) -> (e: Self)
        ensures
            e@ == message@,
    {
        JoinError { message: message.to_owned() }
    }

    /// The text of the failure.
    pub fn message(&self) -> (m: &String)
        ensures
            m@ == self@,
    {
        &self.message
    }

    /// The failure as it is shown to a reader: its message, unchanged.
    pub fn to_text(&self) -> (s: String)
        ensures
            s@ == self@,
    {
        self.message.clone()
    }
}

/// Where a slot stands in its life. A slot only ever moves forward:
/// `Pending`, then `Ready`, then `Consumed`.
#[derive(Debug, Clone, Copy, PartialEq, Eq, Structural)]
pub enum SlotState {
    /// The task has not finished; there is nothing to read.
    Pending,
    /// The task has finished and its outcome waits to be read.
    Ready,
    /// The task has finished and its outcome was taken out.
    Consumed,
}

/// The record of one task's outcome and its completion flag.
///
/// The outcome is written once and can be looked at any number of times. It
/// leaves the slot when the one who waited for the task takes it; the
/// completion flag stays set for good.
pub struct TaskControl<T> {
    result: Option<Result<T, JoinError>>,
    completed: bool,
}

impl<T> TaskControl<T> {
    /// The flag never runs ahead of the outcome: an unfinished slot is empty.
    pub closed spec fn wf(&self) -> bool {
        !self.completed ==> self.result is None
    }

    /// Whether the completion flag is set.
    pub closed spec fn completed(&self) -> bool {
        self.completed
    }

    /// The outcome that a reader would get now, if any.
    pub closed spec fn outcome(&self) -> Option<Result<T, JoinError>> {
        self.result
    }

    /// The slot's place in its life, read off the flag and the outcome.
    pub open spec fn state(&self) -> SlotState {
        if !self.completed() {
            SlotState::Pending
        } else if self.outcome() is Some {
            SlotState::Ready
        } else {
            SlotState::Consumed
        }
    }

    /// A slot for a task that has not finished.
    pub fn new() -> (slot: Self)
        ensures
            slot.wf(),
            slot.state() == SlotState::Pending,
            slot.outcome() is None,
    {
        TaskControl { result: None, completed: false }
    }

    /// Records the task's outcome and sets the completion flag. The outcome is
    /// written at most once: on a slot that is already complete the call
    /// changes nothing and `result` is dropped.
    pub fn complete(&mut self, result: Result<T, JoinError>)
        requires
            old(self).wf(),
        ensures
            final(self).wf(),
            final(self).completed(),
            old(self).state() == SlotState::Pending ==> final(self).outcome() == Some(result),
            old(self).state() == SlotState::Pending ==> final(self).state() == SlotState::Ready,
            old(self).state() != SlotState::Pending ==> *final(self) == *old(self),
    {
        if !self.completed {
            self.result = Some(result);
            self.completed = true;
        }
    }

    /// Looks at the outcome without waiting and without taking it: `None`
    /// while the task runs, the outcome from completion on. The outcome stays
    /// in the slot, so every read after completion sees it, until it is taken
    /// out by `take_result` or `poll`.
    pub fn try_result(&self) -> (r: Option<&Result<T, JoinError>>)
        requires
            self.wf(),
        ensures
            r is Some <==> self.state() == SlotState::Ready,
            r is Some ==> Some(*r.unwrap()) == self.outcome(),
    {
        self.result.as_ref()
    }

    /// Takes the outcome out of the slot, for the one who waited for it:
    /// `None` while the task runs, the outcome once after completion, `None`
    /// from then on.
    pub fn take_result(&mut self) -> (r: Option<Result<T, JoinError>>)
        requires
            old(self).wf(),
        ensures
            final(self).wf(),
            r == old(self).outcome(),
            r is Some <==> old(self).state() == SlotState::Ready,
            final(self).completed() == old(self).completed(),
            final(self).outcome() is None,
            old(self).state() == SlotState::Pending ==> final(self).state() == SlotState::Pending,
            old(self).state() != SlotState::Pending ==> final(self).state() == SlotState::Consumed,
    {
        if self.completed {
            self.result.take()
        } else {
            None
        }
    }

    /// One poll of a wait for the outcome: ready with the outcome, which
    /// leaves the slot, where there is one, and pending otherwise.
    pub fn poll(&mut self) -> (r: Poll<Result<T, JoinError>>)
        requires
            old(self).wf(),
        ensures
            final(self).wf(),
            r == (match old(self).outcome() {
                Some(outcome) => Poll::Ready(outcome),
                None => Poll::Pending,
            }),
            r is Ready <==> old(self).state() == SlotState::Ready,
            final(self).completed() == old(self).completed(),
            final(self).outcome() is None,
    {
        match self.take_result() {
            Some(outcome) => Poll::Ready(outcome),
            None => Poll::Pending,
        }
    }

    /// Whether the task has finished.
    pub fn is_finished(&self) -> (b: bool)
        ensures
            b == self.completed(),
            b == (self.state() != SlotState::Pending),
    {
        self.completed
    }
}

/// What one poll of a suspendable computation yields.
#[derive(Debug, Clone, Copy, PartialEq, Eq)]
pub enum Poll<T> {
    /// The computation has finished with this value.
    Ready(T),
    /// The computation is suspended until it is woken.
    Pending,
}

/// The outcome slot of a task together with the wakeup of whoever waits for
/// the outcome. The one who waits parks its wakeup here with a pending poll;
/// the task, when it completes, gets the wakeup back and invokes it. Nobody
/// is parked at a slot that is complete.
pub struct JoinCell<T, W> {
    slot: TaskControl<T>,
    waiter: Option<W>,
}

impl<T, W> JoinCell<T, W> {
    /// The outcome slot.
    pub closed spec fn slot(&self) -> TaskControl<T> {
        self.slot
    }

    /// The wakeup that is parked, if any.
    pub closed spec fn waiter(&self) -> Option<W> {
        self.waiter
    }

    /// The slot is well formed, and a complete slot has nobody parked.
    pub open spec fn wf(&self) -> bool {
        self.slot().wf() && (self.slot().completed() ==> self.waiter() is None)
    }

    /// A cell for a task that has not finished, with nobody waiting.
    pub fn new() -> (cell: Self)
        ensures
            cell.wf(),
            cell.slot().state() == SlotState::Pending,
            cell.waiter() is None,
    {
        JoinCell { slot: TaskControl::new(), waiter: None }
    }

    /// Records the task's outcome, once, and hands back the wakeup of the
    /// one who waits, for the caller to invoke: whoever was parked by a
    /// pending poll is woken by the completion and by nothing else.
    pub fn complete(&mut self, result: Result<T, JoinError>) -> (wake: Option<W>)
        requires
            old(self).wf(),
        ensures
            final(self).wf(),
            final(self).slot().completed(),
            final(self).waiter() is None,
            wake == old(self).waiter(),
            old(self).slot().state() == SlotState::Pending ==> final(self).slot().outcome()
                == Some(result) && final(self).slot().state() == SlotState::Ready,
            old(self).slot().state() != SlotState::Pending ==> final(self).slot() == old(
                self,
            ).slot(),
    {
        self.slot.complete(result);
        self.waiter.take()
    }

    /// One poll of the wait for the outcome. Where the outcome is there, the
    /// poll is ready with it and the outcome leaves the slot. While the task
    /// runs, the poll is pending and parks `waker`, in place of a wakeup
    /// parked before. At a slot whose outcome was taken the poll is pending
    /// and parks nothing: the wait has ended.
    pub fn poll(&mut self, waker: W) -> (r: Poll<Result<T, JoinError>>)
        requires
            old(self).wf(),
        ensures
            final(self).wf(),
            r == (match old(self).slot().outcome() {
                Some(outcome) => Poll::Ready(outcome),
                None => Poll::Pending,
            }),
            r is Ready <==> old(self).slot().state() == SlotState::Ready,
            final(self).slot().completed() == old(self).slot().completed(),
            final(self).slot().outcome() is None,
            final(self).waiter() == (if old(self).slot().state() == SlotState::Pending {
                Some(waker)
            } else {
                None
            }),
    {
        if self.slot.is_finished() {
            self.slot.poll()
        } else {
            self.waiter = Some(waker);
            Poll::Pending
        }
    }

    /// Looks at the outcome without waiting and without taking it.
    pub fn try_result(&self) -> (r: Option<&Result<T, JoinError>>)
        requires
            self.wf(),
        ensures
            r is Some <==> self.slot().state() == SlotState::Ready,
            r is Some ==> Some(*r.unwrap()) == self.slot().outcome(),
    {
        self.slot.try_result()
    }

    /// Takes the outcome out of the slot; whoever is parked stays parked.
    pub fn take_result(&mut self) -> (r: Option<Result<T, JoinError>>)
        requires
            old(self).wf(),
        ensures
            final(self).wf(),
            r == old(self).slot().outcome(),
            r is Some <==> old(self).slot().state() == SlotState::Ready,
            final(self).slot().completed() == old(self).slot().completed(),
            final(self).slot().outcome() is None,
            final(self).waiter() == old(self).waiter(),
    {
        self.slot.take_result()
    }

    /// Whether the task has finished.
    pub fn is_finished(&self) -> (b: bool)
        ensures
            b == self.slot().completed(),
    {
        self.slot.is_finished()
    }
}

/// Where a task stands between its spawn and its end.
#[derive(Debug, Clone, Copy, PartialEq, Eq, Structural)]
pub enum TaskState {
    /// The task waits in a queue for a worker.
    Queued,
    /// A worker polls the task.
    Running,
    /// A worker polls the task, and a wakeup for it came meanwhile.
    Notified,
    /// The task is parked: it is in no queue and no worker holds it, until a
    /// wakeup comes.
    Suspended,
    /// The task has run to its end.
    Completed,
}

/// What becomes of a task after one poll.
#[derive(Debug, Clone, Copy, PartialEq, Eq, Structural)]
pub enum AfterPoll {
    /// The task has run to its end.
    Finished,
    /// The task is parked until its wakeup comes; the worker is free.
    Parked,
    /// The task goes back into a queue at once, because its wakeup came
    /// while it was polled; the worker is free.
    Requeue,
}

impl TaskState {
    /// The state after a worker took the task from a queue, and whether the
    /// worker is to poll it: only a queued task is polled.
    pub open spec fn taken(self) -> (TaskState, bool) {
        match self {
            TaskState::Queued => (TaskState::Running, true),
            _ => (self, false),
        }
    }

    /// The state after a wakeup, and whether the wakeup puts the task into a
    /// queue: it does so for a parked task only. For a task under poll the
    /// wakeup is noted, and for a queued or completed task it changes
    /// nothing.
    pub open spec fn woken(self) -> (TaskState, bool) {
        match self {
            TaskState::Suspended => (TaskState::Queued, true),
            TaskState::Running => (TaskState::Notified, false),
            _ => (self, false),
        }
    }

    /// The state after a poll that found the task finished or not, and what
    /// becomes of the task. A task that is not under poll stays as it is.
    pub open spec fn polled(self, finished: bool) -> (TaskState, AfterPoll) {
        match self {
            TaskState::Running => if finished {
                (TaskState::Completed, AfterPoll::Finished)
            } else {
                (TaskState::Suspended, AfterPoll::Parked)
            },
            TaskState::Notified => if finished {
                (TaskState::Completed, AfterPoll::Finished)
            } else {
                (TaskState::Queued, AfterPoll::Requeue)
            },
            _ => (self, AfterPoll::Parked),
        }
    }

    /// The state of a task that was just spawned: queued.
    pub fn new() -> (s: Self)
        ensures
            s == TaskState::Queued,
    {
        TaskState::Queued
    }

    /// Notes that a worker took the task from a queue, and says whether the
    /// worker is to poll it.
    pub fn begin_poll(&mut self) -> (run: bool)
        ensures
            (*final(self), run) == old(self).taken(),
    {
        match *self {
            TaskState::Queued => {
                *self = TaskState::Running;
                true
            },
            _ => false,
        }
    }

    /// Notes a wakeup, and says whether the caller is to put the task into a
    /// queue.
    pub fn wake(&mut self) -> (enqueue: bool)
        ensures
            (*final(self), enqueue) == old(self).woken(),
    {
        match *self {
            TaskState::Suspended => {
                *self = TaskState::Queued;
                true
            },
            TaskState::Running => {
                *self = TaskState::Notified;
                false
            },
            _ => false,
        }
    }

    /// Notes the end of one poll, and says what becomes of the task. A task
    /// that has not finished never keeps its worker: it is parked, or queued
    /// again.
    pub fn end_poll(&mut self, finished: bool) -> (after: AfterPoll)
        ensures
            (*final(self), after) == old(self).polled(finished),
    {
        match *self {
            TaskState::Running => {
                if finished {
                    *self = TaskState::Completed;
                    AfterPoll::Finished
                } else {
                    *self = TaskState::Suspended;
                    AfterPoll::Parked
                }
            },
            TaskState::Notified => {
                if finished {
                    *self = TaskState::Completed;
                    AfterPoll::Finished
                } else {
                    *self = TaskState::Queued;
                    AfterPoll::Requeue
                }
            },
            _ => AfterPoll::Parked,
        }
    }
}

/// What happens to a task.
pub ghost enum TaskEvent {
    /// A worker takes the task from a queue.
    Take,
    /// A wakeup for the task is invoked.
    Wake,
    /// A poll of the task ends; the flag says whether the task has finished.
    Polled(bool),
}

/// The life of a task so far: its state, how often it was put into a queue
/// and how often it was taken out of one to be polled.
pub ghost struct TaskLife {
    pub state: TaskState,
    pub enqueued: nat,
    pub dequeued: nat,
}

impl TaskLife {
    /// The life of a task that was just spawned: queued, and put into a
    /// queue once.
    pub open spec fn spawned() -> TaskLife {
        TaskLife { state: TaskState::Queued, enqueued: 1, dequeued: 0 }
    }

    /// The life after one more event. A worker that takes the task out of a
    /// queue takes it out whether it goes on to poll it or not, and only a
    /// queued task is in a queue to be taken.
    pub open spec fn step(self, event: TaskEvent) -> TaskLife {
        match event {
            TaskEvent::Take => TaskLife {
                state: self.state.taken().0,
                enqueued: self.enqueued,
                dequeued: if self.state.taken().1 {
                    self.dequeued + 1
                } else {
                    self.dequeued
                },
            },
            TaskEvent::Wake => TaskLife {
                state: self.state.woken().0,
                enqueued: if self.state.woken().1 {
                    self.enqueued + 1
                } else {
                    self.enqueued
                },
                dequeued: self.dequeued,
            },
            TaskEvent::Polled(finished) => TaskLife {
                state: self.state.polled(finished).0,
                enqueued: if self.state.polled(finished).1 == AfterPoll::Requeue {
                    self.enqueued + 1
                } else {
                    self.enqueued
                },
                dequeued: self.dequeued,
            },
        }
    }

    /// The life after the events, taken in order.
    pub open spec fn run(self, events: Seq<TaskEvent>) -> TaskLife
        decreases events.len(),
    {
        if events.len() == 0 {
            self
        } else {
            self.run(events.drop_last()).step(events.last())
        }
    }

    /// The task is in a queue exactly when its state says so, and then once.
    pub open spec fn in_one_place(self) -> bool {
        self.enqueued == self.dequeued + (if self.state == TaskState::Queued {
            1nat
        } else {
            0nat
        })
    }

    /// A task is never in two queues, and never in a queue while a worker
    /// polls it or while it is parked: whatever happens to a spawned task,
    /// it stands in a queue once while it is queued and not at all
    /// otherwise.
    pub proof fn lemma_in_one_place(events: Seq<TaskEvent>)
        ensures
            TaskLife::spawned().run(events).in_one_place(),
        decreases events.len(),
    {
        if events.len() > 0 {
            Self::lemma_in_one_place(events.drop_last());
        }
    }

    /// A completed task stays completed and is never queued again: a wakeup
    /// that comes late for it is harmless.
    pub proof fn lemma_completed_is_final(self, event: TaskEvent)
        requires
            self.state == TaskState::Completed,
        ensures
            self.step(event) == self,
    {
    }

    /// A parked task is brought back by its wakeup: the wakeup queues it,
    /// the worker that takes it polls it.
    pub proof fn lemma_wakeup_resumes(self)
        requires
            self.state == TaskState::Suspended,
        ensures
            self.step(TaskEvent::Wake).state == TaskState::Queued,
            self.step(TaskEvent::Wake).enqueued == self.enqueued + 1,
            self.step(TaskEvent::Wake).step(TaskEvent::Take).state == TaskState::Running,
    {
    }

    /// No wakeup is lost: one that comes while the task is polled queues
    /// the task again when that poll ends without the task's end.
    pub proof fn lemma_wakeup_during_poll(self)
        requires
            self.state == TaskState::Running,
        ensures
            self.step(TaskEvent::Wake).step(TaskEvent::Polled(false)).state == TaskState::Queued,
            self.step(TaskEvent::Wake).step(TaskEvent::Polled(false)).enqueued == self.enqueued
                + 1,
    {
    }
}

} // verus!
