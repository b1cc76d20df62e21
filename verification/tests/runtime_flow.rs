use cycle::runtime::{
    default_workers, workers_for, Builder, Deferred, Runtime, RuntimeStats, Worker, WorkerStep,
    IDLE_SLEEP_NANOS, MAX_IDLE,
};
use std::collections::VecDeque;
use cycle::scheduler::Contention;
use cycle::task::{AfterPoll, JoinCell, JoinError, Poll, TaskControl, TaskState};
use cycle::time::{SleepFuture, TimerWheel};

#[test]
fn ten_thousand_tasks_all_complete() {
    let free = Contention::none();
    let workers = 4;
    let n = 10_000u64;
    let mut rt: Runtime<u64> = Runtime::with_workers(workers);
    let mut slots: Vec<TaskControl<u64>> = Vec::new();
    for i in 0..n {
        slots.push(TaskControl::new());
        rt.spawn(i, &free);
    }
    assert_eq!(rt.stats(0).tasks_spawned, n);
    assert_eq!(rt.stats(0).active_tasks, n);
    let mut states: Vec<Worker> = (0..workers).map(|_| Worker::new()).collect();
    let mut idle_in_a_row = 0;
    let mut turn = 0;
    while idle_in_a_row < workers {
        match rt.worker_step(turn, &mut states[turn], &free) {
            WorkerStep::Run(i) => {
                slots[i as usize].complete(Ok(i * 2));
                rt.task_finished();
                idle_in_a_row = 0;
            }
            WorkerStep::Exit => panic!("the runtime was not shut down"),
            WorkerStep::Yield | WorkerStep::Sleep => idle_in_a_row += 1,
        }
        turn = (turn + 1) % workers;
    }
    let mut results = Vec::new();
    for slot in slots.iter_mut() {
        assert!(slot.is_finished());
        match slot.take_result() {
            Some(Ok(v)) => results.push(v),
            _ => panic!("a task was lost"),
        }
    }
    results.sort();
    let expected: Vec<u64> = (0..n).map(|i| i * 2).collect();
    assert_eq!(results, expected);
    let stats = rt.stats(5);
    assert_eq!(stats.tasks_completed, 10_000);
    assert_eq!(stats.tasks_spawned, 10_000);
    assert_eq!(stats.active_tasks, 0);
    assert_eq!(stats.uptime, 5);
}

#[test]
fn failed_task_does_not_affect_the_next() {
    let free = Contention::none();
    let mut rt: Runtime<u32> = Runtime::with_workers(2);
    let mut worker = Worker::new();
    let mut failing: TaskControl<u32> = TaskControl::new();
    let mut healthy: TaskControl<u32> = TaskControl::new();

    rt.spawn(0, &free);
    match rt.worker_step(0, &mut worker, &free) {
        WorkerStep::Run(0) => {
            failing.complete(Err(JoinError::new("task panicked")));
            rt.task_finished();
        }
        _ => panic!("the failing task was not found"),
    }
    match failing.try_result() {
        Some(Err(e)) => assert_eq!(e.to_text(), "task panicked"),
        _ => panic!("the failure was not surfaced"),
    }

    rt.spawn(1, &free);
    match rt.worker_step(0, &mut worker, &free) {
        WorkerStep::Run(1) => {
            healthy.complete(Ok(41 + 1));
            rt.task_finished();
        }
        _ => panic!("the second task was not found"),
    }
    match healthy.try_result() {
        Some(Ok(v)) => assert_eq!(*v, 42),
        _ => panic!("the second task did not complete normally"),
    }
    let stats = rt.stats(0);
    assert_eq!(stats.tasks_spawned, 2);
    assert_eq!(stats.tasks_completed, 2);
    assert_eq!(stats.active_tasks, 0);
}

#[test]
fn distinct_tasks_give_distinct_completions() {
    let free = Contention::none();
    let mut rt: Runtime<u32> = Runtime::with_workers(3);
    for i in 0..50 {
        rt.spawn(i, &free);
    }
    let mut worker = Worker::new();
    let mut seen = Vec::new();
    loop {
        match rt.worker_step(2, &mut worker, &free) {
            WorkerStep::Run(i) => {
                rt.task_finished();
                seen.push(i);
            }
            _ => break,
        }
    }
    assert_eq!(seen.len(), 50);
    seen.sort();
    seen.dedup();
    assert_eq!(seen.len(), 50);
    assert_eq!(rt.stats(0).tasks_completed, rt.stats(0).tasks_spawned);
}

#[test]
fn spawn_does_not_run_the_task() {
    let free = Contention::none();
    let mut rt: Runtime<u32> = Runtime::with_workers(1);
    rt.spawn(3, &free);
    let stats = rt.stats(10);
    assert_eq!(stats.tasks_spawned, 1);
    assert_eq!(stats.active_tasks, 1);
    assert_eq!(stats.tasks_completed, 0);
}

#[test]
fn worker_backs_off_by_yielding_then_sleeping() {
    let free = Contention::none();
    let mut rt: Runtime<u32> = Runtime::with_workers(1);
    let mut worker = Worker::new();
    for _ in 0..(MAX_IDLE - 1) {
        assert_eq!(rt.worker_step(0, &mut worker, &free), WorkerStep::Yield);
    }
    assert_eq!(rt.worker_step(0, &mut worker, &free), WorkerStep::Sleep);
    // The count started again.
    assert_eq!(rt.worker_step(0, &mut worker, &free), WorkerStep::Yield);
    // Work resets the count as well.
    rt.spawn(1, &free);
    assert_eq!(rt.worker_step(0, &mut worker, &free), WorkerStep::Run(1));
    for _ in 0..(MAX_IDLE - 1) {
        assert_eq!(rt.worker_step(0, &mut worker, &free), WorkerStep::Yield);
    }
    assert_eq!(rt.worker_step(0, &mut worker, &free), WorkerStep::Sleep);
}

#[test]
fn worker_idle_counts_to_the_limit() {
    let mut w = Worker::new();
    for _ in 0..999 {
        assert!(!w.idle());
    }
    assert!(w.idle());
    assert!(!w.idle());
    w.busy();
    for _ in 0..999 {
        assert!(!w.idle());
    }
    assert!(w.idle());
}

#[test]
fn backoff_constants() {
    assert_eq!(MAX_IDLE, 1000);
    assert_eq!(IDLE_SLEEP_NANOS, 100_000);
}

#[test]
fn shut_down_runtime_tells_workers_to_exit() {
    let free = Contention::none();
    let mut rt: Runtime<u32> = Runtime::with_workers(2);
    rt.spawn(1, &free);
    assert!(!rt.is_shutdown());
    rt.shutdown();
    assert!(rt.is_shutdown());
    let mut worker = Worker::new();
    assert_eq!(rt.worker_step(0, &mut worker, &free), WorkerStep::Exit);
    assert_eq!(rt.worker_step(1, &mut worker, &free), WorkerStep::Exit);
}

#[test]
fn stats_counters_wrap_like_the_machine() {
    let mut s = RuntimeStats::new();
    assert_eq!(s, RuntimeStats::default());
    s.record_completion();
    assert_eq!(s.tasks_completed, 1);
    assert_eq!(s.active_tasks, u64::MAX);
    s.record_spawn();
    assert_eq!(s.tasks_spawned, 1);
    assert_eq!(s.active_tasks, 0);
    let snap = s.snapshot(123);
    assert_eq!(snap.uptime, 123);
    assert_eq!(snap.tasks_spawned, 1);
    assert_eq!(snap.tasks_completed, 1);
    assert_eq!(snap.active_tasks, 0);
    assert_eq!(snap.io_operations, 0);
    assert_eq!(snap.timer_operations, 0);
}

#[test]
fn default_runtime_has_at_least_one_worker() {
    assert!(default_workers() >= 1);
    let rt: Runtime<u8> = Runtime::new();
    assert!(rt.num_workers() >= 1);
    assert_eq!(rt.num_workers(), default_workers());
    assert_eq!(workers_for(0), 1);
    assert_eq!(workers_for(1), 1);
    assert_eq!(workers_for(16), 16);
}

#[test]
fn builder_keeps_what_was_set() {
    let b = Builder::new();
    assert_eq!(b.configured_workers(), None);
    assert_eq!(b.configured_thread_name(), "cycle-worker");
    assert_eq!(b.configured_stack_size(), None);
    let b = b
        .worker_threads(6)
        .thread_name(String::from("pool"))
        .thread_stack_size(1 << 20)
        .enable_all();
    assert_eq!(b.configured_workers(), Some(6));
    assert_eq!(b.configured_thread_name(), "pool");
    assert_eq!(b.configured_stack_size(), Some(1 << 20));
    assert_eq!(b.workers(2), 6);
    let rt: Runtime<u8> = b.build();
    assert_eq!(rt.num_workers(), 6);
}

#[test]
fn builder_without_worker_count_follows_the_machine() {
    assert_eq!(Builder::new().workers(8), 8);
    assert_eq!(Builder::new().workers(0), 1);
    assert_eq!(Builder::new().worker_threads(0).workers(3), 3);
    assert_eq!(Builder::default().configured_thread_name(), "cycle-worker");
    let rt: Runtime<u8> = Builder::new().build();
    assert_eq!(rt.num_workers(), default_workers());
}

#[test]
fn suspended_task_does_not_occupy_the_worker() {
    // One worker. Task 0 sleeps for 100 ms and gives 1; task 1 gives 2 at
    // once. Time is in nanoseconds and is moved by hand.
    let free = Contention::none();
    let mut rt: Runtime<usize> = Runtime::with_workers(1);
    let mut worker = Worker::new();
    let mut wheel: TimerWheel<usize> = TimerWheel::new();
    let mut states = vec![TaskState::new(), TaskState::new()];
    let mut cells: Vec<JoinCell<u32, u8>> = vec![JoinCell::new(), JoinCell::new()];
    let mut sleep = SleepFuture::new(0, 100_000_000);
    rt.spawn(0, &free);
    rt.spawn(1, &free);

    // The worker polls task 0, which suspends on its timer.
    assert_eq!(rt.worker_step(0, &mut worker, &free), WorkerStep::Run(0));
    assert!(states[0].begin_poll());
    assert_eq!(sleep.poll(0, &mut wheel, 0), Poll::Pending);
    assert_eq!(rt.task_polled(&mut states[0], 0, false, &free), AfterPoll::Parked);
    assert_eq!(states[0], TaskState::Suspended);

    // The worker is free: it polls task 1, which finishes before the
    // deadline of task 0.
    assert_eq!(rt.worker_step(0, &mut worker, &free), WorkerStep::Run(1));
    assert!(states[1].begin_poll());
    assert_eq!(cells[1].complete(Ok(2)), None);
    assert_eq!(rt.task_polled(&mut states[1], 1, true, &free), AfterPoll::Finished);
    assert!(matches!(cells[1].try_result(), Some(Ok(2))));
    assert!(!cells[0].is_finished());
    assert_eq!(rt.worker_step(0, &mut worker, &free), WorkerStep::Yield);

    // The deadline comes: the wheel fires the wakeup, which queues task 0.
    assert!(wheel.pop_expired(99_999_999).is_empty());
    let fired = wheel.pop_expired(100_000_000);
    assert_eq!(fired.len(), 1);
    assert!(rt.wake(&mut states[fired[0].waker], fired[0].waker, &free));
    assert_eq!(rt.worker_step(0, &mut worker, &free), WorkerStep::Run(0));
    assert!(states[0].begin_poll());
    assert_eq!(sleep.poll(100_000_000, &mut wheel, 0), Poll::Ready(()));
    assert_eq!(cells[0].complete(Ok(1)), None);
    assert_eq!(rt.task_polled(&mut states[0], 0, true, &free), AfterPoll::Finished);
    assert!(matches!(cells[0].try_result(), Some(Ok(1))));

    let stats = rt.stats(0);
    assert_eq!(stats.tasks_spawned, 2);
    assert_eq!(stats.tasks_completed, 2);
    assert_eq!(stats.active_tasks, 0);
}

#[test]
fn wakeup_of_a_running_task_queues_it_after_the_poll() {
    let free = Contention::none();
    let mut rt: Runtime<u8> = Runtime::with_workers(2);
    let mut worker = Worker::new();
    let mut state = TaskState::new();
    rt.spawn(7, &free);
    assert_eq!(rt.worker_step(0, &mut worker, &free), WorkerStep::Run(7));
    assert!(state.begin_poll());
    // The wakeup comes while the task is polled: nothing is queued yet.
    assert!(!rt.wake(&mut state, 7, &free));
    assert_eq!(rt.worker_step(1, &mut worker, &free), WorkerStep::Yield);
    // The poll ends without the task's end: the task is queued again, once.
    assert_eq!(rt.task_polled(&mut state, 7, false, &free), AfterPoll::Requeue);
    assert_eq!(rt.worker_step(1, &mut worker, &free), WorkerStep::Run(7));
    assert_eq!(rt.worker_step(1, &mut worker, &free), WorkerStep::Yield);
    assert_eq!(rt.stats(0).tasks_completed, 0);
}

#[test]
fn late_wakeup_of_a_completed_task_is_a_no_op() {
    let free = Contention::none();
    let mut rt: Runtime<u8> = Runtime::with_workers(1);
    let mut worker = Worker::new();
    let mut state = TaskState::new();
    rt.spawn(3, &free);
    assert_eq!(rt.worker_step(0, &mut worker, &free), WorkerStep::Run(3));
    assert!(state.begin_poll());
    assert_eq!(rt.task_polled(&mut state, 3, true, &free), AfterPoll::Finished);
    assert!(!rt.wake(&mut state, 3, &free));
    assert_eq!(rt.worker_step(0, &mut worker, &free), WorkerStep::Yield);
    assert_eq!(rt.stats(0).tasks_completed, 1);
    assert_eq!(rt.stats(0).active_tasks, 0);
}

#[test]
fn contended_worker_backs_off_like_an_idle_one() {
    let mut w = Worker::new();
    for _ in 0..(MAX_IDLE - 1) {
        assert_eq!(w.back_off::<u8>(), WorkerStep::Yield);
    }
    assert_eq!(w.back_off::<u8>(), WorkerStep::Sleep);
    assert_eq!(w.back_off::<u8>(), WorkerStep::Yield);
}

#[test]
fn overflow_is_taken_in_through_the_global_queue() {
    let free = Contention::none();
    let mut rt: Runtime<u32> = Runtime::with_workers(2);
    rt.spawn(1, &free);
    let mut overflow = VecDeque::new();
    overflow.push_back(Deferred::Spawn(10));
    overflow.push_back(Deferred::Requeue(11));
    overflow.push_back(Deferred::Completion);
    overflow.push_back(Deferred::Spawn(12));
    rt.absorb(&mut overflow);
    assert!(overflow.is_empty());
    // Two of the items were spawns, one was a completion.
    let stats = rt.stats(0);
    assert_eq!(stats.tasks_spawned, 3);
    assert_eq!(stats.tasks_completed, 1);
    assert_eq!(stats.active_tasks, 2);
    // Worker 1 has nothing of its own: it finds the overflowed tasks in the
    // global queue, oldest first, before it steals task 1 from worker 0.
    let mut worker = Worker::new();
    assert_eq!(rt.worker_step(1, &mut worker, &free), WorkerStep::Run(10));
    assert_eq!(rt.worker_step(1, &mut worker, &free), WorkerStep::Run(11));
    assert_eq!(rt.worker_step(1, &mut worker, &free), WorkerStep::Run(12));
    assert_eq!(rt.worker_step(1, &mut worker, &free), WorkerStep::Run(1));
    assert_eq!(rt.worker_step(1, &mut worker, &free), WorkerStep::Yield);
    // The turns went on with each queued task: the next one is assigned to
    // worker 0 again.
    rt.spawn(2, &free);
    assert_eq!(rt.worker_step(0, &mut worker, &free), WorkerStep::Run(2));
}

#[test]
fn absorbing_nothing_changes_nothing() {
    let free = Contention::none();
    let mut rt: Runtime<u32> = Runtime::with_workers(1);
    let mut overflow: VecDeque<Deferred<u32>> = VecDeque::new();
    rt.absorb(&mut overflow);
    assert_eq!(rt.stats(0).tasks_spawned, 0);
    let mut worker = Worker::new();
    assert_eq!(rt.worker_step(0, &mut worker, &free), WorkerStep::Yield);
}
