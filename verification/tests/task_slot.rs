use cycle::task::{AfterPoll, JoinCell, JoinError, Poll, TaskControl, TaskState};

#[test]
fn slot_is_pending_until_completed() {
    let mut slot: TaskControl<u32> = TaskControl::new();
    assert!(!slot.is_finished());
    assert!(slot.try_result().is_none());
    assert!(slot.take_result().is_none());
    slot.complete(Ok(7));
    assert!(slot.is_finished());
    match slot.try_result() {
        Some(Ok(v)) => assert_eq!(*v, 7),
        _ => panic!("the outcome was not readable after completion"),
    }
}

#[test]
fn outcome_stays_readable_until_taken() {
    let mut slot: TaskControl<u32> = TaskControl::new();
    slot.complete(Ok(1));
    for _ in 0..3 {
        assert!(matches!(slot.try_result(), Some(Ok(1))));
    }
    assert!(matches!(slot.take_result(), Some(Ok(1))));
    assert!(slot.try_result().is_none());
    assert!(slot.take_result().is_none());
    assert!(slot.is_finished());
}

#[test]
fn outcome_is_written_once() {
    let mut slot: TaskControl<u32> = TaskControl::new();
    slot.complete(Ok(1));
    slot.complete(Ok(2));
    match slot.try_result() {
        Some(Ok(v)) => assert_eq!(*v, 1),
        _ => panic!("the first outcome was lost"),
    }
    assert!(matches!(slot.take_result(), Some(Ok(1))));
    slot.complete(Err(JoinError::new("late")));
    assert!(slot.try_result().is_none());
}

#[test]
fn join_error_keeps_its_message() {
    let e = JoinError::new("task panicked");
    assert_eq!(e.message(), "task panicked");
    assert_eq!(e.to_text(), "task panicked");
    assert_eq!(e.clone().to_text(), "task panicked");
}

#[test]
fn waiting_for_the_outcome_is_pending_until_completion() {
    let mut slot: TaskControl<&'static str> = TaskControl::new();
    assert!(matches!(slot.poll(), Poll::Pending));
    slot.complete(Ok("done"));
    match slot.poll() {
        Poll::Ready(Ok(v)) => assert_eq!(v, "done"),
        _ => panic!("the wait did not end with the outcome"),
    }
    assert!(matches!(slot.poll(), Poll::Pending));
}

#[test]
fn failure_is_surfaced_as_an_outcome() {
    let mut slot: TaskControl<u8> = TaskControl::new();
    slot.complete(Err(JoinError::new("boom")));
    assert!(slot.is_finished());
    match slot.try_result() {
        Some(Err(e)) => assert_eq!(e.message(), "boom"),
        _ => panic!("the failure was not surfaced"),
    }
}

#[test]
fn completion_hands_back_the_parked_waker() {
    let mut cell: JoinCell<u32, &'static str> = JoinCell::new();
    assert!(matches!(cell.poll("awaiter"), Poll::Pending));
    assert!(!cell.is_finished());
    assert_eq!(cell.complete(Ok(5)), Some("awaiter"));
    assert!(cell.is_finished());
    match cell.poll("awaiter") {
        Poll::Ready(Ok(v)) => assert_eq!(v, 5),
        _ => panic!("the awaiter did not get the outcome"),
    }
}

#[test]
fn completion_without_awaiter_wakes_nobody() {
    let mut cell: JoinCell<u32, u8> = JoinCell::new();
    assert_eq!(cell.complete(Ok(5)), None);
    assert!(matches!(cell.try_result(), Some(Ok(5))));
    // A second completion changes nothing and wakes nobody.
    assert_eq!(cell.complete(Ok(6)), None);
    assert!(matches!(cell.take_result(), Some(Ok(5))));
}

#[test]
fn last_parked_waker_is_the_one_woken() {
    let mut cell: JoinCell<u32, u8> = JoinCell::new();
    assert!(matches!(cell.poll(1), Poll::Pending));
    assert!(matches!(cell.poll(2), Poll::Pending));
    assert_eq!(cell.complete(Err(JoinError::new("boom"))), Some(2));
    match cell.poll(3) {
        Poll::Ready(Err(e)) => assert_eq!(e.message(), "boom"),
        _ => panic!("the failure was not surfaced"),
    }
    // The wait has ended: nothing is parked any more.
    assert!(matches!(cell.poll(4), Poll::Pending));
    assert_eq!(cell.complete(Ok(1)), None);
}

#[test]
fn task_state_follows_poll_park_wake() {
    let mut s = TaskState::new();
    assert_eq!(s, TaskState::Queued);
    assert!(s.begin_poll());
    assert_eq!(s, TaskState::Running);
    assert_eq!(s.end_poll(false), AfterPoll::Parked);
    assert_eq!(s, TaskState::Suspended);
    assert!(s.wake());
    assert_eq!(s, TaskState::Queued);
    // A second wakeup for a queued task queues nothing.
    assert!(!s.wake());
    assert!(s.begin_poll());
    assert_eq!(s.end_poll(true), AfterPoll::Finished);
    assert_eq!(s, TaskState::Completed);
}

#[test]
fn wakeup_during_poll_requeues_the_task() {
    let mut s = TaskState::new();
    assert!(s.begin_poll());
    assert!(!s.wake());
    assert_eq!(s, TaskState::Notified);
    assert!(!s.wake());
    assert_eq!(s.end_poll(false), AfterPoll::Requeue);
    assert_eq!(s, TaskState::Queued);
    assert!(s.begin_poll());
    assert!(!s.wake());
    assert_eq!(s.end_poll(true), AfterPoll::Finished);
    assert_eq!(s, TaskState::Completed);
}

#[test]
fn completed_task_ignores_everything() {
    let mut s = TaskState::new();
    s.begin_poll();
    s.end_poll(true);
    assert!(!s.wake());
    assert!(!s.begin_poll());
    assert_eq!(s.end_poll(false), AfterPoll::Parked);
    assert_eq!(s, TaskState::Completed);
}

#[test]
fn only_a_queued_task_is_polled() {
    let mut s = TaskState::Suspended;
    assert!(!s.begin_poll());
    assert_eq!(s, TaskState::Suspended);
    assert_eq!(s.end_poll(true), AfterPoll::Parked);
    assert_eq!(s, TaskState::Suspended);
}
