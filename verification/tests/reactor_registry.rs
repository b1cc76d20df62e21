use cycle::reactor::{IoWait, Reactor, Token, EVENT_CAPACITY, POLL_TIMEOUT_NANOS};
use cycle::task::Poll;

#[test]
fn tokens_count_up_from_one() {
    let mut r: Reactor<u8> = Reactor::new();
    assert_eq!(r.allocate_token(), Token(1));
    assert_eq!(r.allocate_token(), Token(2));
    assert_eq!(r.allocate_token(), Token(3));
}

#[test]
fn last_registered_waker_wins() {
    let mut r: Reactor<&'static str> = Reactor::new();
    let t = r.allocate_token();
    r.register_waker(t, "old");
    r.register_waker(t, "new");
    assert_eq!(r.dispatch(&vec![t]), vec!["new"]);
    assert_eq!(r.dispatch(&vec![t]), Vec::<&str>::new());
}

#[test]
fn ready_token_without_waker_is_dropped() {
    let mut r: Reactor<&'static str> = Reactor::new();
    let a = r.allocate_token();
    let b = r.allocate_token();
    r.register_waker(b, "b");
    assert_eq!(r.dispatch(&vec![a]), Vec::<&str>::new());
    // The wakeup of the other token still waits.
    assert_eq!(r.take_waker(b), Some("b"));
    assert_eq!(r.take_waker(b), None);
}

#[test]
fn dispatch_fires_each_waker_once_in_token_order() {
    let mut r: Reactor<u32> = Reactor::new();
    let tokens: Vec<Token> = (0..5).map(|_| r.allocate_token()).collect();
    for (i, t) in tokens.iter().enumerate() {
        r.register_waker(*t, 10 * i as u32);
    }
    let ready = vec![tokens[3], tokens[1], tokens[3], Token(99), tokens[0]];
    assert_eq!(r.dispatch(&ready), vec![30, 10, 0]);
    assert_eq!(r.dispatch(&ready), Vec::<u32>::new());
    assert_eq!(r.dispatch(&vec![tokens[2], tokens[4]]), vec![20, 40]);
}

#[test]
fn shutdown_flag_is_set_and_stays() {
    let mut r: Reactor<u8> = Reactor::new();
    assert!(!r.is_shutdown());
    r.shutdown();
    assert!(r.is_shutdown());
    r.register_waker(Token(1), 1);
    assert!(r.is_shutdown());
}

#[test]
fn io_wait_registers_on_first_poll_only() {
    let mut r: Reactor<&'static str> = Reactor::new();
    let t = r.allocate_token();
    let mut wait = IoWait::new(t);
    assert_eq!(wait.poll(&mut r, "first"), Poll::Pending);
    assert_eq!(r.dispatch(&vec![t]), vec!["first"]);
    // Woken, the wait is over and does not register again.
    assert_eq!(wait.poll(&mut r, "second"), Poll::Ready(()));
    assert_eq!(wait.poll(&mut r, "third"), Poll::Ready(()));
    assert_eq!(r.take_waker(t), None);
}

#[test]
fn event_loop_constants() {
    assert_eq!(POLL_TIMEOUT_NANOS, 10_000_000);
    assert_eq!(EVENT_CAPACITY, 1024);
}
