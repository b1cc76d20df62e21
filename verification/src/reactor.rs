//! The reactor's registry: which wakeup waits for which I/O source.
//!
//! The operating system's readiness multiplexer stays with the caller. The
//! registry hands out the tokens under which sources are registered there,
//! keeps at most one wakeup per token, and says which wakeups to invoke for
//! the tokens that the multiplexer reports ready.

use crate::task::Poll;
use std::collections::HashMap;
use vstd::prelude::*;

verus! {

/// The longest, in nanoseconds, that the event loop blocks on the
/// multiplexer before it looks at the shutdown flag again.
pub const POLL_TIMEOUT_NANOS: u64 = 10_000_000;

/// The number of readiness events that the event loop takes in one round.
pub const EVENT_CAPACITY: usize = 1024;

/// The name under which an I/O source is registered.
#[derive(Debug, Clone, Copy, PartialEq, Eq, Structural)]
pub struct Token(pub usize);

/// What a registry holds: the pending wakeups by token, the next token, and
/// the shutdown flag.
pub ghost struct Registry<W> {
    pub wakers: Map<usize, W>,
    pub next_token: usize,
    pub shutdown: bool,
}

/// The wakeups to invoke for the tokens `ready`, in the order of the tokens,
/// and the pending wakeups that are left. A token's wakeup leaves the map
/// when it is taken, so a token that is reported twice fires once, and a
/// token without a wakeup fires nothing.
pub open spec fn fire<W>(wakers: Map<usize, W>, ready: Seq<Token>) -> (Seq<W>, Map<usize, W>)
    decreases ready.len(),
{
    if ready.len() == 0 {
        (Seq::empty(), wakers)
    } else {
        let (fired, left) = fire(wakers, ready.drop_last());
        let token = ready.last().0;
        if left.contains_key(token) {
            (fired.push(left[token]), left.remove(token))
        } else {
            (fired, left)
        }
    }
}

/// The tokens of `ready`, as a set of map keys.
pub open spec fn token_set(ready: Seq<Token>) -> Set<usize> {
    Set::new(|t: usize| exists|i: int| 0 <= i < ready.len() && #[trigger] ready[i].0 == t)
}

/// Firing removes exactly the ready tokens from the map, and invokes no more
/// wakeups than there are ready tokens.
pub proof fn lemma_fire<W>(wakers: Map<usize, W>, ready: Seq<Token>)
    ensures
        fire(wakers, ready).1 == wakers.remove_keys(token_set(ready)),
        fire(wakers, ready).0.len() <= ready.len(),
        forall|i: int|
            0 <= i < ready.len() ==> !fire(wakers, ready).1.contains_key(#[trigger] ready[i].0),
    decreases ready.len(),
{
    if ready.len() > 0 {
        let rest = ready.drop_last();
        lemma_fire(wakers, rest);
        let token = ready.last().0;
        assert forall|t: usize| token_set(ready).contains(t) <==> (token_set(rest).contains(t) || t
            == token) by {
            if token_set(ready).contains(t) && t != token {
                let i = choose|i: int| 0 <= i < ready.len() && #[trigger] ready[i].0 == t;
                assert(rest[i].0 == t);
            }
        }
    }
}

/// The registry of pending I/O wakeups.
pub struct Reactor<W> {
    wakers: HashMap<usize, W>,
    next_token: usize,
    shutdown: bool,
}

impl<W> View for Reactor<W> {
    type V = Registry<W>;

    closed spec fn view(&self) -> Registry<W> {
        Registry { wakers: self.wakers@, next_token: self.next_token, shutdown: self.shutdown }
    }
}

impl<W> Reactor<W> {
    /// A registry without wakeups, whose first token is 1.
    pub fn new() -> (r: Self)
        ensures
            r@.wakers == Map::<usize, W>::empty(),
            r@.next_token == 1,
            !r@.shutdown,
    {
        Reactor { wakers: HashMap::new(), next_token: 1, shutdown: false }
    }

    /// Hands out the token for a source that is about to be registered.
    /// Tokens count upwards from 1 and wrap at the machine's limit.
    pub fn allocate_token(&mut self) -> (token: Token)
        ensures
            token.0 == old(self)@.next_token,
            final(self)@.next_token == (if old(self)@.next_token == usize::MAX {
                0usize
            } else {
                (old(self)@.next_token + 1) as usize
            }),
            final(self)@.wakers == old(self)@.wakers,
            final(self)@.shutdown == old(self)@.shutdown,
    {
        let token = Token(self.next_token);
        self.next_token = self.next_token.wrapping_add(1);
        token
    }

    /// Records `waker` as the wakeup that waits for `token`. A wakeup that
    /// waited there before is replaced and never invoked.
    pub fn register_waker(&mut self, token: Token, waker: W)
        ensures
            final(self)@.wakers == old(self)@.wakers.insert(token.0, waker),
            final(self)@.next_token == old(self)@.next_token,
            final(self)@.shutdown == old(self)@.shutdown,
    {
        self.wakers.insert(token.0, waker);
    }

    /// Takes out the wakeup that waits for `token`, if there is one.
    pub fn take_waker(&mut self, token: Token) -> (w: Option<W>)
        ensures
            w == (if old(self)@.wakers.contains_key(token.0) {
                Some(old(self)@.wakers[token.0])
            } else {
                None
            }),
            final(self)@.wakers == old(self)@.wakers.remove(token.0),
            final(self)@.next_token == old(self)@.next_token,
            final(self)@.shutdown == old(self)@.shutdown,
    {
        self.wakers.remove(&token.0)
    }

    /// One round of the event loop: for the tokens that the multiplexer
    /// reported ready, takes out the wakeups that wait for them and returns
    /// them, in the order of the tokens, for the caller to invoke. Afterwards
    /// no wakeup waits for a ready token, and every other wakeup waits on.
    pub fn dispatch(&mut self, ready: &Vec<Token>) -> (fired: Vec<W>)
        ensures
            (fired@, final(self)@.wakers) == fire(old(self)@.wakers, ready@),
            final(self)@.wakers == old(self)@.wakers.remove_keys(token_set(ready@)),
            final(self)@.next_token == old(self)@.next_token,
            final(self)@.shutdown == old(self)@.shutdown,
    {
        let ghost pre = self@;
        let mut fired: Vec<W> = Vec::new();
        let mut i: usize = 0;
        while i < ready.len()
            invariant
                i <= ready.len(),
                pre == old(self)@,
                self@.next_token == pre.next_token,
                self@.shutdown == pre.shutdown,
                (fired@, self@.wakers) == fire(pre.wakers, ready@.take(i as int)),
            decreases ready.len() - i,
        {
            assert(ready@.take(i + 1).drop_last() =~= ready@.take(i as int));
            let taken = self.take_waker(ready[i]);
            match taken {
                Some(waker) => {
                    fired.push(waker);
                },
                None => {},
            }
            i += 1;
        }
        proof {
            assert(ready@.take(i as int) =~= ready@);
            lemma_fire(pre.wakers, ready@);
        }
        fired
    }

    /// Asks the event loop to stop. The flag is never cleared.
    pub fn shutdown(&mut self)
        ensures
            final(self)@.shutdown,
            final(self)@.wakers == old(self)@.wakers,
            final(self)@.next_token == old(self)@.next_token,
    {
        self.shutdown = true;
    }

    /// Whether the event loop was asked to stop.
    pub fn is_shutdown(&self) -> (b: bool)
        ensures
            b == self@.shutdown,
    {
        self.shutdown
    }
}

/// A wait for the readiness of one source. Its first poll hands the wakeup to
/// the registry and suspends; a poll after that ends the wait, and the caller
/// tries its I/O operation again. A wait that ends before the source is ready
/// costs one more round: the operation reports that it would block, and the
/// caller waits anew.
pub struct IoWait {
    token: Token,
    registered: bool,
}

impl IoWait {
    /// The token waited for.
    pub closed spec fn token(&self) -> Token {
        self.token
    }

    /// Whether the wakeup was handed to the registry.
    pub closed spec fn registered(&self) -> bool {
        self.registered
    }

    /// A wait for `token` that has not registered yet.
    pub fn new(token: Token) -> (w: Self)
        ensures
            w.token() == token,
            !w.registered(),
    {
        IoWait { token, registered: false }
    }

    /// Polls the wait. The first poll records `waker` for the token and is
    /// pending; every later poll is ready and leaves the registry as it is.
    pub fn poll<W>(&mut self, reactor: &mut Reactor<W>, waker: W) -> (r: Poll<()>)
        ensures
            r == Poll::<()>::Pending <==> !old(self).registered(),
            r == Poll::Ready(()) <==> old(self).registered(),
            final(self).registered(),
            final(self).token() == old(self).token(),
            final(reactor)@.next_token == old(reactor)@.next_token,
            final(reactor)@.shutdown == old(reactor)@.shutdown,
            final(reactor)@.wakers == (if old(self).registered() {
                old(reactor)@.wakers
            } else {
                old(reactor)@.wakers.insert(old(self).token().0, waker)
            }),
    {
        if !self.registered {
            reactor.register_waker(self.token, waker);
            self.registered = true;
            Poll::Pending
        } else {
            Poll::Ready(())
        }
    }
}

} // verus!
