use vstd::prelude::*;

use crate::dispatcher::{Dispatcher, Error, Key};
use crate::kevent::Change;
use crate::reactor::{timer_added, Reactor};
use crate::scheduler::WakeHandle;

verus! {

/// What polling a timer's key does: report and take a pending expiry, or
/// store `waker` for the next one.
pub open spec fn timer_polled(
    t: Map<usize, Dispatcher>,
    key: Key,
    waker: WakeHandle,
    t2: Map<usize, Dispatcher>,
    r: Result<bool, Error>,
) -> bool {
    if t.dom().contains(key.0) {
        let d = t[key.0];
        &&& r == Ok::<bool, Error>(d.available)
        &&& t2 == t.insert(
            key.0,
            if d.available {
                d.consumed()
            } else {
                d.with_waker(waker)
            },
        )
    } else {
        r == Err::<bool, Error>(Error::UnknownKey) && t2 == t
    }
}

/// A repeating timer: a stream that yields once per period.
pub struct Timer {
    key: Key,
}

impl Timer {
    pub closed spec fn key(&self) -> Key {
        self.key
    }

    /// Starts a timer firing every `millis` milliseconds; returns the stream
    /// and the kernel change to submit. Always succeeds.
    pub fn start(reactor: &mut Reactor, millis: i64) -> (r: Result<(Timer, Change), Error>)
        ensures
            r.is_ok(),
            match r {
                Ok((tm, c)) => timer_added(old(reactor).table(), millis, true, tm.key(), final(reactor).table(), c),
                Err(_) => false,
            },
    {
        match reactor.add_timer(millis, true) {
            Ok((key, change)) => Ok((Timer { key }, change)),
            Err(e) => Err(e),
        }
    }

    /// The reactor key of this timer.
    pub fn key_of(&self) -> (r: Key)
        ensures
            r == self.key(),
    {
        self.key
    }

    /// Whether a period elapsed since the last call; if not, `waker` is
    /// stored to be woken when one does.
    pub fn poll_next(&self, reactor: &mut Reactor, waker: WakeHandle) -> (r: Result<bool, Error>)
        ensures
            timer_polled(old(reactor).table(), self.key(), waker, final(reactor).table(), r),
    {
        reactor.poll_elapsed(self.key, waker)
    }
}

/// A one-shot timer: a task that completes once, after its delay.
pub struct Delay {
    key: Key,
}

impl Delay {
    pub closed spec fn key(&self) -> Key {
        self.key
    }

    /// Starts a one-shot timer of `millis` milliseconds; returns it and the
    /// kernel change to submit. Always succeeds.
    pub fn start(reactor: &mut Reactor, millis: i64) -> (r: Result<(Delay, Change), Error>)
        ensures
            r.is_ok(),
            match r {
                Ok((dl, c)) => timer_added(old(reactor).table(), millis, false, dl.key(), final(reactor).table(), c),
                Err(_) => false,
            },
    {
        match reactor.add_timer(millis, false) {
            Ok((key, change)) => Ok((Delay { key }, change)),
            Err(e) => Err(e),
        }
    }

    /// The reactor key of this delay.
    pub fn key_of(&self) -> (r: Key)
        ensures
            r == self.key(),
    {
        self.key
    }

    /// Whether the delay elapsed; if not, `waker` is stored to be woken
    /// when it does.
    pub fn poll(&self, reactor: &mut Reactor, waker: WakeHandle) -> (r: Result<bool, Error>)
        ensures
            timer_polled(old(reactor).table(), self.key(), waker, final(reactor).table(), r),
    {
        reactor.poll_elapsed(self.key, waker)
    }
}

} // verus!
