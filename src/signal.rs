use vstd::prelude::*;

use crate::dispatcher::{Dispatcher, Error, Key, WakerOption};
use crate::kevent::{spec_signal_change, Change};
use crate::reactor::Reactor;
use crate::scheduler::WakeHandle;

verus! {

/// A stream of deliveries of one signal, through one reactor key.
pub struct Signal {
    key: Key,
}

impl Signal {
    pub closed spec fn key(&self) -> Key {
        self.key
    }

    /// Starts watching signal `signal`; returns the stream and the kernel
    /// change to submit. A negative signal is refused.
    pub fn start(reactor: &mut Reactor, signal: i32) -> (r: Result<(Signal, Change), Error>)
        ensures
            signal < 0 <==> r.is_err(),
            match r {
                Ok((s, c)) => {
                    &&& !old(reactor).table().dom().contains(s.key().0)
                    &&& final(reactor).table() == old(reactor).table().insert(
                        s.key().0,
                        Dispatcher { available: false, waker: None, waker_option: WakerOption::Tolerate },
                    )
                    &&& c == spec_signal_change(signal as usize, s.key())
                },
                Err(e) => e == Error::BadSignal && final(reactor).table() == old(reactor).table(),
            },
    {
        match reactor.add_signal(signal) {
            Ok((key, change)) => Ok((Signal { key }, change)),
            Err(e) => Err(e),
        }
    }

    /// The reactor key of this stream.
    pub fn key_of(&self) -> (r: Key)
        ensures
            r == self.key(),
    {
        self.key
    }

    /// Whether the signal was delivered since the last call; if not, `waker`
    /// is stored to be woken on the next delivery.
    pub fn poll_next(&self, reactor: &mut Reactor, waker: WakeHandle) -> (r: Result<bool, Error>)
        ensures
            old(reactor).table().dom().contains(self.key().0) ==> {
                let d = old(reactor).table()[self.key().0];
                &&& r == Ok::<bool, Error>(d.available)
                &&& final(reactor).table() == old(reactor).table().insert(
                    self.key().0,
                    if d.available {
                        d.consumed()
                    } else {
                        d.with_waker(waker)
                    },
                )
            },
            !old(reactor).table().dom().contains(self.key().0) ==> r == Err::<bool, Error>(Error::UnknownKey)
                && final(reactor).table() == old(reactor).table(),
    {
        reactor.poll_elapsed(self.key, waker)
    }
}

} // verus!
