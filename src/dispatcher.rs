use vstd::prelude::*;

use crate::scheduler::WakeHandle;

verus! {

/// Failures of the reactor and of its per-source cells.
#[derive(Clone, Copy, Debug, PartialEq, Eq, Structural)]
pub enum Error {
    /// A source that needs a stored wake handle fired while none was stored.
    NoWaker,
    /// The key names no slot of the dispatcher table.
    UnknownKey,
    /// A file descriptor that cannot be handed to the kernel (negative).
    BadFd,
    /// A signal number that cannot be handed to the kernel (negative).
    BadSignal,
    /// The owner behind a weak handle is gone.
    Dropped,
}

/// What a source does when it fires while no wake handle is stored.
#[derive(Clone, Copy, Debug, PartialEq, Eq, Structural)]
pub enum WakerOption {
    /// Firing without a stored handle is an error.
    NeedWaker,
    /// Firing without a stored handle is buffered silently.
    Tolerate,
}

/// Readiness state of one event source: a pending flag that buffers at most
/// one event, and the wake handle of the task waiting on it, if any.
#[derive(Clone, Copy, Debug, PartialEq, Eq, Structural)]
pub struct Dispatcher {
    pub available: bool,
    pub waker: Option<WakeHandle>,
    pub waker_option: WakerOption,
}

impl Dispatcher {
    /// The cell after its source fired: the flag is set and the stored handle
    /// has been handed out.
    pub open spec fn fired(self) -> Dispatcher {
        Dispatcher { available: true, waker: None, ..self }
    }

    /// What firing the source reports: the handle to wake, if one was stored.
    pub open spec fn fire_result(self) -> Result<Option<WakeHandle>, Error> {
        if self.waker.is_some() {
            Ok(self.waker)
        } else if self.waker_option == WakerOption::NeedWaker {
            Err(Error::NoWaker)
        } else {
            Ok(None)
        }
    }

    /// The cell after its pending event was taken.
    pub open spec fn consumed(self) -> Dispatcher {
        Dispatcher { available: false, ..self }
    }

    /// The cell after a waiting task stored its handle.
    pub open spec fn with_waker(self, waker: WakeHandle) -> Dispatcher {
        Dispatcher { waker: Some(waker), ..self }
    }

    pub fn new(waker: Option<WakeHandle>, waker_option: WakerOption) -> (r: Self)
        ensures
            r == (Dispatcher { available: false, waker, waker_option }),
    {
        Dispatcher { available: false, waker, waker_option }
    }

    /// Records that the source fired and hands out the stored wake handle,
    /// which the caller must invoke.
    pub fn wake(&mut self) -> (r: Result<Option<WakeHandle>, Error>)
        ensures
            *final(self) == old(self).fired(),
            r == old(self).fire_result(),
    {
        self.available = true;
        let taken = self.waker.take();
        match taken {
            Some(w) => Ok(Some(w)),
            None => {
                if self.waker_option == WakerOption::NeedWaker {
                    Err(Error::NoWaker)
                } else {
                    Ok(None)
                }
            },
        }
    }

    /// Takes the pending event, if there is one.
    pub fn consume(&mut self) -> (r: bool)
        ensures
            r == old(self).available,
            *final(self) == old(self).consumed(),
    {
        if self.available {
            self.available = false;
            true
        } else {
            false
        }
    }

    /// Stores the handle of the task that now waits on this source. Returns
    /// whether an unconsumed handle was overwritten, which points at a
    /// suspension point polled twice.
    pub fn set_waker(&mut self, waker: WakeHandle) -> (r: bool)
        ensures
            r == old(self).waker.is_some(),
            *final(self) == old(self).with_waker(waker),
    {
        let overwritten = self.waker.is_some();
        self.waker = Some(waker);
        overwritten
    }
}

/// Opaque handle to a slot of the dispatcher table.
#[derive(Clone, Copy, Debug, PartialEq, Eq, Structural)]
pub struct Key(pub usize);

impl Key {
    pub fn inner(self) -> (r: usize)
        ensures
            r == self.0,
    {
        self.0
    }
}

impl From<usize> for Key {
    fn from(value: usize) -> (r: Self) {
        Key(value)
    }
}

impl vstd::std_specs::convert::FromSpecImpl<usize> for Key {
    open spec fn obeys_from_spec() -> bool {
        true
    }

    open spec fn from_spec(v: usize) -> Key {
        Key(v)
    }
}

} // verus!
