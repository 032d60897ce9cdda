use vstd::prelude::*;

use crate::dispatcher::Key;

verus! {

/// Kernel event filters, by the codes the kernel gives them.
#[derive(Clone, Copy, Debug, PartialEq, Eq, Structural)]
pub enum Filter {
    Read,
    Write,
    Aio,
    VNode,
    Proc,
    Signal,
    Timer,
    Machport,
    Fs,
    User,
    Vm,
}

impl Filter {
    pub open spec fn spec_code(self) -> i16 {
        match self {
            Filter::Read => -1i16,
            Filter::Write => -2i16,
            Filter::Aio => -3i16,
            Filter::VNode => -4i16,
            Filter::Proc => -5i16,
            Filter::Signal => -6i16,
            Filter::Timer => -7i16,
            Filter::Machport => -8i16,
            Filter::Fs => -9i16,
            Filter::User => -10i16,
            Filter::Vm => -12i16,
        }
    }

    /// The kernel's code for this filter.
    pub fn code(self) -> (r: i16)
        ensures
            r == self.spec_code(),
    {
        match self {
            Filter::Read => -1,
            Filter::Write => -2,
            Filter::Aio => -3,
            Filter::VNode => -4,
            Filter::Proc => -5,
            Filter::Signal => -6,
            Filter::Timer => -7,
            Filter::Machport => -8,
            Filter::Fs => -9,
            Filter::User => -10,
            Filter::Vm => -12,
        }
    }

    /// The filter with the kernel code `code`, if there is one.
    pub fn from_code(code: i16) -> (r: Option<Filter>)
        ensures
            match r {
                Some(f) => f.spec_code() == code,
                None => forall|f: Filter| f.spec_code() != code,
            },
    {
        match code {
            -1 => Some(Filter::Read),
            -2 => Some(Filter::Write),
            -3 => Some(Filter::Aio),
            -4 => Some(Filter::VNode),
            -5 => Some(Filter::Proc),
            -6 => Some(Filter::Signal),
            -7 => Some(Filter::Timer),
            -8 => Some(Filter::Machport),
            -9 => Some(Filter::Fs),
            -10 => Some(Filter::User),
            -12 => Some(Filter::Vm),
            _ => None,
        }
    }
}

/// What a registered file descriptor is watched for.
#[derive(Clone, Copy, Debug, PartialEq, Eq, Structural)]
pub enum Interest {
    Read,
    Write,
}

impl Interest {
    pub open spec fn spec_filter(self) -> Filter {
        match self {
            Interest::Read => Filter::Read,
            Interest::Write => Filter::Write,
        }
    }

    pub fn filter(self) -> (r: Filter)
        ensures
            r == self.spec_filter(),
    {
        match self {
            Interest::Read => Filter::Read,
            Interest::Write => Filter::Write,
        }
    }
}

/// Adds the event to the kernel queue.
pub const EV_ADD: u16 = 0x1;

/// Removes the event from the kernel queue.
pub const EV_DELETE: u16 = 0x2;

/// Lets the kernel report the event.
pub const EV_ENABLE: u16 = 0x4;

/// Stops the kernel from reporting the event.
pub const EV_DISABLE: u16 = 0x8;

/// Removes the event after its first delivery.
pub const EV_ONESHOT: u16 = 0x10;

/// Identifiers of timers are keys shifted by this much.
pub const TIMER_IDENT_OFFSET: usize = 0x1000;

/// One change request for the kernel event queue. `udata` carries the key
/// of the dispatcher slot that the event is delivered to.
#[derive(Clone, Copy, Debug, PartialEq, Eq, Structural)]
pub struct Change {
    pub ident: usize,
    pub filter: Filter,
    pub flags: u16,
    pub fflags: u32,
    pub data: isize,
    pub udata: usize,
}

/// Start watching descriptor `fd` for `interest`, reporting to `key`.
pub open spec fn spec_fd_change(fd: usize, interest: Interest, key: Key) -> Change {
    Change {
        ident: fd,
        filter: interest.spec_filter(),
        flags: EV_ADD | EV_ENABLE,
        fflags: 0,
        data: 0,
        udata: key.0,
    }
}

/// Stop watching descriptor `fd` for `interest`.
pub open spec fn spec_remove_change(fd: usize, interest: Interest) -> Change {
    Change {
        ident: fd,
        filter: interest.spec_filter(),
        flags: EV_DELETE | EV_DISABLE,
        fflags: 0,
        data: 0,
        udata: 0,
    }
}

/// Start a timer `ident` of `millis` milliseconds, one-shot unless `repeat`.
pub open spec fn spec_timer_change(ident: usize, millis: isize, key: Key, repeat: bool) -> Change {
    Change {
        ident,
        filter: Filter::Timer,
        flags: if repeat {
            EV_ADD | EV_ENABLE
        } else {
            EV_ADD | EV_ENABLE | EV_ONESHOT
        },
        fflags: 0,
        data: millis,
        udata: key.0,
    }
}

/// Start watching deliveries of signal `signal`.
pub open spec fn spec_signal_change(signal: usize, key: Key) -> Change {
    Change {
        ident: signal,
        filter: Filter::Signal,
        flags: EV_ADD | EV_ENABLE,
        fflags: 0,
        data: 0,
        udata: key.0,
    }
}

impl Change {
    pub fn add_fd(fd: usize, interest: Interest, key: Key) -> (r: Change)
        ensures
            r == spec_fd_change(fd, interest, key),
    {
        Change {
            ident: fd,
            filter: interest.filter(),
            flags: EV_ADD | EV_ENABLE,
            fflags: 0,
            data: 0,
            udata: key.inner(),
        }
    }

    pub fn remove_fd(fd: usize, interest: Interest) -> (r: Change)
        ensures
            r == spec_remove_change(fd, interest),
    {
        Change {
            ident: fd,
            filter: interest.filter(),
            flags: EV_DELETE | EV_DISABLE,
            fflags: 0,
            data: 0,
            udata: 0,
        }
    }

    pub fn add_timer(ident: usize, millis: isize, key: Key, repeat: bool) -> (r: Change)
        ensures
            r == spec_timer_change(ident, millis, key, repeat),
    {
        let flags = if repeat {
            EV_ADD | EV_ENABLE
        } else {
            EV_ADD | EV_ENABLE | EV_ONESHOT
        };
        Change { ident, filter: Filter::Timer, flags, fflags: 0, data: millis, udata: key.inner() }
    }

    pub fn add_signal(signal: usize, key: Key) -> (r: Change)
        ensures
            r == spec_signal_change(signal, key),
    {
        Change {
            ident: signal,
            filter: Filter::Signal,
            flags: EV_ADD | EV_ENABLE,
            fflags: 0,
            data: 0,
            udata: key.inner(),
        }
    }
}

/// The keys that a batch of kernel events reports to, from their `udata`.
pub fn keys_of(udata: &Vec<usize>) -> (r: Vec<Key>)
    ensures
        r@.len() == udata@.len(),
        forall|i: int| 0 <= i < udata@.len() ==> r@[i] == Key(udata@[i]),
{
    let mut r: Vec<Key> = Vec::new();
    let mut i: usize = 0;
    while i < udata.len()
        invariant
            i <= udata@.len(),
            r@.len() == i,
            forall|j: int| 0 <= j < i ==> r@[j] == Key(udata@[j]),
        decreases udata@.len() - i,
    {
        r.push(Key::from(udata[i]));
        i = i + 1;
    }
    r
}

} // verus!
