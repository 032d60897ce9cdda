use vstd::prelude::*;

use crate::dispatcher::{Dispatcher, Error, Key, WakerOption};
use crate::kevent::{spec_fd_change, Change, Interest};
use crate::reactor::{unregister_result, unregistered, Reactor};
use crate::scheduler::WakeHandle;

verus! {

/// What one register-or-refresh call does to an adaptor's key and to the
/// dispatcher table. Without a key, a slot is allocated holding `waker`
/// and the kernel registration for `fd` is handed back; with a key, only the
/// stored handle of its slot is refreshed and nothing goes to the kernel.
pub open spec fn registered(
    key: Option<Key>,
    t: Map<usize, Dispatcher>,
    waker: WakeHandle,
    fd: i32,
    interest: Interest,
    key2: Option<Key>,
    t2: Map<usize, Dispatcher>,
    r: Result<Option<Change>, Error>,
) -> bool {
    match key {
        Some(k) => {
            &&& key2 == key
            &&& if t.dom().contains(k.0) {
                &&& r == Ok::<Option<Change>, Error>(None)
                &&& t2 == t.insert(k.0, t[k.0].with_waker(waker))
            } else {
                r == Err::<Option<Change>, Error>(Error::UnknownKey) && t2 == t
            }
        },
        None => if fd < 0 {
            r == Err::<Option<Change>, Error>(Error::BadFd) && key2 == key && t2 == t
        } else {
            exists|k: Key|
                {
                    &&& key2 == Some(k)
                    &&& !t.dom().contains(k.0)
                    &&& t2 == t.insert(
                        k.0,
                        Dispatcher {
                            available: false,
                            waker: Some(waker),
                            waker_option: WakerOption::Tolerate,
                        },
                    )
                    &&& r == Ok::<Option<Change>, Error>(Some(spec_fd_change(fd as usize, interest, k)))
                }
        },
    }
}

/// Lets an I/O adaptor hold exactly one reactor key for its descriptor:
/// registered on first need, refreshed afterwards. `H` is whatever handle to
/// the reactor the adaptor keeps for later calls.
pub struct Register<H> {
    reactor: H,
    key: Option<Key>,
    interest: Interest,
}

impl<H: Clone> Register<H> {
    pub closed spec fn key(&self) -> Option<Key> {
        self.key
    }

    pub closed spec fn interest(&self) -> Interest {
        self.interest
    }

    /// The reactor handle kept for later calls.
    pub closed spec fn reactor(&self) -> H {
        self.reactor
    }

    pub fn new(reactor: H) -> (r: Self)
        ensures
            r.key() == None::<Key>,
            r.reactor() == reactor,
    {
        Register { reactor, key: None, interest: Interest::Read }
    }

    pub fn clone_reactor(&self) -> H {
        self.reactor.clone()
    }

    /// The key held, if any.
    pub fn current_key(&self) -> (r: Option<Key>)
        ensures
            r == self.key(),
    {
        self.key
    }

    fn register(&mut self, reactor: &mut Reactor, waker: WakeHandle, fd: i32, interest: Interest) -> (r:
        Result<Option<Change>, Error>)
        ensures
            final(self).reactor() == old(self).reactor(),
            registered(
                old(self).key(),
                old(reactor).table(),
                waker,
                fd,
                interest,
                final(self).key(),
                final(reactor).table(),
                r,
            ),
            old(self).key().is_some() ==> final(self).interest() == old(self).interest(),
            old(self).key().is_none() ==> final(self).interest() == interest || r.is_err(),
    {
        match self.key {
            Some(k) => match reactor.set_context(k, waker) {
                Ok(_) => Ok(None),
                Err(e) => Err(e),
            },
            None => match reactor.register_fd(waker, fd, interest, WakerOption::Tolerate) {
                Ok((k, change)) => {
                    self.key = Some(k);
                    self.interest = interest;
                    Ok(Some(change))
                },
                Err(e) => Err(e),
            },
        }
    }

    /// Register-or-refresh for reading: returns the kernel change to submit
    /// when a registration was made, `None` when the handle was refreshed.
    pub fn register_read(&mut self, reactor: &mut Reactor, waker: WakeHandle, fd: i32) -> (r: Result<
        Option<Change>,
        Error,
    >)
        ensures
            final(self).reactor() == old(self).reactor(),
            registered(
                old(self).key(),
                old(reactor).table(),
                waker,
                fd,
                Interest::Read,
                final(self).key(),
                final(reactor).table(),
                r,
            ),
    {
        self.register(reactor, waker, fd, Interest::Read)
    }

    /// Register-or-refresh for writing, as `register_read`.
    pub fn register_write(&mut self, reactor: &mut Reactor, waker: WakeHandle, fd: i32) -> (r: Result<
        Option<Change>,
        Error,
    >)
        ensures
            final(self).reactor() == old(self).reactor(),
            registered(
                old(self).key(),
                old(reactor).table(),
                waker,
                fd,
                Interest::Write,
                final(self).key(),
                final(reactor).table(),
                r,
            ),
    {
        self.register(reactor, waker, fd, Interest::Write)
    }

    /// What `unregister` would report, without changing anything.
    pub fn unregister_change(&self, reactor: &Reactor, fd: i32) -> (r: Result<Option<Change>, Error>)
        ensures
            r == unregister_result(reactor.table(), self.key(), fd, self.interest()),
    {
        reactor.unregister_change(self.key, fd, self.interest)
    }

    /// Drops the held key and its slot without any kernel change: for rolling
    /// back a registration that the kernel refused. Returns whether a slot
    /// went.
    pub fn discard(&mut self, reactor: &mut Reactor) -> (r: bool)
        ensures
            final(self).key() == None::<Key>,
            final(self).reactor() == old(self).reactor(),
            match old(self).key() {
                Some(k) => r == old(reactor).table().dom().contains(k.0) && final(reactor).table()
                    == old(reactor).table().remove(k.0),
                None => !r && final(reactor).table() == old(reactor).table(),
            },
    {
        match self.key {
            Some(k) => {
                self.key = None;
                reactor.remove(k)
            },
            None => false,
        }
    }

    /// Gives up the key, if one is held: its slot goes and the change that
    /// stops the kernel watching `fd` comes back. After success the adaptor
    /// holds no key.
    pub fn unregister(&mut self, reactor: &mut Reactor, fd: i32) -> (r: Result<Option<Change>, Error>)
        ensures
            final(self).reactor() == old(self).reactor(),
            unregistered(old(reactor).table(), old(self).key(), fd, old(self).interest(), final(reactor).table(), r),
            r.is_ok() ==> final(self).key() == None::<Key>,
            r.is_err() ==> final(self).key() == old(self).key(),
    {
        let res = reactor.unregister(self.key, fd, self.interest);
        if res.is_ok() {
            self.key = None;
        }
        res
    }
}

} // verus!
