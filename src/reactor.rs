use slab::Slab;
use vstd::prelude::*;

use crate::dispatcher::{Dispatcher, Error, Key, WakerOption};
use crate::kevent::{
    spec_fd_change, spec_remove_change, spec_signal_change, spec_timer_change, Change, Interest,
    TIMER_IDENT_OFFSET,
};
use crate::scheduler::WakeHandle;

verus! {

#[verifier::external_type_specification]
#[verifier::external_body]
#[verifier::reject_recursive_types(T)]
pub struct ExSlab<T>(Slab<T>);

/// The entries a slab of dispatchers holds, by key.
pub uninterp spec fn slab_entries(s: Slab<Dispatcher>) -> Map<usize, Dispatcher>;

/// Relies on `slab::Slab::new`: a new slab holds no entry.
#[verifier::external_body]
fn slab_new() -> (r: Slab<Dispatcher>)
    ensures
        slab_entries(r).dom().len() == 0,
        slab_entries(r).dom().finite(),
{
    Slab::new()
}

/// Relies on `slab::Slab::insert`: the value is stored under a key that held
/// no entry, and that key is returned; the other entries stay. The key is the
/// slab's next vacant index, at most the length of its entry vector, which
/// stays below `isize::MAX`.
#[verifier::external_body]
fn slab_insert(s: &mut Slab<Dispatcher>, d: Dispatcher) -> (r: usize)
    ensures
        r < isize::MAX as usize,
        !slab_entries(*old(s)).dom().contains(r),
        slab_entries(*final(s)) == slab_entries(*old(s)).insert(r, d),
{
    s.insert(d)
}

/// Relies on `slab::Slab::get`: the entry under `key`, if there is one.
#[verifier::external_body]
fn slab_get(s: &Slab<Dispatcher>, key: usize) -> (r: Option<Dispatcher>)
    ensures
        r == if slab_entries(*s).dom().contains(key) {
            Some(slab_entries(*s)[key])
        } else {
            None
        },
{
    s.get(key).copied()
}

/// Relies on `IndexMut` of `slab::Slab`: the entry under `key`, which must
/// exist, is overwritten; the other entries stay.
#[verifier::external_body]
fn slab_set(s: &mut Slab<Dispatcher>, key: usize, d: Dispatcher)
    requires
        slab_entries(*old(s)).dom().contains(key),
    ensures
        slab_entries(*final(s)) == slab_entries(*old(s)).insert(key, d),
{
    s[key] = d;
}

/// Relies on `slab::Slab::try_remove`: the entry under `key` is taken out and
/// returned, if there is one; the other entries stay.
#[verifier::external_body]
fn slab_remove(s: &mut Slab<Dispatcher>, key: usize) -> (r: Option<Dispatcher>)
    ensures
        r == if slab_entries(*old(s)).dom().contains(key) {
            Some(slab_entries(*old(s))[key])
        } else {
            None
        },
        slab_entries(*final(s)) == slab_entries(*old(s)).remove(key),
{
    s.try_remove(key)
}

/// Firing the source behind `key` in table `t`: the new table and what the
/// cell reports. A key with no slot, left over from an unregistration that
/// raced with the kernel, is passed over.
pub open spec fn fire_key(t: Map<usize, Dispatcher>, key: Key) -> (Map<usize, Dispatcher>, Result<
    Option<WakeHandle>,
    Error,
>) {
    if t.dom().contains(key.0) {
        (t.insert(key.0, t[key.0].fired()), t[key.0].fire_result())
    } else {
        (t, Ok(None))
    }
}

/// Delivering a batch of fired keys in order: the table, the wake handles to
/// invoke, and whether delivery stopped on a source that needed a handle.
pub open spec fn deliver(t: Map<usize, Dispatcher>, keys: Seq<Key>) -> (Map<usize, Dispatcher>, Seq<
    WakeHandle,
>, bool)
    decreases keys.len(),
{
    if keys.len() == 0 {
        (t, Seq::empty(), false)
    } else {
        let (t1, w1, failed) = deliver(t, keys.drop_last());
        if failed {
            (t1, w1, true)
        } else {
            let (t2, res) = fire_key(t1, keys.last());
            match res {
                Ok(Some(h)) => (t2, w1.push(h), false),
                Ok(None) => (t2, w1, false),
                Err(_) => (t2, w1, true),
            }
        }
    }
}

proof fn lemma_deliver_stops(t: Map<usize, Dispatcher>, keys: Seq<Key>, i: int, j: int)
    requires
        0 <= i <= j <= keys.len(),
        deliver(t, keys.subrange(0, i)).2,
    ensures
        deliver(t, keys.subrange(0, j)) == deliver(t, keys.subrange(0, i)),
    decreases j - i,
{
    if j > i {
        lemma_deliver_stops(t, keys, i, j - 1);
        assert(keys.subrange(0, j).drop_last() == keys.subrange(0, j - 1));
    }
}

/// What starting a kernel timer of `millis` milliseconds does to the table,
/// and the change it hands back.
pub open spec fn timer_added(
    t: Map<usize, Dispatcher>,
    millis: i64,
    repeat: bool,
    key: Key,
    t2: Map<usize, Dispatcher>,
    c: Change,
) -> bool {
    &&& !t.dom().contains(key.0)
    &&& key.0 + TIMER_IDENT_OFFSET <= usize::MAX
    &&& t2 == t.insert(
        key.0,
        Dispatcher { available: false, waker: None, waker_option: WakerOption::Tolerate },
    )
    &&& c == spec_timer_change((key.0 + TIMER_IDENT_OFFSET) as usize, millis as isize, key, repeat)
}

/// What `unregister` reports: with a key, on a valid descriptor and a live
/// slot, the change that stops the kernel watching `fd`; otherwise the error,
/// or nothing to do without a key.
pub open spec fn unregister_result(t: Map<usize, Dispatcher>, key: Option<Key>, fd: i32, interest: Interest) -> Result<
    Option<Change>,
    Error,
> {
    match key {
        None => Ok(None),
        Some(k) => if fd < 0 {
            Err(Error::BadFd)
        } else if !t.dom().contains(k.0) {
            Err(Error::UnknownKey)
        } else {
            Ok(Some(spec_remove_change(fd as usize, interest)))
        },
    }
}

/// What `unregister` does: it reports `unregister_result`, and the slot goes
/// exactly when that is a change for the kernel; otherwise the table stays.
pub open spec fn unregistered(
    t: Map<usize, Dispatcher>,
    key: Option<Key>,
    fd: i32,
    interest: Interest,
    t2: Map<usize, Dispatcher>,
    r: Result<Option<Change>, Error>,
) -> bool {
    &&& r == unregister_result(t, key, fd, interest)
    &&& t2 == match r {
        Ok(Some(_)) => t.remove(key.unwrap().0),
        _ => t,
    }
}

/// The dispatcher table: one readiness cell per registered source.
pub struct Reactor {
    dispatchers: Slab<Dispatcher>,
}

impl Reactor {
    /// The cells, by key.
    pub closed spec fn table(&self) -> Map<usize, Dispatcher> {
        slab_entries(self.dispatchers)
    }

    pub fn new() -> (r: Reactor)
        ensures
            r.table() == Map::<usize, Dispatcher>::empty(),
    {
        Reactor { dispatchers: slab_new() }
    }

    fn insert(&mut self, waker: Option<WakeHandle>, waker_option: WakerOption) -> (k: Key)
        ensures
            k.0 < isize::MAX as usize,
            !old(self).table().dom().contains(k.0),
            final(self).table() == old(self).table().insert(
                k.0,
                Dispatcher { available: false, waker, waker_option },
            ),
    {
        let d = Dispatcher::new(waker, waker_option);
        Key::from(slab_insert(&mut self.dispatchers, d))
    }

    /// Allocates a slot for descriptor `fd`, holding the handle of the task
    /// that waits on it, and gives the kernel change that starts watching
    /// `fd`, tagged with the new key. A negative descriptor is refused.
    pub fn register_fd(
        &mut self,
        waker: WakeHandle,
        fd: i32,
        interest: Interest,
        waker_option: WakerOption,
    ) -> (r: Result<(Key, Change), Error>)
        ensures
            fd < 0 <==> r.is_err(),
            match r {
                Ok((k, c)) => {
                    &&& !old(self).table().dom().contains(k.0)
                    &&& final(self).table() == old(self).table().insert(
                        k.0,
                        Dispatcher { available: false, waker: Some(waker), waker_option },
                    )
                    &&& c == spec_fd_change(fd as usize, interest, k)
                },
                Err(e) => e == Error::BadFd && final(self).table() == old(self).table(),
            },
    {
        if fd < 0 {
            return Err(Error::BadFd);
        }
        let k = self.insert(Some(waker), waker_option);
        Ok((k, Change::add_fd(fd as usize, interest, k)))
    }

    /// Allocates a slot for a timer of `millis` milliseconds, one-shot unless
    /// `repeat`, and gives the kernel change that starts it. Always succeeds.
    pub fn add_timer(&mut self, millis: i64, repeat: bool) -> (r: Result<(Key, Change), Error>)
        ensures
            r.is_ok(),
            match r {
                Ok((k, c)) => timer_added(old(self).table(), millis, repeat, k, final(self).table(), c),
                Err(_) => false,
            },
    {
        let k = self.insert(None, WakerOption::Tolerate);
        let ident = k.inner() + TIMER_IDENT_OFFSET;
        Ok((k, Change::add_timer(ident, millis as isize, k, repeat)))
    }

    /// Allocates a slot for deliveries of signal `signal` and gives the kernel
    /// change that starts watching them. A negative signal is refused.
    pub fn add_signal(&mut self, signal: i32) -> (r: Result<(Key, Change), Error>)
        ensures
            signal < 0 <==> r.is_err(),
            match r {
                Ok((k, c)) => {
                    &&& !old(self).table().dom().contains(k.0)
                    &&& final(self).table() == old(self).table().insert(
                        k.0,
                        Dispatcher { available: false, waker: None, waker_option: WakerOption::Tolerate },
                    )
                    &&& c == spec_signal_change(signal as usize, k)
                },
                Err(e) => e == Error::BadSignal && final(self).table() == old(self).table(),
            },
    {
        if signal < 0 {
            return Err(Error::BadSignal);
        }
        let k = self.insert(None, WakerOption::Tolerate);
        Ok((k, Change::add_signal(signal as usize, k)))
    }

    /// Stores `waker` in the slot of `key`. Returns whether an unconsumed
    /// handle was overwritten.
    pub fn set_context(&mut self, key: Key, waker: WakeHandle) -> (r: Result<bool, Error>)
        ensures
            old(self).table().dom().contains(key.0) ==> {
                let d = old(self).table()[key.0];
                &&& r == Ok::<bool, Error>(d.waker.is_some())
                &&& final(self).table() == old(self).table().insert(key.0, d.with_waker(waker))
            },
            !old(self).table().dom().contains(key.0) ==> r == Err::<bool, Error>(Error::UnknownKey)
                && final(self).table() == old(self).table(),
    {
        match slab_get(&self.dispatchers, key.inner()) {
            Some(d) => {
                let mut d = d;
                let overwritten = d.set_waker(waker);
                slab_set(&mut self.dispatchers, key.inner(), d);
                Ok(overwritten)
            },
            None => Err(Error::UnknownKey),
        }
    }

    /// Asks whether the source of `key` fired. If it did, the event is taken
    /// and `Ok(true)` returned; otherwise `waker` is stored to be woken when
    /// it fires, and `Ok(false)` returned.
    pub fn poll_elapsed(&mut self, key: Key, waker: WakeHandle) -> (r: Result<bool, Error>)
        ensures
            old(self).table().dom().contains(key.0) ==> {
                let d = old(self).table()[key.0];
                &&& r == Ok::<bool, Error>(d.available)
                &&& final(self).table() == old(self).table().insert(
                    key.0,
                    if d.available {
                        d.consumed()
                    } else {
                        d.with_waker(waker)
                    },
                )
            },
            !old(self).table().dom().contains(key.0) ==> r == Err::<bool, Error>(Error::UnknownKey)
                && final(self).table() == old(self).table(),
    {
        match slab_get(&self.dispatchers, key.inner()) {
            Some(d) => {
                let mut d = d;
                if d.consume() {
                    slab_set(&mut self.dispatchers, key.inner(), d);
                    Ok(true)
                } else {
                    let _ = d.set_waker(waker);
                    slab_set(&mut self.dispatchers, key.inner(), d);
                    Ok(false)
                }
            },
            None => Err(Error::UnknownKey),
        }
    }

    /// Removes the slot of `key`, if one is given, and gives the kernel change
    /// that stops watching `fd` for `interest`. The two always go together:
    /// on an error nothing is removed.
    pub fn unregister(&mut self, key: Option<Key>, fd: i32, interest: Interest) -> (r: Result<
        Option<Change>,
        Error,
    >)
        ensures
            unregistered(old(self).table(), key, fd, interest, final(self).table(), r),
    {
        match key {
            None => Ok(None),
            Some(k) => {
                if fd < 0 {
                    return Err(Error::BadFd);
                }
                match slab_remove(&mut self.dispatchers, k.inner()) {
                    Some(_) => Ok(Some(Change::remove_fd(fd as usize, interest))),
                    None => {
                        assert(self.table() == old(self).table());
                        Err(Error::UnknownKey)
                    },
                }
            },
        }
    }

    /// What `unregister` would report, without changing anything: lets the
    /// caller have the kernel stop watching first, and drop the slot only
    /// once the kernel agreed.
    pub fn unregister_change(&self, key: Option<Key>, fd: i32, interest: Interest) -> (r: Result<
        Option<Change>,
        Error,
    >)
        ensures
            r == unregister_result(self.table(), key, fd, interest),
    {
        match key {
            None => Ok(None),
            Some(k) => {
                if fd < 0 {
                    return Err(Error::BadFd);
                }
                if slab_get(&self.dispatchers, k.inner()).is_some() {
                    Ok(Some(Change::remove_fd(fd as usize, interest)))
                } else {
                    Err(Error::UnknownKey)
                }
            },
        }
    }

    /// Delivers one batch of fired keys from the kernel, in order: each cell
    /// is marked ready, and the handles stored in them are collected for the
    /// caller to invoke. Keys without a slot are passed over. Delivery stops
    /// with `NoWaker` at a source that needs a stored handle and has none; the
    /// handles collected up to there are still returned.
    pub fn poll(&mut self, fired: &Vec<Key>) -> (r: (Vec<WakeHandle>, Result<(), Error>))
        ensures
            final(self).table() == deliver(old(self).table(), fired@).0,
            r.0@ == deliver(old(self).table(), fired@).1,
            r.1 == if deliver(old(self).table(), fired@).2 {
                Err::<(), Error>(Error::NoWaker)
            } else {
                Ok::<(), Error>(())
            },
    {
        let ghost t0 = self.table();
        let mut wakes: Vec<WakeHandle> = Vec::new();
        let mut i: usize = 0;
        assert(fired@.subrange(0, 0) =~= Seq::<Key>::empty());
        while i < fired.len()
            invariant
                i <= fired@.len(),
                t0 == old(self).table(),
                self.table() == deliver(t0, fired@.subrange(0, i as int)).0,
                wakes@ == deliver(t0, fired@.subrange(0, i as int)).1,
                !deliver(t0, fired@.subrange(0, i as int)).2,
            decreases fired@.len() - i,
        {
            let k = fired[i];
            assert(fired@.subrange(0, i as int + 1).drop_last() == fired@.subrange(0, i as int));
            assert(fired@.subrange(0, i as int + 1).last() == k);
            match slab_get(&self.dispatchers, k.inner()) {
                Some(d) => {
                    let mut d = d;
                    let res = d.wake();
                    slab_set(&mut self.dispatchers, k.inner(), d);
                    match res {
                        Ok(Some(h)) => {
                            wakes.push(h);
                        },
                        Ok(None) => {},
                        Err(e) => {
                            proof {
                                lemma_deliver_stops(t0, fired@, i as int + 1, fired@.len() as int);
                                assert(fired@.subrange(0, fired@.len() as int) == fired@);
                            }
                            return (wakes, Err(e));
                        },
                    }
                },
                None => {},
            }
            i = i + 1;
        }
        assert(fired@.subrange(0, fired@.len() as int) == fired@);
        (wakes, Ok(()))
    }

    /// Drops the slot of `key`, if there is one, without any kernel change:
    /// for rolling back a registration that the kernel refused.
    pub fn remove(&mut self, key: Key) -> (r: bool)
        ensures
            r == old(self).table().dom().contains(key.0),
            final(self).table() == old(self).table().remove(key.0),
    {
        slab_remove(&mut self.dispatchers, key.inner()).is_some()
    }

    /// Whether `key` names a slot.
    pub fn contains(&self, key: Key) -> (r: bool)
        ensures
            r == self.table().dom().contains(key.0),
    {
        slab_get(&self.dispatchers, key.inner()).is_some()
    }
}

} // verus!
