use vstd::prelude::*;

use crate::dispatcher::{Dispatcher, Error, Key, WakerOption};
use crate::kevent::{spec_fd_change, spec_remove_change, Change, Interest};
use crate::reactor::{deliver, fire_key, unregistered};
use crate::register::registered;
use crate::scheduler::WakeHandle;

verus! {

/// A source that fires twice before it is polled delivers one wake-up and
/// one pending event, whether both firings come in one kernel batch or in
/// two: the stored handle, if any, is handed out once; the second firing
/// changes nothing; after one consumption nothing is pending.
pub proof fn lemma_one_buffered_event(t: Map<usize, Dispatcher>, k: Key)
    requires
        t.dom().contains(k.0),
        t[k.0].waker_option == WakerOption::Tolerate,
    ensures
        deliver(t, seq![k, k]).1 == match t[k.0].waker {
            Some(h) => seq![h],
            None => Seq::<WakeHandle>::empty(),
        },
        !deliver(t, seq![k, k]).2,
        deliver(t, seq![k, k]).0 == deliver(t, seq![k]).0,
        deliver(t, seq![k, k]).0[k.0].available,
        !deliver(t, seq![k, k]).0[k.0].consumed().available,
        deliver(deliver(t, seq![k]).0, seq![k]) == (deliver(t, seq![k]).0, Seq::<WakeHandle>::empty(), false),
{
    let s1 = seq![k];
    let s2 = seq![k, k];
    assert(s2.drop_last() =~= s1);
    assert(s1.drop_last() =~= Seq::<Key>::empty());
    assert(s1.last() == k);
    assert(s2.last() == k);
    let t1 = t.insert(k.0, t[k.0].fired());
    assert(deliver(t, Seq::<Key>::empty()) == (t, Seq::<WakeHandle>::empty(), false));
    assert(fire_key(t, k).0 == t1);
    let w1: Seq<WakeHandle> = match t[k.0].waker {
        Some(h) => seq![h],
        None => Seq::<WakeHandle>::empty(),
    };
    assert(Seq::<WakeHandle>::empty().push(t[k.0].waker.unwrap()) =~= seq![t[k.0].waker.unwrap()]);
    assert(deliver(t, s1) == (t1, w1, false));
    assert(t1[k.0].fired() == t1[k.0]);
    assert(t1.insert(k.0, t1[k.0].fired()) =~= t1);
    assert(fire_key(t1, k) == (t1, Ok::<Option<WakeHandle>, Error>(None)));
    assert(deliver(t, s2) == (t1, w1, false));
    assert(deliver(t1, Seq::<Key>::empty()) == (t1, Seq::<WakeHandle>::empty(), false));
    assert(deliver(t1, s1) == (t1, Seq::<WakeHandle>::empty(), false));
}

/// Register-or-refresh called twice on one adaptor: the first call makes the
/// one kernel registration and the one key; the second only refreshes the
/// stored handle of that key and hands nothing to the kernel.
pub proof fn lemma_single_registration(
    t0: Map<usize, Dispatcher>,
    w1: WakeHandle,
    w2: WakeHandle,
    fd: i32,
    interest: Interest,
    k1: Option<Key>,
    t1: Map<usize, Dispatcher>,
    r1: Result<Option<Change>, Error>,
    k2: Option<Key>,
    t2: Map<usize, Dispatcher>,
    r2: Result<Option<Change>, Error>,
)
    requires
        registered(None, t0, w1, fd, interest, k1, t1, r1),
        r1.is_ok(),
        registered(k1, t1, w2, fd, interest, k2, t2, r2),
    ensures
        k1.is_some(),
        r1 == Ok::<Option<Change>, Error>(Some(spec_fd_change(fd as usize, interest, k1.unwrap()))),
        r2 == Ok::<Option<Change>, Error>(None),
        k2 == k1,
        t2 == t1.insert(k1.unwrap().0, t1[k1.unwrap().0].with_waker(w2)),
        t2.dom() == t1.dom(),
{
    let k = choose|k: Key|
        {
            &&& k1 == Some(k)
            &&& !t0.dom().contains(k.0)
            &&& t1 == t0.insert(
                k.0,
                Dispatcher { available: false, waker: Some(w1), waker_option: WakerOption::Tolerate },
            )
            &&& r1 == Ok::<Option<Change>, Error>(Some(spec_fd_change(fd as usize, interest, k)))
        };
    assert(t1.dom().contains(k.0));
    assert(t2.dom() =~= t1.dom());
}

/// After a key is unregistered its slot is gone, the kernel is told to stop
/// watching the descriptor, and a late kernel event carrying that key wakes
/// nothing and changes nothing.
pub proof fn lemma_unregister(
    t: Map<usize, Dispatcher>,
    k: Key,
    fd: i32,
    interest: Interest,
    t2: Map<usize, Dispatcher>,
    r: Result<Option<Change>, Error>,
)
    requires
        unregistered(t, Some(k), fd, interest, t2, r),
        r.is_ok(),
    ensures
        !t2.dom().contains(k.0),
        r == Ok::<Option<Change>, Error>(Some(spec_remove_change(fd as usize, interest))),
        deliver(t2, seq![k]) == (t2, Seq::<WakeHandle>::empty(), false),
{
    let s1 = seq![k];
    assert(s1.drop_last() =~= Seq::<Key>::empty());
    assert(s1.last() == k);
    assert(deliver(t2, Seq::<Key>::empty()) == (t2, Seq::<WakeHandle>::empty(), false));
    assert(fire_key(t2, k) == (t2, Ok::<Option<WakeHandle>, Error>(None)));
}

/// Register, unregister, then register again with the same descriptor: the
/// unregistration succeeds and restores the table, and the new registration
/// succeeds with a slot that was free, handing the kernel the registration
/// of the descriptor once more.
pub proof fn lemma_round_trip(
    t0: Map<usize, Dispatcher>,
    w1: WakeHandle,
    w2: WakeHandle,
    fd: i32,
    interest: Interest,
    k1: Option<Key>,
    t1: Map<usize, Dispatcher>,
    r1: Result<Option<Change>, Error>,
    t2: Map<usize, Dispatcher>,
    ru: Result<Option<Change>, Error>,
    k3: Option<Key>,
    t3: Map<usize, Dispatcher>,
    r3: Result<Option<Change>, Error>,
)
    requires
        registered(None, t0, w1, fd, interest, k1, t1, r1),
        r1.is_ok(),
        unregistered(t1, k1, fd, interest, t2, ru),
        registered(None, t2, w2, fd, interest, k3, t3, r3),
    ensures
        ru == Ok::<Option<Change>, Error>(Some(spec_remove_change(fd as usize, interest))),
        t2 == t0,
        k3.is_some(),
        !t2.dom().contains(k3.unwrap().0),
        t3.dom().contains(k3.unwrap().0),
        r3 == Ok::<Option<Change>, Error>(Some(spec_fd_change(fd as usize, interest, k3.unwrap()))),
{
    let k = choose|k: Key|
        {
            &&& k1 == Some(k)
            &&& !t0.dom().contains(k.0)
            &&& t1 == t0.insert(
                k.0,
                Dispatcher { available: false, waker: Some(w1), waker_option: WakerOption::Tolerate },
            )
            &&& r1 == Ok::<Option<Change>, Error>(Some(spec_fd_change(fd as usize, interest, k)))
        };
    assert(t1.dom().contains(k.0));
    assert(t2 =~= t0);
    let k2 = choose|k2: Key|
        {
            &&& k3 == Some(k2)
            &&& !t2.dom().contains(k2.0)
            &&& t3 == t2.insert(
                k2.0,
                Dispatcher { available: false, waker: Some(w2), waker_option: WakerOption::Tolerate },
            )
            &&& r3 == Ok::<Option<Change>, Error>(Some(spec_fd_change(fd as usize, interest, k2)))
        };
    assert(t3.dom().contains(k2.0));
}

} // verus!
