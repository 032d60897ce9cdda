use dope::dispatcher::{Dispatcher, Error, Key, WakerOption};
use dope::executor::{alive, Drive, Runtime};
use dope::kevent::{keys_of, Change, Filter, Interest, EV_DELETE, EV_DISABLE};
use dope::reactor::Reactor;
use dope::register::Register;
use dope::scheduler::WakeHandle;
use dope::signal::Signal;

#[test]
fn dispatcher_buffers_one_event() {
    let mut d = Dispatcher::new(Some(WakeHandle::Node(3)), WakerOption::Tolerate);
    assert_eq!(d.wake(), Ok(Some(WakeHandle::Node(3))));
    assert_eq!(d.wake(), Ok(None));
    assert!(d.consume());
    assert!(!d.consume());
}

#[test]
fn dispatcher_needing_a_waker_fails_without_one() {
    let mut d = Dispatcher::new(None, WakerOption::NeedWaker);
    assert_eq!(d.wake(), Err(Error::NoWaker));
    assert!(d.available);
    assert!(!d.set_waker(WakeHandle::Root));
    assert!(d.set_waker(WakeHandle::Node(1)));
    assert_eq!(d.waker, Some(WakeHandle::Node(1)));
}

#[test]
fn key_conversions() {
    let k = Key::from(12usize);
    assert_eq!(k.inner(), 12);
    assert_eq!(k, Key(12));
}

#[test]
fn filter_codes() {
    assert_eq!(Filter::Read.code(), -1);
    assert_eq!(Filter::Timer.code(), -7);
    assert_eq!(Filter::Vm.code(), -12);
    assert_eq!(Filter::from_code(-6), Some(Filter::Signal));
    assert_eq!(Filter::from_code(-11), None);
    assert_eq!(Filter::from_code(0), None);
}

#[test]
fn keys_from_event_batch() {
    assert_eq!(keys_of(&vec![3, 0, 3]), vec![Key(3), Key(0), Key(3)]);
    assert!(keys_of(&vec![]).is_empty());
}

#[test]
fn register_fd_and_bad_fd() {
    let mut reactor = Reactor::new();
    assert_eq!(reactor.register_fd(WakeHandle::Root, -1, Interest::Read, WakerOption::Tolerate), Err(Error::BadFd));
    let (k, c) = reactor.register_fd(WakeHandle::Node(0), 5, Interest::Write, WakerOption::Tolerate).unwrap();
    assert!(reactor.contains(k));
    assert_eq!(c, Change { ident: 5, filter: Filter::Write, flags: 5, fflags: 0, data: 0, udata: k.0 });
}

#[test]
fn second_fire_before_poll_delivers_one_wake() {
    let mut reactor = Reactor::new();
    let (k, _) = reactor.register_fd(WakeHandle::Node(2), 4, Interest::Read, WakerOption::Tolerate).unwrap();
    let (wakes, status) = reactor.poll(&vec![k, k]);
    assert_eq!(status, Ok(()));
    assert_eq!(wakes, vec![WakeHandle::Node(2)]);
    assert_eq!(reactor.poll_elapsed(k, WakeHandle::Node(2)), Ok(true));
    assert_eq!(reactor.poll_elapsed(k, WakeHandle::Node(2)), Ok(false));
}

#[test]
fn need_waker_source_stops_delivery() {
    let mut reactor = Reactor::new();
    let (a, _) = reactor.register_fd(WakeHandle::Node(1), 4, Interest::Read, WakerOption::Tolerate).unwrap();
    let (b, _) = reactor.register_fd(WakeHandle::Node(2), 5, Interest::Read, WakerOption::NeedWaker).unwrap();
    let (wakes, status) = reactor.poll(&vec![a, b, b, a]);
    assert_eq!(wakes, vec![WakeHandle::Node(1), WakeHandle::Node(2)]);
    assert_eq!(status, Err(Error::NoWaker));
}

#[test]
fn unknown_keys() {
    let mut reactor = Reactor::new();
    assert_eq!(reactor.poll_elapsed(Key(9), WakeHandle::Root), Err(Error::UnknownKey));
    assert_eq!(reactor.set_context(Key(9), WakeHandle::Root), Err(Error::UnknownKey));
    assert_eq!(reactor.unregister(Some(Key(9)), 3, Interest::Read), Err(Error::UnknownKey));
    assert_eq!(reactor.unregister(None, 3, Interest::Read), Ok(None));
    let (wakes, status) = reactor.poll(&vec![Key(9)]);
    assert!(wakes.is_empty());
    assert_eq!(status, Ok(()));
}

#[test]
fn set_context_reports_overwrite() {
    let mut reactor = Reactor::new();
    let (k, _) = reactor.register_fd(WakeHandle::Node(0), 4, Interest::Read, WakerOption::Tolerate).unwrap();
    assert_eq!(reactor.set_context(k, WakeHandle::Node(1)), Ok(true));
    let (wakes, _) = reactor.poll(&vec![k]);
    assert_eq!(wakes, vec![WakeHandle::Node(1)]);
    assert_eq!(reactor.set_context(k, WakeHandle::Node(1)), Ok(false));
}

#[test]
fn signals() {
    let mut reactor = Reactor::new();
    assert!(matches!(Signal::start(&mut reactor, -2), Err(Error::BadSignal)));
    let (sig, c) = Signal::start(&mut reactor, 2).unwrap();
    assert_eq!((c.ident, c.filter, c.udata), (2, Filter::Signal, sig.key_of().0));
    assert_eq!(sig.poll_next(&mut reactor, WakeHandle::Node(0)), Ok(false));
    let (wakes, _) = reactor.poll(&vec![sig.key_of()]);
    assert_eq!(wakes, vec![WakeHandle::Node(0)]);
    assert_eq!(sig.poll_next(&mut reactor, WakeHandle::Node(0)), Ok(true));
}

#[test]
fn register_twice_registers_once() {
    let mut reactor = Reactor::new();
    let mut reg = Register::new(());
    let first = reg.register_read(&mut reactor, WakeHandle::Node(0), 7).unwrap();
    let key = reg.current_key().unwrap();
    assert_eq!(first.unwrap().ident, 7);
    assert_eq!(reg.register_read(&mut reactor, WakeHandle::Node(1), 7), Ok(None));
    assert_eq!(reg.current_key(), Some(key));
    let (wakes, _) = reactor.poll(&vec![key]);
    assert_eq!(wakes, vec![WakeHandle::Node(1)]);
}

#[test]
fn unregister_removes_slot_and_ignores_late_events() {
    let mut reactor = Reactor::new();
    let mut reg = Register::new(());
    reg.register_write(&mut reactor, WakeHandle::Node(0), 9).unwrap();
    let key = reg.current_key().unwrap();
    let change = reg.unregister(&mut reactor, 9).unwrap().unwrap();
    assert_eq!(change.ident, 9);
    assert_eq!(change.filter, Filter::Write);
    assert_eq!(change.flags, EV_DELETE | EV_DISABLE);
    assert!(!reactor.contains(key));
    assert_eq!(reg.current_key(), None);
    let (wakes, status) = reactor.poll(&vec![key]);
    assert!(wakes.is_empty());
    assert_eq!(status, Ok(()));
}

#[test]
fn register_unregister_register_again() {
    let mut reactor = Reactor::new();
    let mut reg = Register::new(());
    reg.register_read(&mut reactor, WakeHandle::Node(0), 3).unwrap();
    assert!(reg.unregister(&mut reactor, 3).unwrap().is_some());
    let again = reg.register_read(&mut reactor, WakeHandle::Node(0), 3).unwrap();
    let key = reg.current_key().unwrap();
    assert!(reactor.contains(key));
    assert_eq!(again.unwrap().udata, key.0);
    assert_eq!(reg.unregister(&mut reactor, -3), Err(Error::BadFd));
    assert!(reactor.contains(key));
}

#[test]
fn dropped_owner_is_an_error() {
    assert_eq!(alive::<u8>(None), Err(Error::Dropped));
    assert_eq!(alive(Some(4u8)), Ok(4));
    let reg = Register::new(std::rc::Rc::new(5u8));
    let weak = std::rc::Rc::downgrade(&reg.clone_reactor());
    assert_eq!(alive(weak.upgrade()).map(|v| *v), Ok(5));
    drop(reg);
    assert_eq!(alive(weak.upgrade()).map(|v| *v), Err(Error::Dropped));
}

#[test]
fn runtime_wakes_tasks_on_delivery() {
    let mut rt: Runtime<&'static str> = Runtime::new();
    let id = rt.spawn("reader");
    let (got, task) = rt.scheduler.tick().unwrap();
    assert_eq!(got, id);
    let (k, _) = rt.reactor.register_fd(WakeHandle::Node(id), 0, Interest::Read, WakerOption::Tolerate).unwrap();
    assert!(rt.scheduler.suspend(id, task));
    assert_eq!(rt.scheduler.queued(), 0);
    assert_eq!(rt.deliver(&vec![k]), Ok(()));
    assert_eq!(rt.scheduler.tick(), Some((id, "reader")));
}

#[test]
fn runtime_delivery_stops_on_missing_waker() {
    let mut rt: Runtime<u32> = Runtime::new();
    let a = rt.spawn(1);
    let b = rt.spawn(2);
    let (_, ta) = rt.scheduler.tick().unwrap();
    let (_, tb) = rt.scheduler.tick().unwrap();
    assert!(rt.scheduler.suspend(a, ta));
    assert!(rt.scheduler.suspend(b, tb));
    let (ka, _) = rt.reactor.register_fd(WakeHandle::Node(a), 3, Interest::Read, WakerOption::Tolerate).unwrap();
    let (kn, _) = rt.reactor.add_signal(15).unwrap();
    let mut strict = Dispatcher::new(None, WakerOption::NeedWaker);
    assert_eq!(strict.wake(), Err(Error::NoWaker));
    let (kb, _) = rt.reactor.register_fd(WakeHandle::Node(b), 4, Interest::Read, WakerOption::NeedWaker).unwrap();
    assert_eq!(rt.deliver(&vec![ka, kn, kb]), Ok(()));
    assert_eq!(rt.scheduler.tick(), Some((a, 1)));
    assert_eq!(rt.scheduler.tick(), Some((b, 2)));
    // The strict source has no handle stored now: a second firing fails.
    assert_eq!(rt.deliver(&vec![kb, ka]), Err(Error::NoWaker));
}

#[test]
fn driver_alternates_steps() {
    let mut rt: Runtime<u32> = Runtime::new();
    assert_eq!(rt.next(Drive::PollRoot, false), Drive::Tick);
    assert_eq!(rt.next(Drive::PollRoot, true), Drive::Finish);
    assert_eq!(rt.next(Drive::Tick, false), Drive::WaitKernel(true));
    rt.spawn(1);
    assert_eq!(rt.next(Drive::Tick, false), Drive::WaitKernel(false));
    assert_eq!(rt.next(Drive::WaitKernel(false), false), Drive::PollRoot);
    assert_eq!(rt.next(Drive::Finish, false), Drive::Finish);
}

#[test]
fn resumed_files_outcomes() {
    let mut rt: Runtime<u32> = Runtime::new();
    let a = rt.spawn(1);
    let b = rt.spawn(2);
    let (_, ta) = rt.scheduler.tick().unwrap();
    assert!(rt.resumed(a, Some(ta)));
    assert_eq!(rt.scheduler.queued(), 1);
    let (_, _) = rt.scheduler.tick().unwrap();
    assert!(rt.resumed(b, None));
    assert!(!rt.resumed(b, None));
    assert!(!rt.resumed(a, Some(9)));
    assert!(rt.scheduler.wake(WakeHandle::Node(a)));
    assert_eq!(rt.scheduler.tick(), Some((a, 1)));
}

#[test]
fn unregister_change_leaves_the_slot() {
    let mut reactor = Reactor::new();
    let mut reg = Register::new(());
    reg.register_read(&mut reactor, WakeHandle::Node(0), 6).unwrap();
    let key = reg.current_key().unwrap();
    let change = reg.unregister_change(&reactor, 6).unwrap().unwrap();
    assert_eq!((change.ident, change.filter), (6, Filter::Read));
    assert!(reactor.contains(key));
    assert_eq!(reactor.unregister_change(Some(key), -6, Interest::Read), Err(Error::BadFd));
    assert_eq!(reactor.unregister_change(Some(Key(40)), 6, Interest::Read), Err(Error::UnknownKey));
    assert_eq!(reactor.unregister_change(None, 6, Interest::Read), Ok(None));
    assert_eq!(reg.unregister(&mut reactor, 6), Ok(Some(change)));
    assert!(!reactor.contains(key));
}

#[test]
fn discard_rolls_back_a_registration() {
    let mut reactor = Reactor::new();
    let mut reg = Register::new(());
    assert!(!reg.discard(&mut reactor));
    reg.register_write(&mut reactor, WakeHandle::Node(0), 8).unwrap();
    let key = reg.current_key().unwrap();
    assert!(reg.discard(&mut reactor));
    assert!(!reactor.contains(key));
    assert_eq!(reg.current_key(), None);
}

#[test]
fn timers_always_start() {
    let mut reactor = Reactor::new();
    for i in 0..20i64 {
        let (k, c) = reactor.add_timer(i, i % 2 == 0).unwrap();
        assert_eq!(c.ident, k.0 + 0x1000);
        assert_eq!(c.data, i as isize);
    }
}
