use dope::dispatcher::Key;
use dope::executor::{Drive, Runtime};
use dope::kevent::{Change, Filter, EV_ADD, EV_ENABLE, EV_ONESHOT, TIMER_IDENT_OFFSET};
use dope::reactor::Reactor;
use dope::scheduler::WakeHandle;
use dope::timer::{Delay, Timer};

/// A stand-in for the kernel's timer queue: repeating timers that fire at
/// each multiple of their period, the earliest next firing first.
struct FakeClock {
    timers: Vec<(usize, i64, i64)>,
}

impl FakeClock {
    fn add(&mut self, change: &Change) {
        assert_eq!(change.filter, Filter::Timer);
        self.timers.push((change.udata, change.data as i64, change.data as i64));
    }

    fn next_batch(&mut self) -> Vec<Key> {
        let mut best = 0;
        for i in 1..self.timers.len() {
            if self.timers[i].2 < self.timers[best].2 {
                best = i;
            }
        }
        let (key, period, at) = self.timers[best];
        self.timers[best].2 = at + period;
        vec![Key(key)]
    }
}

#[test]
fn test_timer() {
    let mut runtime: Runtime<()> = Runtime::new();
    let mut clock = FakeClock { timers: Vec::new() };
    let (stream1, c1) = Timer::start(&mut runtime.reactor, 500).unwrap();
    let (stream2, c2) = Timer::start(&mut runtime.reactor, 1375).unwrap();
    clock.add(&c1);
    clock.add(&c2);
    // The root task: merge both streams, take the first ten items.
    let mut res: Vec<i32> = Vec::new();
    let mut step = Drive::PollRoot;
    let mut turns = 0;
    loop {
        let mut root_ready = false;
        match step {
            Drive::PollRoot => {
                for (stream, tag) in [(&stream1, 1), (&stream2, 2)] {
                    if res.len() < 10 && stream.poll_next(&mut runtime.reactor, WakeHandle::Root).unwrap() {
                        res.push(tag);
                    }
                }
                root_ready = res.len() == 10;
            }
            Drive::Tick => assert!(runtime.scheduler.tick().is_none()),
            Drive::WaitKernel(block) => {
                assert!(block);
                let batch = clock.next_batch();
                runtime.deliver(&batch).unwrap();
            }
            Drive::Finish => break,
        }
        step = runtime.next(step, root_ready);
        turns += 1;
        assert!(turns < 1000);
    }
    assert_eq!(res, vec![1, 1, 2, 1, 1, 1, 2, 1, 1, 1]);
}

#[test]
fn timer_change_is_repeating_and_offset() {
    let mut reactor = Reactor::new();
    let (timer, change) = Timer::start(&mut reactor, 500).unwrap();
    assert_eq!(change.ident, timer.key_of().0 + TIMER_IDENT_OFFSET);
    assert_eq!(change.ident, 0x1000);
    assert_eq!(change.flags, EV_ADD | EV_ENABLE);
    assert_eq!(change.flags, 5);
    assert_eq!(change.data, 500);
    assert_eq!(change.udata, timer.key_of().0);
}

#[test]
fn delay_is_one_shot_and_fires_once() {
    let mut reactor = Reactor::new();
    let (delay, change) = Delay::start(&mut reactor, 250).unwrap();
    assert_eq!(change.flags, EV_ADD | EV_ENABLE | EV_ONESHOT);
    assert_eq!(change.flags, 0x15);
    assert_eq!(change.data, 250);
    assert!(!delay.poll(&mut reactor, WakeHandle::Node(4)).unwrap());
    let (wakes, status) = reactor.poll(&vec![delay.key_of()]);
    assert_eq!(status, Ok(()));
    assert_eq!(wakes, vec![WakeHandle::Node(4)]);
    assert!(delay.poll(&mut reactor, WakeHandle::Node(4)).unwrap());
    assert!(!delay.poll(&mut reactor, WakeHandle::Node(4)).unwrap());
}
