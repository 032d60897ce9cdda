use dope::scheduler::{NodeState, Scheduler, WakeHandle};

#[test]
fn fifo_order_of_spawned_tasks() {
    let mut s: Scheduler<&'static str> = Scheduler::new();
    let a = s.schedule("t1");
    let b = s.schedule("t2");
    let c = s.schedule("t3");
    assert_eq!((a, b, c), (0, 1, 2));
    let mut order = Vec::new();
    while let Some((id, task)) = s.tick() {
        order.push(task);
        assert!(s.complete(id));
    }
    assert_eq!(order, vec!["t1", "t2", "t3"]);
    assert_eq!(s.queued(), 0);
}

#[test]
fn tick_on_empty_queue_does_nothing() {
    let mut s: Scheduler<u32> = Scheduler::new();
    assert!(s.tick().is_none());
    assert_eq!(s.queued(), 0);
}

#[test]
fn suspended_task_waits_for_its_handle() {
    let mut s: Scheduler<u32> = Scheduler::new();
    let id = s.schedule(7);
    let (got, task) = s.tick().unwrap();
    assert_eq!((got, task), (id, 7));
    assert!(s.suspend(id, task));
    assert!(s.tick().is_none());
    assert!(s.wake(WakeHandle::Node(id)));
    // A second wake of a queued node does not queue it twice.
    assert!(!s.wake(WakeHandle::Node(id)));
    assert_eq!(s.queued(), 1);
    assert_eq!(s.tick(), Some((id, 7)));
    assert!(s.complete(id));
    // Waking a completed node, an unknown node or the root does nothing.
    assert!(!s.wake(WakeHandle::Node(id)));
    assert!(!s.wake(WakeHandle::Node(99)));
    assert!(!s.wake(WakeHandle::Root));
    assert_eq!(s.queued(), 0);
}

#[test]
fn wake_while_running_requeues_on_suspend() {
    let mut s: Scheduler<u32> = Scheduler::new();
    let id = s.schedule(1);
    let other = s.schedule(2);
    let (_, task) = s.tick().unwrap();
    assert!(s.wake(WakeHandle::Node(id)));
    assert!(s.suspend(id, task));
    assert_eq!(s.tick(), Some((other, 2)));
    assert_eq!(s.tick(), Some((id, 1)));
}

#[test]
fn misuse_is_refused() {
    let mut s: Scheduler<u32> = Scheduler::new();
    let id = s.schedule(1);
    assert!(!s.complete(id));
    assert!(!s.suspend(id, 5));
    assert!(!s.complete(42));
    assert_eq!(s.tick(), Some((id, 1)));
    assert_ne!(NodeState::Running, NodeState::Completed);
}
