use vstd::prelude::*;

use crate::dispatcher::{Dispatcher, Error, Key};
use crate::reactor::{deliver, Reactor};
use crate::scheduler::{wake_all_spec, NodeState, Scheduler, WakeHandle};

verus! {

/// Resolves an operation made through a weak handle: the owner, when it is
/// still alive, or the `Dropped` error.
pub fn alive<T>(upgraded: Option<T>) -> (r: Result<T, Error>)
    ensures
        match upgraded {
            Some(v) => r == Ok::<T, Error>(v),
            None => r == Err::<T, Error>(Error::Dropped),
        },
{
    match upgraded {
        Some(v) => Ok(v),
        None => Err(Error::Dropped),
    }
}

/// The steps of the executor's driving loop.
#[derive(Clone, Copy, Debug, PartialEq, Eq, Structural)]
pub enum Drive {
    /// Resume the root task one step.
    PollRoot,
    /// Resume the spawned task at the front of the ready queue, if any.
    Tick,
    /// Fetch one batch of kernel events and deliver it; wait for events only
    /// when the flag is set.
    WaitKernel(bool),
    /// The root task is done: hand back its result.
    Finish,
}

/// The state an executor owns: the reactor's dispatcher table and the
/// scheduler of spawned tasks of type `T`.
pub struct Runtime<T> {
    pub reactor: Reactor,
    pub scheduler: Scheduler<T>,
}

impl<T> Runtime<T> {
    pub open spec fn wf(&self) -> bool {
        self.scheduler.wf()
    }

    pub fn new() -> (r: Self)
        ensures
            r.wf(),
            r.reactor.table() == Map::<usize, Dispatcher>::empty(),
            r.scheduler.states() == Seq::<NodeState>::empty(),
            r.scheduler.tasks() == Seq::<Option<T>>::empty(),
            r.scheduler.queue() == Seq::<usize>::empty(),
    {
        Runtime { reactor: Reactor::new(), scheduler: Scheduler::new() }
    }

    /// Adds a task to the back of the ready queue; returns its node number.
    pub fn spawn(&mut self, task: T) -> (id: usize)
        requires
            old(self).wf(),
        ensures
            final(self).wf(),
            final(self).reactor == old(self).reactor,
            id == old(self).scheduler.states().len(),
            final(self).scheduler.states() == old(self).scheduler.states().push(NodeState::Enqueued),
            final(self).scheduler.tasks() == old(self).scheduler.tasks().push(Some(task)),
            final(self).scheduler.queue() == old(self).scheduler.queue().push(id),
            final(self).scheduler.states().len() == final(self).scheduler.tasks().len(),
            final(self).scheduler.tasks()[id as int] == Some(task),
    {
        self.scheduler.schedule(task)
    }

    /// The loop's next step after `last`. After polling the root task, finish
    /// if it is done, else resume one spawned task; after that, fetch kernel
    /// events, waiting only while no spawned task is ready; then poll the
    /// root task again. So one spawned task advances per root suspension,
    /// and ready tasks never wait on the kernel.
    pub fn next(&self, last: Drive, root_ready: bool) -> (d: Drive)
        requires
            self.wf(),
        ensures
            last == Drive::PollRoot ==> d == if root_ready {
                Drive::Finish
            } else {
                Drive::Tick
            },
            last == Drive::Tick ==> d == Drive::WaitKernel(self.scheduler.queue().len() == 0),
            last is WaitKernel ==> d == Drive::PollRoot,
            last == Drive::Finish ==> d == Drive::Finish,
    {
        match last {
            Drive::PollRoot => if root_ready {
                Drive::Finish
            } else {
                Drive::Tick
            },
            Drive::Tick => Drive::WaitKernel(self.scheduler.queued() == 0),
            Drive::WaitKernel(_) => Drive::PollRoot,
            Drive::Finish => Drive::Finish,
        }
    }

    /// Files the outcome of resuming node `id` one step: `None` when its task
    /// finished (it is discarded and never resumed again), `Some(task)` when
    /// it suspended (kept in its node until woken, or queued again at once
    /// if it was woken while it ran). Returns false, changing nothing, when
    /// `id` names no running node.
    pub fn resumed(&mut self, id: usize, outcome: Option<T>) -> (r: bool)
        requires
            old(self).wf(),
        ensures
            final(self).wf(),
            final(self).reactor == old(self).reactor,
            r == ((id as int) < old(self).scheduler.states().len() && (old(self).scheduler.states()[id as int]
                == NodeState::Running || old(self).scheduler.states()[id as int] == NodeState::Woken)),
            !r ==> final(self).scheduler.same_views(&old(self).scheduler),
            r ==> match outcome {
                None => {
                    &&& final(self).scheduler.states() == old(self).scheduler.states().update(
                        id as int,
                        NodeState::Completed,
                    )
                    &&& final(self).scheduler.tasks() == old(self).scheduler.tasks()
                    &&& final(self).scheduler.queue() == old(self).scheduler.queue()
                },
                Some(task) => {
                    let woken = old(self).scheduler.states()[id as int] == NodeState::Woken;
                    &&& final(self).scheduler.tasks() == old(self).scheduler.tasks().update(id as int, Some(task))
                    &&& final(self).scheduler.states() == old(self).scheduler.states().update(
                        id as int,
                        if woken {
                            NodeState::Enqueued
                        } else {
                            NodeState::Suspended
                        },
                    )
                    &&& final(self).scheduler.queue() == if woken {
                        old(self).scheduler.queue().push(id)
                    } else {
                        old(self).scheduler.queue()
                    }
                },
            },
    {
        match outcome {
            None => self.scheduler.complete(id),
            Some(task) => self.scheduler.suspend(id, task),
        }
    }

    /// Invokes each of `hs` in order on the scheduler.
    pub fn wake_all(&mut self, hs: &Vec<WakeHandle>)
        requires
            old(self).wf(),
        ensures
            final(self).wf(),
            final(self).reactor == old(self).reactor,
            final(self).scheduler.tasks() == old(self).scheduler.tasks(),
            (final(self).scheduler.states(), final(self).scheduler.queue()) == wake_all_spec(
                old(self).scheduler.states(),
                old(self).scheduler.queue(),
                hs@,
            ),
    {
        let mut i: usize = 0;
        assert(hs@.subrange(0, 0) =~= Seq::<WakeHandle>::empty());
        while i < hs.len()
            invariant
                i <= hs@.len(),
                self.wf(),
                self.reactor == old(self).reactor,
                self.scheduler.tasks() == old(self).scheduler.tasks(),
                (self.scheduler.states(), self.scheduler.queue()) == wake_all_spec(
                    old(self).scheduler.states(),
                    old(self).scheduler.queue(),
                    hs@.subrange(0, i as int),
                ),
            decreases hs@.len() - i,
        {
            assert(hs@.subrange(0, i as int + 1).drop_last() == hs@.subrange(0, i as int));
            let _ = self.scheduler.wake(hs[i]);
            i = i + 1;
        }
        assert(hs@.subrange(0, hs@.len() as int) == hs@);
    }

    /// Hands one batch of fired keys from the kernel to the reactor and wakes
    /// the tasks that waited on them. Fails with `NoWaker` when a source that
    /// needs a stored handle had none; the tasks found before it are woken
    /// all the same.
    pub fn deliver(&mut self, fired: &Vec<Key>) -> (r: Result<(), Error>)
        requires
            old(self).wf(),
        ensures
            final(self).wf(),
            final(self).reactor.table() == deliver(old(self).reactor.table(), fired@).0,
            final(self).scheduler.tasks() == old(self).scheduler.tasks(),
            (final(self).scheduler.states(), final(self).scheduler.queue()) == wake_all_spec(
                old(self).scheduler.states(),
                old(self).scheduler.queue(),
                deliver(old(self).reactor.table(), fired@).1,
            ),
            r == if deliver(old(self).reactor.table(), fired@).2 {
                Err::<(), Error>(Error::NoWaker)
            } else {
                Ok::<(), Error>(())
            },
    {
        let (wakes, status) = self.reactor.poll(fired);
        self.wake_all(&wakes);
        status
    }
}

} // verus!
