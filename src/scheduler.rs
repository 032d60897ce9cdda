use std::collections::VecDeque;
use vstd::prelude::*;

verus! {

/// Identity of something that can be woken: the root task driven by the
/// executor, or a spawned task by its node number.
#[derive(Clone, Copy, Debug, PartialEq, Eq, Structural)]
pub enum WakeHandle {
    Root,
    Node(usize),
}

/// Where a spawned task stands.
#[derive(Clone, Copy, Debug, PartialEq, Eq, Structural)]
pub enum NodeState {
    /// In the ready queue, task stored.
    Enqueued,
    /// Handed out by `tick` and being resumed.
    Running,
    /// Being resumed, and woken meanwhile: goes back to the queue if it suspends.
    Woken,
    /// Off the queue, task stored, waiting for its wake handle.
    Suspended,
    /// Finished; wake-ups are ignored.
    Completed,
}

/// The state a node moves to when its wake handle is invoked.
pub open spec fn woken(s: NodeState) -> NodeState {
    match s {
        NodeState::Suspended => NodeState::Enqueued,
        NodeState::Running => NodeState::Woken,
        _ => s,
    }
}

/// Whether invoking `h` changes the state of a node.
pub open spec fn wakes_node(states: Seq<NodeState>, h: WakeHandle) -> bool {
    match h {
        WakeHandle::Node(id) => (id as int) < states.len() && (states[id as int] == NodeState::Suspended
            || states[id as int] == NodeState::Running),
        WakeHandle::Root => false,
    }
}

/// Node states and ready queue after invoking `h`.
pub open spec fn wake_spec(states: Seq<NodeState>, queue: Seq<usize>, h: WakeHandle) -> (Seq<NodeState>, Seq<usize>) {
    match h {
        WakeHandle::Node(id) => if (id as int) < states.len() {
            let s = states[id as int];
            (
                states.update(id as int, woken(s)),
                if s == NodeState::Suspended {
                    queue.push(id)
                } else {
                    queue
                },
            )
        } else {
            (states, queue)
        },
        WakeHandle::Root => (states, queue),
    }
}

/// Node states and ready queue after invoking each of `hs` in order.
pub open spec fn wake_all_spec(states: Seq<NodeState>, queue: Seq<usize>, hs: Seq<WakeHandle>) -> (Seq<NodeState>, Seq<usize>)
    decreases hs.len(),
{
    if hs.len() == 0 {
        (states, queue)
    } else {
        let (s1, q1) = wake_all_spec(states, queue, hs.drop_last());
        wake_spec(s1, q1, hs.last())
    }
}

/// A FIFO scheduler of suspended tasks of type `T`. Node numbers are handed
/// out in order and never reused, so a stale wake handle can only reach a
/// completed node, where it does nothing.
pub struct Scheduler<T> {
    nodes: Vec<NodeState>,
    tasks: Vec<Option<T>>,
    queue: VecDeque<usize>,
}

impl<T> Scheduler<T> {
    /// State of each node, by node number.
    pub closed spec fn states(&self) -> Seq<NodeState> {
        self.nodes@
    }

    /// The task stored in each node.
    pub closed spec fn tasks(&self) -> Seq<Option<T>> {
        self.tasks@
    }

    /// Node numbers in the ready queue, front first.
    pub closed spec fn queue(&self) -> Seq<usize> {
        self.queue@
    }

    pub closed spec fn wf(&self) -> bool {
        &&& self.nodes@.len() == self.tasks@.len()
        &&& forall|i: int|
            0 <= i < self.queue@.len() ==> {
                &&& (self.queue@[i] as int) < self.nodes@.len()
                &&& self.nodes@[self.queue@[i] as int] == NodeState::Enqueued
            }
        &&& forall|i: int, j: int|
            0 <= i < self.queue@.len() && 0 <= j < self.queue@.len() && i != j
                ==> self.queue@[i] != self.queue@[j]
        &&& forall|n: usize|
            (n as int) < self.nodes@.len() && self.nodes@[n as int] == NodeState::Enqueued
                ==> self.queue@.contains(n)
        &&& forall|n: int|
            0 <= n < self.nodes@.len() ==> (self.tasks@[n].is_some() <==> (
            self.nodes@[n] == NodeState::Enqueued || self.nodes@[n] == NodeState::Suspended))
    }

    /// What well-formedness gives a caller: one task slot per node, queued
    /// numbers name distinct enqueued nodes, and exactly the enqueued and the
    /// suspended nodes hold their task.
    pub proof fn lemma_wf(&self)
        requires
            self.wf(),
        ensures
            self.states().len() == self.tasks().len(),
            forall|i: int|
                0 <= i < self.queue().len() ==> (self.queue()[i] as int) < self.states().len()
                    && self.states()[self.queue()[i] as int] == NodeState::Enqueued,
            forall|i: int, j: int|
                0 <= i < self.queue().len() && 0 <= j < self.queue().len() && i != j
                    ==> self.queue()[i] != self.queue()[j],
            forall|n: int|
                0 <= n < self.states().len() ==> (self.tasks()[n].is_some() <==> (
                self.states()[n] == NodeState::Enqueued || self.states()[n] == NodeState::Suspended)),
    {
    }

    /// What `schedule` does: the task goes into a new node, numbered after
    /// the existing ones, at the back of the ready queue.
    pub open spec fn scheduled(s: &Self, task: T, s2: &Self, id: usize) -> bool {
        &&& s2.wf()
        &&& id == s.states().len()
        &&& s2.states() == s.states().push(NodeState::Enqueued)
        &&& s2.tasks() == s.tasks().push(Some(task))
        &&& s2.queue() == s.queue().push(id)
    }

    /// What `tick` does: on an empty queue nothing; otherwise the front node,
    /// which was enqueued with its task, leaves the queue and runs, and its
    /// task is handed out.
    pub open spec fn ticked(s: &Self, s2: &Self, r: Option<(usize, T)>) -> bool {
        &&& s2.wf()
        &&& s.queue().len() == 0 ==> {
            &&& r.is_none()
            &&& s2.states() == s.states()
            &&& s2.tasks() == s.tasks()
            &&& s2.queue() == s.queue()
        }
        &&& s.queue().len() > 0 ==> {
            let id = s.queue()[0];
            &&& (id as int) < s.states().len()
            &&& s.states()[id as int] == NodeState::Enqueued
            &&& s.tasks()[id as int].is_some()
            &&& r == Some((id, s.tasks()[id as int].unwrap()))
            &&& s2.queue() == s.queue().drop_first()
            &&& s2.states() == s.states().update(id as int, NodeState::Running)
            &&& s2.tasks() == s.tasks().update(id as int, None)
        }
    }

    pub fn new() -> (r: Self)
        ensures
            r.wf(),
            r.states() == Seq::<NodeState>::empty(),
            r.tasks() == Seq::<Option<T>>::empty(),
            r.queue() == Seq::<usize>::empty(),
    {
        Scheduler { nodes: Vec::new(), tasks: Vec::new(), queue: VecDeque::new() }
    }

    /// Wraps `task` in a new node and appends it to the back of the ready queue.
    pub fn schedule(&mut self, task: T) -> (id: usize)
        requires
            old(self).wf(),
        ensures
            Self::scheduled(old(self), task, final(self), id),
            final(self).states().len() == final(self).tasks().len(),
            final(self).tasks()[id as int] == Some(task),
    {
        let id = self.nodes.len();
        self.nodes.push(NodeState::Enqueued);
        self.tasks.push(Some(task));
        self.queue.push_back(id);
        assert(self.queue@[self.queue@.len() - 1] == id);
        assert(self.queue@.contains(id));
        assert forall|n: usize|
            (n as int) < self.nodes@.len() && self.nodes@[n as int] == NodeState::Enqueued
                implies self.queue@.contains(n) by {
            if n != id {
                assert(old(self).queue@.contains(n));
                let k = choose|k: int| 0 <= k < old(self).queue@.len() && old(self).queue@[k] == n;
                assert(self.queue@[k] == n);
            }
        }
        id
    }

    /// Takes the node at the front of the ready queue and hands out its task
    /// to be resumed one step; the node is then running.
    pub fn tick(&mut self) -> (r: Option<(usize, T)>)
        requires
            old(self).wf(),
        ensures
            Self::ticked(old(self), final(self), r),
    {
        let popped = self.queue.pop_front();
        match popped {
            None => None,
            Some(id) => {
                assert(old(self).queue@.contains(id) ==> true);
                assert(self.queue@ == old(self).queue@.drop_first());
                let mut slot: Option<T> = None;
                std::mem::swap(&mut slot, &mut self.tasks[id]);
                self.nodes.set(id, NodeState::Running);
                assert forall|i: int| 0 <= i < self.queue@.len() implies self.queue@[i] != id by {
                    assert(self.queue@[i] == old(self).queue@[i + 1]);
                }
                assert forall|n: usize|
                    (n as int) < self.nodes@.len() && self.nodes@[n as int] == NodeState::Enqueued
                        implies self.queue@.contains(n) by {
                    assert(n != id);
                    assert(old(self).nodes@[n as int] == NodeState::Enqueued);
                    assert(old(self).queue@.contains(n));
                    let k = choose|k: int| 0 <= k < old(self).queue@.len() && old(self).queue@[k] == n;
                    assert(old(self).queue@[0] == id);
                    assert(k != 0);
                    assert(self.queue@[k - 1] == n);
                }
                match slot {
                    Some(task) => Some((id, task)),
                    None => None,
                }
            },
        }
    }

    /// All three views agree.
    pub open spec fn same_views(&self, other: &Self) -> bool {
        &&& self.states() == other.states()
        &&& self.tasks() == other.tasks()
        &&& self.queue() == other.queue()
    }

    /// Invokes a wake handle. A suspended node goes to the back of the ready
    /// queue; a running one is marked so that it goes back when it suspends.
    /// The root handle, unknown nodes, and nodes already queued or completed
    /// are left alone. Returns whether a node was woken.
    pub fn wake(&mut self, h: WakeHandle) -> (r: bool)
        requires
            old(self).wf(),
        ensures
            final(self).wf(),
            final(self).tasks() == old(self).tasks(),
            (final(self).states(), final(self).queue()) == wake_spec(old(self).states(), old(self).queue(), h),
            r == wakes_node(old(self).states(), h),
    {
        match h {
            WakeHandle::Root => false,
            WakeHandle::Node(id) => {
                if id >= self.nodes.len() {
                    return false;
                }
                let s = self.nodes[id];
                match s {
                    NodeState::Suspended => {
                        assert(!self.queue@.contains(id));
                        self.nodes.set(id, NodeState::Enqueued);
                        self.queue.push_back(id);
                        assert(self.queue@[self.queue@.len() - 1] == id);
                        assert forall|n: usize|
                            (n as int) < self.nodes@.len() && self.nodes@[n as int] == NodeState::Enqueued
                                implies self.queue@.contains(n) by {
                            if n != id {
                                assert(old(self).queue@.contains(n));
                                let k = choose|k: int| 0 <= k < old(self).queue@.len() && old(self).queue@[k] == n;
                                assert(self.queue@[k] == n);
                            }
                        }
                        true
                    },
                    NodeState::Running => {
                        self.nodes.set(id, NodeState::Woken);
                        true
                    },
                    _ => false,
                }
            },
        }
    }

    /// Puts the task of a running node back after it suspended. A node woken
    /// while it ran goes straight back to the ready queue; otherwise it waits
    /// for its wake handle. Returns false, dropping `task`, when `id` names no
    /// running node.
    pub fn suspend(&mut self, id: usize, task: T) -> (r: bool)
        requires
            old(self).wf(),
        ensures
            final(self).wf(),
            (id as int) < old(self).states().len() && (old(self).states()[id as int] == NodeState::Running
                || old(self).states()[id as int] == NodeState::Woken) ==> {
                let s = old(self).states()[id as int];
                &&& r
                &&& final(self).tasks() == old(self).tasks().update(id as int, Some(task))
                &&& s == NodeState::Woken ==> final(self).states() == old(self).states().update(
                    id as int,
                    NodeState::Enqueued,
                ) && final(self).queue() == old(self).queue().push(id)
                &&& s == NodeState::Running ==> final(self).states() == old(self).states().update(
                    id as int,
                    NodeState::Suspended,
                ) && final(self).queue() == old(self).queue()
            },
            !((id as int) < old(self).states().len() && (old(self).states()[id as int] == NodeState::Running
                || old(self).states()[id as int] == NodeState::Woken)) ==> !r && final(self).same_views(
                old(self),
            ),
    {
        if id >= self.nodes.len() {
            return false;
        }
        let s = self.nodes[id];
        match s {
            NodeState::Running => {
                self.nodes.set(id, NodeState::Suspended);
                self.tasks.set(id, Some(task));
                true
            },
            NodeState::Woken => {
                assert(!self.queue@.contains(id));
                self.nodes.set(id, NodeState::Enqueued);
                self.tasks.set(id, Some(task));
                self.queue.push_back(id);
                assert(self.queue@[self.queue@.len() - 1] == id);
                assert forall|n: usize|
                    (n as int) < self.nodes@.len() && self.nodes@[n as int] == NodeState::Enqueued
                        implies self.queue@.contains(n) by {
                    if n != id {
                        assert(old(self).queue@.contains(n));
                        let k = choose|k: int| 0 <= k < old(self).queue@.len() && old(self).queue@[k] == n;
                        assert(self.queue@[k] == n);
                    }
                }
                true
            },
            _ => false,
        }
    }

    /// Marks a running node as finished. Returns false, changing nothing,
    /// when `id` names no running node.
    pub fn complete(&mut self, id: usize) -> (r: bool)
        requires
            old(self).wf(),
        ensures
            final(self).wf(),
            r == ((id as int) < old(self).states().len() && (old(self).states()[id as int] == NodeState::Running
                || old(self).states()[id as int] == NodeState::Woken)),
            r ==> final(self).states() == old(self).states().update(id as int, NodeState::Completed)
                && final(self).tasks() == old(self).tasks() && final(self).queue() == old(self).queue(),
            !r ==> final(self).same_views(old(self)),
    {
        if id >= self.nodes.len() {
            return false;
        }
        let s = self.nodes[id];
        match s {
            NodeState::Running | NodeState::Woken => {
                self.nodes.set(id, NodeState::Completed);
                true
            },
            _ => false,
        }
    }

    /// Number of nodes in the ready queue.
    pub fn queued(&self) -> (r: usize)
        ensures
            r == self.queue().len(),
    {
        self.queue.len()
    }
}

proof fn lemma_schedules<T>(ss: Seq<Scheduler<T>>, tasks: Seq<T>, ids: Seq<usize>, i: int)
    requires
        0 <= i <= tasks.len(),
        ss.len() > tasks.len(),
        ids.len() == tasks.len(),
        ss[0].wf(),
        ss[0].queue().len() == 0,
        forall|m: int| 0 <= m < tasks.len() ==> Scheduler::scheduled(&ss[m], tasks[m], &ss[m + 1], ids[m]),
    ensures
        ss[i].wf(),
        ss[i].queue() == ids.take(i),
        ss[i].states().len() == ss[0].states().len() + i,
        forall|k: int| 0 <= k < i ==> ids[k] == ss[0].states().len() + k,
        forall|k: int| 0 <= k < i ==> ss[i].tasks()[ids[k] as int] == Some(tasks[k]),
    decreases i,
{
    if i == 0 {
        assert(ids.take(0) =~= Seq::<usize>::empty());
    } else {
        lemma_schedules(ss, tasks, ids, i - 1);
        let p = ss[i - 1];
        let c = ss[i];
        assert(Scheduler::scheduled(&p, tasks[i - 1], &c, ids[i - 1]));
        p.lemma_wf();
        assert(ids.take(i) =~= ids.take(i - 1).push(ids[i - 1]));
        assert forall|k: int| 0 <= k < i implies c.tasks()[ids[k] as int] == Some(tasks[k]) by {
            if k < i - 1 {
                assert(p.tasks()[ids[k] as int] == Some(tasks[k]));
            }
        }
    }
}

proof fn lemma_ticks<T>(ss: Seq<Scheduler<T>>, tasks: Seq<T>, ids: Seq<usize>, rs: Seq<Option<(usize, T)>>, j: int)
    requires
        0 <= j <= rs.len() <= tasks.len(),
        ss.len() == tasks.len() + rs.len() + 1,
        ids.len() == tasks.len(),
        ss[tasks.len() as int].wf(),
        ss[tasks.len() as int].queue() == ids,
        ss[tasks.len() as int].tasks().len() == ss[0].states().len() + tasks.len(),
        forall|k: int| 0 <= k < tasks.len() ==> ids[k] == ss[0].states().len() + k,
        forall|k: int| 0 <= k < tasks.len() ==> ss[tasks.len() as int].tasks()[ids[k] as int] == Some(tasks[k]),
        forall|m: int|
            0 <= m < rs.len() ==> Scheduler::ticked(
                &ss[tasks.len() + m],
                &ss[tasks.len() + m + 1],
                rs[m],
            ),
    ensures
        ss[tasks.len() + j].queue() == ids.skip(j),
        ss[tasks.len() + j].tasks().len() == ss[tasks.len() as int].tasks().len(),
        forall|k: int| j <= k < tasks.len() ==> ss[tasks.len() + j].tasks()[ids[k] as int] == Some(tasks[k]),
        forall|m: int| 0 <= m < j ==> rs[m] == Some((ids[m], tasks[m])),
    decreases j,
{
    let n = tasks.len() as int;
    if j == 0 {
        assert(ids.skip(0) =~= ids);
    } else {
        lemma_ticks(ss, tasks, ids, rs, j - 1);
        let p = ss[n + j - 1];
        let c = ss[n + j];
        assert(Scheduler::ticked(&p, &c, rs[j - 1]));
        assert(p.queue()[0] == ids[j - 1]);
        assert(ids.skip(j) =~= ids.skip(j - 1).drop_first());
        assert forall|k: int| j <= k < n implies c.tasks()[ids[k] as int] == Some(tasks[k]) by {
            assert(ids[k] != ids[j - 1]);
            assert(p.tasks()[ids[k] as int] == Some(tasks[k]));
        }
    }
}

/// Fairness: tasks scheduled one after another onto an idle ready queue are
/// handed out by successive ticks in the order they were scheduled, each
/// with its own task. `ss` is the run of scheduler states: first one
/// `schedule` per task, then one `tick` per result in `rs`.
pub proof fn lemma_fifo<T>(ss: Seq<Scheduler<T>>, tasks: Seq<T>, ids: Seq<usize>, rs: Seq<Option<(usize, T)>>)
    requires
        rs.len() <= tasks.len(),
        ss.len() == tasks.len() + rs.len() + 1,
        ids.len() == tasks.len(),
        ss[0].wf(),
        ss[0].queue().len() == 0,
        forall|m: int| 0 <= m < tasks.len() ==> Scheduler::scheduled(&ss[m], tasks[m], &ss[m + 1], ids[m]),
        forall|m: int|
            0 <= m < rs.len() ==> Scheduler::ticked(
                &ss[tasks.len() + m],
                &ss[tasks.len() + m + 1],
                rs[m],
            ),
    ensures
        forall|m: int| 0 <= m < rs.len() ==> rs[m] == Some((ids[m], tasks[m])),
{
    let n = tasks.len() as int;
    lemma_schedules(ss, tasks, ids, n);
    assert(ids.take(n) =~= ids);
    ss[n].lemma_wf();
    lemma_ticks(ss, tasks, ids, rs, rs.len() as int);
}

} // verus!
