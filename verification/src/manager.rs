//! The ready queue and the stride policy that picks the next task from it.

use std::collections::VecDeque;
use vstd::prelude::*;

use crate::task::TaskControlBlock;

verus! {

/// Whether position `k` of the queue `q` holds the task to dispatch next: its
/// stride is the lowest in the queue, and every task in front of it has a
/// higher one.
pub open spec fn is_next(q: Seq<TaskControlBlock>, k: int) -> bool {
    &&& 0 <= k < q.len()
    &&& forall|j: int| #![trigger q[j]] 0 <= j < q.len() ==> q[k].stride <= q[j].stride
    &&& forall|j: int| #![trigger q[j]] 0 <= j < k ==> q[k].stride < q[j].stride
}

/// The position of the task to dispatch next from a queue that is not empty.
pub open spec fn next_index(q: Seq<TaskControlBlock>) -> int {
    choose|k: int| is_next(q, k)
}

/// A queue that is not empty has a task to dispatch next.
pub proof fn lemma_next_exists(q: Seq<TaskControlBlock>)
    requires
        q.len() > 0,
    ensures
        is_next(q, next_index(q)),
    decreases q.len(),
{
    if q.len() == 1 {
        assert(is_next(q, 0));
    } else {
        let front = q.drop_last();
        lemma_next_exists(front);
        let k = next_index(front);
        let last = q.len() - 1;
        if q[last].stride < q[k].stride {
            assert forall|j: int| 0 <= j < last implies q[last].stride < q[j].stride by {
                assert(front[k].stride <= front[j].stride);
            }
            assert(is_next(q, last));
        } else {
            assert forall|j: int| 0 <= j < q.len() implies q[k].stride <= q[j].stride by {
                if j < last {
                    assert(front[k].stride <= front[j].stride);
                }
            }
            assert forall|j: int| 0 <= j < k implies q[k].stride < q[j].stride by {
                assert(front[k].stride < front[j].stride);
            }
            assert(is_next(q, k));
        }
    }
}

/// At most one position of a queue holds the task to dispatch next.
pub proof fn lemma_next_unique(q: Seq<TaskControlBlock>, a: int, b: int)
    requires
        is_next(q, a),
        is_next(q, b),
    ensures
        a == b,
{
    if a < b {
        assert(q[b].stride < q[a].stride);
        assert(q[a].stride <= q[b].stride);
    } else if b < a {
        assert(q[a].stride < q[b].stride);
        assert(q[b].stride <= q[a].stride);
    }
}

/// The queue after `tasks` were added to `q` one by one, first to last.
pub open spec fn after_adds(
    q: Seq<TaskControlBlock>,
    tasks: Seq<TaskControlBlock>,
) -> Seq<TaskControlBlock>
    decreases tasks.len(),
{
    if tasks.len() == 0 {
        q
    } else {
        after_adds(q, tasks.drop_last()).push(tasks.last())
    }
}

/// Tasks that are added line up behind those that wait already, in the
/// order in which they are added.
pub proof fn lemma_adds_append(q: Seq<TaskControlBlock>, tasks: Seq<TaskControlBlock>)
    ensures
        after_adds(q, tasks) == q + tasks,
    decreases tasks.len(),
{
    if tasks.len() > 0 {
        lemma_adds_append(q, tasks.drop_last());
        assert((q + tasks.drop_last()).push(tasks.last()) =~= q + tasks);
    } else {
        assert(q + tasks =~= q);
    }
}

/// The queue that taking out the task to dispatch next leaves behind.
pub open spec fn after_fetch(q: Seq<TaskControlBlock>) -> Seq<TaskControlBlock> {
    if q.len() == 0 {
        q
    } else {
        q.remove(next_index(q))
    }
}

/// The queue that taking out the next task `n` times in a row leaves behind.
pub open spec fn after_fetches(q: Seq<TaskControlBlock>, n: nat) -> Seq<TaskControlBlock>
    decreases n,
{
    if n == 0 {
        q
    } else {
        after_fetch(after_fetches(q, (n - 1) as nat))
    }
}

/// Where the task at position `p` of the queue stood before the task at
/// position `k` was taken out.
pub open spec fn position_before(k: int, p: int) -> int {
    if p < k {
        p
    } else {
        p + 1
    }
}

/// The dispatched task never has a higher stride than a task that stays
/// behind.
pub proof fn lemma_lowest_stride_leaves(q: Seq<TaskControlBlock>, p: int)
    requires
        0 <= p < after_fetch(q).len(),
    ensures
        q[next_index(q)].stride <= after_fetch(q)[p].stride,
{
    lemma_next_exists(q);
    let k = next_index(q);
    assert(after_fetch(q)[p] == q[position_before(k, p)]);
}

/// Tasks that stay behind keep their order: each of them stood at a position
/// other than that of the dispatched task, and one of them waits in front of
/// another exactly if it did so before.
pub proof fn lemma_fetch_keeps_order(q: Seq<TaskControlBlock>, i: int, j: int)
    requires
        0 <= i < after_fetch(q).len(),
        0 <= j < after_fetch(q).len(),
    ensures
        after_fetch(q).len() == q.len() - 1,
        after_fetch(q)[i] == q[position_before(next_index(q), i)],
        0 <= position_before(next_index(q), i) < q.len(),
        position_before(next_index(q), i) != next_index(q),
        i < j <==> position_before(next_index(q), i) < position_before(next_index(q), j),
{
    lemma_next_exists(q);
}

/// Among tasks of one stride the queue is first in, first out. Let `tasks`,
/// all of one stride, be added to an empty queue, first to last. After `n` of
/// them were taken, the others wait in the order in which they were added,
/// and the next to go is the one that was added as number `n`, counting from
/// 0.
pub proof fn lemma_equal_strides_leave_in_arrival_order(tasks: Seq<TaskControlBlock>, n: nat)
    requires
        forall|i: int, j: int|
            #![trigger tasks[i], tasks[j]]
            0 <= i < tasks.len() && 0 <= j < tasks.len() ==> tasks[i].stride == tasks[j].stride,
        n < tasks.len(),
    ensures
        ({
            let q = after_fetches(after_adds(Seq::empty(), tasks), n);
            &&& q == tasks.skip(n as int)
            &&& next_index(q) == 0
            &&& q[next_index(q)] == tasks[n as int]
        }),
    decreases n,
{
    if n == 0 {
        lemma_adds_append(Seq::empty(), tasks);
        assert(Seq::<TaskControlBlock>::empty() + tasks =~= tasks);
        assert(tasks.skip(0) =~= tasks);
    } else {
        let m = (n - 1) as nat;
        lemma_equal_strides_leave_in_arrival_order(tasks, m);
        assert(tasks.skip(m as int).remove(0) =~= tasks.skip(n as int));
    }
    let rest = tasks.skip(n as int);
    assert forall|j: int| #![trigger rest[j]] 0 <= j < rest.len() implies rest[0].stride
        <= rest[j].stride by {
        assert(tasks[n as int].stride == tasks[n + j].stride);
    }
    assert(is_next(rest, 0));
    lemma_next_exists(rest);
    lemma_next_unique(rest, 0, next_index(rest));
}

/// The ready queue of a single-core kernel. Tasks wait in the order in which
/// they were added; the one with the lowest stride runs next, the one that
/// has waited longest among equals.
pub struct TaskManager {
    ready_queue: VecDeque<TaskControlBlock>,
}

impl View for TaskManager {
    type V = Seq<TaskControlBlock>;

    /// The waiting tasks, front of the queue first.
    closed spec fn view(&self) -> Seq<TaskControlBlock> {
        self.ready_queue@
    }
}

impl TaskManager {
    /// A manager with nothing to run.
    pub fn new() -> (manager: Self)
        ensures
            manager@ == Seq::<TaskControlBlock>::empty(),
    {
        Self { ready_queue: VecDeque::new() }
    }

    /// Puts `task` at the back of the queue.
    pub fn add(&mut self, task: TaskControlBlock)
        ensures
            final(self)@ == old(self)@.push(task),
    {
        self.ready_queue.push_back(task);
    }

    /// The lowest stride among the waiting tasks.
    fn min_stride(&self) -> (min: usize)
        ensures
            forall|j: int| #![trigger self@[j]] 0 <= j < self@.len() ==> min <= self@[j].stride,
            self@.len() > 0 ==> exists|j: int|
                #![trigger self@[j]]
                0 <= j < self@.len() && self@[j].stride == min,
    {
        let mut min_stride: usize = usize::MAX;
        let n: usize = self.ready_queue.len();
        for i in 0..n
            invariant
                n == self@.len(),
                i == 0 ==> min_stride == usize::MAX,
                forall|j: int| #![trigger self@[j]] 0 <= j < i ==> min_stride <= self@[j].stride,
                i > 0 ==> exists|j: int|
                    #![trigger self@[j]]
                    0 <= j < i && self@[j].stride == min_stride,
        {
            let cur_stride: usize = self.ready_queue[i].stride;
            if min_stride > cur_stride {
                min_stride = cur_stride;
            }
            proof {
                if min_stride == cur_stride {
                    assert(self@[i as int].stride == min_stride);
                } else {
                    let w = choose|j: int|
                        #![trigger self@[j]]
                        0 <= j < i && self@[j].stride == min_stride;
                    assert(self@[w].stride == min_stride);
                }
            }
        }
        min_stride
    }

    /// The task that `fetch` would take, left where it is. `None` means that
    /// nothing is ready to run.
    pub fn peek(&self) -> (task: Option<&TaskControlBlock>)
        ensures
            self@.len() == 0 ==> task is None,
            self@.len() > 0 ==> is_next(self@, next_index(self@)) && task == Some(
                &self@[next_index(self@)],
            ),
    {
        let min_stride: usize = self.min_stride();
        let n: usize = self.ready_queue.len();
        for i in 0..n
            invariant
                n == self@.len(),
                forall|j: int| #![trigger self@[j]] 0 <= j < n ==> min_stride <= self@[j].stride,
                n > 0 ==> exists|j: int|
                    #![trigger self@[j]]
                    0 <= j < n && self@[j].stride == min_stride,
                forall|j: int| #![trigger self@[j]] 0 <= j < i ==> min_stride < self@[j].stride,
        {
            let cur: &TaskControlBlock = &self.ready_queue[i];
            if cur.stride == min_stride {
                proof {
                    assert(is_next(self@, i as int));
                    lemma_next_exists(self@);
                    lemma_next_unique(self@, i as int, next_index(self@));
                }
                return Some(cur);
            }
        }
        proof {
            if n > 0 {
                let w = choose|j: int|
                    #![trigger self@[j]]
                    0 <= j < n && self@[j].stride == min_stride;
                assert(min_stride < self@[w].stride);
            }
        }
        None
    }

    /// Takes the task to dispatch next out of the queue and charges it for the
    /// dispatch. The tasks left behind keep their order. `None` means that
    /// nothing is ready to run, and leaves the manager as it was.
    ///
    /// The task taken must have room for the charge; `peek` shows it and
    /// `can_advance` tells.
    pub fn fetch(&mut self) -> (task: Option<TaskControlBlock>)
        requires
            old(self)@.len() > 0 ==> old(self)@[next_index(old(self)@)].can_advance(),
        ensures
            final(self)@ == after_fetch(old(self)@),
            old(self)@.len() == 0 ==> task is None && final(self)@ == old(self)@,
            old(self)@.len() > 0 ==> ({
                let k = next_index(old(self)@);
                &&& is_next(old(self)@, k)
                &&& task matches Some(t) && t@ == old(self)@[k]@.advance_stride()
                &&& final(self)@ == old(self)@.remove(k)
            }),
    {
        let min_stride: usize = self.min_stride();
        let n: usize = self.ready_queue.len();
        let ghost q = self@;
        let ghost k = next_index(q);
        proof {
            if n > 0 {
                lemma_next_exists(q);
                let w = choose|j: int|
                    #![trigger q[j]]
                    0 <= j < q.len() && q[j].stride == min_stride;
                assert(q[k].stride <= q[w].stride);
                assert(min_stride <= q[k].stride);
            }
        }
        // One pass over the queue: every task goes from the front to the back,
        // except the first one with the lowest stride, which is kept out.
        let mut chosen: Option<TaskControlBlock> = None;
        for i in 0..n
            invariant
                n == q.len(),
                n > 0 ==> is_next(q, k) && q[k].stride == min_stride && q[k].can_advance(),
                match chosen {
                    None => {
                        &&& n == 0 || i <= k
                        &&& self@ == q.skip(i as int) + q.take(i as int)
                    },
                    Some(t) => {
                        &&& 0 <= k < i
                        &&& t@ == q[k]@.advance_stride()
                        &&& self@ == q.skip(i as int) + q.take(i as int).remove(k)
                    },
                },
        {
            let mut cur: TaskControlBlock = self.ready_queue.pop_front().unwrap();
            if chosen.is_none() && cur.stride == min_stride {
                cur.update_stride();
                chosen = Some(cur);
                assert(self@ =~= q.skip(i + 1) + q.take(i + 1).remove(k));
            } else {
                self.ready_queue.push_back(cur);
                if chosen.is_none() {
                    assert(self@ =~= q.skip(i + 1) + q.take(i + 1));
                } else {
                    assert(self@ =~= q.skip(i + 1) + q.take(i + 1).remove(k));
                }
            }
        }
        chosen
    }
}

} // verus!
