use vstd::prelude::*;
use std::collections::VecDeque;
use super::TaskControlBlock;

verus! {

/// Index of the first task of `q` whose pid is `pid`.
pub open spec fn first_with_pid(q: Seq<TaskControlBlock>, pid: usize, i: int) -> bool {
    &&& 0 <= i < q.len()
    &&& q[i].pid == pid
    &&& forall|j: int| 0 <= j < i ==> #[trigger] q[j].pid != pid
}

/// A first-in first-out ready queue: the simple scheduling discipline,
/// stride scheduling with one pass for every task.
pub struct TaskManager {
    ready_queue: VecDeque<TaskControlBlock>,
}

impl View for TaskManager {
    type V = Seq<TaskControlBlock>;

    closed spec fn view(&self) -> Seq<TaskControlBlock> {
        self.ready_queue@
    }
}

impl TaskManager {
    pub fn new() -> (r: TaskManager)
        ensures
            r@ == Seq::<TaskControlBlock>::empty(),
    {
        TaskManager { ready_queue: VecDeque::new() }
    }

    /// Puts `task` at the back of the queue.
    pub fn add(&mut self, task: TaskControlBlock)
        ensures
            final(self)@ == old(self)@.push(task),
    {
        self.ready_queue.push_back(task);
    }

    /// Takes the task at the front of the queue, if any.
    pub fn fetch(&mut self) -> (r: Option<TaskControlBlock>)
        ensures
            old(self)@.len() == 0 ==> r is None && final(self)@ == old(self)@,
            old(self)@.len() > 0 ==> r == Some(old(self)@[0]) && final(self)@ == old(self)@.drop_first(),
    {
        let r = self.ready_queue.pop_front();
        proof {
            if old(self)@.len() > 0 {
                assert(final(self)@ =~= old(self)@.drop_first());
            }
        }
        r
    }

    /// The first queued task whose pid is `pid`, if any.
    pub fn get_task_by_pid(&self, pid: usize) -> (r: Option<&TaskControlBlock>)
        ensures
            match r {
                Some(t) => exists|i: int| first_with_pid(self@, pid, i) && *t == self@[i],
                None => forall|i: int| 0 <= i < self@.len() ==> #[trigger] self@[i].pid != pid,
            },
    {
        let mut i: usize = 0;
        while i < self.ready_queue.len()
            invariant
                i <= self@.len(),
                forall|j: int| 0 <= j < i ==> #[trigger] self@[j].pid != pid,
            decreases self@.len() - i,
        {
            if self.ready_queue[i].pid == pid {
                assert(first_with_pid(self@, pid, i as int));
                return Some(&self.ready_queue[i]);
            }
            i = i + 1;
        }
        None
    }
}

} // verus!
