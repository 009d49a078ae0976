use vstd::prelude::*;
use crate::config::{BIG_STRIDE, DEFAULT_PRIORITY, MAIL_BOX_SIZE};
use crate::fs::{OpenFile, lowest_free_fd};
use crate::mail::MailBox;
use crate::mm::{MemorySet, mmap_result, munmap_result, map_range, unmap_range,
    first_vpn, end_vpn, perm_of_port};

pub mod manager;

verus! {

/// Life-cycle state of a task.
#[derive(Clone, Copy, Debug, PartialEq, Eq, Structural)]
pub enum TaskStatus {
    UnInit,
    Ready,
    Running,
    Exited,
}

/// The unit of scheduling: one process with its address space, its open
/// files and its mailbox.
pub struct TaskControlBlock {
    pub pid: usize,
    pub task_status: TaskStatus,
    pub stride: u128,
    pub pass: u64,
    pub memory_set: MemorySet,
    pub fd_table: Vec<Option<OpenFile>>,
    pub mailbox: MailBox,
}

/// `a + b`, or `u128::MAX` where the sum does not fit.
pub open spec fn add_sat(a: u128, b: u64) -> u128 {
    if a + b > u128::MAX { u128::MAX } else { (a + b) as u128 }
}

impl TaskControlBlock {
    pub open spec fn wf(&self) -> bool {
        &&& self.pass > 0
        &&& self.mailbox.wf()
    }

    /// A Ready task with stride 0, the default priority, the three standard
    /// streams open and an empty mailbox.
    pub fn new(pid: usize, memory_set: MemorySet) -> (r: TaskControlBlock)
        ensures
            r.wf(),
            r.pid == pid,
            r.task_status == TaskStatus::Ready,
            r.stride == 0,
            r.pass == BIG_STRIDE / DEFAULT_PRIORITY,
            r.memory_set@ == memory_set@,
            r.fd_table@ == seq![Some(OpenFile::stdin_spec()), Some(OpenFile::stdout_spec()), Some(OpenFile::stdout_spec())],
            r.mailbox@.len() == 0,
    {
        let mut fd_table: Vec<Option<OpenFile>> = Vec::new();
        fd_table.push(Some(OpenFile::stdin()));
        fd_table.push(Some(OpenFile::stdout()));
        fd_table.push(Some(OpenFile::stdout()));
        TaskControlBlock {
            pid,
            task_status: TaskStatus::Ready,
            stride: 0,
            pass: BIG_STRIDE / DEFAULT_PRIORITY,
            memory_set,
            fd_table,
            mailbox: MailBox::new(),
        }
    }

    pub fn getpid(&self) -> (r: usize)
        ensures
            r == self.pid,
    {
        self.pid
    }

    /// Lowest free descriptor; the table grows by one empty slot when every
    /// slot is taken.
    pub fn alloc_fd(&mut self) -> (r: usize)
        ensures
            lowest_free_fd(old(self).fd_table@, r as int),
            r < final(self).fd_table@.len(),
            final(self).fd_table@[r as int] is None,
            r < old(self).fd_table@.len() ==> final(self).fd_table@ == old(self).fd_table@,
            r == old(self).fd_table@.len() ==> final(self).fd_table@ == old(self).fd_table@.push(None),
            final(self).pid == old(self).pid,
            final(self).task_status == old(self).task_status,
            final(self).stride == old(self).stride,
            final(self).pass == old(self).pass,
            final(self).memory_set@ == old(self).memory_set@,
            final(self).mailbox@ == old(self).mailbox@,
    {
        let mut i: usize = 0;
        while i < self.fd_table.len()
            invariant
                i <= self.fd_table@.len(),
                self.fd_table@ == old(self).fd_table@,
                self.pid == old(self).pid,
                self.task_status == old(self).task_status,
                self.stride == old(self).stride,
                self.pass == old(self).pass,
                self.memory_set@ == old(self).memory_set@,
                self.mailbox@ == old(self).mailbox@,
                forall|j: int| 0 <= j < i ==> #[trigger] self.fd_table@[j] is Some,
            decreases self.fd_table.len() - i,
        {
            if self.fd_table[i].is_none() {
                return i;
            }
            i = i + 1;
        }
        self.fd_table.push(None);
        i
    }
}

/// A context switch the scheduler decided on: save the running context in
/// the slot of task `from`, resume the one saved in the slot of task `to`.
#[derive(Clone, Copy, Debug, PartialEq, Eq, Structural)]
pub struct TaskSwitch {
    pub from: usize,
    pub to: usize,
}

/// Whether task `i` is Ready with the least stride among the Ready tasks,
/// and comes first among those of equal stride.
pub open spec fn is_stride_min(tasks: Seq<TaskControlBlock>, i: int) -> bool {
    &&& 0 <= i < tasks.len()
    &&& tasks[i].task_status == TaskStatus::Ready
    &&& forall|j: int| 0 <= j < tasks.len() && #[trigger] tasks[j].task_status == TaskStatus::Ready
        ==> tasks[i].stride < tasks[j].stride || (tasks[i].stride == tasks[j].stride && i <= j)
}

/// `tasks` after task `i` is given the processor: it is Running and its
/// stride has advanced by its pass.
pub open spec fn scheduled(tasks: Seq<TaskControlBlock>, i: int) -> Seq<TaskControlBlock> {
    tasks.update(i, TaskControlBlock {
        task_status: TaskStatus::Running,
        stride: add_sat(tasks[i].stride, tasks[i].pass),
        ..tasks[i]
    })
}

/// `tasks` with the status of task `i` set to `s`.
pub open spec fn with_status(tasks: Seq<TaskControlBlock>, i: int, s: TaskStatus) -> Seq<TaskControlBlock> {
    tasks.update(i, TaskControlBlock { task_status: s, ..tasks[i] })
}

/// Whether `b` is `a` with at most its mailbox changed.
pub open spec fn same_but_mailbox(a: TaskControlBlock, b: TaskControlBlock) -> bool {
    &&& b.pid == a.pid
    &&& b.task_status == a.task_status
    &&& b.stride == a.stride
    &&& b.pass == a.pass
    &&& b.memory_set@ == a.memory_set@
    &&& b.fd_table@ == a.fd_table@
}

/// Whether `b` is `a` with at most its address space changed.
pub open spec fn same_but_memory(a: TaskControlBlock, b: TaskControlBlock) -> bool {
    &&& b.pid == a.pid
    &&& b.task_status == a.task_status
    &&& b.stride == a.stride
    &&& b.pass == a.pass
    &&& b.fd_table@ == a.fd_table@
    &&& b.mailbox@ == a.mailbox@
}

/// Whether `b` is `a` with at most its descriptor table changed.
pub open spec fn same_but_fds(a: TaskControlBlock, b: TaskControlBlock) -> bool {
    &&& b.pid == a.pid
    &&& b.task_status == a.task_status
    &&& b.stride == a.stride
    &&& b.pass == a.pass
    &&& b.memory_set@ == a.memory_set@
    &&& b.mailbox@ == a.mailbox@
}

/// Whether `b` and `a` are the same tasks but for task `i`.
pub open spec fn others_kept(a: Seq<TaskControlBlock>, b: Seq<TaskControlBlock>, i: int) -> bool {
    &&& b.len() == a.len()
    &&& forall|j: int| 0 <= j < a.len() && j != i ==> #[trigger] b[j] == a[j]
}

/// Index of the first task whose pid is `pid`.
pub open spec fn task_of_pid(tasks: Seq<TaskControlBlock>, pid: usize, i: int) -> bool {
    &&& 0 <= i < tasks.len()
    &&& tasks[i].pid == pid
    &&& forall|j: int| 0 <= j < i ==> #[trigger] tasks[j].pid != pid
}

/// Every task of `b` is well formed when every task of `a` is, `b` keeps
/// the tasks of `a` but task `i`, and task `i` of `b` is well formed.
pub(crate) proof fn lemma_all_wf(a: Seq<TaskControlBlock>, b: Seq<TaskControlBlock>, i: int)
    requires
        forall|j: int| 0 <= j < a.len() ==> (#[trigger] a[j]).wf(),
        others_kept(a, b, i),
        0 <= i < b.len() ==> b[i].wf(),
    ensures
        forall|j: int| 0 <= j < b.len() ==> (#[trigger] b[j]).wf(),
{
    assert forall|j: int| 0 <= j < b.len() implies (#[trigger] b[j]).wf() by {
        if j != i {
            assert(b[j] == a[j]);
        }
    }
}

/// Whether no task is Ready.
pub open spec fn none_ready(tasks: Seq<TaskControlBlock>) -> bool {
    forall|j: int| 0 <= j < tasks.len() ==> #[trigger] tasks[j].task_status != TaskStatus::Ready
}

/// `tasks` with task `i` charged its pass: its stride has advanced by it.
pub open spec fn charged(tasks: Seq<TaskControlBlock>, i: int) -> Seq<TaskControlBlock> {
    tasks.update(i, TaskControlBlock { stride: add_sat(tasks[i].stride, tasks[i].pass), ..tasks[i] })
}

/// `tasks` after the processor moves on from task `c` to task `n`: `c` is
/// charged its pass and `n` is Running.
pub open spec fn switched(tasks: Seq<TaskControlBlock>, c: int, n: int) -> Seq<TaskControlBlock> {
    with_status(charged(tasks, c), n, TaskStatus::Running)
}

/// Whether task `i` is the only task that may be Running.
pub open spec fn only_running(tasks: Seq<TaskControlBlock>, i: int) -> bool {
    forall|j: int| 0 <= j < tasks.len() && #[trigger] tasks[j].task_status == TaskStatus::Running ==> j == i
}

/// Whether no task is Running.
pub open spec fn none_running(tasks: Seq<TaskControlBlock>) -> bool {
    forall|j: int| 0 <= j < tasks.len() ==> #[trigger] tasks[j].task_status != TaskStatus::Running
}

/// Whether a task still competes for the processor.
pub open spec fn active(t: TaskControlBlock) -> bool {
    t.task_status == TaskStatus::Ready || t.task_status == TaskStatus::Running
}

/// Whether the strides of the competing tasks stay close: none is ahead of
/// another by more than twice its own pass, and the running one is ahead
/// of none by more than its pass.
pub open spec fn strides_balanced(tasks: Seq<TaskControlBlock>) -> bool {
    &&& forall|i: int, j: int|
        0 <= i < tasks.len() && 0 <= j < tasks.len() && active(#[trigger] tasks[i]) && active(#[trigger] tasks[j])
            ==> tasks[i].stride <= tasks[j].stride + 2 * tasks[i].pass
    &&& forall|i: int, j: int|
        0 <= i < tasks.len() && 0 <= j < tasks.len() && #[trigger] tasks[i].task_status == TaskStatus::Running
            && active(#[trigger] tasks[j]) ==> tasks[i].stride <= tasks[j].stride + tasks[i].pass
}

/// Whether `b` follows `a` by one scheduling decision: either no task runs
/// and the first one is given the processor, or the running task `c` is
/// suspended or ends and the processor moves on from it.
pub open spec fn decision(a: Seq<TaskControlBlock>, b: Seq<TaskControlBlock>) -> bool {
    ||| none_running(a) && exists|n: int| is_stride_min(a, n) && b == #[trigger] scheduled(a, n)
    ||| exists|c: int, st: TaskStatus, n: int| {
        &&& 0 <= c < a.len()
        &&& a[c].task_status == TaskStatus::Running
        &&& only_running(a, c)
        &&& (st == TaskStatus::Ready || st == TaskStatus::Exited)
        &&& is_stride_min(charged(with_status(a, c, st), c), n)
        &&& b == #[trigger] switched(with_status(a, c, st), c, n)
    }
}

/// Whether at most one task is Running.
pub open spec fn at_most_one_running(tasks: Seq<TaskControlBlock>) -> bool {
    forall|i: int, j: int| 0 <= i < tasks.len() && 0 <= j < tasks.len()
        && #[trigger] tasks[i].task_status == TaskStatus::Running
        && #[trigger] tasks[j].task_status == TaskStatus::Running ==> i == j
}

/// Tasks that all start at stride 0 are balanced.
pub proof fn lemma_balanced_at_start(tasks: Seq<TaskControlBlock>)
    requires
        forall|i: int| 0 <= i < tasks.len() ==> #[trigger] tasks[i].stride == 0,
    ensures
        strides_balanced(tasks),
{
}

/// Giving the processor to the first task, the Ready task of least stride,
/// charged its pass, keeps the strides balanced.
pub proof fn lemma_first_keeps_balance(tasks: Seq<TaskControlBlock>, next: int)
    requires
        none_running(tasks),
        strides_balanced(tasks),
        is_stride_min(tasks, next),
    ensures
        strides_balanced(scheduled(tasks, next)),
        only_running(scheduled(tasks, next), next),
{
    let after = scheduled(tasks, next);
    assert forall|i: int, j: int|
        0 <= i < after.len() && 0 <= j < after.len() && active(#[trigger] after[i]) && active(#[trigger] after[j])
        implies after[i].stride <= after[j].stride + 2 * after[i].pass by {
        assert(active(tasks[i]) && active(tasks[j]));
        if i == next && j != next {
            assert(tasks[j].task_status == TaskStatus::Ready);
        }
    }
    assert forall|i: int, j: int|
        0 <= i < after.len() && 0 <= j < after.len() && #[trigger] after[i].task_status == TaskStatus::Running
            && active(#[trigger] after[j]) implies after[i].stride <= after[j].stride + after[i].pass by {
        assert(i == next);
        if j != next {
            assert(tasks[j].task_status == TaskStatus::Ready);
        }
    }
}

/// Moving on from the running task `current`, suspended (`s` is Ready) or
/// ended (`s` is Exited): charging it its pass and giving the processor to
/// the Ready task of least stride keeps the strides balanced.
pub proof fn lemma_switch_keeps_balance(tasks: Seq<TaskControlBlock>, current: int, s: TaskStatus, next: int)
    requires
        0 <= current < tasks.len(),
        tasks[current].task_status == TaskStatus::Running,
        only_running(tasks, current),
        s == TaskStatus::Ready || s == TaskStatus::Exited,
        strides_balanced(tasks),
        is_stride_min(charged(with_status(tasks, current, s), current), next),
    ensures
        strides_balanced(switched(with_status(tasks, current, s), current, next)),
        only_running(switched(with_status(tasks, current, s), current, next), next),
{
    let mid = charged(with_status(tasks, current, s), current);
    let after = switched(with_status(tasks, current, s), current, next);
    assert forall|i: int, j: int|
        0 <= i < after.len() && 0 <= j < after.len() && active(#[trigger] after[i]) && active(#[trigger] after[j])
        implies after[i].stride <= after[j].stride + 2 * after[i].pass by {
        assert(active(tasks[i]) && active(tasks[j]));
        assert(tasks[i].stride <= tasks[j].stride + 2 * tasks[i].pass);
        if i == current {
            assert(tasks[current].stride <= tasks[j].stride + tasks[current].pass);
        }
    }
    assert forall|i: int, j: int|
        0 <= i < after.len() && 0 <= j < after.len() && #[trigger] after[i].task_status == TaskStatus::Running
            && active(#[trigger] after[j]) implies after[i].stride <= after[j].stride + after[i].pass by {
        assert(i == next);
        if j != next {
            assert(mid[j].task_status == TaskStatus::Ready);
        }
    }
}

/// Over any run of scheduling decisions that starts with no task Running
/// and every stride 0, the strides of competing tasks stay balanced after
/// every decision. A task that has been charged `k` times has stride
/// `k * pass`, and each task is charged once per slice it is given (the
/// first task once more), so two tasks that compete all along get slices
/// in inverse ratio of their passes, up to a bounded number of slices.
pub proof fn lemma_decisions_keep_balance(hist: Seq<Seq<TaskControlBlock>>)
    requires
        hist.len() > 0,
        none_running(hist[0]),
        forall|i: int| 0 <= i < hist[0].len() ==> #[trigger] hist[0][i].stride == 0,
        forall|k: int| 0 <= k < hist.len() - 1 ==> decision(#[trigger] hist[k], hist[k + 1]),
    ensures
        strides_balanced(hist.last()),
        at_most_one_running(hist.last()),
    decreases hist.len(),
{
    if hist.len() == 1 {
        lemma_balanced_at_start(hist[0]);
    } else {
        let prev = hist.drop_last();
        assert forall|k: int| 0 <= k < prev.len() - 1 implies decision(#[trigger] prev[k], prev[k + 1]) by {
            assert(decision(hist[k], hist[k + 1]));
        }
        lemma_decisions_keep_balance(prev);
        let a = prev.last();
        let b = hist.last();
        assert(a == hist[hist.len() - 2]);
        assert(decision(hist[hist.len() - 2], hist[hist.len() - 1]));
        if none_running(a) && exists|n: int| is_stride_min(a, n) && b == #[trigger] scheduled(a, n) {
            let n = choose|n: int| is_stride_min(a, n) && b == #[trigger] scheduled(a, n);
            lemma_first_keeps_balance(a, n);
        } else {
            let (c, st, n) = choose|c: int, st: TaskStatus, n: int| {
                &&& 0 <= c < a.len()
                &&& a[c].task_status == TaskStatus::Running
                &&& only_running(a, c)
                &&& (st == TaskStatus::Ready || st == TaskStatus::Exited)
                &&& is_stride_min(charged(with_status(a, c, st), c), n)
                &&& b == #[trigger] switched(with_status(a, c, st), c, n)
            };
            lemma_switch_keeps_balance(a, c, st, n);
        }
    }
}

/// One decision keeps the number of tasks and every pass, and moves each
/// stride either not at all or by that task's pass.
pub proof fn lemma_decision_step(a: Seq<TaskControlBlock>, b: Seq<TaskControlBlock>, i: int)
    requires
        decision(a, b),
        0 <= i < a.len(),
    ensures
        b.len() == a.len(),
        b[i].pass == a[i].pass,
        b[i].stride == a[i].stride || b[i].stride == add_sat(a[i].stride, a[i].pass),
{
    if none_running(a) && exists|n: int| is_stride_min(a, n) && b == #[trigger] scheduled(a, n) {
        let n = choose|n: int| is_stride_min(a, n) && b == #[trigger] scheduled(a, n);
    } else {
        let (c, st, n) = choose|c: int, st: TaskStatus, n: int| {
            &&& 0 <= c < a.len()
            &&& a[c].task_status == TaskStatus::Running
            &&& only_running(a, c)
            &&& (st == TaskStatus::Ready || st == TaskStatus::Exited)
            &&& is_stride_min(charged(with_status(a, c, st), c), n)
            &&& b == #[trigger] switched(with_status(a, c, st), c, n)
        };
    }
}

/// How many decisions of `hist` moved the stride of task `i`.
pub open spec fn times_charged(hist: Seq<Seq<TaskControlBlock>>, i: int) -> nat
    decreases hist.len(),
{
    if hist.len() <= 1 {
        0
    } else {
        times_charged(hist.drop_last(), i) + if hist.last()[i].stride != hist[hist.len() - 2][i].stride {
            1nat
        } else {
            0nat
        }
    }
}

/// Over a run of decisions from stride 0, as long as its stride has not
/// reached the top of its range, a task's stride is its pass times the
/// number of times it was charged: with the balance above, the number of
/// charges of two competing tasks are in inverse ratio of their passes, up
/// to two charges each.
pub proof fn lemma_stride_counts_charges(hist: Seq<Seq<TaskControlBlock>>, i: int)
    requires
        hist.len() > 0,
        0 <= i < hist[0].len(),
        hist[0][i].stride == 0,
        hist[0][i].pass > 0,
        forall|k: int| 0 <= k < hist.len() - 1 ==> decision(#[trigger] hist[k], hist[k + 1]),
        i < hist.last().len() ==> hist.last()[i].stride < u128::MAX,
    ensures
        i < hist.last().len(),
        hist.last()[i].pass == hist[0][i].pass,
        hist.last()[i].stride == times_charged(hist, i) * hist[0][i].pass,
{
    lemma_charges_so_far(hist, i);
}

/// `lemma_stride_counts_charges`, for a run that may end at the top of
/// the range.
proof fn lemma_charges_so_far(hist: Seq<Seq<TaskControlBlock>>, i: int)
    requires
        hist.len() > 0,
        0 <= i < hist[0].len(),
        hist[0][i].stride == 0,
        hist[0][i].pass > 0,
        forall|k: int| 0 <= k < hist.len() - 1 ==> decision(#[trigger] hist[k], hist[k + 1]),
    ensures
        i < hist.last().len(),
        hist.last()[i].pass == hist[0][i].pass,
        hist.last()[i].stride < u128::MAX ==> hist.last()[i].stride == times_charged(hist, i) * hist[0][i].pass,
    decreases hist.len(),
{
    if hist.len() > 1 {
        let prev = hist.drop_last();
        let a = hist[hist.len() - 2];
        let b = hist.last();
        assert(decision(hist[hist.len() - 2], hist[hist.len() - 1]));
        assert forall|k: int| 0 <= k < prev.len() - 1 implies decision(#[trigger] prev[k], prev[k + 1]) by {
            assert(decision(hist[k], hist[k + 1]));
        }
        assert(prev.last() == a);
        assert(prev[0] == hist[0]);
        lemma_charges_so_far(prev, i);
        lemma_decision_step(a, b, i);
        if b[i].stride < u128::MAX {
            let t = times_charged(prev, i);
            let p = hist[0][i].pass;
            assert(a[i].stride < u128::MAX);
            assert(a[i].stride == t * p);
            assert(hist[hist.len() - 2] == a);
            if b[i].stride != a[i].stride {
                assert(times_charged(hist, i) == t + 1);
                assert(b[i].stride == a[i].stride + p);
                assert((t + 1) * p == t * p + p) by (nonlinear_arith);
                assert(b[i].stride == times_charged(hist, i) * p);
            } else {
                assert(times_charged(hist, i) == t);
                assert(b[i].stride == times_charged(hist, i) * p);
            }
        }
    } else {
        assert(times_charged(hist, i) == 0);
        assert(0 * hist[0][i].pass == 0);
    }
}

/// The scheduler: every task of the system and the index of the current one.
pub struct TaskManager {
    pub num_app: usize,
    pub tasks: Vec<TaskControlBlock>,
    pub current_task: usize,
}

impl TaskManager {
    /// At least one task, the cursor on one of them, every task well formed
    /// and no task but the current one Running.
    pub open spec fn wf(&self) -> bool {
        &&& self.num_app == self.tasks@.len()
        &&& 0 < self.num_app
        &&& self.current_task < self.num_app
        &&& forall|i: int| 0 <= i < self.tasks@.len() ==> (#[trigger] self.tasks@[i]).wf()
        &&& forall|i: int| 0 <= i < self.tasks@.len()
            && #[trigger] self.tasks@[i].task_status == TaskStatus::Running ==> i == self.current_task
    }

    /// A manager over `tasks`, with the cursor on the first one.
    pub fn new(tasks: Vec<TaskControlBlock>) -> (r: TaskManager)
        requires
            tasks@.len() > 0,
            forall|i: int| 0 <= i < tasks@.len() ==> (#[trigger] tasks@[i]).wf(),
            forall|i: int| 0 <= i < tasks@.len() ==> #[trigger] tasks@[i].task_status != TaskStatus::Running,
        ensures
            r.wf(),
            r.tasks@ == tasks@,
            r.current_task == 0,
    {
        let num_app = tasks.len();
        TaskManager { num_app, tasks, current_task: 0 }
    }

    /// The Ready task of least stride, the first of them on a tie; `None`
    /// when no task is Ready.
    pub fn find_next_task(&self) -> (r: Option<usize>)
        requires
            self.wf(),
        ensures
            match r {
                Some(i) => is_stride_min(self.tasks@, i as int),
                None => none_ready(self.tasks@),
            },
    {
        let mut best: Option<usize> = None;
        let mut i: usize = 0;
        while i < self.tasks.len()
            invariant
                i <= self.tasks@.len(),
                match best {
                    Some(b) => {
                        &&& b < i
                        &&& self.tasks@[b as int].task_status == TaskStatus::Ready
                        &&& forall|j: int| 0 <= j < i && #[trigger] self.tasks@[j].task_status == TaskStatus::Ready
                            ==> self.tasks@[b as int].stride < self.tasks@[j].stride
                                || (self.tasks@[b as int].stride == self.tasks@[j].stride && b <= j)
                    },
                    None => forall|j: int| 0 <= j < i ==> #[trigger] self.tasks@[j].task_status != TaskStatus::Ready,
                },
            decreases self.tasks@.len() - i,
        {
            if self.tasks[i].task_status == TaskStatus::Ready {
                match best {
                    Some(b) => {
                        if self.tasks[i].stride < self.tasks[b].stride {
                            best = Some(i);
                        }
                    },
                    None => {
                        best = Some(i);
                    },
                }
            }
            i = i + 1;
        }
        best
    }

    /// Gives the processor to the task that `find_next_task` picks, charging
    /// it its pass, and returns its index; `None` when no task is Ready.
    pub fn run_first_task(&mut self) -> (r: Option<usize>)
        requires
            old(self).wf(),
            forall|i: int| 0 <= i < old(self).tasks@.len()
                ==> #[trigger] old(self).tasks@[i].task_status != TaskStatus::Running,
        ensures
            final(self).wf(),
            match r {
                Some(i) => {
                    &&& is_stride_min(old(self).tasks@, i as int)
                    &&& final(self).tasks@ == scheduled(old(self).tasks@, i as int)
                    &&& final(self).current_task == i
                },
                None => {
                    &&& none_ready(old(self).tasks@)
                    &&& final(self).tasks@ == old(self).tasks@
                    &&& final(self).current_task == old(self).current_task
                },
            },
            final(self).num_app == old(self).num_app,
    {
        match self.find_next_task() {
            Some(next) => {
                self.charge(next);
                self.set_running(next);
                assert(self.tasks@ =~= scheduled(old(self).tasks@, next as int));
                Some(next)
            },
            None => None,
        }
    }

    /// Adds the pass of task `i` to its stride.
    fn charge(&mut self, i: usize)
        requires
            old(self).wf(),
            i < old(self).tasks@.len(),
        ensures
            final(self).wf(),
            final(self).tasks@ == charged(old(self).tasks@, i as int),
            final(self).current_task == old(self).current_task,
            final(self).num_app == old(self).num_app,
    {
        let pass: u64 = self.tasks[i].pass;
        let stride: u128 = self.tasks[i].stride.saturating_add(pass as u128);
        self.tasks[i].stride = stride;
        assert(self.tasks@ =~= charged(old(self).tasks@, i as int));
        proof { lemma_all_wf(old(self).tasks@, self.tasks@, i as int); }
    }

    /// Marks task `next` Running and makes it current.
    fn set_running(&mut self, next: usize)
        requires
            old(self).wf(),
            next < old(self).tasks@.len(),
            only_running(old(self).tasks@, next as int),
        ensures
            final(self).wf(),
            final(self).tasks@ == with_status(old(self).tasks@, next as int, TaskStatus::Running),
            final(self).current_task == next,
            final(self).num_app == old(self).num_app,
    {
        self.tasks[next].task_status = TaskStatus::Running;
        self.current_task = next;
        assert(self.tasks@ =~= with_status(old(self).tasks@, next as int, TaskStatus::Running));
        proof { lemma_all_wf(old(self).tasks@, self.tasks@, next as int); }
    }

    /// Sets the current task Ready.
    pub fn mark_current_suspended(&mut self)
        requires
            old(self).wf(),
        ensures
            final(self).wf(),
            final(self).tasks@ == with_status(old(self).tasks@, old(self).current_task as int, TaskStatus::Ready),
            final(self).current_task == old(self).current_task,
            final(self).num_app == old(self).num_app,
    {
        let current = self.current_task;
        self.tasks[current].task_status = TaskStatus::Ready;
        assert(self.tasks@ =~= with_status(old(self).tasks@, current as int, TaskStatus::Ready));
        proof { lemma_all_wf(old(self).tasks@, self.tasks@, current as int); }
    }

    /// Sets the current task Exited.
    pub fn mark_current_exited(&mut self)
        requires
            old(self).wf(),
        ensures
            final(self).wf(),
            final(self).tasks@ == with_status(old(self).tasks@, old(self).current_task as int, TaskStatus::Exited),
            final(self).current_task == old(self).current_task,
            final(self).num_app == old(self).num_app,
    {
        let current = self.current_task;
        self.tasks[current].task_status = TaskStatus::Exited;
        assert(self.tasks@ =~= with_status(old(self).tasks@, current as int, TaskStatus::Exited));
        proof { lemma_all_wf(old(self).tasks@, self.tasks@, current as int); }
    }

    /// When some task is Ready: charges the current task its pass, picks the
    /// next task by stride from the strides after that charge, gives it the
    /// processor and returns the switch from the current task to it. `None`
    /// when no task is Ready, in which case nothing changes and there is no
    /// work left.
    pub fn run_next_task(&mut self) -> (r: Option<TaskSwitch>)
        requires
            old(self).wf(),
            old(self).tasks@[old(self).current_task as int].task_status != TaskStatus::Running,
        ensures
            final(self).wf(),
            match r {
                Some(sw) => {
                    let c = old(self).current_task as int;
                    &&& sw.from == old(self).current_task
                    &&& is_stride_min(charged(old(self).tasks@, c), sw.to as int)
                    &&& final(self).tasks@ == switched(old(self).tasks@, c, sw.to as int)
                    &&& final(self).current_task == sw.to
                },
                None => {
                    &&& none_ready(old(self).tasks@)
                    &&& final(self).tasks@ == old(self).tasks@
                    &&& final(self).current_task == old(self).current_task
                },
            },
            final(self).num_app == old(self).num_app,
    {
        match self.find_next_task() {
            Some(ready) => {
                let current = self.current_task;
                self.charge(current);
                assert(self.tasks@[ready as int].task_status == TaskStatus::Ready);
                let next = self.find_next_task().unwrap();
                self.set_running(next);
                Some(TaskSwitch { from: current, to: next })
            },
            None => None,
        }
    }

    /// Sets the pass of the current task to `BIG_STRIDE / prio` and returns
    /// `prio`; returns -1 and changes nothing when `prio <= 1`.
    pub fn set_priority(&mut self, prio: isize) -> (r: isize)
        requires
            old(self).wf(),
        ensures
            final(self).wf(),
            final(self).current_task == old(self).current_task,
            final(self).num_app == old(self).num_app,
            prio <= 1 ==> r == -1 && final(self).tasks@ == old(self).tasks@,
            prio > 1 ==> {
                &&& r == prio
                &&& final(self).tasks@ == old(self).tasks@.update(
                    old(self).current_task as int,
                    TaskControlBlock {
                        pass: (BIG_STRIDE / prio as u64) as u64,
                        ..old(self).tasks@[old(self).current_task as int]
                    },
                )
            },
    {
        if prio <= 1 {
            return -1;
        }
        let p: u64 = prio as u64;
        let pass: u64 = BIG_STRIDE / p;
        assert(pass > 0) by (nonlinear_arith)
            requires
                pass == BIG_STRIDE / p,
                1 < p <= BIG_STRIDE,
        {
        }
        let current = self.current_task;
        self.tasks[current].pass = pass;
        proof { lemma_all_wf(old(self).tasks@, self.tasks@, current as int); }
        assert(self.tasks@ =~= old(self).tasks@.update(
            current as int,
            TaskControlBlock { pass: (BIG_STRIDE / prio as u64) as u64, ..old(self).tasks@[current as int] },
        ));
        prio
    }

    /// `mmap` on the address space of the current task.
    pub fn mmap(&mut self, start: usize, len: usize, port: usize) -> (r: isize)
        requires
            old(self).wf(),
        ensures
            final(self).wf(),
            final(self).current_task == old(self).current_task,
            final(self).num_app == old(self).num_app,
            ({
                let c = old(self).current_task as int;
                let m = old(self).tasks@[c].memory_set@;
                &&& r as int == mmap_result(m, start, len, port)
                &&& others_kept(old(self).tasks@, final(self).tasks@, c)
                &&& same_but_memory(old(self).tasks@[c], final(self).tasks@[c])
                &&& r > 0 ==> final(self).tasks@[c].memory_set@
                    == map_range(m, first_vpn(start), end_vpn(start, len), perm_of_port(port))
                &&& r <= 0 ==> final(self).tasks@[c].memory_set@ == m
            }),
    {
        let current = self.current_task;
        let r = self.tasks[current].memory_set.mmap(start, len, port);
        proof { lemma_all_wf(old(self).tasks@, self.tasks@, current as int); }
        r
    }

    /// `munmap` on the address space of the current task.
    pub fn munmap(&mut self, start: usize, len: usize) -> (r: isize)
        requires
            old(self).wf(),
        ensures
            final(self).wf(),
            final(self).current_task == old(self).current_task,
            final(self).num_app == old(self).num_app,
            ({
                let c = old(self).current_task as int;
                let m = old(self).tasks@[c].memory_set@;
                &&& r as int == munmap_result(m, start, len)
                &&& others_kept(old(self).tasks@, final(self).tasks@, c)
                &&& same_but_memory(old(self).tasks@[c], final(self).tasks@[c])
                &&& r > 0 ==> final(self).tasks@[c].memory_set@
                    == unmap_range(m, first_vpn(start), end_vpn(start, len))
                &&& r <= 0 ==> final(self).tasks@[c].memory_set@ == m
            }),
    {
        let current = self.current_task;
        let r = self.tasks[current].memory_set.munmap_area(start, len);
        proof { lemma_all_wf(old(self).tasks@, self.tasks@, current as int); }
        r
    }

    /// Index of the first task whose pid is `pid`, if any.
    pub fn find_pid(&self, pid: usize) -> (r: Option<usize>)
        ensures
            match r {
                Some(i) => task_of_pid(self.tasks@, pid, i as int),
                None => forall|j: int| 0 <= j < self.tasks@.len() ==> #[trigger] self.tasks@[j].pid != pid,
            },
    {
        let mut i: usize = 0;
        while i < self.tasks.len()
            invariant
                i <= self.tasks@.len(),
                forall|j: int| 0 <= j < i ==> #[trigger] self.tasks@[j].pid != pid,
            decreases self.tasks@.len() - i,
        {
            if self.tasks[i].pid == pid {
                return Some(i);
            }
            i = i + 1;
        }
        None
    }

    /// Sends `msg` to the mailbox of the task whose pid is `pid`; returns the
    /// queued length, or -1 when no task has that pid or its box is full.
    pub fn write_mail(&mut self, pid: usize, msg: &[u8]) -> (r: isize)
        requires
            old(self).wf(),
        ensures
            final(self).wf(),
            final(self).current_task == old(self).current_task,
            final(self).num_app == old(self).num_app,
            (forall|j: int| 0 <= j < old(self).tasks@.len() ==> #[trigger] old(self).tasks@[j].pid != pid)
                ==> r == -1 && final(self).tasks@ == old(self).tasks@,
            forall|i: int| #[trigger] task_of_pid(old(self).tasks@, pid, i) ==> {
                let b = old(self).tasks@[i].mailbox@;
                &&& others_kept(old(self).tasks@, final(self).tasks@, i)
                &&& same_but_mailbox(old(self).tasks@[i], final(self).tasks@[i])
                &&& b.len() == MAIL_BOX_SIZE ==> r == -1 && final(self).tasks@[i].mailbox@ == b
                &&& b.len() < MAIL_BOX_SIZE ==> {
                    &&& r == crate::mail::truncated(msg@, crate::config::MAIL_BOX_MESSAGE_SIZE as nat).len()
                    &&& final(self).tasks@[i].mailbox@ == b.push(
                        crate::mail::truncated(msg@, crate::config::MAIL_BOX_MESSAGE_SIZE as nat))
                }
            },
    {
        match self.find_pid(pid) {
            Some(i) => {
                assert(old(self).tasks@[i as int].wf());
                let r = self.tasks[i].mailbox.write(msg);
                proof { lemma_all_wf(old(self).tasks@, self.tasks@, i as int); }
                assert forall|k: int| #[trigger] task_of_pid(old(self).tasks@, pid, k) implies k == i by {
                    if k < i {
                        assert(old(self).tasks@[k].pid != pid);
                    } else if k > i {
                        assert(old(self).tasks@[i as int].pid != pid);
                    }
                }
                r
            },
            None => -1,
        }
    }

    /// `MailBox::read` on the mailbox of the current task.
    pub fn read_mail(&mut self, len: usize) -> (r: (isize, Vec<u8>))
        requires
            old(self).wf(),
        ensures
            final(self).wf(),
            final(self).current_task == old(self).current_task,
            final(self).num_app == old(self).num_app,
            ({
                let c = old(self).current_task as int;
                let b = old(self).tasks@[c].mailbox@;
                &&& others_kept(old(self).tasks@, final(self).tasks@, c)
                &&& same_but_mailbox(old(self).tasks@[c], final(self).tasks@[c])
                &&& b.len() == 0 ==> r.0 == -1 && r.1@.len() == 0 && final(self).tasks@[c].mailbox@ == b
                &&& b.len() > 0 && len == 0 ==> r.0 == 0 && r.1@.len() == 0
                    && final(self).tasks@[c].mailbox@ == b
                &&& b.len() > 0 && len > 0 ==> {
                    &&& r.1@ == crate::mail::truncated(b[0], len as nat)
                    &&& r.0 == r.1@.len()
                    &&& final(self).tasks@[c].mailbox@ == b.drop_first()
                }
            }),
    {
        let current = self.current_task;
        assert(old(self).tasks@[current as int].wf());
        let r = self.tasks[current].mailbox.read(len);
        proof { lemma_all_wf(old(self).tasks@, self.tasks@, current as int); }
        r
    }

    /// Suspends the current task and switches to the next one by stride.
    pub fn suspend_current_and_run_next(&mut self) -> (r: Option<TaskSwitch>)
        requires
            old(self).wf(),
        ensures
            final(self).wf(),
            ({
                let c = old(self).current_task as int;
                let mid = with_status(old(self).tasks@, c, TaskStatus::Ready);
                match r {
                    Some(sw) => {
                        &&& sw.from == old(self).current_task
                        &&& is_stride_min(charged(mid, c), sw.to as int)
                        &&& final(self).tasks@ == switched(mid, c, sw.to as int)
                        &&& final(self).current_task == sw.to
                    },
                    None => false,
                }
            }),
    {
        self.mark_current_suspended();
        assert(self.tasks@[self.current_task as int].task_status == TaskStatus::Ready);
        self.run_next_task()
    }

    /// Ends the current task and switches to the next one by stride; `None`
    /// when no task is left Ready.
    pub fn exit_current_and_run_next(&mut self) -> (r: Option<TaskSwitch>)
        requires
            old(self).wf(),
        ensures
            final(self).wf(),
            ({
                let c = old(self).current_task as int;
                let mid = with_status(old(self).tasks@, c, TaskStatus::Exited);
                match r {
                    Some(sw) => {
                        &&& sw.from == old(self).current_task
                        &&& is_stride_min(charged(mid, c), sw.to as int)
                        &&& final(self).tasks@ == switched(mid, c, sw.to as int)
                        &&& final(self).current_task == sw.to
                    },
                    None => {
                        &&& none_ready(mid)
                        &&& final(self).tasks@ == mid
                        &&& final(self).current_task == old(self).current_task
                    },
                }
            }),
    {
        self.mark_current_exited();
        self.run_next_task()
    }
}

} // verus!
