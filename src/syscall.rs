use vstd::prelude::*;
use crate::config::CLOCK_FREQ;
use crate::fs::{OpenFile, Stat, fd_open, lowest_free_fd};
use crate::task::{TaskManager, TaskSwitch, others_kept, same_but_fds, lemma_all_wf};

verus! {

/// The descriptor table of the current task.
pub open spec fn cur_fds(tm: TaskManager) -> Seq<Option<OpenFile>> {
    tm.tasks@[tm.current_task as int].fd_table@
}

/// `t` with `f` placed in slot `fd`, which is either free or one past the end.
pub open spec fn installed(t: Seq<Option<OpenFile>>, fd: int, f: OpenFile) -> Seq<Option<OpenFile>> {
    if fd < t.len() {
        t.update(fd, Some(f))
    } else {
        t.push(Some(f))
    }
}

/// Whether `b` is `a` with only the descriptor table of the current task
/// changed, to `t`.
pub open spec fn fds_now(a: TaskManager, b: TaskManager, t: Seq<Option<OpenFile>>) -> bool {
    let c = a.current_task as int;
    &&& b.wf()
    &&& b.current_task == a.current_task
    &&& b.num_app == a.num_app
    &&& others_kept(a.tasks@, b.tasks@, c)
    &&& same_but_fds(a.tasks@[c], b.tasks@[c])
    &&& b.tasks@[c].fd_table@ == t
}

/// The open file behind `fd` in the current task when it can be written
/// to; `None` when `fd` is not open or not writable. The caller writes the
/// user buffer to it after this returns.
pub fn sys_write(tm: &TaskManager, fd: usize) -> (r: Option<OpenFile>)
    requires
        tm.wf(),
    ensures
        r == (if fd_open(cur_fds(*tm), fd as int) && cur_fds(*tm)[fd as int].unwrap().writable {
            cur_fds(*tm)[fd as int]
        } else {
            None
        }),
{
    let c = tm.current_task;
    let t = &tm.tasks[c].fd_table;
    if fd >= t.len() {
        return None;
    }
    match &t[fd] {
        Some(f) => {
            if !f.writable() {
                None
            } else {
                Some(*f)
            }
        },
        None => None,
    }
}

/// The open file behind `fd` in the current task when it can be read
/// from; `None` when `fd` is not open or not readable. The caller reads
/// into the user buffer from it after this returns.
pub fn sys_read(tm: &TaskManager, fd: usize) -> (r: Option<OpenFile>)
    requires
        tm.wf(),
    ensures
        r == (if fd_open(cur_fds(*tm), fd as int) && cur_fds(*tm)[fd as int].unwrap().readable {
            cur_fds(*tm)[fd as int]
        } else {
            None
        }),
{
    let c = tm.current_task;
    let t = &tm.tasks[c].fd_table;
    if fd >= t.len() {
        return None;
    }
    match &t[fd] {
        Some(f) => {
            if !f.readable() {
                None
            } else {
                Some(*f)
            }
        },
        None => None,
    }
}

/// Places `f` in the lowest free descriptor of the current task.
fn install(tm: &mut TaskManager, f: OpenFile) -> (r: usize)
    requires
        old(tm).wf(),
    ensures
        lowest_free_fd(cur_fds(*old(tm)), r as int),
        fds_now(*old(tm), *final(tm), installed(cur_fds(*old(tm)), r as int, f)),
{
    let c = tm.current_task;
    let fd = tm.tasks[c].alloc_fd();
    tm.tasks[c].fd_table[fd] = Some(f);
    assert(tm.tasks@[c as int].fd_table@ =~= installed(cur_fds(*old(tm)), fd as int, f));
    proof { lemma_all_wf(old(tm).tasks@, tm.tasks@, c as int); }
    fd
}

/// Gives the file that the file system opened (`None` when it could not)
/// the lowest free descriptor of the current task and returns it; -1 when
/// there is no file.
pub fn sys_open(tm: &mut TaskManager, file: Option<OpenFile>) -> (r: isize)
    requires
        old(tm).wf(),
        cur_fds(*old(tm)).len() < isize::MAX,
    ensures
        match file {
            Some(f) => {
                &&& r >= 0
                &&& lowest_free_fd(cur_fds(*old(tm)), r as int)
                &&& fds_now(*old(tm), *final(tm), installed(cur_fds(*old(tm)), r as int, f))
            },
            None => r == -1 && *final(tm) == *old(tm),
        },
{
    match file {
        Some(f) => {
            let fd = install(tm, f);
            fd as isize
        },
        None => -1,
    }
}

/// Closes descriptor `fd` of the current task; -1 when it is not open.
pub fn sys_close(tm: &mut TaskManager, fd: usize) -> (r: isize)
    requires
        old(tm).wf(),
    ensures
        fd_open(cur_fds(*old(tm)), fd as int) ==> r == 0
            && fds_now(*old(tm), *final(tm), cur_fds(*old(tm)).update(fd as int, None)),
        !fd_open(cur_fds(*old(tm)), fd as int) ==> r == -1 && *final(tm) == *old(tm),
{
    let c = tm.current_task;
    if fd >= tm.tasks[c].fd_table.len() {
        return -1;
    }
    if tm.tasks[c].fd_table[fd].is_none() {
        return -1;
    }
    tm.tasks[c].fd_table[fd] = None;
    proof { lemma_all_wf(old(tm).tasks@, tm.tasks@, c as int); }
    0
}

/// Copies descriptor `fd` of the current task into its lowest free
/// descriptor and returns that; -1 when `fd` is not open.
pub fn sys_dup(tm: &mut TaskManager, fd: usize) -> (r: isize)
    requires
        old(tm).wf(),
        cur_fds(*old(tm)).len() < isize::MAX,
    ensures
        fd_open(cur_fds(*old(tm)), fd as int) ==> {
            &&& r >= 0
            &&& lowest_free_fd(cur_fds(*old(tm)), r as int)
            &&& fds_now(*old(tm), *final(tm),
                installed(cur_fds(*old(tm)), r as int, cur_fds(*old(tm))[fd as int].unwrap()))
        },
        !fd_open(cur_fds(*old(tm)), fd as int) ==> r == -1 && *final(tm) == *old(tm),
{
    let c = tm.current_task;
    if fd >= tm.tasks[c].fd_table.len() {
        return -1;
    }
    match tm.tasks[c].fd_table[fd] {
        Some(f) => {
            let new_fd = install(tm, f);
            new_fd as isize
        },
        None => -1,
    }
}

/// Gives the two ends of a new pipe the lowest free descriptors of the
/// current task, the read end first, and returns both.
pub fn sys_pipe(tm: &mut TaskManager, read_end: OpenFile, write_end: OpenFile) -> (r: (usize, usize))
    requires
        old(tm).wf(),
    ensures
        lowest_free_fd(cur_fds(*old(tm)), r.0 as int),
        lowest_free_fd(installed(cur_fds(*old(tm)), r.0 as int, read_end), r.1 as int),
        fds_now(*old(tm), *final(tm),
            installed(installed(cur_fds(*old(tm)), r.0 as int, read_end), r.1 as int, write_end)),
{
    let read_fd = install(tm, read_end);
    let write_fd = install(tm, write_end);
    assert(others_kept(old(tm).tasks@, tm.tasks@, old(tm).current_task as int));
    (read_fd, write_fd)
}

/// Fills the inode number and the kind of the file behind descriptor `fd`
/// of the current task into `stat` and returns 0; -1, with `stat` left as
/// it was, when `fd` is not open. The link count is the file system's to
/// fill in.
pub fn sys_fstat(tm: &TaskManager, fd: usize, stat: &mut Stat) -> (r: isize)
    requires
        tm.wf(),
    ensures
        fd_open(cur_fds(*tm), fd as int) ==> r == 0 && *final(stat) == (Stat {
            ino: cur_fds(*tm)[fd as int].unwrap().inode as u64,
            mode: cur_fds(*tm)[fd as int].unwrap().mode,
            ..*old(stat)
        }),
        !fd_open(cur_fds(*tm), fd as int) ==> r == -1 && *final(stat) == *old(stat),
{
    let c = tm.current_task;
    if fd >= tm.tasks[c].fd_table.len() {
        return -1;
    }
    match &tm.tasks[c].fd_table[fd] {
        Some(f) => {
            stat.ino = f.get_inode_number() as u64;
            stat.mode = f.get_file_type();
            0
        },
        None => -1,
    }
}

/// Result of a hard link request, from whether the file system made the link.
pub fn sys_link_at(linked: bool) -> (r: isize)
    ensures
        r == (if linked { 0isize } else { -1isize }),
{
    if linked {
        0
    } else {
        -1
    }
}

/// Result of an unlink request, from whether the file system removed the name.
pub fn sys_unlink_at(unlinked: bool) -> (r: isize)
    ensures
        r == (if unlinked { 0isize } else { -1isize }),
{
    if unlinked {
        0
    } else {
        -1
    }
}

/// Milliseconds since boot, from the value of the cycle counter (held at
/// `isize::MAX` where it would not fit).
pub fn sys_get_time(ticks: u64) -> (r: isize)
    ensures
        ticks as int / (CLOCK_FREQ as int / 1000) <= isize::MAX ==> r as int == ticks as int / (CLOCK_FREQ as int / 1000),
        ticks as int / (CLOCK_FREQ as int / 1000) > isize::MAX ==> r == isize::MAX,
{
    let ms: u64 = ticks / (CLOCK_FREQ / 1000);
    if ms > isize::MAX as u64 {
        isize::MAX
    } else {
        ms as isize
    }
}

/// Suspends the current task and switches to the next by stride.
pub fn sys_yield(tm: &mut TaskManager) -> (r: TaskSwitch)
    requires
        old(tm).wf(),
    ensures
        final(tm).wf(),
        r.from == old(tm).current_task,
        ({
            let mid = crate::task::with_status(
                old(tm).tasks@,
                old(tm).current_task as int,
                crate::task::TaskStatus::Ready,
            );
            let c = old(tm).current_task as int;
            &&& crate::task::is_stride_min(crate::task::charged(mid, c), r.to as int)
            &&& final(tm).tasks@ == crate::task::switched(mid, c, r.to as int)
            &&& final(tm).current_task == r.to
        }),
{
    tm.suspend_current_and_run_next().unwrap()
}

/// Ends the current task and switches to the next by stride; `None` when
/// no task is left to run.
pub fn sys_exit(tm: &mut TaskManager, exit_code: i32) -> (r: Option<TaskSwitch>)
    requires
        old(tm).wf(),
    ensures
        final(tm).wf(),
        ({
            let mid = crate::task::with_status(
                old(tm).tasks@,
                old(tm).current_task as int,
                crate::task::TaskStatus::Exited,
            );
            match r {
                Some(sw) => {
                    &&& sw.from == old(tm).current_task
                    &&& crate::task::is_stride_min(
                        crate::task::charged(mid, old(tm).current_task as int),
                        sw.to as int,
                    )
                    &&& final(tm).tasks@ == crate::task::switched(mid, old(tm).current_task as int, sw.to as int)
                    &&& final(tm).current_task == sw.to
                },
                None => {
                    &&& crate::task::none_ready(mid)
                    &&& final(tm).tasks@ == mid
                },
            }
        }),
{
    tm.exit_current_and_run_next()
}

/// `TaskManager::mmap` on the current task.
pub fn sys_mmap(tm: &mut TaskManager, start: usize, len: usize, port: usize) -> (r: isize)
    requires
        old(tm).wf(),
    ensures
        final(tm).wf(),
        ({
            let c = old(tm).current_task as int;
            let m = old(tm).tasks@[c].memory_set@;
            &&& r as int == crate::mm::mmap_result(m, start, len, port)
            &&& others_kept(old(tm).tasks@, final(tm).tasks@, c)
            &&& r > 0 ==> final(tm).tasks@[c].memory_set@ == crate::mm::map_range(
                m,
                crate::mm::first_vpn(start),
                crate::mm::end_vpn(start, len),
                crate::mm::perm_of_port(port),
            )
            &&& r <= 0 ==> final(tm).tasks@[c].memory_set@ == m
        }),
{
    tm.mmap(start, len, port)
}

/// `TaskManager::munmap` on the current task.
pub fn sys_munmap(tm: &mut TaskManager, start: usize, len: usize) -> (r: isize)
    requires
        old(tm).wf(),
    ensures
        final(tm).wf(),
        ({
            let c = old(tm).current_task as int;
            let m = old(tm).tasks@[c].memory_set@;
            &&& r as int == crate::mm::munmap_result(m, start, len)
            &&& others_kept(old(tm).tasks@, final(tm).tasks@, c)
            &&& r > 0 ==> final(tm).tasks@[c].memory_set@ == crate::mm::unmap_range(
                m,
                crate::mm::first_vpn(start),
                crate::mm::end_vpn(start, len),
            )
            &&& r <= 0 ==> final(tm).tasks@[c].memory_set@ == m
        }),
{
    tm.munmap(start, len)
}

/// `TaskManager::set_priority` on the current task: -1 for `prio <= 1`,
/// else `prio`, with the pass set to `BIG_STRIDE / prio`.
pub fn sys_set_priority(tm: &mut TaskManager, prio: isize) -> (r: isize)
    requires
        old(tm).wf(),
    ensures
        final(tm).wf(),
        final(tm).current_task == old(tm).current_task,
        prio <= 1 ==> r == -1 && final(tm).tasks@ == old(tm).tasks@,
        prio > 1 ==> {
            &&& r == prio
            &&& final(tm).tasks@ == old(tm).tasks@.update(
                old(tm).current_task as int,
                crate::task::TaskControlBlock {
                    pass: (crate::config::BIG_STRIDE / prio as u64) as u64,
                    ..old(tm).tasks@[old(tm).current_task as int]
                },
            )
        },
{
    tm.set_priority(prio)
}

/// Sends `msg` to the mailbox of the task whose pid is `pid`: -1 when no
/// task has that pid or its mailbox is full (which then stays as it was),
/// else the length of the message as queued, cut to
/// `MAIL_BOX_MESSAGE_SIZE` bytes.
pub fn sys_write_mail(tm: &mut TaskManager, pid: usize, msg: &[u8]) -> (r: isize)
    requires
        old(tm).wf(),
    ensures
        final(tm).wf(),
        final(tm).current_task == old(tm).current_task,
        (forall|j: int| 0 <= j < old(tm).tasks@.len() ==> #[trigger] old(tm).tasks@[j].pid != pid)
            ==> r == -1 && final(tm).tasks@ == old(tm).tasks@,
        forall|i: int| #[trigger] crate::task::task_of_pid(old(tm).tasks@, pid, i) ==> {
            let b = old(tm).tasks@[i].mailbox@;
            let m = crate::mail::truncated(msg@, crate::config::MAIL_BOX_MESSAGE_SIZE as nat);
            &&& others_kept(old(tm).tasks@, final(tm).tasks@, i)
            &&& crate::task::same_but_mailbox(old(tm).tasks@[i], final(tm).tasks@[i])
            &&& b.len() == crate::config::MAIL_BOX_SIZE ==> r == -1 && final(tm).tasks@[i].mailbox@ == b
            &&& b.len() < crate::config::MAIL_BOX_SIZE ==> r == m.len() && final(tm).tasks@[i].mailbox@ == b.push(m)
        },
{
    tm.write_mail(pid, msg)
}

/// Reads mail of the current task. With `len == 0` it only probes: 0 when
/// a message is queued, -1 when none is, nothing dequeued. Otherwise it
/// dequeues the oldest message and returns the number of its bytes that
/// fit in `len` with those bytes, for the caller to copy to the user
/// buffer; -1 when the mailbox is empty.
pub fn sys_read_mail(tm: &mut TaskManager, len: usize) -> (r: (isize, Vec<u8>))
    requires
        old(tm).wf(),
    ensures
        final(tm).wf(),
        final(tm).current_task == old(tm).current_task,
        ({
            let c = old(tm).current_task as int;
            let b = old(tm).tasks@[c].mailbox@;
            &&& others_kept(old(tm).tasks@, final(tm).tasks@, c)
            &&& crate::task::same_but_mailbox(old(tm).tasks@[c], final(tm).tasks@[c])
            &&& b.len() == 0 ==> r.0 == -1 && r.1@.len() == 0 && final(tm).tasks@[c].mailbox@ == b
            &&& b.len() > 0 && len == 0 ==> r.0 == 0 && r.1@.len() == 0 && final(tm).tasks@[c].mailbox@ == b
            &&& b.len() > 0 && len > 0 ==> {
                &&& r.1@ == crate::mail::truncated(b[0], len as nat)
                &&& r.0 == r.1@.len()
                &&& final(tm).tasks@[c].mailbox@ == b.drop_first()
            }
        }),
{
    tm.read_mail(len)
}

} // verus!
