use os::comlog::{level_to_color_code, Level};
use os::config::{MAIL_BOX_MESSAGE_SIZE, MAIL_BOX_SIZE};
use os::fs::{is_referenced, OpenFile, Stat, StatMode};
use os::mail::MailBox;
use os::mm::MemorySet;
use os::syscall::{
    sys_close, sys_dup, sys_fstat, sys_get_time, sys_link_at, sys_open, sys_pipe, sys_read,
    sys_unlink_at, sys_write, sys_exit, sys_yield, sys_read_mail, sys_write_mail, sys_set_priority,
};
use os::task::{TaskControlBlock, TaskManager, TaskStatus};

fn manager_with(n: usize) -> TaskManager {
    let mut tasks = Vec::new();
    for pid in 0..n {
        tasks.push(TaskControlBlock::new(pid, MemorySet::new_bare()));
    }
    TaskManager::new(tasks)
}

fn file(handle: usize) -> OpenFile {
    OpenFile { handle, readable: true, writable: true, inode: 40 + handle, mode: StatMode::FILE }
}

#[test]
fn open_reuses_lowest_free_slot() {
    let mut tm = manager_with(1);
    assert_eq!(sys_close(&mut tm, 1), 0);
    assert!(tm.tasks[0].fd_table[0].is_some());
    assert!(tm.tasks[0].fd_table[1].is_none());
    assert!(tm.tasks[0].fd_table[2].is_some());
    assert_eq!(sys_open(&mut tm, Some(file(9))), 1);
    assert_eq!(tm.tasks[0].fd_table[1], Some(file(9)));
    assert_eq!(sys_open(&mut tm, Some(file(10))), 3);
    assert_eq!(tm.tasks[0].fd_table.len(), 4);
}

#[test]
fn open_without_file_fails() {
    let mut tm = manager_with(1);
    assert_eq!(sys_open(&mut tm, None), -1);
    assert_eq!(tm.tasks[0].fd_table.len(), 3);
}

#[test]
fn close_rejects_bad_descriptors() {
    let mut tm = manager_with(1);
    assert_eq!(sys_close(&mut tm, 3), -1);
    assert_eq!(sys_close(&mut tm, 2), 0);
    assert_eq!(sys_close(&mut tm, 2), -1);
}

#[test]
fn dup_copies_into_lowest_slot() {
    let mut tm = manager_with(1);
    assert_eq!(sys_open(&mut tm, Some(file(4))), 3);
    assert_eq!(sys_close(&mut tm, 0), 0);
    assert_eq!(sys_dup(&mut tm, 3), 0);
    assert_eq!(tm.tasks[0].fd_table[0], Some(file(4)));
    assert_eq!(sys_dup(&mut tm, 7), -1);
    assert_eq!(sys_close(&mut tm, 0), 0);
    assert_eq!(sys_dup(&mut tm, 0), -1);
}

#[test]
fn shared_handle_stays_referenced_until_last_close() {
    let mut tm = manager_with(1);
    assert_eq!(sys_open(&mut tm, Some(file(4))), 3);
    assert_eq!(sys_dup(&mut tm, 3), 4);
    assert_eq!(sys_close(&mut tm, 3), 0);
    assert!(is_referenced(&tm.tasks[0].fd_table, 4));
    assert_eq!(sys_close(&mut tm, 4), 0);
    assert!(!is_referenced(&tm.tasks[0].fd_table, 4));
}

#[test]
fn pipe_takes_two_lowest_slots() {
    let mut tm = manager_with(1);
    assert_eq!(sys_close(&mut tm, 1), 0);
    let r = OpenFile { handle: 20, readable: true, writable: false, inode: 0, mode: StatMode::NULL };
    let w = OpenFile { handle: 20, readable: false, writable: true, inode: 0, mode: StatMode::NULL };
    assert_eq!(sys_pipe(&mut tm, r, w), (1, 3));
    assert_eq!(tm.tasks[0].fd_table[1], Some(r));
    assert_eq!(tm.tasks[0].fd_table[3], Some(w));
}

#[test]
fn write_and_read_check_capability() {
    let tm = manager_with(1);
    assert_eq!(sys_write(&tm, 0), None);
    assert_eq!(sys_write(&tm, 1), Some(OpenFile::stdout()));
    assert_eq!(sys_read(&tm, 0), Some(OpenFile::stdin()));
    assert_eq!(sys_read(&tm, 1), None);
    assert_eq!(sys_read(&tm, 5), None);
    assert_eq!(sys_write(&tm, 5), None);
}

#[test]
fn fstat_reports_inode_and_kind() {
    let mut tm = manager_with(1);
    assert_eq!(sys_open(&mut tm, Some(file(2))), 3);
    let mut st = Stat::new();
    st.nlink = 7;
    assert_eq!(sys_fstat(&tm, 3, &mut st), 0);
    assert_eq!(st.ino, 42);
    assert_eq!(st.mode, StatMode::FILE);
    assert_eq!(st.nlink, 7);
    let before = st;
    assert_eq!(sys_fstat(&tm, 9, &mut st), -1);
    assert_eq!(st, before);
}

#[test]
fn link_results() {
    assert_eq!(sys_link_at(true), 0);
    assert_eq!(sys_link_at(false), -1);
    assert_eq!(sys_unlink_at(true), 0);
    assert_eq!(sys_unlink_at(false), -1);
}

#[test]
fn time_in_milliseconds() {
    assert_eq!(sys_get_time(0), 0);
    assert_eq!(sys_get_time(12_500 * 5 + 12_499), 5);
    assert_eq!(sys_get_time(u64::MAX), (u64::MAX / 12_500) as isize);
}

#[test]
fn yield_and_exit_switch_tasks() {
    let mut tm = manager_with(2);
    tm.run_first_task();
    let sw = sys_yield(&mut tm);
    assert_eq!((sw.from, sw.to), (0, 1));
    let sw = sys_exit(&mut tm, 0).unwrap();
    assert_eq!((sw.from, sw.to), (1, 0));
    assert_eq!(tm.tasks[1].task_status, TaskStatus::Exited);
    assert_eq!(sys_exit(&mut tm, 0), None);
}

#[test]
fn mailbox_full_rejects_any_length() {
    let mut tm = manager_with(2);
    for _ in 0..MAIL_BOX_SIZE {
        assert_eq!(tm.write_mail(1, b"hi"), 2);
    }
    assert_eq!(tm.write_mail(1, b"x"), -1);
    assert_eq!(tm.write_mail(1, b""), -1);
    assert_eq!(tm.tasks[1].mailbox.len(), MAIL_BOX_SIZE);
}

#[test]
fn mailbox_truncates_long_message() {
    let mut mb = MailBox::new();
    let long = vec![7u8; MAIL_BOX_MESSAGE_SIZE + 50];
    assert_eq!(mb.write(&long), MAIL_BOX_MESSAGE_SIZE as isize);
    let (n, bytes) = mb.read(1000);
    assert_eq!(n, MAIL_BOX_MESSAGE_SIZE as isize);
    assert_eq!(bytes, vec![7u8; MAIL_BOX_MESSAGE_SIZE]);
}

#[test]
fn mailbox_probe_does_not_dequeue() {
    let mut tm = manager_with(1);
    assert_eq!(tm.read_mail(0).0, -1);
    assert_eq!(tm.read_mail(5).0, -1);
    assert_eq!(tm.write_mail(0, b"hello"), 5);
    assert_eq!(tm.read_mail(0).0, 0);
    assert_eq!(tm.tasks[0].mailbox.len(), 1);
    let (n, bytes) = tm.read_mail(3);
    assert_eq!(n, 3);
    assert_eq!(bytes, b"hel".to_vec());
    assert_eq!(tm.read_mail(0).0, -1);
}

#[test]
fn mailbox_is_fifo() {
    let mut mb = MailBox::new();
    assert_eq!(mb.write(b"one"), 3);
    assert_eq!(mb.write(b"three"), 5);
    assert_eq!(mb.read(10), (3, b"one".to_vec()));
    assert_eq!(mb.read(10), (5, b"three".to_vec()));
    assert_eq!(mb.read(10).0, -1);
}

#[test]
fn write_mail_to_unknown_pid_fails() {
    let mut tm = manager_with(2);
    assert_eq!(tm.write_mail(9, b"x"), -1);
    assert_eq!(tm.find_pid(1), Some(1));
    assert_eq!(tm.find_pid(9), None);
}

#[test]
fn level_colors() {
    assert_eq!(level_to_color_code(Level::Error), 31);
    assert_eq!(level_to_color_code(Level::Warn), 93);
    assert_eq!(level_to_color_code(Level::Info), 34);
    assert_eq!(level_to_color_code(Level::Debug), 32);
    assert_eq!(level_to_color_code(Level::Trace), 90);
}

#[test]
fn mail_syscalls() {
    let mut tm = manager_with(2);
    assert_eq!(sys_read_mail(&mut tm, 0).0, -1);
    assert_eq!(sys_write_mail(&mut tm, 0, b"ping"), 4);
    assert_eq!(sys_write_mail(&mut tm, 5, b"ping"), -1);
    assert_eq!(sys_read_mail(&mut tm, 0).0, 0);
    assert_eq!(sys_read_mail(&mut tm, 16), (4, b"ping".to_vec()));
    assert_eq!(sys_read_mail(&mut tm, 16).0, -1);
}

#[test]
fn priority_syscall() {
    let mut tm = manager_with(1);
    assert_eq!(sys_set_priority(&mut tm, 1), -1);
    assert_eq!(sys_set_priority(&mut tm, 8), 8);
    assert_eq!(tm.tasks[0].pass, os::config::BIG_STRIDE / 8);
}
