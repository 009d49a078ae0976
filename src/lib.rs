//! Core of a small single-core teaching kernel: the task table and its
//! stride scheduler, per-task address spaces with `mmap`/`munmap`, the
//! descriptor tables and mailboxes behind the system calls, each with its
//! contract proved.

pub mod config;
pub mod mm;
pub mod mail;
pub mod fs;
pub mod task;
pub mod syscall;
pub mod comlog;
