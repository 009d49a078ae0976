use vstd::prelude::*;

verus! {

/// Size of one virtual page in bytes.
pub const PAGE_SIZE: usize = 4096;

/// Largest length, in bytes, that one `mmap`/`munmap` request may cover.
pub const MMAP_MAX_LEN: usize = 1073741824;

/// Numerator of the stride formula: a task of priority `p` advances by `BIG_STRIDE / p`.
pub const BIG_STRIDE: u64 = 9223372036854775807;

/// Priority every task starts with.
pub const DEFAULT_PRIORITY: u64 = 16;

/// Frequency of the cycle counter, in ticks per second.
pub const CLOCK_FREQ: u64 = 12500000;

/// Number of messages a mailbox holds at most.
pub const MAIL_BOX_SIZE: usize = 16;

/// Number of bytes kept of one message.
pub const MAIL_BOX_MESSAGE_SIZE: usize = 256;

} // verus!
