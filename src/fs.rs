use vstd::prelude::*;

verus! {

/// Kind of object an open file refers to.
#[derive(Clone, Copy, Debug, PartialEq, Eq, Structural)]
pub enum StatMode {
    NULL,
    DIR,
    FILE,
}

/// What a task's descriptor table records of one open file: which object
/// it is, the access it grants, and the inode behind it (0 where none).
#[derive(Clone, Copy, Debug, PartialEq, Eq, Structural)]
pub struct OpenFile {
    pub handle: usize,
    pub readable: bool,
    pub writable: bool,
    pub inode: usize,
    pub mode: StatMode,
}

impl OpenFile {
    pub open spec fn stdin_spec() -> OpenFile {
        OpenFile { handle: 0, readable: true, writable: false, inode: 0, mode: StatMode::NULL }
    }

    pub open spec fn stdout_spec() -> OpenFile {
        OpenFile { handle: 1, readable: false, writable: true, inode: 0, mode: StatMode::NULL }
    }

    /// The console input: readable only.
    pub fn stdin() -> (r: OpenFile)
        ensures
            r == Self::stdin_spec(),
    {
        OpenFile { handle: 0, readable: true, writable: false, inode: 0, mode: StatMode::NULL }
    }

    /// The console output: writable only.
    pub fn stdout() -> (r: OpenFile)
        ensures
            r == Self::stdout_spec(),
    {
        OpenFile { handle: 1, readable: false, writable: true, inode: 0, mode: StatMode::NULL }
    }

    pub fn readable(&self) -> (r: bool)
        ensures
            r == self.readable,
    {
        self.readable
    }

    pub fn writable(&self) -> (r: bool)
        ensures
            r == self.writable,
    {
        self.writable
    }

    pub fn get_inode_number(&self) -> (r: usize)
        ensures
            r == self.inode,
    {
        self.inode
    }

    pub fn get_file_type(&self) -> (r: StatMode)
        ensures
            r == self.mode,
    {
        self.mode
    }
}

/// What `fstat` reports of an open file.
#[derive(Clone, Copy, Debug, PartialEq, Eq, Structural)]
pub struct Stat {
    pub dev: u64,
    pub ino: u64,
    pub mode: StatMode,
    pub nlink: u32,
}

impl Stat {
    pub fn new() -> (r: Stat)
        ensures
            r == (Stat { dev: 0, ino: 0, mode: StatMode::NULL, nlink: 0 }),
    {
        Stat { dev: 0, ino: 0, mode: StatMode::NULL, nlink: 0 }
    }
}

/// Index of the lowest free slot of a descriptor table, or its length when
/// every slot is taken.
pub open spec fn lowest_free_fd(t: Seq<Option<OpenFile>>, fd: int) -> bool {
    &&& 0 <= fd <= t.len()
    &&& fd < t.len() ==> t[fd] is None
    &&& forall|j: int| 0 <= j < fd ==> #[trigger] t[j] is Some
}

/// Whether descriptor `fd` names an open file in `t`.
pub open spec fn fd_open(t: Seq<Option<OpenFile>>, fd: int) -> bool {
    0 <= fd < t.len() && t[fd] is Some
}

/// Whether a descriptor slot refers to the object `handle`.
pub open spec fn slot_refers(s: Option<OpenFile>, handle: usize) -> bool {
    match s {
        Some(f) => f.handle == handle,
        None => false,
    }
}

/// Whether some slot of `t` still refers to the object `handle`.
pub open spec fn handle_in_use(t: Seq<Option<OpenFile>>, handle: usize) -> bool {
    exists|i: int| 0 <= i < t.len() && #[trigger] slot_refers(t[i], handle)
}

/// Whether some slot of `table` still refers to the object `handle`; the
/// object may be released once no table refers to it.
pub fn is_referenced(table: &Vec<Option<OpenFile>>, handle: usize) -> (r: bool)
    ensures
        r == handle_in_use(table@, handle),
{
    let mut i: usize = 0;
    while i < table.len()
        invariant
            i <= table@.len(),
            forall|j: int| 0 <= j < i ==> !#[trigger] slot_refers(table@[j], handle),
        decreases table.len() - i,
    {
        match &table[i] {
            Some(f) => {
                if f.handle == handle {
                    assert(slot_refers(table@[i as int], handle));
                    return true;
                }
            },
            None => {},
        }
        i = i + 1;
    }
    false
}

} // verus!
