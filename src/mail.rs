use vstd::prelude::*;
use std::collections::VecDeque;
use crate::config::{MAIL_BOX_SIZE, MAIL_BOX_MESSAGE_SIZE};

verus! {

/// The first `n` bytes of `m`, or all of `m` when it is shorter.
pub open spec fn truncated(m: Seq<u8>, n: nat) -> Seq<u8> {
    if m.len() <= n {
        m
    } else {
        m.subrange(0, n as int)
    }
}

/// A message longer than `n` bytes keeps exactly `n` of them, its first;
/// a shorter one is kept whole.
pub proof fn lemma_truncated(m: Seq<u8>, n: nat)
    ensures
        m.len() > n ==> truncated(m, n).len() == n && truncated(m, n) == m.subrange(0, n as int),
        m.len() <= n ==> truncated(m, n) == m,
{
}

/// Copies the first `n` bytes of `m` (all of them when `m` is shorter).
fn copy_prefix(m: &[u8], n: usize) -> (r: Vec<u8>)
    ensures
        r@ == truncated(m@, n as nat),
{
    let k: usize = if m.len() <= n { m.len() } else { n };
    let mut r: Vec<u8> = Vec::new();
    let mut i: usize = 0;
    while i < k
        invariant
            k <= m@.len(),
            i <= k,
            r@ == m@.subrange(0, i as int),
        decreases k - i,
    {
        r.push(m[i]);
        i = i + 1;
        assert(r@ =~= m@.subrange(0, i as int));
    }
    assert(r@ =~= truncated(m@, n as nat));
    r
}

/// A bounded FIFO queue of messages sent to one task.
pub struct MailBox {
    messages: VecDeque<Vec<u8>>,
}

impl View for MailBox {
    type V = Seq<Seq<u8>>;

    closed spec fn view(&self) -> Seq<Seq<u8>> {
        self.messages@.map_values(|m: Vec<u8>| m@)
    }
}

impl MailBox {
    /// At most `MAIL_BOX_SIZE` messages, none longer than `MAIL_BOX_MESSAGE_SIZE`.
    pub open spec fn wf(&self) -> bool {
        &&& self@.len() <= MAIL_BOX_SIZE
        &&& forall|i: int| 0 <= i < self@.len() ==> #[trigger] self@[i].len() <= MAIL_BOX_MESSAGE_SIZE
    }

    pub fn new() -> (r: MailBox)
        ensures
            r@ == Seq::<Seq<u8>>::empty(),
            r.wf(),
    {
        MailBox { messages: VecDeque::new() }
    }

    /// Number of queued messages.
    pub fn len(&self) -> (r: usize)
        ensures
            r == self@.len(),
    {
        self.messages.len()
    }

    /// Whether `MAIL_BOX_SIZE` messages are queued.
    pub fn is_full(&self) -> (r: bool)
        requires
            self.wf(),
        ensures
            r == (self@.len() == MAIL_BOX_SIZE),
    {
        self.messages.len() == MAIL_BOX_SIZE
    }

    /// Queues `msg` cut to `MAIL_BOX_MESSAGE_SIZE` bytes and returns the
    /// queued length; returns -1 and changes nothing when the box is full.
    pub fn write(&mut self, msg: &[u8]) -> (r: isize)
        requires
            old(self).wf(),
        ensures
            final(self).wf(),
            old(self)@.len() == MAIL_BOX_SIZE ==> r == -1 && final(self)@ == old(self)@,
            old(self)@.len() < MAIL_BOX_SIZE ==> {
                &&& r == truncated(msg@, MAIL_BOX_MESSAGE_SIZE as nat).len()
                &&& final(self)@ == old(self)@.push(truncated(msg@, MAIL_BOX_MESSAGE_SIZE as nat))
            },
    {
        if self.is_full() {
            return -1;
        }
        let m = copy_prefix(msg, MAIL_BOX_MESSAGE_SIZE);
        let n: usize = m.len();
        self.messages.push_back(m);
        assert(self@ =~= old(self)@.push(truncated(msg@, MAIL_BOX_MESSAGE_SIZE as nat)));
        n as isize
    }

    /// Reads the oldest message. With `len == 0` it only probes: it returns 0
    /// when a message is queued and -1 when none is, and dequeues nothing.
    /// Otherwise it dequeues the oldest message and returns how many bytes of
    /// it fit in `len` together with those bytes, or -1 when the box is empty.
    pub fn read(&mut self, len: usize) -> (r: (isize, Vec<u8>))
        requires
            old(self).wf(),
        ensures
            final(self).wf(),
            old(self)@.len() == 0 ==> r.0 == -1 && r.1@.len() == 0 && final(self)@ == old(self)@,
            old(self)@.len() > 0 && len == 0 ==> r.0 == 0 && r.1@.len() == 0
                && final(self)@ == old(self)@,
            old(self)@.len() > 0 && len > 0 ==> {
                &&& r.1@ == truncated(old(self)@[0], len as nat)
                &&& r.0 == r.1@.len()
                &&& final(self)@ == old(self)@.drop_first()
            },
    {
        if self.messages.len() == 0 {
            return (-1, Vec::new());
        }
        if len == 0 {
            return (0, Vec::new());
        }
        let ghost before = self@;
        match self.messages.pop_front() {
            Some(m) => {
                assert(m@ == before[0]);
                assert(self@ =~= before.drop_first());
                let out = copy_prefix(m.as_slice(), len);
                assert(out@.len() <= MAIL_BOX_MESSAGE_SIZE);
                let n: usize = out.len();
                (n as isize, out)
            },
            None => (-1, Vec::new()),
        }
    }
}

} // verus!
