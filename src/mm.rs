use vstd::prelude::*;
use std::collections::HashMap;
use crate::config::{PAGE_SIZE, MMAP_MAX_LEN};

verus! {

broadcast use vstd::std_specs::hash::group_hash_axioms;

/// Permission bits of a mapped page: R = 2, W = 4, X = 8, U = 16.
#[derive(Clone, Copy, Debug, PartialEq, Eq, Structural)]
pub struct MapPermission {
    pub bits: u8,
}

impl MapPermission {
    /// Bit of read access.
    pub const R: u8 = 2;
    /// Bit of write access.
    pub const W: u8 = 4;
    /// Bit of execute access.
    pub const X: u8 = 8;
    /// Bit of user-mode access.
    pub const U: u8 = 16;

    pub fn from_bits(bits: u8) -> (r: MapPermission)
        ensures
            r.bits == bits,
    {
        MapPermission { bits }
    }
}

/// The permission an `mmap` request with protection `port` (bit 0 = R,
/// bit 1 = W, bit 2 = X) gives its pages; user access is always granted.
pub open spec fn perm_of_port(port: usize) -> MapPermission {
    MapPermission { bits: (2 * port + 16) as u8 }
}

/// A byte length rounded up to a whole number of pages.
pub open spec fn round_up_len(len: nat) -> nat {
    if len % (PAGE_SIZE as nat) == 0 {
        len
    } else {
        (len + ((PAGE_SIZE as nat) - len % (PAGE_SIZE as nat))) as nat
    }
}

/// Whether `(start, len)` is a well-formed page range request of non-zero length.
pub open spec fn range_ok(start: usize, len: usize) -> bool {
    &&& 0 < len <= MMAP_MAX_LEN
    &&& start % PAGE_SIZE == 0
    &&& start + round_up_len(len as nat) <= usize::MAX
}

/// Whether `port` is a protection made only of R, W, X with at least one of them.
pub open spec fn port_ok(port: usize) -> bool {
    1 <= port <= 7
}

/// First page of a request.
pub open spec fn first_vpn(start: usize) -> int {
    start as int / PAGE_SIZE as int
}

/// One past the last page of a request.
pub open spec fn end_vpn(start: usize, len: usize) -> int {
    (start + round_up_len(len as nat)) / PAGE_SIZE as int
}

/// Whether no page of `[from, to)` is mapped in `m`.
pub open spec fn all_unmapped(m: Map<usize, MapPermission>, from: int, to: int) -> bool {
    forall|v: usize| from <= v < to ==> !#[trigger] m.contains_key(v)
}

/// Whether every page of `[from, to)` is mapped in `m`.
pub open spec fn all_mapped(m: Map<usize, MapPermission>, from: int, to: int) -> bool {
    forall|v: usize| from <= v < to ==> #[trigger] m.contains_key(v)
}

/// `m` with every page of `[from, to)` mapped with `perm`.
pub open spec fn map_range(m: Map<usize, MapPermission>, from: int, to: int, perm: MapPermission)
    -> Map<usize, MapPermission>
{
    Map::new(
        |v: usize| m.contains_key(v) || (from <= v < to),
        |v: usize| if from <= v < to { perm } else { m[v] },
    )
}

/// `m` with every page of `[from, to)` removed.
pub open spec fn unmap_range(m: Map<usize, MapPermission>, from: int, to: int)
    -> Map<usize, MapPermission>
{
    m.restrict(m.dom().filter(|v: usize| !(from <= v < to)))
}

/// What `mmap(start, len, port)` returns on an address space whose pages are `m`.
pub open spec fn mmap_result(m: Map<usize, MapPermission>, start: usize, len: usize, port: usize) -> int {
    if len == 0 {
        0
    } else if !range_ok(start, len) || !port_ok(port) {
        -1
    } else if !all_unmapped(m, first_vpn(start), end_vpn(start, len)) {
        -1
    } else {
        round_up_len(len as nat) as int
    }
}

/// What `munmap(start, len)` returns on an address space whose pages are `m`.
pub open spec fn munmap_result(m: Map<usize, MapPermission>, start: usize, len: usize) -> int {
    if len == 0 {
        0
    } else if !range_ok(start, len) {
        -1
    } else if !all_mapped(m, first_vpn(start), end_vpn(start, len)) {
        -1
    } else {
        len as int
    }
}

/// After a successful `mmap` every page of the request is mapped, with the
/// permission the protection asks for; after a successful `munmap` every
/// page of the request is unmapped; an `mmap` that meets a mapped page
/// fails, and the callers leave the address space as it was on failure.
/// Mapping a free range and unmapping it again gives back the address
/// space it started from.
pub proof fn lemma_mmap_munmap(m: Map<usize, MapPermission>, start: usize, len: usize, port: usize)
    ensures
        mmap_result(m, start, len, port) > 0 ==> {
            let m2 = map_range(m, first_vpn(start), end_vpn(start, len), perm_of_port(port));
            &&& all_mapped(m2, first_vpn(start), end_vpn(start, len))
            &&& forall|v: usize| first_vpn(start) <= v < end_vpn(start, len)
                ==> #[trigger] m2[v] == perm_of_port(port)
            &&& munmap_result(m2, start, len) == len
            &&& unmap_range(m2, first_vpn(start), end_vpn(start, len)) == m
        },
        munmap_result(m, start, len) > 0
            ==> all_unmapped(unmap_range(m, first_vpn(start), end_vpn(start, len)), first_vpn(start), end_vpn(start, len)),
        len > 0 && range_ok(start, len) && port_ok(port) && !all_unmapped(m, first_vpn(start), end_vpn(start, len))
            ==> mmap_result(m, start, len, port) == -1,
{
    if mmap_result(m, start, len, port) > 0 {
        let m2 = map_range(m, first_vpn(start), end_vpn(start, len), perm_of_port(port));
        assert(unmap_range(m2, first_vpn(start), end_vpn(start, len)) =~= m);
    }
}

/// The part of a user buffer that lies in one page: the page and the byte
/// range `[start, end)` within it.
#[derive(Clone, Copy, Debug, PartialEq, Eq, Structural)]
pub struct PageSlice {
    pub vpn: usize,
    pub start: usize,
    pub end: usize,
}

/// Whether a page with permission `p` may be read (or written, where
/// `write`) from user mode.
pub open spec fn user_may(p: MapPermission, write: bool) -> bool {
    &&& p.bits & MapPermission::U != 0
    &&& if write { p.bits & MapPermission::W != 0 } else { p.bits & MapPermission::R != 0 }
}

/// Whether page `vpn` is mapped in `m` with the access asked for.
pub open spec fn page_usable(m: Map<usize, MapPermission>, vpn: usize, write: bool) -> bool {
    m.contains_key(vpn) && user_may(m[vpn], write)
}

/// The `k`-th piece of the `len`-byte buffer at `va`, cut at page bounds.
pub open spec fn slice_of(va: usize, len: usize, k: int) -> PageSlice {
    let vpn = va as int / PAGE_SIZE as int + k;
    let last = (va + len - 1) / PAGE_SIZE as int;
    PageSlice {
        vpn: vpn as usize,
        start: if k == 0 { (va as int % PAGE_SIZE as int) as usize } else { 0 },
        end: if vpn == last { (va + len - vpn * PAGE_SIZE) as usize } else { PAGE_SIZE },
    }
}

/// Number of pages the `len`-byte buffer at `va` meets.
pub open spec fn pages_met(va: usize, len: usize) -> int {
    if len == 0 {
        0
    } else {
        (va + len - 1) / PAGE_SIZE as int - va as int / PAGE_SIZE as int + 1
    }
}

/// Whether `p` is the position of the first zero byte of `b`.
pub open spec fn first_nul(b: Seq<u8>, p: int) -> bool {
    &&& 0 <= p < b.len()
    &&& b[p] == 0
    &&& forall|k: int| 0 <= k < p ==> #[trigger] b[k] != 0
}

/// Whether every byte of `[va, va + n)` lies in a page that user mode may read.
pub open spec fn bytes_readable(m: Map<usize, MapPermission>, va: usize, n: int) -> bool {
    forall|k: int| 0 <= k < n ==> #[trigger] page_usable(m, ((va + k) / PAGE_SIZE as int) as usize, false)
}

/// The pages of one task's address space, each with its permission.
pub struct MemorySet {
    pages: HashMap<usize, MapPermission>,
}

impl View for MemorySet {
    type V = Map<usize, MapPermission>;

    closed spec fn view(&self) -> Map<usize, MapPermission> {
        self.pages@
    }
}

impl MemorySet {
    pub fn new_bare() -> (r: MemorySet)
        ensures
            r@ == Map::<usize, MapPermission>::empty(),
    {
        MemorySet { pages: HashMap::new() }
    }

    /// Whether page `vpn` is mapped.
    pub fn find_vpn(&self, vpn: usize) -> (r: bool)
        ensures
            r == self@.contains_key(vpn),
    {
        self.pages.contains_key(&vpn)
    }

    /// Permission of page `vpn`, if it is mapped.
    pub fn translate(&self, vpn: usize) -> (r: Option<MapPermission>)
        ensures
            r == (if self@.contains_key(vpn) { Some(self@[vpn]) } else { None::<MapPermission> }),
    {
        match self.pages.get(&vpn) {
            Some(p) => Some(*p),
            None => None,
        }
    }

    /// Cuts the `len`-byte user buffer at `va` at page bounds. Fails (`None`)
    /// when the buffer runs past the end of the address range or meets a
    /// page that is not mapped with user access of the kind asked for.
    pub fn translated_byte_buffer(&self, va: usize, len: usize, write: bool) -> (r: Option<Vec<PageSlice>>)
        ensures
            r is Some <==> va + len <= usize::MAX && forall|k: int| 0 <= k < pages_met(va, len)
                ==> #[trigger] page_usable(self@, slice_of(va, len, k).vpn, write),
            r matches Some(v) ==> v@.len() == pages_met(va, len)
                && forall|k: int| 0 <= k < v@.len() ==> #[trigger] v@[k] == slice_of(va, len, k),
    {
        let mut out: Vec<PageSlice> = Vec::new();
        if len == 0 {
            return Some(out);
        }
        if va > usize::MAX - len {
            return None;
        }
        let first: usize = va / PAGE_SIZE;
        let last: usize = (va + len - 1) / PAGE_SIZE;
        let mut vpn: usize = first;
        while vpn <= last
            invariant
                first <= vpn <= last + 1,
                first == va as int / PAGE_SIZE as int,
                last == (va + len - 1) / PAGE_SIZE as int,
                len > 0,
                va + len <= usize::MAX,
                out@.len() == vpn - first,
                forall|k: int| 0 <= k < out@.len() ==> #[trigger] out@[k] == slice_of(va, len, k),
                forall|k: int| 0 <= k < out@.len() ==> #[trigger] page_usable(self@, slice_of(va, len, k).vpn, write),
            decreases last + 1 - vpn,
        {
            let usable = match self.translate(vpn) {
                Some(p) => p.bits & MapPermission::U != 0 && (if write {
                    p.bits & MapPermission::W != 0
                } else {
                    p.bits & MapPermission::R != 0
                }),
                None => false,
            };
            if !usable {
                assert(!page_usable(self@, slice_of(va, len, (vpn - first) as int).vpn, write));
                return None;
            }
            let start: usize = if vpn == first { va % PAGE_SIZE } else { 0 };
            let end: usize = if vpn == last { va + len - vpn * PAGE_SIZE } else { PAGE_SIZE };
            out.push(PageSlice { vpn, start, end });
            assert(out@[out@.len() - 1] == slice_of(va, len, (vpn - first) as int));
            if vpn == last {
                return Some(out);
            }
            vpn = vpn + 1;
        }
        Some(out)
    }

    /// Place of a `size`-byte object at `va` that the kernel will write
    /// for user mode: the one page slice it takes up. Fails (`None`) when
    /// the object is empty, crosses a page bound, or its page is not mapped
    /// writable for user mode.
    pub fn translated_refmut(&self, va: usize, size: usize) -> (r: Option<PageSlice>)
        ensures
            r is Some <==> size > 0 && va + size <= usize::MAX && pages_met(va, size) == 1
                && page_usable(self@, slice_of(va, size, 0).vpn, true),
            r matches Some(sl) ==> sl == slice_of(va, size, 0),
    {
        if size == 0 || va > usize::MAX - size {
            return None;
        }
        if va / PAGE_SIZE != (va + size - 1) / PAGE_SIZE {
            return None;
        }
        match self.translated_byte_buffer(va, size, true) {
            Some(v) => {
                assert(v@.len() == 1);
                Some(v[0])
            },
            None => None,
        }
    }

    /// Reads the zero-terminated string at `va`, where `bytes` is user
    /// memory from `va` on, at most as long as the bound on the string.
    /// Returns the bytes before the first zero; fails (`None`) when there is
    /// no zero within `bytes`, or when a byte up to and including it lies
    /// in a page that user mode may not read or past the address range.
    pub fn translated_str(&self, va: usize, bytes: &[u8]) -> (r: Option<Vec<u8>>)
        ensures
            r is Some <==> exists|p: int| #[trigger] first_nul(bytes@, p) && va + p < usize::MAX
                && bytes_readable(self@, va, p + 1),
            r matches Some(v) ==> exists|p: int| #[trigger] first_nul(bytes@, p) && v@ == bytes@.subrange(0, p),
    {
        let mut out: Vec<u8> = Vec::new();
        let mut i: usize = 0;
        while i < bytes.len()
            invariant
                i <= bytes@.len(),
                out@ == bytes@.subrange(0, i as int),
                forall|k: int| 0 <= k < i ==> #[trigger] bytes@[k] != 0,
                va + i <= usize::MAX,
                bytes_readable(self@, va, i as int),
            decreases bytes.len() - i,
        {
            if va > usize::MAX - 1 - i {
                assert(forall|p: int| #[trigger] first_nul(bytes@, p) ==> p >= i);
                return None;
            }
            let page: usize = (va + i) / PAGE_SIZE;
            let usable = match self.translate(page) {
                Some(p) => p.bits & MapPermission::U != 0 && p.bits & MapPermission::R != 0,
                None => false,
            };
            if !usable {
                assert forall|p: int| #[trigger] first_nul(bytes@, p) implies !bytes_readable(self@, va, p + 1) by {
                    assert(p >= i);
                    assert(!page_usable(self@, ((va + i) / PAGE_SIZE as int) as usize, false));
                }
                return None;
            }
            if bytes[i] == 0 {
                assert(first_nul(bytes@, i as int));
                return Some(out);
            }
            out.push(bytes[i]);
            i = i + 1;
            assert(out@ =~= bytes@.subrange(0, i as int));
        }
        assert(forall|p: int| !#[trigger] first_nul(bytes@, p));
        None
    }

    /// Maps every page that meets `[start_va, end_va)` with `perm`.
    pub fn insert_framed_area(&mut self, start_va: usize, end_va: usize, perm: MapPermission)
        requires
            start_va <= end_va,
        ensures
            final(self)@ == map_range(
                old(self)@,
                start_va as int / PAGE_SIZE as int,
                (end_va as int + PAGE_SIZE - 1) / PAGE_SIZE as int,
                perm,
            ),
    {
        let from: usize = start_va / PAGE_SIZE;
        let to: usize = end_va / PAGE_SIZE + if end_va % PAGE_SIZE == 0 { 0 } else { 1 };
        assert(to == (end_va as int + PAGE_SIZE - 1) / PAGE_SIZE as int);
        let mut vpn: usize = from;
        while vpn < to
            invariant
                from <= vpn <= to,
                self@ == map_range(old(self)@, from as int, vpn as int, perm),
            decreases to - vpn,
        {
            self.pages.insert(vpn, perm);
            vpn = vpn + 1;
            assert(self@ =~= map_range(old(self)@, from as int, vpn as int, perm));
        }
    }

    /// Unmaps page `vpn`; returns whether it was mapped.
    pub fn munmap(&mut self, vpn: usize) -> (r: bool)
        ensures
            r == old(self)@.contains_key(vpn),
            final(self)@ == old(self)@.remove(vpn),
    {
        self.pages.remove(&vpn).is_some()
    }


    /// Whether some page of `[from, to)` is mapped.
    fn any_mapped(&self, from: usize, to: usize) -> (r: bool)
        ensures
            r == !all_unmapped(self@, from as int, to as int),
    {
        let mut vpn: usize = from;
        while vpn < to
            invariant
                from <= vpn,
                all_unmapped(self@, from as int, vpn as int),
            decreases to - vpn,
        {
            if self.find_vpn(vpn) {
                assert(from <= vpn < to && self@.contains_key(vpn));
                return true;
            }
            vpn = vpn + 1;
        }
        false
    }

    /// Whether every page of `[from, to)` is mapped.
    fn every_mapped(&self, from: usize, to: usize) -> (r: bool)
        ensures
            r == all_mapped(self@, from as int, to as int),
    {
        let mut vpn: usize = from;
        while vpn < to
            invariant
                from <= vpn,
                all_mapped(self@, from as int, vpn as int),
            decreases to - vpn,
        {
            if !self.find_vpn(vpn) {
                assert(from <= vpn < to && !self@.contains_key(vpn));
                return false;
            }
            vpn = vpn + 1;
        }
        true
    }

    /// Maps `len` bytes (rounded up to whole pages) from the page-aligned
    /// address `start` with protection `port`; returns the rounded length,
    /// 0 for an empty request, or -1 when the request is malformed or
    /// meets a page that is already mapped. A failed request changes nothing.
    pub fn mmap(&mut self, start: usize, len: usize, port: usize) -> (r: isize)
        ensures
            r as int == mmap_result(old(self)@, start, len, port),
            r > 0 ==> final(self)@ == map_range(
                old(self)@,
                first_vpn(start),
                end_vpn(start, len),
                perm_of_port(port),
            ),
            r <= 0 ==> final(self)@ == old(self)@,
    {
        if len == 0 {
            return 0;
        }
        if len > MMAP_MAX_LEN {
            return -1;
        }
        if start % PAGE_SIZE != 0 {
            return -1;
        }
        let length: usize = if len % PAGE_SIZE != 0 {
            len + (PAGE_SIZE - len % PAGE_SIZE)
        } else {
            len
        };
        if port == 0 || port > 7 {
            return -1;
        }
        if start > usize::MAX - length {
            return -1;
        }
        let from: usize = start / PAGE_SIZE;
        let to: usize = (start + length) / PAGE_SIZE;
        if self.any_mapped(from, to) {
            return -1;
        }
        let perm = MapPermission::from_bits((port as u8) * 2 + MapPermission::U);
        self.insert_framed_area(start, start + length, perm);
        assert((start + length) as int % PAGE_SIZE as int == 0);
        assert(final(self)@ =~= map_range(old(self)@, from as int, to as int, perm_of_port(port)));
        length as isize
    }

    /// Unmaps `len` bytes (rounded up to whole pages) from the page-aligned
    /// address `start`; returns `len`, 0 for an empty request, or -1 when the
    /// request is malformed or meets a page that is not mapped. A failed
    /// request changes nothing.
    pub fn munmap_area(&mut self, start: usize, len: usize) -> (r: isize)
        ensures
            r as int == munmap_result(old(self)@, start, len),
            r > 0 ==> final(self)@ == unmap_range(old(self)@, first_vpn(start), end_vpn(start, len)),
            r <= 0 ==> final(self)@ == old(self)@,
    {
        if len == 0 {
            return 0;
        }
        if len > MMAP_MAX_LEN {
            return -1;
        }
        if start % PAGE_SIZE != 0 {
            return -1;
        }
        let length: usize = if len % PAGE_SIZE != 0 {
            len + (PAGE_SIZE - len % PAGE_SIZE)
        } else {
            len
        };
        if start > usize::MAX - length {
            return -1;
        }
        let from: usize = start / PAGE_SIZE;
        let to: usize = (start + length) / PAGE_SIZE;
        if !self.every_mapped(from, to) {
            return -1;
        }
        let mut vpn: usize = from;
        while vpn < to
            invariant
                from <= vpn <= to,
                to == end_vpn(start, len),
                from == first_vpn(start),
                self@ == unmap_range(old(self)@, from as int, vpn as int),
            decreases to - vpn,
        {
            self.munmap(vpn);
            vpn = vpn + 1;
            assert(self@ =~= unmap_range(old(self)@, from as int, vpn as int));
        }
        len as isize
    }
}

} // verus!
