//! The virtual-memory manager behind `VirtualAlloc` and its NT counterparts.
//!
//! Every reservation is backed by a mapped region that allows everything; the
//! protection and commit state that the guest asked for are tracked here and
//! are what queries report.

use vstd::prelude::*;

use crate::mem::{
    at, ga, lemma_mapped_keeps_loads, lemma_next_region, next_region_index, s32, s64, store32,
    store64, table_ok, Load, MemView, Perm, Store, VirtualMemory,
};
use crate::util::{
    align_down, align_up, first_index, lemma_first_index, lemma_first_index_is,
    lemma_first_index_none, lemma_round_up, max_int, round_down, round_up,
};

verus! {

pub const MEM_COMMIT: u32 = 0x0000_1000;

pub const MEM_DECOMMIT: u32 = 0x0000_4000;

pub const MEM_RELEASE: u32 = 0x0000_8000;

pub const MEM_STATE_COMMIT: u32 = 0x0000_1000;

pub const MEM_STATE_RESERVE: u32 = 0x0000_2000;

pub const MEM_STATE_FREE: u32 = 0x0001_0000;

pub const MEM_PRIVATE: u32 = 0x0002_0000;

/// The type of a data or file-backed view.
pub const MEM_MAPPED: u32 = 0x0004_0000;

/// The type of an image view.
pub const MEM_IMAGE: u32 = 0x0100_0000;

/// Bytes of a page.
pub const PAGE: u64 = 0x1000;

/// Granularity of reservations.
pub const GRAN: u64 = 0x1_0000;

/// The protection reported where nothing was tracked: execute, read, write.
pub const PAGE_EXECUTE_READWRITE: u32 = 0x40;

/// One reservation.
#[derive(Clone, Copy, Debug, PartialEq, Eq, Structural)]
pub struct VmAlloc {
    /// The allocation base of every page in it.
    pub base: u64,
    /// Its size in bytes.
    pub size: u64,
    /// The protection last asked for.
    pub protect: u32,
    /// Committed, or only reserved.
    pub committed: bool,
    /// The memory type that queries report.
    pub mtype: u32,
}

impl VmAlloc {
    /// The first address past the reservation.
    pub open spec fn end(self) -> int {
        self.base + self.size
    }

    /// Whether `a` lies in the reservation.
    pub open spec fn holds(self, a: int) -> bool {
        self.base <= a < self.end()
    }
}

/// The condition of holding `a`.
pub open spec fn holding(a: int) -> spec_fn(VmAlloc) -> bool {
    |x: VmAlloc| x.holds(a)
}

/// The condition of starting at `a`.
pub open spec fn starting(a: u64) -> spec_fn(VmAlloc) -> bool {
    |x: VmAlloc| x.base == a
}

/// The condition of starting at or above `a`.
pub open spec fn from_base(a: u64) -> spec_fn(VmAlloc) -> bool {
    |x: VmAlloc| x.base >= a
}

/// A list with a reservation added in order of base addresses.
pub open spec fn insert_sorted(s: Seq<VmAlloc>, a: VmAlloc) -> Seq<VmAlloc> {
    match first_index(s, from_base(a.base)) {
        Some(i) => s.insert(i, a),
        None => s.push(a),
    }
}

/// The coarse protection of a region that was not reserved here.
pub open spec fn perm_protect(p: Perm) -> u32 {
    if p.execute {
        if p.write {
            0x40
        } else if p.read {
            0x20
        } else {
            0x10
        }
    } else if p.write {
        0x04
    } else if p.read {
        0x02
    } else {
        0x01
    }
}

/// The coarse protection of a region that was not reserved here.
pub fn protect_from_perm(p: Perm) -> (r: u32)
    ensures
        r == perm_protect(p),
{
    if p.execute {
        if p.write {
            0x40
        } else if p.read {
            0x20
        } else {
            0x10
        }
    } else if p.write {
        0x04
    } else if p.read {
        0x02
    } else {
        0x01
    }
}

/// What a query reports of an address.
#[derive(Clone, Copy, Debug, PartialEq, Eq, Structural)]
pub struct MemoryInfo {
    pub base: u64,
    pub alloc_base: u64,
    pub alloc_protect: u32,
    pub region_size: u64,
    pub state: u32,
    pub protect: u32,
    pub mtype: u32,
}

/// The stores of a `MEMORY_BASIC_INFORMATION` at `buf`.
pub open spec fn info_table(is_64bit: bool, buf: u64, i: MemoryInfo) -> Seq<Store> {
    if is_64bit {
        seq![
            s64(ga(buf, 0x00), i.base),
            s64(ga(buf, 0x08), i.alloc_base),
            s32(ga(buf, 0x10), i.alloc_protect),
            s32(ga(buf, 0x14), 0),
            s64(ga(buf, 0x18), i.region_size),
            s32(ga(buf, 0x20), i.state),
            s32(ga(buf, 0x24), i.protect),
            s32(ga(buf, 0x28), i.mtype),
            s32(ga(buf, 0x2C), 0),
        ]
    } else {
        seq![
            Store { addr: ga(buf, 0x00), size: 4, value: i.base },
            Store { addr: ga(buf, 0x04), size: 4, value: i.alloc_base },
            s32(ga(buf, 0x08), i.alloc_protect),
            Store { addr: ga(buf, 0x0C), size: 4, value: i.region_size },
            s32(ga(buf, 0x10), i.state),
            s32(ga(buf, 0x14), i.protect),
            s32(ga(buf, 0x18), i.mtype),
        ]
    }
}

/// Bytes of a `MEMORY_BASIC_INFORMATION`.
pub open spec fn info_size(is_64bit: bool) -> u64 {
    if is_64bit {
        0x30
    } else {
        0x1C
    }
}

/// The stores of a `MEMORY_BASIC_INFORMATION` at `buf`.
pub fn info_stores(is_64bit: bool, buf: u64, i: MemoryInfo) -> (t: Vec<Store>)
    ensures
        t@ == info_table(is_64bit, buf, i),
        table_ok(t@),
{
    let t: Vec<Store> = if is_64bit {
        vec![
            store64(at(buf, 0x00), i.base),
            store64(at(buf, 0x08), i.alloc_base),
            store32(at(buf, 0x10), i.alloc_protect),
            store32(at(buf, 0x14), 0),
            store64(at(buf, 0x18), i.region_size),
            store32(at(buf, 0x20), i.state),
            store32(at(buf, 0x24), i.protect),
            store32(at(buf, 0x28), i.mtype),
            store32(at(buf, 0x2C), 0),
        ]
    } else {
        vec![
            Store { addr: at(buf, 0x00), size: 4, value: i.base },
            Store { addr: at(buf, 0x04), size: 4, value: i.alloc_base },
            store32(at(buf, 0x08), i.alloc_protect),
            Store { addr: at(buf, 0x0C), size: 4, value: i.region_size },
            store32(at(buf, 0x10), i.state),
            store32(at(buf, 0x14), i.protect),
            store32(at(buf, 0x18), i.mtype),
        ]
    };
    assert(t@ =~= info_table(is_64bit, buf, i));
    t
}

/// The reservations of a process, in order of base addresses.
pub struct VmState {
    pub allocs: Vec<VmAlloc>,
    /// Where the next fresh reservation is looked for.
    pub next: u64,
}

/// The reservations as mathematics.
#[verifier::ext_equal]
pub struct VmView {
    pub allocs: Seq<VmAlloc>,
    pub next: u64,
}

impl View for VmState {
    type V = VmView;

    open spec fn view(&self) -> VmView {
        VmView { allocs: self.allocs@, next: self.next }
    }
}

/// Whether a reservation of `size` bytes can start at `b`: aligned, free, and
/// with its whole window below 2^64.
pub open spec fn is_window(m: MemView, b: int, size: u64) -> bool {
    &&& b % 0x1_0000 == 0
    &&& b + round_up(size as int, GRAN as int) <= u64::MAX
    &&& m.is_free(b, size as int)
}

/// Whether some region spans exactly `[base, end)`.
pub open spec fn has_region(m: MemView, base: int, end: int) -> bool {
    exists|k: int|
        0 <= k < m.regions.len() && (#[trigger] m.regions[k]).base == base && m.regions[k].end()
            == end
}

/// The page-rounded size of a request; a request for nothing gets a page.
pub open spec fn region_size(size_req: u64) -> int {
    round_up(max_int(size_req as int, 1), PAGE as int)
}

/// Whether `b` is the least address at or above `from` with a free window.
pub open spec fn is_first_window(m: MemView, from: u64, size: u64, b: u64) -> bool {
    &&& from <= b
    &&& is_window(m, b as int, size)
    &&& forall|c: int| from <= c < b ==> !#[trigger] is_window(m, c, size)
}

/// The least address at or above `from` with a free window of `size` bytes.
pub open spec fn first_window(m: MemView, from: u64, size: u64) -> Option<u64> {
    if exists|b: u64| is_first_window(m, from, size, b) {
        Some(choose|b: u64| is_first_window(m, from, size, b))
    } else {
        None
    }
}

/// There is one least window.
proof fn lemma_first_window(m: MemView, from: u64, size: u64, b: u64)
    requires
        is_first_window(m, from, size, b),
    ensures
        first_window(m, from, size) == Some(b),
{
    let a = choose|a: u64| is_first_window(m, from, size, a);
    assert(is_first_window(m, from, size, a));
    if a < b {
        assert(!is_window(m, a as int, size));
    }
    if b < a {
        assert(!is_window(m, b as int, size));
    }
}

/// Without a window there is no least one.
proof fn lemma_no_window(m: MemView, from: u64, size: u64)
    requires
        forall|c: int| from <= c ==> !#[trigger] is_window(m, c, size),
    ensures
        first_window(m, from, size) is None,
{
    assert forall|b: u64| !is_first_window(m, from, size, b) by {
        if is_first_window(m, from, size, b) {
            assert(is_window(m, b as int, size));
        }
    }
}

/// What mapping a region anywhere leads to.
pub struct AnyMap {
    pub base: Option<u64>,
    pub next: u64,
    pub mem: MemView,
}

/// A region of `size` bytes in the first free window at or above `next`, which
/// moves past it; none where there is no window or the region is too large.
pub open spec fn any_map(next: u64, m: MemView, size: u64, perm: Perm) -> AnyMap {
    match first_window(m, next, size) {
        None => AnyMap { base: None, next, mem: m },
        Some(b) => {
            let after = (b + round_up(size as int, GRAN as int)) as u64;
            if size <= crate::mem::MAX_REGION {
                AnyMap { base: Some(b), next: after, mem: m.mapped(b, size, perm) }
            } else {
                AnyMap { base: None, next: after, mem: m }
            }
        },
    }
}

/// Mapping a region anywhere leaves the loads of a table as they are.
pub proof fn lemma_any_map_keeps(next: u64, m: MemView, size: u64, perm: Perm, t: Seq<Load>)
    requires
        m.wf(),
        0 < size,
        m.load_all(t) is Ok,
    ensures
        any_map(next, m, size, perm).mem.load_all(t) == m.load_all(t),
{
    if let Some(b) = first_window(m, next, size) {
        assert(is_first_window(m, next, size, b));
        lemma_round_up(size as int, GRAN as int);
        if size <= crate::mem::MAX_REGION {
            lemma_mapped_keeps_loads(m, b, size, perm, t);
        }
    }
}

/// What a reservation call leads to.
pub struct VmOut {
    pub vm: VmView,
    pub mem: MemView,
    pub base: Option<u64>,
}

impl VmView {
    /// The reservation that holds `a`.
    pub open spec fn holder(self, a: u64) -> Option<int> {
        first_index(self.allocs, holding(a as int))
    }

    /// With one more reservation.
    pub open spec fn with(self, a: VmAlloc) -> VmView {
        VmView { allocs: insert_sorted(self.allocs, a), ..self }
    }

    /// What a query of `addr` reports: a reservation with its tracked state,
    /// else a mapped region, else the free gap up to the next region.
    pub open spec fn info(self, m: MemView, addr: u64) -> MemoryInfo {
        let page = round_down(addr as int, PAGE as int);
        match self.holder(addr) {
            Some(i) => {
                let a = self.allocs[i];
                MemoryInfo {
                    base: page as u64,
                    alloc_base: a.base,
                    alloc_protect: a.protect,
                    region_size: (a.end() - page) as u64,
                    state: if a.committed {
                        MEM_STATE_COMMIT
                    } else {
                        MEM_STATE_RESERVE
                    },
                    protect: if a.committed {
                        a.protect
                    } else {
                        0
                    },
                    mtype: a.mtype,
                }
            },
            None => match next_region_index(m.regions, addr as int) {
                Some(k) => {
                    let r = m.regions[k];
                    if r.base <= addr {
                        MemoryInfo {
                            base: page as u64,
                            alloc_base: r.base as u64,
                            alloc_protect: perm_protect(r.perm),
                            region_size: (r.end() - page) as u64,
                            state: MEM_STATE_COMMIT,
                            protect: perm_protect(r.perm),
                            mtype: MEM_PRIVATE,
                        }
                    } else {
                        MemoryInfo {
                            base: page as u64,
                            alloc_base: 0,
                            alloc_protect: 0,
                            region_size: (r.base - page) as u64,
                            state: MEM_STATE_FREE,
                            protect: 0,
                            mtype: 0,
                        }
                    }
                },
                None => MemoryInfo {
                    base: page as u64,
                    alloc_base: 0,
                    alloc_protect: 0,
                    region_size: 0x1000_0000,
                    state: MEM_STATE_FREE,
                    protect: 0,
                    mtype: 0,
                },
            },
        }
    }

    /// With a reservation changed.
    pub open spec fn changed(self, i: int, a: VmAlloc) -> VmView {
        VmView { allocs: self.allocs.update(i, a), ..self }
    }
}

/// Reserving or committing a region. Without an address a fresh reservation is
/// made in the first free window; an address inside a reservation commits there;
/// any other address is mapped where it is free and answered in any case.
pub open spec fn alloc_out(
    v: VmView,
    m: MemView,
    addr: u64,
    size_req: u64,
    alloc_type: u32,
    protect: u32,
) -> VmOut {
    let n = region_size(size_req);
    let committed = alloc_type & MEM_COMMIT != 0;
    if addr == 0 {
        if n > u64::MAX {
            VmOut { vm: v, mem: m, base: None }
        } else {
            let a = any_map(v.next, m, n as u64, Perm::spec_rwx());
            let w = VmView { next: a.next, ..v };
            match a.base {
                None => VmOut { vm: w, mem: a.mem, base: None },
                Some(b) => VmOut {
                    vm: w.with(
                        VmAlloc { base: b, size: n as u64, protect, committed, mtype: MEM_PRIVATE },
                    ),
                    mem: a.mem,
                    base: Some(b),
                },
            }
        }
    } else {
        let b = round_down(addr as int, PAGE as int) as u64;
        match v.holder(b) {
            Some(i) => VmOut {
                vm: v.changed(
                    i,
                    VmAlloc {
                        committed: v.allocs[i].committed || committed,
                        protect: if protect != 0 {
                            protect
                        } else {
                            v.allocs[i].protect
                        },
                        ..v.allocs[i]
                    },
                ),
                mem: m,
                base: Some(b),
            },
            None => if n <= u64::MAX && m.can_map(b, n as u64) {
                VmOut {
                    vm: v.with(
                        VmAlloc { base: b, size: n as u64, protect, committed, mtype: MEM_PRIVATE },
                    ),
                    mem: m.mapped(b, n as u64, Perm::spec_rwx()),
                    base: Some(b),
                }
            } else {
                VmOut { vm: v, mem: m, base: Some(b) }
            },
        }
    }
}

/// Releasing the reservation that starts at the page of `addr`, or decommitting
/// the one that holds it.
pub open spec fn free_out(v: VmView, m: MemView, addr: u64, free_type: u32) -> (VmView, MemView) {
    let b = round_down(addr as int, PAGE as int) as u64;
    if free_type & MEM_RELEASE != 0 {
        match first_index(v.allocs, starting(b)) {
            Some(i) => (VmView { allocs: v.allocs.remove(i), ..v }, m.unmapped(b)),
            None => (v, m),
        }
    } else if free_type & MEM_DECOMMIT != 0 {
        match v.holder(b) {
            Some(i) => (v.changed(i, VmAlloc { committed: false, ..v.allocs[i] }), m),
            None => (v, m),
        }
    } else {
        (v, m)
    }
}

/// Replacing the protection of the reservation that holds the page of `addr`,
/// with the previous one.
pub open spec fn protect_out(v: VmView, addr: u64, protect: u32) -> (VmView, u32) {
    match v.holder(round_down(addr as int, PAGE as int) as u64) {
        Some(i) => (v.changed(i, VmAlloc { protect, ..v.allocs[i] }), v.allocs[i].protect),
        None => (v, PAGE_EXECUTE_READWRITE),
    }
}

impl VmState {
    /// Reservations ascend by base, are not empty and end below 2^64.
    pub open spec fn wf(self) -> bool {
        &&& forall|i: int|
            0 <= i < self.allocs@.len() ==> (#[trigger] self.allocs@[i]).size > 0
                && self.allocs@[i].end() <= u64::MAX
        &&& forall|i: int, j: int|
            0 <= i < j < self.allocs@.len() ==> (#[trigger] self.allocs@[i]).base <= (
            #[trigger] self.allocs@[j]).base
    }

    /// The reservation that holds `a`.
    pub open spec fn holder(self, a: u64) -> Option<int> {
        first_index(self.allocs@, holding(a as int))
    }

    /// Whether each reservation is backed by a region of its own.
    pub open spec fn backed(self, m: MemView) -> bool {
        forall|i: int|
            0 <= i < self.allocs@.len() ==> has_region(
                m,
                (#[trigger] self.allocs@[i]).base as int,
                self.allocs@[i].end(),
            )
    }

    /// No reservation.
    pub fn new(start: u64) -> (v: VmState)
        ensures
            v.wf(),
            v.allocs@ == Seq::<VmAlloc>::empty(),
            v.next == start,
    {
        VmState { allocs: Vec::new(), next: start }
    }

    /// The index of the reservation that holds `a`.
    pub fn find_holder(&self, a: u64) -> (r: Option<usize>)
        requires
            self.wf(),
        ensures
            match r {
                Some(i) => i < self.allocs.len() && self.holder(a) == Some(i as int)
                    && self.allocs@[i as int].holds(a as int),
                None => self.holder(a) is None,
            },
    {
        let mut i: usize = 0;
        while i < self.allocs.len()
            invariant
                i <= self.allocs.len(),
                self.wf(),
                forall|j: int| 0 <= j < i ==> !(#[trigger] self.allocs@[j]).holds(a as int),
            decreases self.allocs.len() - i,
        {
            let x: VmAlloc = self.allocs[i];
            if x.base <= a && a - x.base < x.size {
                proof {
                    lemma_first_index_is(self.allocs@, holding(a as int), i as int);
                }
                return Some(i);
            }
            i = i + 1;
        }
        proof {
            lemma_first_index_none(self.allocs@, holding(a as int));
        }
        None
    }

    /// Add a reservation, keeping the order of base addresses.
    pub fn insert(&mut self, a: VmAlloc)
        requires
            old(self).wf(),
            a.size > 0,
            a.end() <= u64::MAX,
        ensures
            final(self).wf(),
            final(self).allocs@ == insert_sorted(old(self).allocs@, a),
            final(self).next == old(self).next,
    {
        let mut i: usize = 0;
        let ghost s = self.allocs@;
        while i < self.allocs.len() && self.allocs[i].base < a.base
            invariant
                i <= self.allocs.len(),
                s == self.allocs@,
                forall|j: int| 0 <= j < i ==> (#[trigger] s[j]).base < a.base,
            decreases self.allocs.len() - i,
        {
            i = i + 1;
        }
        proof {
            if i < s.len() {
                lemma_first_index_is(s, from_base(a.base), i as int);
            } else {
                lemma_first_index_none(s, from_base(a.base));
            }
        }
        self.allocs.insert(i, a);
        proof {
            assert(self.allocs@ == s.insert(i as int, a));
            assert(i == s.len() ==> s.insert(i as int, a) =~= s.push(a));
            let t = self.allocs@;
            assert forall|x: int, y: int| 0 <= x < y < t.len() implies (#[trigger] t[x]).base <= (
            #[trigger] t[y]).base by {
                let ox = if x < i {
                    x
                } else {
                    x - 1
                };
                let oy = if y < i {
                    y
                } else {
                    y - 1
                };
                if x == i {
                    if oy > i {
                        assert(s[i as int].base <= s[oy].base);
                    }
                } else if y == i {
                    assert(s[ox].base < a.base);
                } else {
                    assert(s[ox].base <= s[oy].base);
                }
            }
            assert forall|x: int| 0 <= x < t.len() implies (#[trigger] t[x]).size > 0 && t[x].end()
                <= u64::MAX by {
                if x < i {
                    assert(t[x] == s[x]);
                } else if x > i {
                    assert(t[x] == s[x - 1]);
                }
            }
        }
    }

    /// The least aligned address at or above the hint with a free window of
    /// `size` bytes; the hint then moves past the window.
    pub fn find_free(&mut self, mem: &VirtualMemory, size: u64) -> (r: Option<u64>)
        requires
            size > 0,
        ensures
            final(self).allocs@ == old(self).allocs@,
            match r {
                Some(b) => {
                    &&& old(self).next <= b
                    &&& is_window(mem@, b as int, size)
                    &&& forall|c: int|
                        old(self).next <= c < b ==> !#[trigger] is_window(mem@, c, size)
                    &&& final(self).next == b + round_up(size as int, GRAN as int)
                },
                None => {
                    &&& forall|c: int| old(self).next <= c ==> !#[trigger] is_window(mem@, c, size)
                    &&& final(self).next == old(self).next
                },
            },
    {
        mem.ascends();
        let ghost m = mem@;
        proof {
            lemma_round_up(self.next as int, GRAN as int);
            lemma_round_up(size as int, GRAN as int);
        }
        let span: u64 = match align_up(size, GRAN) {
            Some(s) => s,
            None => {
                return None;
            },
        };
        let mut base: u64 = match align_up(self.next, GRAN) {
            Some(b) => b,
            None => {
                assert forall|c: int| self.next <= c implies !#[trigger] is_window(m, c, size) by {
                    if is_window(m, c, size) {
                        assert(round_up(self.next as int, GRAN as int) <= c * 1);
                    }
                }
                return None;
            },
        };
        assert forall|c: int| self.next <= c < base implies !#[trigger] is_window(m, c, size) by {
            if is_window(m, c, size) {
                assert(round_up(self.next as int, GRAN as int) <= c * 1);
            }
        }
        loop
            invariant
                m == mem@,
                m.wf(),
                size > 0,
                span == round_up(size as int, GRAN as int),
                *self == *old(self),
                self.next <= base,
                base % 0x1_0000 == 0,
                forall|c: int| self.next <= c < base ==> !#[trigger] is_window(m, c, size),
            decreases u64::MAX - base,
        {
            if base > u64::MAX - span {
                assert forall|c: int| self.next <= c implies !#[trigger] is_window(m, c, size) by {}
                return None;
            }
            proof {
                lemma_next_region(m.regions, base as int);
                lemma_round_up(size as int, GRAN as int);
            }
            let ghost k = next_region_index(m.regions, base as int);
            match mem.next_region(base) {
                None => {
                    assert(m.is_free(base as int, size as int));
                    self.next = base + span;
                    return Some(base);
                },
                Some((rb, rsize, _)) => {
                    let ghost r = m.regions[k->0];
                    assert(rb == r.base && rsize == r.bytes.len());
                    if rb >= base && rb - base >= size {
                        assert forall|i: int| 0 <= i < m.regions.len() implies (
                        #[trigger] m.regions[i]).end() <= base || base + size
                            <= m.regions[i].base by {
                            if i > k->0 {
                                assert(m.regions[k->0].end() <= m.regions[i].base);
                            }
                        }
                        assert(m.is_free(base as int, size as int));
                        self.next = base + span;
                        return Some(base);
                    }
                    proof {
                        lemma_round_up(r.end(), GRAN as int);
                    }
                    let ghost from = base as int;
                    assert forall|c: int| from <= c < r.end() implies !#[trigger] is_window(
                        m,
                        c,
                        size,
                    ) by {
                        assert(!(m.regions[k->0].end() <= c || c + size <= m.regions[k->0].base));
                    }
                    match align_up(rb + rsize, GRAN) {
                        Some(b) => {
                            assert forall|c: int| self.next <= c < b implies !#[trigger] is_window(
                                m,
                                c,
                                size,
                            ) by {
                                if c >= r.end() && is_window(m, c, size) {
                                    assert(round_up(r.end(), GRAN as int) <= c * 1);
                                }
                            }
                            base = b;
                        },
                        None => {
                            assert forall|c: int| self.next <= c implies !#[trigger] is_window(
                                m,
                                c,
                                size,
                            ) by {
                                if c >= r.end() && is_window(m, c, size) {
                                    assert(round_up(r.end(), GRAN as int) <= c * 1);
                                }
                            }
                            return None;
                        },
                    }
                },
            }
        }
    }

    /// Map `size` bytes in the first free window at or above the hint.
    pub fn map_anywhere(&mut self, mem: &mut VirtualMemory, size: u64, perm: Perm) -> (r: Option<
        u64,
    >)
        requires
            size > 0,
        ensures
            final(self).allocs@ == old(self).allocs@,
            ({
                let a = any_map(old(self).next, old(mem)@, size, perm);
                r == a.base && final(self).next == a.next && final(mem)@ == a.mem
            }),
            r is Some ==> old(mem)@.can_map(r->0, size) && size <= crate::mem::MAX_REGION,
    {
        let ghost from = self.next;
        match self.find_free(mem, size) {
            Some(b) => {
                proof {
                    lemma_round_up(size as int, GRAN as int);
                    assert(is_first_window(mem@, from, size, b));
                    lemma_first_window(mem@, from, size, b);
                }
                match mem.map_fixed(b, size, perm) {
                    Ok(_) => Some(b),
                    Err(_) => None,
                }
            },
            None => {
                proof {
                    lemma_no_window(mem@, from, size);
                }
                None
            },
        }
    }

    /// Reserve or commit a region. With no address a fresh reservation is made
    /// in the first free window; an address inside a reservation commits there;
    /// any other address is mapped where it is free. `None` where a fresh
    /// reservation cannot be backed.
    pub fn alloc_region(
        &mut self,
        mem: &mut VirtualMemory,
        addr_req: u64,
        size_req: u64,
        alloc_type: u32,
        protect: u32,
    ) -> (r: Option<u64>)
        requires
            old(self).wf(),
        ensures
            final(self).wf(),
            old(self).backed(old(mem)@) ==> final(self).backed(final(mem)@),
            ({
                let o = alloc_out(old(self)@, old(mem)@, addr_req, size_req, alloc_type, protect);
                final(self)@ == o.vm && final(mem)@ == o.mem && r == o.base
            }),
    {
        let committed: bool = alloc_type & MEM_COMMIT != 0;
        let want: u64 = if size_req == 0 {
            1
        } else {
            size_req
        };
        proof {
            lemma_round_up(max_int(size_req as int, 1), PAGE as int);
        }
        let rounded = align_up(want, PAGE);
        if addr_req == 0 {
            let size: u64 = match rounded {
                Some(s) => s,
                None => {
                    return None;
                },
            };
            let ghost m = mem@;
            return match self.map_anywhere(mem, size, Perm::rwx()) {
                Some(base) => {
                    let a = VmAlloc { base, size, protect, committed, mtype: MEM_PRIVATE };
                    self.insert(a);
                    proof {
                        lemma_backed_insert(*old(self), *self, m, a, Perm::spec_rwx());
                    }
                    Some(base)
                },
                None => {
                    proof {
                        lemma_backed_same(*old(self), *self, m);
                    }
                    None
                },
            };
        }
        let base: u64 = align_down(addr_req, PAGE);
        match self.find_holder(base) {
            Some(i) => {
                let mut a: VmAlloc = self.allocs[i];
                a.committed = a.committed || committed;
                if protect != 0 {
                    a.protect = protect;
                }
                let ghost before = *self;
                self.allocs.set(i, a);
                proof {
                    lemma_backed_same(before, *self, mem@);
                }
                Some(base)
            },
            None => {
                let ghost m = mem@;
                match rounded {
                    Some(size) => match mem.map_fixed(base, size, Perm::rwx()) {
                        Ok(_) => {
                            let a = VmAlloc {
                                base,
                                size,
                                protect,
                                committed,
                                mtype: MEM_PRIVATE,
                            };
                            self.insert(a);
                            proof {
                                lemma_backed_insert(*old(self), *self, m, a, Perm::spec_rwx());
                            }
                        },
                        Err(_) => {},
                    },
                    None => {},
                }
                Some(base)
            },
        }
    }

    /// Release the reservation that starts at the page of `addr`, or decommit
    /// the one that holds it.
    pub fn free_region(&mut self, mem: &mut VirtualMemory, addr: u64, free_type: u32)
        requires
            old(self).wf(),
        ensures
            final(self).wf(),
            (final(self)@, final(mem)@) == free_out(old(self)@, old(mem)@, addr, free_type),
    {
        let base: u64 = align_down(addr, PAGE);
        if free_type & MEM_RELEASE != 0 {
            let mut i: usize = 0;
            let ghost s = self.allocs@;
            while i < self.allocs.len() && self.allocs[i].base != base
                invariant
                    i <= self.allocs.len(),
                    s == self.allocs@,
                    forall|j: int| 0 <= j < i ==> (#[trigger] s[j]).base != base,
                decreases self.allocs.len() - i,
            {
                i = i + 1;
            }
            if i < self.allocs.len() {
                proof {
                    lemma_first_index_is(s, starting(base), i as int);
                }
                let _gone = self.allocs.remove(i);
                proof {
                    let t = self.allocs@;
                    assert forall|x: int, y: int| 0 <= x < y < t.len() implies (
                    #[trigger] t[x]).base <= (#[trigger] t[y]).base by {
                        let ox = if x < i {
                            x
                        } else {
                            x + 1
                        };
                        let oy = if y < i {
                            y
                        } else {
                            y + 1
                        };
                        assert(s[ox].base <= s[oy].base);
                    }
                }
                let _ = mem.unmap(base);
            } else {
                proof {
                    lemma_first_index_none(s, starting(base));
                }
            }
        } else if free_type & MEM_DECOMMIT != 0 {
            match self.find_holder(base) {
                Some(i) => {
                    let mut a: VmAlloc = self.allocs[i];
                    a.committed = false;
                    self.allocs.set(i, a);
                },
                None => {},
            }
        }
    }

    /// Replace the tracked protection of the reservation that holds the page
    /// of `addr`; the previous protection is returned.
    pub fn protect_region(&mut self, addr: u64, new_protect: u32) -> (old_protect: u32)
        requires
            old(self).wf(),
        ensures
            final(self).wf(),
            (final(self)@, old_protect) == protect_out(old(self)@, addr, new_protect),
    {
        let base: u64 = align_down(addr, PAGE);
        match self.find_holder(base) {
            Some(i) => {
                let mut a: VmAlloc = self.allocs[i];
                let prev: u32 = a.protect;
                a.protect = new_protect;
                self.allocs.set(i, a);
                prev
            },
            None => PAGE_EXECUTE_READWRITE,
        }
    }

    /// What a query of `addr` reports.
    pub fn query(&self, mem: &VirtualMemory, addr: u64) -> (r: MemoryInfo)
        requires
            self.wf(),
        ensures
            r == self@.info(mem@, addr),
    {
        mem.ascends();
        let page: u64 = align_down(addr, PAGE);
        match self.find_holder(addr) {
            Some(i) => {
                let a: VmAlloc = self.allocs[i];
                MemoryInfo {
                    base: page,
                    alloc_base: a.base,
                    alloc_protect: a.protect,
                    region_size: a.base + a.size - page,
                    state: if a.committed {
                        MEM_STATE_COMMIT
                    } else {
                        MEM_STATE_RESERVE
                    },
                    protect: if a.committed {
                        a.protect
                    } else {
                        0
                    },
                    mtype: a.mtype,
                }
            },
            None => {
                proof {
                    lemma_next_region(mem@.regions, addr as int);
                }
                match mem.next_region(addr) {
                    Some((rb, rsize, rperm)) => {
                        let ghost r = mem@.regions[next_region_index(
                            mem@.regions,
                            addr as int,
                        )->0];
                        assert(rb == r.base && rsize == r.bytes.len());
                        if rb <= addr {
                            let prot: u32 = protect_from_perm(rperm);
                            MemoryInfo {
                                base: page,
                                alloc_base: rb,
                                alloc_protect: prot,
                                region_size: rb + rsize - page,
                                state: MEM_STATE_COMMIT,
                                protect: prot,
                                mtype: MEM_PRIVATE,
                            }
                        } else {
                            MemoryInfo {
                                base: page,
                                alloc_base: 0,
                                alloc_protect: 0,
                                region_size: rb - page,
                                state: MEM_STATE_FREE,
                                protect: 0,
                                mtype: 0,
                            }
                        }
                    },
                    None => MemoryInfo {
                        base: page,
                        alloc_base: 0,
                        alloc_protect: 0,
                        region_size: 0x1000_0000,
                        state: MEM_STATE_FREE,
                        protect: 0,
                        mtype: 0,
                    },
                }
            },
        }
    }
}

/// Reservations with the same bounds are backed alike.
proof fn lemma_backed_same(a: VmState, b: VmState, m: MemView)
    requires
        a.allocs@.len() == b.allocs@.len(),
        forall|i: int|
            0 <= i < a.allocs@.len() ==> (#[trigger] a.allocs@[i]).base == b.allocs@[i].base
                && a.allocs@[i].size == b.allocs@[i].size,
    ensures
        a.backed(m) ==> b.backed(m),
{
    if a.backed(m) {
        assert forall|i: int| 0 <= i < b.allocs@.len() implies has_region(
            m,
            (#[trigger] b.allocs@[i]).base as int,
            b.allocs@[i].end(),
        ) by {
            assert(has_region(m, a.allocs@[i].base as int, a.allocs@[i].end()));
        }
    }
}

/// A reservation added together with its region is backed, and so are those
/// that were.
proof fn lemma_backed_insert(v: VmState, w: VmState, m: MemView, a: VmAlloc, perm: Perm)
    requires
        m.can_map(a.base, a.size),
        w.allocs@ == insert_sorted(v.allocs@, a),
    ensures
        v.backed(m) ==> w.backed(m.mapped(a.base, a.size, perm)),
{
    let n = m.mapped(a.base, a.size, perm);
    lemma_next_region(m.regions, a.base as int);
    let slot = m.slot(a.base as int);
    lemma_first_index(v.allocs@, from_base(a.base));
    let pos = match first_index(v.allocs@, from_base(a.base)) {
        Some(i) => i,
        None => v.allocs@.len() as int,
    };
    if v.backed(m) {
        assert forall|i: int| 0 <= i < w.allocs@.len() implies has_region(
            n,
            (#[trigger] w.allocs@[i]).base as int,
            w.allocs@[i].end(),
        ) by {
            if i == pos {
                assert(n.regions[slot].base == w.allocs@[i].base);
            } else {
                let o = if i < pos {
                    i
                } else {
                    i - 1
                };
                assert(w.allocs@[i] == v.allocs@[o]);
                assert(has_region(m, v.allocs@[o].base as int, v.allocs@[o].end()));
                let k = choose|k: int|
                    0 <= k < m.regions.len() && (#[trigger] m.regions[k]).base == v.allocs@[o].base
                        && m.regions[k].end() == v.allocs@[o].end();
                let nk = if k < slot {
                    k
                } else {
                    k + 1
                };
                assert(n.regions[nk] == m.regions[k]);
            }
        }
    }
}

/// Reservations that are backed by regions of their own, with distinct bases,
/// never meet.
pub proof fn lemma_reservations_apart(v: VmState, m: MemView, i: int, j: int)
    requires
        m.wf(),
        v.backed(m),
        0 <= i < v.allocs@.len(),
        0 <= j < v.allocs@.len(),
        v.allocs@[i].base < v.allocs@[j].base,
    ensures
        v.allocs@[i].end() <= v.allocs@[j].base,
{
    assert(has_region(m, v.allocs@[i].base as int, v.allocs@[i].end()));
    assert(has_region(m, v.allocs@[j].base as int, v.allocs@[j].end()));
    let ki = choose|k: int|
        0 <= k < m.regions.len() && (#[trigger] m.regions[k]).base == v.allocs@[i].base
            && m.regions[k].end() == v.allocs@[i].end();
    let kj = choose|k: int|
        0 <= k < m.regions.len() && (#[trigger] m.regions[k]).base == v.allocs@[j].base
            && m.regions[k].end() == v.allocs@[j].end();
    if kj < ki {
        assert(m.regions[kj].end() <= m.regions[ki].base);
    } else {
        assert(m.regions[ki].end() <= m.regions[kj].base);
    }
}

/// A fresh reservation lies on pages of its own, and a query of it reports what was
/// asked for.
pub proof fn lemma_alloc_then_query(v: VmState, m: MemView, size: u64, alloc_type: u32, protect: u32)
    requires
        m.wf(),
        v.backed(m),
        alloc_out(v@, m, 0, size, alloc_type, protect).base is Some,
    ensures
        ({
            let o = alloc_out(v@, m, 0, size, alloc_type, protect);
            let b = o.base->0;
            let i = o.vm.info(o.mem, b);
            let committed = alloc_type & MEM_COMMIT != 0;
            &&& b % 0x1_0000 == 0
            &&& i.base == b
            &&& i.alloc_base == b
            &&& i.alloc_protect == protect
            &&& i.region_size == region_size(size)
            &&& i.state == (if committed {
                MEM_STATE_COMMIT
            } else {
                MEM_STATE_RESERVE
            })
            &&& i.protect == (if committed {
                protect
            } else {
                0
            })
        }),
{
    let o = alloc_out(v@, m, 0, size, alloc_type, protect);
    let b = o.base->0;
    let n = region_size(size) as u64;
    let a = VmAlloc {
        base: b,
        size: n,
        protect,
        committed: alloc_type & MEM_COMMIT != 0,
        mtype: MEM_PRIVATE,
    };
    let s = v.allocs@;
    assert(is_first_window(m, v.next, n, b));
    lemma_round_up(max_int(size as int, 1), PAGE as int);
    assert forall|i: int| 0 <= i < s.len() implies !holding(b as int)(#[trigger] s[i]) by {
        assert(has_region(m, s[i].base as int, s[i].end()));
    }
    lemma_first_index(s, from_base(b));
    let t = insert_sorted(s, a);
    let j = match first_index(s, from_base(b)) {
        Some(i) => i,
        None => s.len() as int,
    };
    assert(t[j] == a);
    assert forall|k: int| 0 <= k < j implies !holding(b as int)(#[trigger] t[k]) by {
        assert(t[k] == s[k]);
    }
    lemma_first_index_is(t, holding(b as int), j);
}

} // verus!
