//! Guest memory: disjoint mapped regions, little-endian accesses, and tables
//! of stores.

use vstd::prelude::*;

verus! {

/// Access rights of a mapped region.
#[derive(Clone, Copy, Debug, PartialEq, Eq, Structural)]
pub struct Perm {
    pub read: bool,
    pub write: bool,
    pub execute: bool,
}

impl Perm {
    /// Readable and writable.
    pub open spec fn spec_rw() -> Perm {
        Perm { read: true, write: true, execute: false }
    }

    /// Readable, writable and executable.
    pub open spec fn spec_rwx() -> Perm {
        Perm { read: true, write: true, execute: true }
    }

    /// Readable and writable.
    #[verifier::when_used_as_spec(spec_rw)]
    pub fn rw() -> (p: Perm)
        ensures
            p == Perm::spec_rw(),
    {
        Perm { read: true, write: true, execute: false }
    }

    /// Readable, writable and executable.
    #[verifier::when_used_as_spec(spec_rwx)]
    pub fn rwx() -> (p: Perm)
        ensures
            p == Perm::spec_rwx(),
    {
        Perm { read: true, write: true, execute: true }
    }
}

/// The largest region that can be mapped: the most bytes that a buffer of the host holds.
pub const MAX_REGION: u64 = isize::MAX as u64;

/// An access that no mapped region allows; `addr` is where it started.
#[derive(Clone, Copy, Debug, PartialEq, Eq, Structural)]
pub struct Fault {
    pub addr: u64,
}

/// A mapping request that cannot be met.
#[derive(Clone, Copy, Debug, PartialEq, Eq, Structural)]
pub enum MapError {
    /// The size is zero or above `MAX_REGION`, or the range does not end below 2^64.
    BadRange,
    /// Part of the range is mapped already.
    Overlap,
    /// No region starts at the address.
    NotMapped,
}

/// One mapped region.
pub struct Region {
    pub base: u64,
    pub perm: Perm,
    pub data: Vec<u8>,
}

/// What a region holds.
pub struct RegionView {
    pub base: int,
    pub perm: Perm,
    pub bytes: Seq<u8>,
}

impl RegionView {
    /// The first address past the region.
    pub open spec fn end(self) -> int {
        self.base + self.bytes.len()
    }

    /// Whether `a` lies inside the region.
    pub open spec fn holds(self, a: int) -> bool {
        self.base <= a < self.end()
    }
}

impl View for Region {
    type V = RegionView;

    open spec fn view(&self) -> RegionView {
        RegionView { base: self.base as int, perm: self.perm, bytes: self.data@ }
    }
}

/// The regions of an address space, in ascending order.
pub struct MemView {
    pub regions: Seq<RegionView>,
}

/// The index of the region that holds `a`.
pub open spec fn find_region(rs: Seq<RegionView>, a: int) -> Option<int>
    decreases rs.len(),
{
    if rs.len() == 0 {
        None
    } else if rs.last().holds(a) {
        Some(rs.len() - 1)
    } else {
        find_region(rs.drop_last(), a)
    }
}

/// The index of the first region that ends above `a`.
pub open spec fn next_region_index(rs: Seq<RegionView>, a: int) -> Option<int>
    decreases rs.len(),
{
    if rs.len() == 0 {
        None
    } else {
        match next_region_index(rs.drop_last(), a) {
            Some(i) => Some(i),
            None => if a < rs.last().end() {
                Some(rs.len() - 1)
            } else {
                None
            },
        }
    }
}

/// `s` with `d` laid over it from index `k` on.
pub open spec fn overlay(s: Seq<u8>, k: int, d: Seq<u8>) -> Seq<u8> {
    Seq::new(
        s.len(),
        |j: int|
            if k <= j < k + d.len() {
                d[j - k]
            } else {
                s[j]
            },
    )
}

/// The `n` low bytes of `v`, least significant first.
pub open spec fn le_bytes(v: nat, n: nat) -> Seq<u8>
    decreases n,
{
    if n == 0 {
        Seq::empty()
    } else {
        seq![(v % 256) as u8] + le_bytes(v / 256, (n - 1) as nat)
    }
}

/// The number that `s` holds, least significant byte first.
pub open spec fn le_value(s: Seq<u8>) -> nat
    decreases s.len(),
{
    if s.len() == 0 {
        0
    } else {
        s[0] as nat + 256 * le_value(s.drop_first())
    }
}

/// 256 to the power `n`.
pub open spec fn pow256(n: nat) -> nat
    decreases n,
{
    if n == 0 {
        1
    } else {
        256 * pow256((n - 1) as nat)
    }
}

/// One scalar store: the low `size` bytes of `value` at `addr`.
#[derive(Clone, Copy, Debug, PartialEq, Eq, Structural)]
pub struct Store {
    pub addr: u64,
    pub size: u64,
    pub value: u64,
}

impl Store {
    /// The bytes the store lays down.
    pub open spec fn bytes(self) -> Seq<u8> {
        le_bytes(self.value as nat, self.size as nat)
    }
}

/// One scalar load: `size` bytes at `addr`.
#[derive(Clone, Copy, Debug, PartialEq, Eq, Structural)]
pub struct Load {
    pub addr: u64,
    pub size: u64,
}

/// Guest address `off` bytes above `base`, modulo 2^64.
pub open spec fn ga(base: u64, off: int) -> u64 {
    ((base + off) % 0x1_0000_0000_0000_0000) as u64
}

/// Guest address `off` bytes above `base`, modulo 2^64.
pub fn at(base: u64, off: u64) -> (a: u64)
    ensures
        a == ga(base, off as int),
{
    base.wrapping_add(off)
}

/// Guest address `off` bytes below `base`, modulo 2^64.
pub fn below(base: u64, off: u64) -> (a: u64)
    ensures
        a == ga(base, -(off as int)),
{
    base.wrapping_sub(off)
}

/// A one-byte store.
pub open spec fn s8(addr: u64, value: u8) -> Store {
    Store { addr, size: 1, value: value as u64 }
}

/// A two-byte store.
pub open spec fn s16(addr: u64, value: u16) -> Store {
    Store { addr, size: 2, value: value as u64 }
}

/// A four-byte store.
pub open spec fn s32(addr: u64, value: u32) -> Store {
    Store { addr, size: 4, value: value as u64 }
}

/// An eight-byte store.
pub open spec fn s64(addr: u64, value: u64) -> Store {
    Store { addr, size: 8, value }
}

/// A pointer-sized store; a 32-bit guest keeps the low half.
pub open spec fn sptr(is_64bit: bool, addr: u64, value: u64) -> Store {
    Store {
        addr,
        size: if is_64bit {
            8
        } else {
            4
        },
        value,
    }
}

/// A four-byte load.
pub open spec fn l32(addr: u64) -> Load {
    Load { addr, size: 4 }
}

/// An eight-byte load.
pub open spec fn l64(addr: u64) -> Load {
    Load { addr, size: 8 }
}

/// A four-byte load.
#[verifier::when_used_as_spec(l32)]
pub fn load32(addr: u64) -> (l: Load)
    ensures
        l == l32(addr),
{
    Load { addr, size: 4 }
}

/// An eight-byte load.
#[verifier::when_used_as_spec(l64)]
pub fn load64(addr: u64) -> (l: Load)
    ensures
        l == l64(addr),
{
    Load { addr, size: 8 }
}

/// A one-byte store.
#[verifier::when_used_as_spec(s8)]
pub fn store8(addr: u64, value: u8) -> (s: Store)
    ensures
        s == s8(addr, value),
{
    Store { addr, size: 1, value: value as u64 }
}

/// A two-byte store.
#[verifier::when_used_as_spec(s16)]
pub fn store16(addr: u64, value: u16) -> (s: Store)
    ensures
        s == s16(addr, value),
{
    Store { addr, size: 2, value: value as u64 }
}

/// A four-byte store.
#[verifier::when_used_as_spec(s32)]
pub fn store32(addr: u64, value: u32) -> (s: Store)
    ensures
        s == s32(addr, value),
{
    Store { addr, size: 4, value: value as u64 }
}

/// An eight-byte store.
#[verifier::when_used_as_spec(s64)]
pub fn store64(addr: u64, value: u64) -> (s: Store)
    ensures
        s == s64(addr, value),
{
    Store { addr, size: 8, value }
}

/// A pointer-sized store; a 32-bit guest keeps the low half.
#[verifier::when_used_as_spec(sptr)]
pub fn store_ptr(is_64bit: bool, addr: u64, value: u64) -> (s: Store)
    ensures
        s == sptr(is_64bit, addr, value),
{
    Store {
        addr,
        size: if is_64bit {
            8
        } else {
            4
        },
        value,
    }
}

/// What a run of stores leaves behind: the memory, and the first fault.
pub struct Stored {
    pub mem: MemView,
    pub fault: Option<Fault>,
}

impl MemView {
    /// Whether `n` bytes from `a` on can be read.
    pub open spec fn can_read(self, a: int, n: int) -> bool {
        n == 0 || match find_region(self.regions, a) {
            Some(i) => a + n <= self.regions[i].end() && self.regions[i].perm.read,
            None => false,
        }
    }

    /// Whether `n` bytes from `a` on can be written.
    pub open spec fn can_write(self, a: int, n: int) -> bool {
        n == 0 || match find_region(self.regions, a) {
            Some(i) => a + n <= self.regions[i].end() && self.regions[i].perm.write,
            None => false,
        }
    }

    /// The `n` bytes from `a` on, where they can be read.
    pub open spec fn bytes_at(self, a: int, n: int) -> Seq<u8> {
        if n <= 0 {
            Seq::empty()
        } else {
            let r = self.regions[find_region(self.regions, a)->0];
            r.bytes.subrange(a - r.base, a - r.base + n)
        }
    }

    /// The memory after `d` was laid down at `a`.
    pub open spec fn put(self, a: int, d: Seq<u8>) -> MemView {
        if d.len() == 0 {
            self
        } else {
            let i = find_region(self.regions, a)->0;
            let r = self.regions[i];
            MemView {
                regions: self.regions.update(
                    i,
                    RegionView { bytes: overlay(r.bytes, a - r.base, d), ..r },
                ),
            }
        }
    }

    /// A block write: all of it, or a fault that changes nothing.
    pub open spec fn write(self, a: u64, d: Seq<u8>) -> Stored {
        if self.can_write(a as int, d.len() as int) {
            Stored { mem: self.put(a as int, d), fault: None }
        } else {
            Stored { mem: self, fault: Some(Fault { addr: a }) }
        }
    }

    /// One scalar store.
    pub open spec fn store(self, s: Store) -> Stored {
        self.write(s.addr, s.bytes())
    }

    /// The stores of a table, in order, up to the first fault.
    pub open spec fn store_all(self, t: Seq<Store>) -> Stored
        decreases t.len(),
    {
        if t.len() == 0 {
            Stored { mem: self, fault: None }
        } else {
            let before = self.store_all(t.drop_last());
            if before.fault is Some {
                before
            } else {
                before.mem.store(t.last())
            }
        }
    }

    /// A block read.
    pub open spec fn read(self, a: u64, n: nat) -> Result<Seq<u8>, Fault> {
        if self.can_read(a as int, n as int) {
            Ok(self.bytes_at(a as int, n as int))
        } else {
            Err(Fault { addr: a })
        }
    }

    /// An unsigned read of `n` bytes, least significant first.
    pub open spec fn read_le(self, a: u64, n: nat) -> Result<nat, Fault> {
        match self.read(a, n) {
            Ok(s) => Ok(le_value(s)),
            Err(f) => Err(f),
        }
    }

    /// A one-byte read.
    pub open spec fn r8(self, a: u64) -> Result<u8, Fault> {
        match self.read_le(a, 1) {
            Ok(v) => Ok(v as u8),
            Err(f) => Err(f),
        }
    }

    /// A two-byte read.
    pub open spec fn r16(self, a: u64) -> Result<u16, Fault> {
        match self.read_le(a, 2) {
            Ok(v) => Ok(v as u16),
            Err(f) => Err(f),
        }
    }

    /// A four-byte read.
    pub open spec fn r32(self, a: u64) -> Result<u32, Fault> {
        match self.read_le(a, 4) {
            Ok(v) => Ok(v as u32),
            Err(f) => Err(f),
        }
    }

    /// An eight-byte read.
    pub open spec fn r64(self, a: u64) -> Result<u64, Fault> {
        match self.read_le(a, 8) {
            Ok(v) => Ok(v as u64),
            Err(f) => Err(f),
        }
    }

    /// A pointer-sized read, widened to 64 bits.
    pub open spec fn rptr(self, is_64bit: bool, a: u64) -> Result<u64, Fault> {
        if is_64bit {
            self.r64(a)
        } else {
            match self.r32(a) {
                Ok(v) => Ok(v as u64),
                Err(f) => Err(f),
            }
        }
    }

    /// The loads of a table, in order: all values, or the first fault.
    pub open spec fn load_all(self, t: Seq<Load>) -> Result<Seq<u64>, Fault>
        decreases t.len(),
    {
        if t.len() == 0 {
            Ok(Seq::empty())
        } else {
            match self.load_all(t.drop_last()) {
                Err(f) => Err(f),
                Ok(vs) => match self.read_le(t.last().addr, t.last().size as nat) {
                    Err(f) => Err(f),
                    Ok(v) => Ok(vs.push(v as u64)),
                },
            }
        }
    }

    /// The region that holds `a`, or else the next one above it.
    pub open spec fn next(self, a: u64) -> Option<(u64, u64, Perm)> {
        match next_region_index(self.regions, a as int) {
            Some(i) => Some(
                (
                    self.regions[i].base as u64,
                    self.regions[i].bytes.len() as u64,
                    self.regions[i].perm,
                ),
            ),
            None => None,
        }
    }

    /// Whether no region meets `[a, a + n)`.
    pub open spec fn is_free(self, a: int, n: int) -> bool {
        forall|i: int|
            0 <= i < self.regions.len() ==> (#[trigger] self.regions[i]).end() <= a || a + n
                <= self.regions[i].base
    }

    /// Whether a mapping of `n` bytes at `a` can be made.
    pub open spec fn can_map(self, a: u64, n: u64) -> bool {
        0 < n <= MAX_REGION && a + n <= u64::MAX && self.is_free(a as int, n as int)
    }

    /// The number of regions that end at or below `a`.
    pub open spec fn slot(self, a: int) -> int {
        match next_region_index(self.regions, a) {
            Some(i) => i,
            None => self.regions.len() as int,
        }
    }

    /// The memory with a fresh zero-filled region.
    pub open spec fn mapped(self, a: u64, n: u64, perm: Perm) -> MemView {
        MemView {
            regions: self.regions.insert(
                self.slot(a as int),
                RegionView { base: a as int, perm, bytes: Seq::new(n as nat, |i: int| 0u8) },
            ),
        }
    }

    /// The index of the region that starts at `a`.
    pub open spec fn start_index(self, a: u64) -> Option<int> {
        match find_region(self.regions, a as int) {
            Some(i) => if self.regions[i].base == a {
                Some(i)
            } else {
                None
            },
            None => None,
        }
    }

    /// The memory without the region that starts at `a`.
    pub open spec fn unmapped(self, a: u64) -> MemView {
        match self.start_index(a) {
            Some(i) => MemView { regions: self.regions.remove(i) },
            None => self,
        }
    }

    /// Regions are non-empty, ascending and disjoint, and end below 2^64.
    pub open spec fn wf(self) -> bool {
        &&& forall|i: int|
            0 <= i < self.regions.len() ==> 0 <= (#[trigger] self.regions[i]).base
                && 0 < self.regions[i].bytes.len() <= MAX_REGION && self.regions[i].end() <= u64::MAX
        &&& forall|i: int, j: int|
            0 <= i < j < self.regions.len() ==> (#[trigger] self.regions[i]).end() <= (
            #[trigger] self.regions[j]).base
    }
}

/// A guest address space.
pub struct VirtualMemory {
    regions: Vec<Region>,
}

/// The views of a list of regions.
pub open spec fn region_views(rs: Seq<Region>) -> Seq<RegionView> {
    Seq::new(rs.len(), |i: int| rs[i]@)
}

impl View for VirtualMemory {
    type V = MemView;

    closed spec fn view(&self) -> MemView {
        MemView { regions: region_views(self.regions@) }
    }
}

impl VirtualMemory {
    #[verifier::type_invariant]
    spec fn inv(self) -> bool {
        self@.wf()
    }

    /// An address space with nothing mapped.
    pub fn new() -> (m: VirtualMemory)
        ensures
            m@ == (MemView { regions: Seq::empty() }),
    {
        let m = VirtualMemory { regions: Vec::new() };
        assert(m@.regions =~= Seq::empty());
        m
    }

    /// The regions always ascend without meeting.
    pub fn ascends(&self)
        ensures
            self@.wf(),
    {
        proof {
            use_type_invariant(self);
        }
    }

    /// The index of the region that holds `a`.
    fn find(&self, a: u64) -> (r: Option<usize>)
        ensures
            match r {
                Some(i) => find_region(self@.regions, a as int) == Some(i as int) && i
                    < self.regions.len(),
                None => find_region(self@.regions, a as int) is None,
            },
    {
        let mut i: usize = self.regions.len();
        let ghost rs = self@.regions;
        assert(rs.take(rs.len() as int) =~= rs);
        while i > 0
            invariant
                i <= self.regions.len(),
                rs == self@.regions,
                find_region(rs, a as int) == find_region(rs.take(i as int), a as int),
            decreases i,
        {
            let r = &self.regions[i - 1];
            assert(rs.take(i as int).last() == r@);
            assert(rs.take(i as int).drop_last() =~= rs.take(i - 1));
            if r.base <= a && a - r.base < r.data.len() as u64 {
                return Some(i - 1);
            }
            i = i - 1;
        }
        None
    }

    /// The index of the first region that ends above `a`.
    fn next_index(&self, a: u64) -> (r: Option<usize>)
        ensures
            match r {
                Some(i) => next_region_index(self@.regions, a as int) == Some(i as int) && i
                    < self.regions.len(),
                None => next_region_index(self@.regions, a as int) is None,
            },
    {
        proof {
            use_type_invariant(self);
        }
        let mut i: usize = 0;
        let ghost rs = self@.regions;
        assert(rs.take(rs.len() as int) =~= rs);
        assert(rs.take(0) =~= Seq::empty());
        while i < self.regions.len()
            invariant
                i <= self.regions.len(),
                rs == self@.regions,
                self@.wf(),
                next_region_index(rs.take(i as int), a as int) is None,
                forall|k: int| 0 <= k < i ==> (#[trigger] rs[k]).end() <= a,
            decreases self.regions.len() - i,
        {
            let r = &self.regions[i];
            assert(rs[i as int] == r@);
            assert(rs.take(i + 1).last() == r@);
            assert(rs.take(i + 1).drop_last() =~= rs.take(i as int));
            if a < r.base || a - r.base < r.data.len() as u64 {
                proof {
                    lemma_next_region(rs, a as int);
                }
                return Some(i);
            }
            i = i + 1;
        }
        proof {
            lemma_next_region(rs, a as int);
        }
        None
    }

    /// The region that holds `addr`, or else the next one above it, as
    /// `(base, size, perm)`.
    pub fn next_region(&self, addr: u64) -> (r: Option<(u64, u64, Perm)>)
        ensures
            r == self@.next(addr),
    {
        match self.next_index(addr) {
            Some(i) => {
                let r = &self.regions[i];
                assert(self@.regions[i as int] == r@);
                Some((r.base, r.data.len() as u64, r.perm))
            },
            None => None,
        }
    }

    /// Map `size` zero bytes at `base`.
    pub fn map_fixed(&mut self, base: u64, size: u64, perm: Perm) -> (r: Result<(), MapError>)
        ensures
            r is Ok <==> old(self)@.can_map(base, size),
            r is Ok ==> final(self)@ == old(self)@.mapped(base, size, perm),
            r is Err ==> final(self)@ == old(self)@,
            r is Err ==> (r->Err_0 == MapError::Overlap <==> 0 < size <= MAX_REGION && base + size
                <= u64::MAX),
            r is Err ==> r->Err_0 != MapError::NotMapped,
    {
        proof {
            use_type_invariant(&*self);
        }
        if size == 0 || size > MAX_REGION || base > u64::MAX - size {
            return Err(MapError::BadRange);
        }
        let ghost m = self@;
        let next = self.next_index(base);
        proof {
            lemma_next_region(m.regions, base as int);
        }
        let pos: usize = match next {
            Some(i) => i,
            None => self.regions.len(),
        };
        if pos < self.regions.len() && self.regions[pos].base < base + size {
            proof {
                assert(m.regions[pos as int] == self.regions[pos as int]@);
            }
            return Err(MapError::Overlap);
        }
        let data: Vec<u8> = vec![0u8; size as usize];
        let region = Region { base, perm, data };
        let ghost rv = RegionView {
            base: base as int,
            perm,
            bytes: Seq::new(size as nat, |i: int| 0u8),
        };
        proof {
            assert(region@.bytes =~= rv.bytes);
            assert forall|i: int| 0 <= i < m.regions.len() implies (#[trigger] m.regions[i]).end()
                <= base || base + size <= m.regions[i].base by {
                if i >= pos {
                    assert(m.regions[pos as int] == self.regions[pos as int]@);
                    if i > pos {
                        assert(m.regions[pos as int].end() <= m.regions[i].base);
                    }
                }
            }
        }
        let mut regions: Vec<Region> = Vec::new();
        std::mem::swap(&mut regions, &mut self.regions);
        let ghost before = regions@;
        assert(region_views(before) == m.regions);
        regions.insert(pos, region);
        assert(region_views(regions@) =~= m.regions.insert(pos as int, rv));
        proof {
            lemma_mapped_wf(m, base, size, perm);
        }
        self.regions = regions;
        Ok(())
    }

    /// Remove the region that starts at `base`.
    pub fn unmap(&mut self, base: u64) -> (r: Result<(), MapError>)
        ensures
            final(self)@ == old(self)@.unmapped(base),
            r == (if old(self)@.start_index(base) is Some {
                Ok::<(), MapError>(())
            } else {
                Err::<(), MapError>(MapError::NotMapped)
            }),
    {
        proof {
            use_type_invariant(&*self);
        }
        let ghost m = self@;
        match self.find(base) {
            Some(i) => {
                assert(m.regions[i as int] == self.regions[i as int]@);
                if self.regions[i].base == base {
                    let mut regions: Vec<Region> = Vec::new();
                    std::mem::swap(&mut regions, &mut self.regions);
                    let _removed = regions.remove(i);
                    assert(region_views(regions@) =~= m.regions.remove(i as int));
                    proof {
                        lemma_unmapped_wf(m, i as int);
                    }
                    self.regions = regions;
                    Ok(())
                } else {
                    Err(MapError::NotMapped)
                }
            },
            None => Err(MapError::NotMapped),
        }
    }

    /// Read `n` bytes from `addr` on.
    pub fn read(&self, addr: u64, n: usize) -> (r: Result<Vec<u8>, Fault>)
        ensures
            match r {
                Ok(v) => self@.read(addr, n as nat) == Ok::<Seq<u8>, Fault>(v@),
                Err(f) => self@.read(addr, n as nat) == Err::<Seq<u8>, Fault>(f),
            },
    {
        let mut out: Vec<u8> = Vec::new();
        if n == 0 {
            assert(out@ =~= Seq::<u8>::empty());
            return Ok(out);
        }
        proof {
            use_type_invariant(self);
            lemma_find_region(self@.regions, addr as int);
        }
        match self.find(addr) {
            Some(i) => {
                let reg = &self.regions[i];
                assert(self@.regions[i as int] == reg@);
                let off: usize = (addr - reg.base) as usize;
                if !reg.perm.read || n > reg.data.len() - off {
                    return Err(Fault { addr });
                }
                let mut k: usize = 0;
                while k < n
                    invariant
                        k <= n,
                        n <= reg.data.len() - off,
                        off <= reg.data.len(),
                        out@ == reg.data@.subrange(off as int, off + k),
                    decreases n - k,
                {
                    out.push(reg.data[off + k]);
                    k = k + 1;
                    assert(out@ =~= reg.data@.subrange(off as int, off + k));
                }
                Ok(out)
            },
            None => Err(Fault { addr }),
        }
    }

    /// Write `data` at `addr`: all of it, or a fault that changes nothing.
    pub fn write(&mut self, addr: u64, data: &Vec<u8>) -> (r: Result<(), Fault>)
        ensures
            final(self)@ == old(self)@.write(addr, data@).mem,
            r == fault_result(old(self)@.write(addr, data@).fault),
    {
        if data.len() == 0 {
            return Ok(());
        }
        proof {
            use_type_invariant(&*self);
            lemma_find_region(self@.regions, addr as int);
        }
        let ghost m = self@;
        match self.find(addr) {
            Some(i) => {
                let off: usize = {
                    let reg = &self.regions[i];
                    assert(m.regions[i as int] == reg@);
                    let off: usize = (addr - reg.base) as usize;
                    if !reg.perm.write || data.len() > reg.data.len() - off {
                        return Err(Fault { addr });
                    }
                    off
                };
                let mut regions: Vec<Region> = Vec::new();
                std::mem::swap(&mut regions, &mut self.regions);
                let mut reg = regions.remove(i);
                let ghost start = reg.data@;
                assert(overlay(start, off as int, data@.take(0)) =~= start);
                let mut k: usize = 0;
                while k < data.len()
                    invariant
                        k <= data.len(),
                        data.len() <= start.len() - off,
                        off <= start.len(),
                        reg.base == m.regions[i as int].base,
                        reg.perm == m.regions[i as int].perm,
                        reg.data.len() == start.len(),
                        reg.data@ == overlay(start, off as int, data@.take(k as int)),
                    decreases data.len() - k,
                {
                    let b: u8 = data[k];
                    reg.data.set(off + k, b);
                    k = k + 1;
                    assert(reg.data@ =~= overlay(start, off as int, data@.take(k as int)));
                }
                assert(data@.take(k as int) =~= data@);
                regions.insert(i, reg);
                proof {
                    assert(region_views(regions@) =~= m.put(addr as int, data@).regions);
                    lemma_put_shape(m, addr as int, data@);
                }
                self.regions = regions;
                Ok(())
            },
            None => Err(Fault { addr }),
        }
    }

    /// Read an unsigned number of `n` bytes, least significant first.
    fn read_uint(&self, addr: u64, n: usize) -> (r: Result<u64, Fault>)
        requires
            n <= 8,
        ensures
            match r {
                Ok(v) => self@.read_le(addr, n as nat) == Ok::<nat, Fault>(v as nat) && v < pow256(
                    n as nat,
                ),
                Err(f) => self@.read_le(addr, n as nat) == Err::<nat, Fault>(f),
            },
    {
        match self.read(addr, n) {
            Ok(bytes) => {
                proof {
                    lemma_find_region(self@.regions, addr as int);
                    lemma_le_value_bound(bytes@);
                }
                assert(bytes.len() == n);
                Ok(uint_of(&bytes))
            },
            Err(f) => Err(f),
        }
    }

    /// Read one byte.
    pub fn read_u8(&self, addr: u64) -> (r: Result<u8, Fault>)
        ensures
            r == self@.r8(addr),
    {
        proof {
            lemma_pow256();
        }
        match self.read_uint(addr, 1) {
            Ok(v) => Ok(v as u8),
            Err(f) => Err(f),
        }
    }

    /// Read two bytes.
    pub fn read_u16(&self, addr: u64) -> (r: Result<u16, Fault>)
        ensures
            r == self@.r16(addr),
    {
        proof {
            lemma_pow256();
        }
        match self.read_uint(addr, 2) {
            Ok(v) => Ok(v as u16),
            Err(f) => Err(f),
        }
    }

    /// Read `n` bytes. No region is larger than `MAX_REGION`, so a longer read
    /// faults.
    pub fn read_block(&self, addr: u64, n: u64) -> (r: Result<Vec<u8>, Fault>)
        ensures
            match r {
                Ok(v) => self@.read(addr, n as nat) == Ok::<Seq<u8>, Fault>(v@) && v.len() == n,
                Err(f) => self@.read(addr, n as nat) == Err::<Seq<u8>, Fault>(f),
            },
    {
        if n > MAX_REGION {
            self.ascends();
            proof {
                lemma_find_region(self@.regions, addr as int);
            }
            return Err(Fault { addr });
        }
        proof {
            lemma_find_region(self@.regions, addr as int);
        }
        self.read(addr, n as usize)
    }

    /// Read four bytes.
    pub fn read_u32(&self, addr: u64) -> (r: Result<u32, Fault>)
        ensures
            r == self@.r32(addr),
    {
        proof {
            lemma_pow256();
        }
        match self.read_uint(addr, 4) {
            Ok(v) => Ok(v as u32),
            Err(f) => Err(f),
        }
    }

    /// Read eight bytes.
    pub fn read_u64(&self, addr: u64) -> (r: Result<u64, Fault>)
        ensures
            r == self@.r64(addr),
    {
        self.read_uint(addr, 8)
    }

    /// Read a pointer of the guest's width.
    pub fn read_ptr(&self, is_64bit: bool, addr: u64) -> (r: Result<u64, Fault>)
        ensures
            r == self@.rptr(is_64bit, addr),
    {
        if is_64bit {
            self.read_u64(addr)
        } else {
            match self.read_u32(addr) {
                Ok(v) => Ok(v as u64),
                Err(f) => Err(f),
            }
        }
    }

    /// Perform the loads of a table, in order, up to the first fault.
    pub fn load_all(&self, table: &Vec<Load>) -> (r: Result<Vec<u64>, Fault>)
        requires
            loads_ok(table@),
        ensures
            match r {
                Ok(vs) => self@.load_all(table@) == Ok::<Seq<u64>, Fault>(vs@) && vs.len()
                    == table.len(),
                Err(f) => self@.load_all(table@) == Err::<Seq<u64>, Fault>(f),
            },
    {
        let mut out: Vec<u64> = Vec::new();
        let mut i: usize = 0;
        assert(table@.take(0) =~= Seq::empty());
        assert(out@ =~= Seq::empty());
        while i < table.len()
            invariant
                i <= table.len(),
                loads_ok(table@),
                out.len() == i,
                self@.load_all(table@.take(i as int)) == Ok::<Seq<u64>, Fault>(out@),
            decreases table.len() - i,
        {
            let l: Load = table[i];
            proof {
                assert(table@.take(i + 1).drop_last() =~= table@.take(i as int));
            }
            match self.read_uint(l.addr, l.size as usize) {
                Ok(v) => {
                    out.push(v);
                },
                Err(f) => {
                    proof {
                        lemma_load_all_stops(self@, table@, i + 1);
                    }
                    return Err(f);
                },
            }
            i = i + 1;
        }
        assert(table@.take(i as int) =~= table@);
        Ok(out)
    }

    /// Perform one scalar store.
    pub fn store(&mut self, s: Store) -> (r: Result<(), Fault>)
        requires
            s.size <= 8,
        ensures
            final(self)@ == old(self)@.store(s).mem,
            r == fault_result(old(self)@.store(s).fault),
    {
        let bytes = bytes_of(s.value, s.size);
        self.write(s.addr, &bytes)
    }

    /// Write one byte.
    pub fn write_u8(&mut self, addr: u64, value: u8) -> (r: Result<(), Fault>)
        ensures
            final(self)@ == old(self)@.store(s8(addr, value)).mem,
            r == fault_result(old(self)@.store(s8(addr, value)).fault),
    {
        self.store(store8(addr, value))
    }

    /// Write two bytes.
    pub fn write_u16(&mut self, addr: u64, value: u16) -> (r: Result<(), Fault>)
        ensures
            final(self)@ == old(self)@.store(s16(addr, value)).mem,
            r == fault_result(old(self)@.store(s16(addr, value)).fault),
    {
        self.store(store16(addr, value))
    }

    /// Write four bytes.
    pub fn write_u32(&mut self, addr: u64, value: u32) -> (r: Result<(), Fault>)
        ensures
            final(self)@ == old(self)@.store(s32(addr, value)).mem,
            r == fault_result(old(self)@.store(s32(addr, value)).fault),
    {
        self.store(store32(addr, value))
    }

    /// Write eight bytes.
    pub fn write_u64(&mut self, addr: u64, value: u64) -> (r: Result<(), Fault>)
        ensures
            final(self)@ == old(self)@.store(s64(addr, value)).mem,
            r == fault_result(old(self)@.store(s64(addr, value)).fault),
    {
        self.store(store64(addr, value))
    }

    /// Perform the stores of a table, in order, up to the first fault.
    pub fn store_all(&mut self, table: &Vec<Store>) -> (r: Result<(), Fault>)
        requires
            table_ok(table@),
        ensures
            final(self)@ == old(self)@.store_all(table@).mem,
            r == fault_result(old(self)@.store_all(table@).fault),
    {
        let ghost m = self@;
        let mut i: usize = 0;
        assert(table@.take(0) =~= Seq::empty());
        while i < table.len()
            invariant
                i <= table.len(),
                table_ok(table@),
                m == old(self)@,
                self@ == m.store_all(table@.take(i as int)).mem,
                m.store_all(table@.take(i as int)).fault is None,
            decreases table.len() - i,
        {
            let s: Store = table[i];
            proof {
                assert(table@.take(i + 1).drop_last() =~= table@.take(i as int));
            }
            match self.store(s) {
                Ok(_) => {},
                Err(f) => {
                    proof {
                        lemma_store_all_stops(m, table@, i + 1);
                    }
                    return Err(f);
                },
            }
            i = i + 1;
        }
        assert(table@.take(i as int) =~= table@);
        Ok(())
    }
}

/// Every store of a table is at most eight bytes wide.
pub open spec fn table_ok(t: Seq<Store>) -> bool {
    forall|i: int| 0 <= i < t.len() ==> (#[trigger] t[i]).size <= 8
}

/// A store, unless it is to a null pointer.
pub open spec fn opt(s: Store) -> Seq<Store> {
    if s.addr != 0 {
        seq![s]
    } else {
        Seq::empty()
    }
}

/// Add a store to a table, unless it is to a null pointer.
pub fn push_opt(t: &mut Vec<Store>, s: Store)
    ensures
        final(t)@ == old(t)@ + opt(s),
{
    let ghost before = t@;
    if s.addr != 0 {
        t.push(s);
        assert(t@ =~= before + seq![s]);
    } else {
        assert(t@ =~= before + Seq::<Store>::empty());
    }
}

/// Every load of a table is at most eight bytes wide.
pub open spec fn loads_ok(t: Seq<Load>) -> bool {
    forall|i: int| 0 <= i < t.len() ==> (#[trigger] t[i]).size <= 8
}

/// The outcome of an access as a result.
pub open spec fn fault_result(f: Option<Fault>) -> Result<(), Fault> {
    match f {
        None => Ok(()),
        Some(f) => Err(f),
    }
}

/// The `n` low bytes of `v`.
pub fn bytes_of(v: u64, n: u64) -> (r: Vec<u8>)
    ensures
        r@ == le_bytes(v as nat, n as nat),
{
    let mut out: Vec<u8> = Vec::new();
    let mut rest: u64 = v;
    let mut left: u64 = n;
    while left > 0
        invariant
            le_bytes(v as nat, n as nat) == out@ + le_bytes(rest as nat, left as nat),
        decreases left,
    {
        out.push((rest % 256) as u8);
        proof {
            assert(le_bytes(rest as nat, left as nat) == seq![(rest % 256) as u8] + le_bytes(
                (rest / 256) as nat,
                (left - 1) as nat,
            ));
            assert(le_bytes(v as nat, n as nat) =~= out@ + le_bytes(
                (rest / 256) as nat,
                (left - 1) as nat,
            ));
        }
        rest = rest / 256;
        left = left - 1;
    }
    assert(out@ =~= le_bytes(v as nat, n as nat));
    out
}

/// The number that up to eight bytes hold, least significant first.
pub fn uint_of(s: &Vec<u8>) -> (v: u64)
    requires
        s.len() <= 8,
    ensures
        v as nat == le_value(s@),
{
    let mut i: usize = s.len();
    let mut v: u64 = 0;
    assert(s@.skip(s.len() as int) =~= Seq::<u8>::empty());
    while i > 0
        invariant
            i <= s.len() <= 8,
            v as nat == le_value(s@.skip(i as int)),
        decreases i,
    {
        proof {
            let t = s@.skip(i - 1);
            assert(t.drop_first() =~= s@.skip(i as int));
            lemma_le_value_bound(t);
            lemma_pow256_le((s.len() - (i - 1)) as nat);
        }
        v = s[i - 1] as u64 + 256 * v;
        i = i - 1;
    }
    assert(s@.skip(0) =~= s@);
    v
}

/// The `n` low bytes of a number of up to 16 bytes.
pub fn wide_bytes_of(v: u128, n: u64) -> (r: Vec<u8>)
    ensures
        r@ == le_bytes(v as nat, n as nat),
{
    let mut out: Vec<u8> = Vec::new();
    let mut rest: u128 = v;
    let mut left: u64 = n;
    while left > 0
        invariant
            le_bytes(v as nat, n as nat) == out@ + le_bytes(rest as nat, left as nat),
        decreases left,
    {
        out.push((rest % 256) as u8);
        proof {
            assert(le_bytes(v as nat, n as nat) =~= out@ + le_bytes(
                (rest / 256) as nat,
                (left - 1) as nat,
            ));
        }
        rest = rest / 256;
        left = left - 1;
    }
    assert(out@ =~= le_bytes(v as nat, n as nat));
    out
}

/// The number that up to 16 bytes hold, least significant first.
pub fn wide_uint_of(s: &Vec<u8>) -> (v: u128)
    requires
        s.len() <= 16,
    ensures
        v as nat == le_value(s@),
{
    let mut i: usize = s.len();
    let mut v: u128 = 0;
    assert(s@.skip(s.len() as int) =~= Seq::<u8>::empty());
    while i > 0
        invariant
            i <= s.len() <= 16,
            v as nat == le_value(s@.skip(i as int)),
        decreases i,
    {
        proof {
            let t = s@.skip(i - 1);
            assert(t.drop_first() =~= s@.skip(i as int));
            lemma_le_value_bound(t);
            lemma_pow256_grows((s.len() - (i - 1)) as nat, 16);
            lemma_pow256_16();
        }
        v = s[i - 1] as u128 + 256 * v;
        i = i - 1;
    }
    assert(s@.skip(0) =~= s@);
    v
}

/// A longer number is not bounded lower.
proof fn lemma_pow256_grows(n: nat, k: nat)
    requires
        n <= k,
    ensures
        pow256(n) <= pow256(k),
    decreases k,
{
    if n < k {
        lemma_pow256_grows(n, (k - 1) as nat);
    }
}

/// 16 bytes are 128 bits.
pub proof fn lemma_pow256_16()
    ensures
        pow256(16) == 0x1_0000_0000_0000_0000 * 0x1_0000_0000_0000_0000,
{
    reveal_with_fuel(pow256, 17);
}

/// The low bytes of a number hold its remainder.
pub proof fn lemma_le_value_mod(v: nat, n: nat)
    ensures
        le_value(le_bytes(v, n)) == v % pow256(n),
        le_bytes(v, n).len() == n,
    decreases n,
{
    if n > 0 {
        let k = (n - 1) as nat;
        lemma_le_value_mod(v / 256, k);
        lemma_pow256_grows(0, k);
        let s = le_bytes(v, n);
        assert(s.drop_first() =~= le_bytes(v / 256, k));
        vstd::arithmetic::div_mod::lemma_mod_breakdown(v as int, 256, pow256(k) as int);
    }
}

/// Up to eight bytes stay within 64 bits.
proof fn lemma_pow256_le(n: nat)
    requires
        n <= 8,
    ensures
        pow256(n) <= 0x1_0000_0000_0000_0000,
{
    reveal_with_fuel(pow256, 9);
}

/// A table whose prefix faults goes no further.
pub proof fn lemma_store_all_stops(m: MemView, t: Seq<Store>, k: int)
    requires
        0 <= k <= t.len(),
        m.store_all(t.take(k)).fault is Some,
    ensures
        m.store_all(t) == m.store_all(t.take(k)),
    decreases t.len() - k,
{
    if k < t.len() {
        assert(t.take(k + 1).drop_last() =~= t.take(k));
        lemma_store_all_stops(m, t, k + 1);
    } else {
        assert(t.take(k) =~= t);
    }
}

/// Mapping a free range keeps the regions ascending.
pub proof fn lemma_mapped_wf(m: MemView, a: u64, n: u64, perm: Perm)
    requires
        m.wf(),
        m.can_map(a, n),
    ensures
        m.mapped(a, n, perm).wf(),
{
    lemma_next_region(m.regions, a as int);
    let k = m.slot(a as int);
    let p = m.mapped(a, n, perm);
    assert forall|i: int, j: int| 0 <= i < j < p.regions.len() implies (
    #[trigger] p.regions[i]).end() <= (#[trigger] p.regions[j]).base by {
        let oi = if i < k {
            i
        } else {
            i - 1
        };
        let oj = if j < k {
            j
        } else {
            j - 1
        };
        if i == k {
            if oj > k {
                assert(m.regions[k].end() <= m.regions[oj].base);
            }
            assert(m.regions[k].end() <= a || a + n <= m.regions[k].base);
        } else if j == k {
            assert(m.regions[oi].end() <= a);
        } else {
            assert(m.regions[oi].end() <= m.regions[oj].base);
        }
    }
    assert forall|i: int| 0 <= i < p.regions.len() implies 0 <= (#[trigger] p.regions[i]).base
        && 0 < p.regions[i].bytes.len() <= MAX_REGION && p.regions[i].end() <= u64::MAX by {
        if i < k {
            assert(p.regions[i] == m.regions[i]);
        } else if i > k {
            assert(p.regions[i] == m.regions[i - 1]);
        }
    }
}

/// A freshly mapped region can be accessed as far as its rights go, and holds
/// zeros.
pub proof fn lemma_mapped_access(m: MemView, a: u64, n: u64, perm: Perm)
    requires
        m.wf(),
        m.can_map(a, n),
    ensures
        perm.read ==> m.mapped(a, n, perm).can_read(a as int, n as int),
        perm.write ==> m.mapped(a, n, perm).can_write(a as int, n as int),
        m.mapped(a, n, perm).bytes_at(a as int, n as int) == Seq::new(n as nat, |i: int| 0u8),
{
    lemma_mapped_wf(m, a, n, perm);
    lemma_next_region(m.regions, a as int);
    let p = m.mapped(a, n, perm);
    let k = m.slot(a as int);
    assert(p.regions[k].holds(a as int));
    lemma_find_region_unique(p, a as int, k);
    assert(p.bytes_at(a as int, n as int) =~= Seq::new(n as nat, |i: int| 0u8));
}

/// A new region leaves what can be read elsewhere where it is.
pub proof fn lemma_mapped_keeps(m: MemView, a: u64, n: u64, perm: Perm, b: u64, k: nat)
    requires
        m.wf(),
        m.can_map(a, n),
        m.can_read(b as int, k as int),
    ensures
        m.mapped(a, n, perm).read(b, k) == m.read(b, k),
{
    if k > 0 {
        lemma_mapped_wf(m, a, n, perm);
        lemma_find_region(m.regions, b as int);
        let p = m.mapped(a, n, perm);
        let i = find_region(m.regions, b as int)->0;
        let j = if i < m.slot(a as int) {
            i
        } else {
            i + 1
        };
        lemma_next_region(m.regions, a as int);
        assert(p.regions[j] == m.regions[i]);
        lemma_find_region_unique(p, b as int, j);
    }
}

/// A new region leaves the loads of a table as they are.
pub proof fn lemma_mapped_keeps_loads(m: MemView, a: u64, n: u64, perm: Perm, t: Seq<Load>)
    requires
        m.wf(),
        m.can_map(a, n),
        m.load_all(t) is Ok,
    ensures
        m.mapped(a, n, perm).load_all(t) == m.load_all(t),
    decreases t.len(),
{
    if t.len() > 0 {
        lemma_mapped_keeps_loads(m, a, n, perm, t.drop_last());
        lemma_mapped_keeps(m, a, n, perm, t.last().addr, t.last().size as nat);
    }
}

/// Removing a region keeps the rest ascending.
proof fn lemma_unmapped_wf(m: MemView, k: int)
    requires
        m.wf(),
        0 <= k < m.regions.len(),
    ensures
        (MemView { regions: m.regions.remove(k) }).wf(),
{
    let p = MemView { regions: m.regions.remove(k) };
    assert forall|i: int, j: int| 0 <= i < j < p.regions.len() implies (
    #[trigger] p.regions[i]).end() <= (#[trigger] p.regions[j]).base by {
        let oi = if i < k {
            i
        } else {
            i + 1
        };
        let oj = if j < k {
            j
        } else {
            j + 1
        };
        assert(m.regions[oi].end() <= m.regions[oj].base);
    }
}

// ---- lemmas -----------------------------------------------------------------

/// A found region holds the address.
pub proof fn lemma_find_region(rs: Seq<RegionView>, a: int)
    ensures
        match find_region(rs, a) {
            Some(i) => 0 <= i < rs.len() && rs[i].holds(a),
            None => forall|i: int| 0 <= i < rs.len() ==> !(#[trigger] rs[i]).holds(a),
        },
    decreases rs.len(),
{
    if rs.len() > 0 && !rs.last().holds(a) {
        lemma_find_region(rs.drop_last(), a);
        if find_region(rs, a) is None {
            assert forall|i: int| 0 <= i < rs.len() implies !(#[trigger] rs[i]).holds(a) by {
                if i < rs.len() - 1 {
                    assert(!rs.drop_last()[i].holds(a));
                }
            }
        }
    }
}

/// In an ascending list the region that holds an address is the found one.
pub proof fn lemma_find_region_unique(m: MemView, a: int, i: int)
    requires
        m.wf(),
        0 <= i < m.regions.len(),
        m.regions[i].holds(a),
    ensures
        find_region(m.regions, a) == Some(i),
{
    lemma_find_region(m.regions, a);
    let j = find_region(m.regions, a)->0;
    if j < i {
        assert(m.regions[j].end() <= m.regions[i].base);
    }
    if i < j {
        assert(m.regions[i].end() <= m.regions[j].base);
    }
}

/// The next region ends above the address, and every earlier one at or below it.
pub proof fn lemma_next_region(rs: Seq<RegionView>, a: int)
    ensures
        match next_region_index(rs, a) {
            Some(k) => 0 <= k < rs.len() && a < rs[k].end() && forall|i: int|
                0 <= i < k ==> (#[trigger] rs[i]).end() <= a,
            None => forall|i: int| 0 <= i < rs.len() ==> (#[trigger] rs[i]).end() <= a,
        },
    decreases rs.len(),
{
    if rs.len() > 0 {
        let d = rs.drop_last();
        lemma_next_region(d, a);
        match next_region_index(d, a) {
            Some(k) => {
                assert forall|i: int| 0 <= i < k implies (#[trigger] rs[i]).end() <= a by {
                    assert(d[i].end() <= a);
                }
            },
            None => {
                assert forall|i: int| 0 <= i < rs.len() - 1 implies (#[trigger] rs[i]).end()
                    <= a by {
                    assert(d[i].end() <= a);
                }
            },
        }
    }
}

/// Laying bytes down keeps every region where it was.
pub proof fn lemma_put_shape(m: MemView, a: int, d: Seq<u8>)
    requires
        m.can_write(a, d.len() as int),
    ensures
        m.put(a, d).regions.len() == m.regions.len(),
        forall|i: int|
            0 <= i < m.regions.len() ==> (#[trigger] m.put(a, d).regions[i]).base
                == m.regions[i].base && m.put(a, d).regions[i].perm == m.regions[i].perm && m.put(
                a,
                d,
            ).regions[i].bytes.len() == m.regions[i].bytes.len(),
        m.wf() ==> m.put(a, d).wf(),
        forall|x: int| #[trigger]
            find_region(m.put(a, d).regions, x) == find_region(m.regions, x),
        forall|x: int, n: int| #[trigger] m.put(a, d).can_read(x, n) == m.can_read(x, n),
        forall|x: int, n: int| #[trigger] m.put(a, d).can_write(x, n) == m.can_write(x, n),
        forall|x: int| #[trigger]
            next_region_index(m.put(a, d).regions, x) == next_region_index(m.regions, x),
        forall|x: u64| #[trigger] m.put(a, d).next(x) == m.next(x),
{
    lemma_find_region(m.regions, a);
    let p = m.put(a, d);
    assert forall|x: int| #[trigger]
        find_region(p.regions, x) == find_region(m.regions, x) by {
        lemma_same_shape(p.regions, m.regions, x);
        lemma_find_region(m.regions, x);
    }
    assert forall|x: int| #[trigger]
        next_region_index(p.regions, x) == next_region_index(m.regions, x) by {
        lemma_same_shape(p.regions, m.regions, x);
    }
    assert forall|x: int, n: int| #[trigger] p.can_read(x, n) == m.can_read(x, n) by {
        assert(find_region(p.regions, x) == find_region(m.regions, x));
        lemma_find_region(m.regions, x);
    }
    assert forall|x: int, n: int| #[trigger] p.can_write(x, n) == m.can_write(x, n) by {
        assert(find_region(p.regions, x) == find_region(m.regions, x));
        lemma_find_region(m.regions, x);
    }
    assert forall|x: u64| #[trigger] p.next(x) == m.next(x) by {
        assert(next_region_index(p.regions, x as int) == next_region_index(
            m.regions,
            x as int,
        ));
        lemma_next_region(m.regions, x as int);
    }
}

/// Lists of regions with the same bounds are searched alike.
proof fn lemma_same_shape(p: Seq<RegionView>, q: Seq<RegionView>, x: int)
    requires
        p.len() == q.len(),
        forall|i: int|
            0 <= i < p.len() ==> (#[trigger] p[i]).base == q[i].base && p[i].bytes.len()
                == q[i].bytes.len(),
    ensures
        find_region(p, x) == find_region(q, x),
        next_region_index(p, x) == next_region_index(q, x),
    decreases p.len(),
{
    if p.len() > 0 {
        assert forall|i: int| 0 <= i < p.len() - 1 implies (#[trigger] p.drop_last()[i]).base
            == q.drop_last()[i].base && p.drop_last()[i].bytes.len()
            == q.drop_last()[i].bytes.len() by {
            assert(p[i].base == q[i].base);
        }
        lemma_same_shape(p.drop_last(), q.drop_last(), x);
        assert(p[p.len() - 1].base == q[q.len() - 1].base);
    }
}

/// What was laid down is read back.
pub proof fn lemma_put_get(m: MemView, a: int, d: Seq<u8>)
    requires
        m.can_write(a, d.len() as int),
    ensures
        m.put(a, d).bytes_at(a, d.len() as int) == d,
{
    lemma_put_shape(m, a, d);
    lemma_find_region(m.regions, a);
    if d.len() > 0 {
        assert(find_region(m.put(a, d).regions, a) == find_region(m.regions, a));
        assert(m.put(a, d).bytes_at(a, d.len() as int) =~= d);
    }
}

/// Bytes outside the range laid down stay as they were.
pub proof fn lemma_put_other(m: MemView, a: int, d: Seq<u8>, b: int, n: int)
    requires
        m.can_write(a, d.len() as int),
        m.can_read(b, n),
        b + n <= a || a + d.len() <= b,
    ensures
        m.put(a, d).bytes_at(b, n) == m.bytes_at(b, n),
{
    lemma_put_shape(m, a, d);
    lemma_find_region(m.regions, a);
    lemma_find_region(m.regions, b);
    if d.len() > 0 && n > 0 {
        assert(find_region(m.put(a, d).regions, b) == find_region(m.regions, b));
        assert(m.put(a, d).bytes_at(b, n) =~= m.bytes_at(b, n));
    }
}

/// `le_bytes` has the asked length.
pub proof fn lemma_le_bytes_len(v: nat, n: nat)
    ensures
        le_bytes(v, n).len() == n,
    decreases n,
{
    if n > 0 {
        lemma_le_bytes_len(v / 256, (n - 1) as nat);
    }
}

/// A number read back from its bytes.
pub proof fn lemma_le_round_trip(v: nat, n: nat)
    requires
        v < pow256(n),
    ensures
        le_value(le_bytes(v, n)) == v,
        le_bytes(v, n).len() == n,
    decreases n,
{
    if n > 0 {
        assert(v / 256 < pow256((n - 1) as nat)) by (nonlinear_arith)
            requires
                v < 256 * pow256((n - 1) as nat),
        ;
        lemma_le_round_trip(v / 256, (n - 1) as nat);
        let s = le_bytes(v, n);
        assert(s.drop_first() =~= le_bytes(v / 256, (n - 1) as nat));
    }
}

/// A number of `n` bytes is below `256^n`.
pub proof fn lemma_le_value_bound(s: Seq<u8>)
    ensures
        le_value(s) < pow256(s.len()),
    decreases s.len(),
{
    if s.len() > 0 {
        lemma_le_value_bound(s.drop_first());
    }
}

/// The powers that scalar accesses use.
pub proof fn lemma_pow256()
    ensures
        pow256(0) == 1,
        pow256(1) == 0x100,
        pow256(2) == 0x1_0000,
        pow256(4) == 0x1_0000_0000,
        pow256(8) == 0x1_0000_0000_0000_0000,
{
    reveal_with_fuel(pow256, 9);
}

/// A table of loads whose prefix faults goes no further.
pub proof fn lemma_load_all_stops(m: MemView, t: Seq<Load>, k: int)
    requires
        0 <= k <= t.len(),
        m.load_all(t.take(k)) is Err,
    ensures
        m.load_all(t) == m.load_all(t.take(k)),
    decreases t.len() - k,
{
    if k < t.len() {
        assert(t.take(k + 1).drop_last() =~= t.take(k));
        lemma_load_all_stops(m, t, k + 1);
    } else {
        assert(t.take(k) =~= t);
    }
}

/// Loads that all succeed.
pub proof fn lemma_load_all_ok(m: MemView, t: Seq<Load>)
    requires
        forall|i: int|
            0 <= i < t.len() ==> m.can_read((#[trigger] t[i]).addr as int, t[i].size as int),
    ensures
        m.load_all(t) is Ok,
        m.load_all(t)->Ok_0.len() == t.len(),
        forall|i: int|
            0 <= i < t.len() ==> #[trigger] m.load_all(t)->Ok_0[i] == m.read_le(
                t[i].addr,
                t[i].size as nat,
            )->Ok_0 as u64,
    decreases t.len(),
{
    if t.len() > 0 {
        let d = t.drop_last();
        assert forall|i: int| 0 <= i < d.len() implies m.can_read(
            (#[trigger] d[i]).addr as int,
            d[i].size as int,
        ) by {
            assert(m.can_read(t[i].addr as int, t[i].size as int));
        }
        lemma_load_all_ok(m, d);
        assert(m.can_read(t[t.len() - 1].addr as int, t[t.len() - 1].size as int));
        assert forall|i: int| 0 <= i < t.len() implies #[trigger] m.load_all(t)->Ok_0[i]
            == m.read_le(t[i].addr, t[i].size as nat)->Ok_0 as u64 by {
            if i < d.len() {
                assert(m.load_all(d)->Ok_0[i] == m.read_le(d[i].addr, d[i].size as nat)->Ok_0 as u64);
            }
        }
    }
}

/// A part of a readable or writable range is so too.
pub proof fn lemma_sub_access(m: MemView, a: int, n: int, b: int, k: int)
    requires
        m.wf(),
        a <= b,
        0 <= k,
        b + k <= a + n,
    ensures
        m.can_read(a, n) ==> m.can_read(b, k),
        m.can_write(a, n) ==> m.can_write(b, k),
{
    if k > 0 && (m.can_read(a, n) || m.can_write(a, n)) {
        lemma_find_region(m.regions, a);
        lemma_find_region_unique(m, b, find_region(m.regions, a)->0);
    }
}

/// Stores leave the mapping as it was.
pub proof fn lemma_store_all_shape(m: MemView, t: Seq<Store>)
    ensures
        m.wf() ==> m.store_all(t).mem.wf(),
        forall|x: int, n: int| #[trigger]
            m.store_all(t).mem.can_read(x, n) == m.can_read(x, n),
        forall|x: int, n: int| #[trigger]
            m.store_all(t).mem.can_write(x, n) == m.can_write(x, n),
        forall|x: u64| #[trigger] m.store_all(t).mem.next(x) == m.next(x),
    decreases t.len(),
{
    if t.len() > 0 {
        lemma_store_all_shape(m, t.drop_last());
        let b = m.store_all(t.drop_last()).mem;
        let s = t.last();
        if b.can_write(s.addr as int, s.bytes().len() as int) {
            lemma_put_shape(b, s.addr as int, s.bytes());
        }
    }
}

/// Stores to writable places all succeed.
pub proof fn lemma_store_all_ok(m: MemView, t: Seq<Store>)
    requires
        forall|i: int|
            0 <= i < t.len() ==> m.can_write((#[trigger] t[i]).addr as int, t[i].size as int),
    ensures
        m.store_all(t).fault is None,
    decreases t.len(),
{
    if t.len() > 0 {
        let d = t.drop_last();
        assert forall|i: int| 0 <= i < d.len() implies m.can_write(
            (#[trigger] d[i]).addr as int,
            d[i].size as int,
        ) by {
            assert(m.can_write(t[i].addr as int, t[i].size as int));
        }
        lemma_store_all_ok(m, d);
        lemma_store_all_shape(m, d);
        let s = t[t.len() - 1];
        lemma_le_bytes_len(s.value as nat, s.size as nat);
        assert(m.can_write(s.addr as int, s.size as int));
    }
}

/// Whether two stores touch no common byte.
pub open spec fn apart(s: Store, t: Store) -> bool {
    s.addr + s.size <= t.addr || t.addr + t.size <= s.addr
}

/// A store that no later one touches is read back.
pub proof fn lemma_store_all_get(m: MemView, t: Seq<Store>, i: int)
    requires
        0 <= i < t.len(),
        m.store_all(t).fault is None,
        m.can_read(t[i].addr as int, t[i].size as int),
        forall|j: int| i < j < t.len() ==> apart(t[i], #[trigger] t[j]),
        t[i].value < pow256(t[i].size as nat),
    ensures
        m.store_all(t).mem.read_le(t[i].addr, t[i].size as nat) == Ok::<nat, Fault>(
            t[i].value as nat,
        ),
    decreases t.len(),
{
    let d = t.drop_last();
    let b = m.store_all(d).mem;
    let s = t.last();
    lemma_store_all_shape(m, d);
    lemma_store_all_shape(m, t);
    lemma_le_bytes_len(s.value as nat, s.size as nat);
    if i == t.len() - 1 {
        lemma_put_get(b, s.addr as int, s.bytes());
        lemma_le_round_trip(s.value as nat, s.size as nat);
    } else {
        assert forall|j: int| i < j < d.len() implies apart(d[i], #[trigger] d[j]) by {
            assert(apart(t[i], t[j]));
        }
        lemma_store_all_get(m, d, i);
        assert(apart(t[i], t[t.len() - 1]));
        lemma_put_other(b, s.addr as int, s.bytes(), t[i].addr as int, t[i].size as int);
    }
}

/// A pointer that was stored is read back.
pub proof fn lemma_pointer_read_back(m: MemView, is_64bit: bool, a: u64, v: u64)
    requires
        m.store(sptr(is_64bit, a, v)).fault is None,
        m.can_read(a as int, sptr(is_64bit, a, v).size as int),
        !is_64bit ==> v < 0x1_0000_0000,
    ensures
        m.store(sptr(is_64bit, a, v)).mem.rptr(is_64bit, a) == Ok::<u64, Fault>(v),
{
    let t = seq![sptr(is_64bit, a, v)];
    assert(t.drop_last() =~= Seq::empty());
    assert(m.store_all(t.drop_last()).mem == m);
    assert(m.store_all(t) == m.store(t[0]));
    lemma_pow256();
    lemma_store_all_get(m, t, 0);
}

/// Stores behind stores that succeeded are one table.
pub proof fn lemma_store_all_join(m: MemView, t: Seq<Store>, u: Seq<Store>)
    requires
        m.store_all(t).fault is None,
    ensures
        m.store_all(t + u) == m.store_all(t).mem.store_all(u),
    decreases u.len(),
{
    if u.len() == 0 {
        assert(t + u =~= t);
    } else {
        lemma_store_all_join(m, t, u.drop_last());
        assert((t + u).drop_last() =~= t + u.drop_last());
    }
}

/// What can be read ends below 2^64.
pub proof fn lemma_read_end(m: MemView, a: int, n: int)
    requires
        m.wf(),
        0 < n,
        m.can_read(a, n),
    ensures
        0 <= a,
        a + n <= u64::MAX,
{
    lemma_find_region(m.regions, a);
}

// ---- blocks -----------------------------------------------------------------

/// Bytes to lay down somewhere.
pub struct Block {
    pub addr: u64,
    pub data: Seq<u8>,
}

/// The memory after a list of blocks was laid down, up to the first fault.
pub open spec fn write_blocks(m: MemView, b: Seq<Block>) -> Stored
    decreases b.len(),
{
    if b.len() == 0 {
        Stored { mem: m, fault: None }
    } else {
        let before = write_blocks(m, b.drop_last());
        if before.fault is Some {
            before
        } else {
            before.mem.write(b.last().addr, b.last().data)
        }
    }
}

/// A block of bytes to lay down.
pub struct Piece {
    pub addr: u64,
    pub data: Vec<u8>,
}

/// The blocks that some pieces stand for.
pub open spec fn piece_blocks(s: Seq<Piece>) -> Seq<Block> {
    Seq::new(s.len(), |i: int| Block { addr: s[i].addr, data: s[i].data@ })
}

/// A list of blocks whose prefix faults goes no further.
proof fn lemma_blocks_stop(m: MemView, b: Seq<Block>, k: int)
    requires
        0 <= k <= b.len(),
        write_blocks(m, b.take(k)).fault is Some,
    ensures
        write_blocks(m, b) == write_blocks(m, b.take(k)),
    decreases b.len() - k,
{
    if k < b.len() {
        assert(b.take(k + 1).drop_last() =~= b.take(k));
        lemma_blocks_stop(m, b, k + 1);
    } else {
        assert(b.take(k) =~= b);
    }
}

/// Lay down some pieces.
pub fn write_pieces(mem: &mut VirtualMemory, ps: &Vec<Piece>) -> (r: Result<(), Fault>)
    ensures
        final(mem)@ == write_blocks(old(mem)@, piece_blocks(ps@)).mem,
        r == fault_result(write_blocks(old(mem)@, piece_blocks(ps@)).fault),
{
    let ghost m = mem@;
    let ghost b = piece_blocks(ps@);
    let mut i: usize = 0;
    assert(b.take(0) =~= Seq::empty());
    while i < ps.len()
        invariant
            i <= ps.len(),
            m == old(mem)@,
            b == piece_blocks(ps@),
            mem@ == write_blocks(m, b.take(i as int)).mem,
            write_blocks(m, b.take(i as int)).fault is None,
        decreases ps.len() - i,
    {
        proof {
            assert(b.take(i + 1).drop_last() =~= b.take(i as int));
            assert(b.take(i + 1).last() == b[i as int]);
        }
        match mem.write(ps[i].addr, &ps[i].data) {
            Ok(_) => {},
            Err(f) => {
                proof {
                    lemma_blocks_stop(m, b, i + 1);
                }
                return Err(f);
            },
        }
        i = i + 1;
    }
    assert(b.take(i as int) =~= b);
    Ok(())
}

/// Blocks leave the mapping as it was.
pub proof fn lemma_blocks_shape(m: MemView, b: Seq<Block>)
    ensures
        m.wf() ==> write_blocks(m, b).mem.wf(),
        forall|x: int, n: int| #[trigger]
            write_blocks(m, b).mem.can_read(x, n) == m.can_read(x, n),
        forall|x: int, n: int| #[trigger]
            write_blocks(m, b).mem.can_write(x, n) == m.can_write(x, n),
    decreases b.len(),
{
    if b.len() > 0 {
        lemma_blocks_shape(m, b.drop_last());
        let k = write_blocks(m, b.drop_last()).mem;
        if k.can_write(b.last().addr as int, b.last().data.len() as int) {
            lemma_put_shape(k, b.last().addr as int, b.last().data);
        }
    }
}

/// Blocks that can all be written are laid down.
pub proof fn lemma_blocks_ok(m: MemView, b: Seq<Block>)
    requires
        forall|i: int|
            0 <= i < b.len() ==> m.can_write((#[trigger] b[i]).addr as int, b[i].data.len() as int),
    ensures
        write_blocks(m, b).fault is None,
    decreases b.len(),
{
    if b.len() > 0 {
        let d = b.drop_last();
        assert forall|i: int| 0 <= i < d.len() implies m.can_write(
            (#[trigger] d[i]).addr as int,
            d[i].data.len() as int,
        ) by {
            assert(d[i] == b[i]);
        }
        lemma_blocks_ok(m, d);
        lemma_blocks_shape(m, d);
        let l = b[b.len() - 1];
        assert(m.can_write(l.addr as int, l.data.len() as int));
    }
}

/// A block that no later one touches is read back: so the parts of an image lie in
/// memory as they lie in the file.
pub proof fn lemma_block_read_back(m: MemView, b: Seq<Block>, i: int)
    requires
        0 <= i < b.len(),
        write_blocks(m, b).fault is None,
        m.can_read(b[i].addr as int, b[i].data.len() as int),
        forall|j: int|
            i < j < b.len() ==> (#[trigger] b[j]).addr + b[j].data.len() <= b[i].addr || b[i].addr
                + b[i].data.len() <= b[j].addr,
    ensures
        write_blocks(m, b).mem.read(b[i].addr, b[i].data.len()) == Ok::<Seq<u8>, Fault>(
            b[i].data,
        ),
    decreases b.len(),
{
    let d = b.drop_last();
    lemma_blocks_shape(m, d);
    lemma_blocks_shape(m, b);
    let k = write_blocks(m, d).mem;
    if i == b.len() - 1 {
        lemma_put_get(k, b[i].addr as int, b[i].data);
    } else {
        assert forall|j: int| i < j < d.len() implies (#[trigger] d[j]).addr + d[j].data.len()
            <= d[i].addr || d[i].addr + d[i].data.len() <= d[j].addr by {
            assert(b[j].addr + b[j].data.len() <= b[i].addr || b[i].addr + b[i].data.len()
                <= b[j].addr);
        }
        lemma_block_read_back(m, d, i);
        let l = b[b.len() - 1];
        assert(l.addr + l.data.len() <= b[i].addr || b[i].addr + b[i].data.len() <= l.addr);
        lemma_put_other(k, l.addr as int, l.data, b[i].addr as int, b[i].data.len() as int);
    }
}

} // verus!
