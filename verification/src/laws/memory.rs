//! Guest memory: words, and the regions that a guest maps.

use vstd::prelude::*;

use crate::api::Api;
use crate::cpu::CpuView;
use crate::dispatch::dispatch_out;
use crate::host::HostReply;
use crate::laws::{given, gives, lemma_read_2, lemma_read_3, lemma_read_4, lemma_told};
use crate::laws::served::{
    bound_virtual_protect, bound_virtual_query, serves_virtual_alloc, serves_virtual_free,
};
use crate::mem::{
    apart, find_region, ga, le_value, lemma_find_region, lemma_find_region_unique,
    lemma_le_value_bound, lemma_mapped_access, lemma_mapped_keeps, lemma_mapped_wf, lemma_pow256,
    lemma_store_all_get, lemma_sub_access, pow256, Fault, MemView, Perm,
};
use crate::named::Named;
use crate::os::OsView;
use crate::util::{lemma_first_index, lemma_first_index_is, lemma_round_up, max_int, round_down};
use crate::vm::{
    holding, info_table, is_first_window, is_window, region_size, starting, MemoryInfo, GRAN, PAGE,
};

verus! {

// ---- words ------------------------------------------------------------------

/// Addresses count up, and wrap at the end of the address space.
pub proof fn lemma_addresses(a: u64, k: int)
    ensures
        0 <= a + k <= u64::MAX ==> ga(a, k) == a + k,
        u64::MAX < a + k <= 2 * u64::MAX + 1 ==> ga(a, k) == a + k - u64::MAX - 1,
        -u64::MAX <= a + k < 0 ==> ga(a, k) == a + k + u64::MAX + 1,
{
}

proof fn lemma_value_2(s: Seq<u8>)
    requires
        s.len() == 2,
    ensures
        le_value(s) == s[0] + 256 * s[1],
{
    reveal_with_fuel(le_value, 3);
    let t = s.drop_first();
    assert(t[0] == s[1]);
    assert(t.drop_first().len() == 0);
}

proof fn lemma_value_split(s: Seq<u8>, k: nat)
    requires
        k <= s.len(),
    ensures
        le_value(s) == le_value(s.take(k as int)) + pow256(k) * le_value(s.skip(k as int)),
    decreases k,
{
    if k == 0 {
        assert(s.skip(0) =~= s);
        assert(s.take(0).len() == 0);
        assert(pow256(0) == 1);
        assert(le_value(s.take(0)) == 0);
        assert(1 * le_value(s) == le_value(s));
    } else {
        let d = s.drop_first();
        lemma_value_split(d, (k - 1) as nat);
        let h = s.take(k as int);
        assert(h.drop_first() =~= d.take(k - 1));
        assert(d.skip(k - 1) =~= s.skip(k as int));
        let x = le_value(d.take(k - 1));
        let y = le_value(s.skip(k as int));
        let p = pow256((k - 1) as nat);
        assert(256 * (x + p * y) == 256 * x + (256 * p) * y) by (nonlinear_arith);
        assert(pow256(k) == 256 * p);
        assert(h[0] == s[0]);
        assert(le_value(h) == s[0] as nat + 256 * x);
    }
}

/// A part of a longer read.
proof fn lemma_part(m: MemView, a: u64, n: nat, b: int, k: nat)
    requires
        m.wf(),
        0 < k,
        a <= b,
        b + k <= a + n,
        m.can_read(a as int, n as int),
    ensures
        m.can_read(b, k as int),
        b <= u64::MAX,
        m.bytes_at(b, k as int) == m.bytes_at(a as int, n as int).subrange(b - a, b - a + k),
        m.bytes_at(a as int, n as int).len() == n,
{
    lemma_find_region(m.regions, a as int);
    lemma_sub_access(m, a as int, n as int, b, k as int);
    let r = find_region(m.regions, a as int)->0;
    lemma_find_region_unique(m, b, r);
    assert(m.bytes_at(b, k as int) =~= m.bytes_at(a as int, n as int).subrange(b - a, b - a + k));
}

/// Words are stored with their low half first, down to bytes.
pub proof fn lemma_little_endian(m: MemView, a: u64)
    requires
        m.wf(),
        m.can_read(a as int, 8),
    ensures
        m.r16(a) is Ok && m.r32(a) is Ok && m.r64(a) is Ok,
        m.r16(a)->Ok_0 == m.r8(a)->Ok_0 + 0x100 * m.r8((a + 1) as u64)->Ok_0,
        m.r32(a)->Ok_0 == m.r16(a)->Ok_0 + 0x1_0000 * m.r16((a + 2) as u64)->Ok_0,
        m.r64(a)->Ok_0 == m.r32(a)->Ok_0 + 0x1_0000_0000 * m.r32((a + 4) as u64)->Ok_0,
{
    lemma_pow256();
    lemma_part(m, a, 8, a as int, 1);
    lemma_part(m, a, 8, a + 1, 1);
    lemma_part(m, a, 8, a as int, 2);
    lemma_part(m, a, 8, a + 2, 2);
    lemma_part(m, a, 8, a as int, 4);
    lemma_part(m, a, 8, a + 4, 4);
    let s = m.bytes_at(a as int, 8);
    let s2 = m.bytes_at(a as int, 2);
    let s4 = m.bytes_at(a as int, 4);
    lemma_value_2(s2);
    lemma_one(m.bytes_at(a as int, 1));
    lemma_one(m.bytes_at(a + 1, 1));
    lemma_value_split(s4, 2);
    assert(s4.take(2) =~= s2);
    assert(s4.skip(2) =~= m.bytes_at(a + 2, 2));
    lemma_value_split(s, 4);
    assert(s.take(4) =~= s4);
    assert(s.skip(4) =~= m.bytes_at(a + 4, 4));
    lemma_le_value_bound(s);
    lemma_le_value_bound(s4);
    lemma_le_value_bound(s2);
    lemma_le_value_bound(m.bytes_at(a + 2, 2));
    lemma_le_value_bound(m.bytes_at(a + 4, 4));
}

proof fn lemma_one(s: Seq<u8>)
    requires
        s.len() == 1,
    ensures
        le_value(s) == s[0],
{
    reveal_with_fuel(le_value, 2);
}

// ---- regions ----------------------------------------------------------------

/// `VirtualAlloc` without an address gives pages that nobody had, on a boundary of 64 KiB,
/// that can be read and written and are zero; what was mapped stays as it was.
pub proof fn lemma_allocates(
    v: OsView,
    c: CpuView,
    m: MemView,
    host: HostReply,
    a: Seq<u64>,
    b: u64,
    x: u64,
    k: nat,
    i: int,
)
    requires
        m.wf(),
        given(v, c, m, a),
        a.len() == 4,
        a[0] == 0,
        gives(dispatch_out(v, Api::VirtualAlloc, c, m, host), b),
        b != 0,
    ensures
        ({
            let o = dispatch_out(v, Api::VirtualAlloc, c, m, host);
            let n = if a[1] == 0 {
                1
            } else {
                a[1] as int
            };
            &&& b % 0x1_0000 == 0
            &&& m.is_free(b as int, n)
            &&& o.mem.can_read(b as int, n)
            &&& o.mem.can_write(b as int, n)
            &&& 0 <= i < n ==> o.mem.bytes_at(b as int, n)[i] == 0
            &&& m.can_read(x as int, k as int) ==> o.mem.read(x, k) == m.read(x, k)
            &&& o.os.last_error == v.last_error
        }),
{
    reveal(crate::ntvm::valloc_out);
    serves_virtual_alloc(v, c, m, host);
    lemma_read_4(v, c, m, a, 0, 1, 2, 3);
    let size = region_size(a[1]);
    lemma_round_up(max_int(a[1] as int, 1), PAGE as int);
    let n = size as u64;
    assert(size <= u64::MAX);
    assert(is_first_window(m, v.vm.next, n, b));
    assert(is_window(m, b as int, n));
    lemma_round_up(n as int, GRAN as int);
    assert(m.can_map(b, n));
    lemma_mapped_access(m, b, n, Perm::spec_rwx());
    lemma_mapped_wf(m, b, n, Perm::spec_rwx());
    let want = if a[1] == 0 {
        1nat
    } else {
        a[1] as nat
    };
    let w = m.mapped(b, n, Perm::spec_rwx());
    lemma_sub_access(w, b as int, n as int, b as int, want as int);
    lemma_part(w, b, n as nat, b as int, want);
    if m.can_read(x as int, k as int) {
        lemma_mapped_keeps(m, b, n, Perm::spec_rwx(), x, k);
    }
}

/// `VirtualAlloc` inside a reservation commits it there and leaves memory as it is.
pub proof fn lemma_commits(
    v: OsView,
    c: CpuView,
    m: MemView,
    host: HostReply,
    a: Seq<u64>,
    i: int,
)
    requires
        given(v, c, m, a),
        a.len() == 4,
        a[0] != 0,
        a[0] % 0x1000 == 0,
        v.vm.holder(a[0]) == Some(i),
        0 <= i < v.vm.allocs.len(),
    ensures
        ({
            let o = dispatch_out(v, Api::VirtualAlloc, c, m, host);
            let x = o.os.vm.allocs[i];
            &&& gives(o, a[0])
            &&& o.mem == m
            &&& x.base == v.vm.allocs[i].base && x.size == v.vm.allocs[i].size
            &&& x.committed <==> v.vm.allocs[i].committed || (a[2] as u32) & 0x1000 != 0
            &&& a[3] as u32 != 0 ==> x.protect == a[3] as u32
            &&& a[3] as u32 == 0 ==> x.protect == v.vm.allocs[i].protect
        }),
{
    reveal(crate::ntvm::valloc_out);
    serves_virtual_alloc(v, c, m, host);
    lemma_read_4(v, c, m, a, 0, 1, 2, 3);
    assert(round_down(a[0] as int, PAGE as int) == a[0]);
}

/// `VirtualFree` that releases takes the reservation that starts there away, with its memory,
/// and no other; one that decommits keeps it.
pub proof fn lemma_releases(
    v: OsView,
    c: CpuView,
    m: MemView,
    host: HostReply,
    a: Seq<u64>,
    i: int,
)
    requires
        given(v, c, m, a),
        a.len() == 3,
        a[0] % 0x1000 == 0,
        0 <= i < v.vm.allocs.len(),
        v.vm.allocs[i].base == a[0],
        forall|j: int| 0 <= j < i ==> (#[trigger] v.vm.allocs[j]).base != a[0],
    ensures
        ({
            let o = dispatch_out(v, Api::VirtualFree, c, m, host);
            let t = a[2] as u32;
            &&& gives(o, 1)
            &&& t & 0x8000 != 0 ==> o.os.vm.allocs == v.vm.allocs.remove(i) && o.mem == m.unmapped(
                a[0],
            )
            &&& t & 0x8000 == 0 ==> o.os.vm.allocs.len() == v.vm.allocs.len() && o.mem == m
        }),
{
    reveal(crate::ntvm::vfree_out);
    serves_virtual_free(v, c, m, host);
    lemma_read_2(v, c, m, a, 0, 2);
    assert(round_down(a[0] as int, PAGE as int) == a[0]);
    assert forall|j: int| 0 <= j < i implies !starting(a[0])(#[trigger] v.vm.allocs[j]) by {
        assert(v.vm.allocs[j].base != a[0]);
    }
    lemma_first_index_is(v.vm.allocs, starting(a[0]), i);
    lemma_first_index(v.vm.allocs, holding(a[0] as int));
}

/// What is unmapped cannot be read or written any more; every other region stays.
pub proof fn lemma_unmapped(m: MemView, k: int, j: int)
    requires
        m.wf(),
        0 <= k < m.regions.len(),
        0 <= j < m.regions.len(),
        j != k,
    ensures
        ({
            let w = m.unmapped(m.regions[k].base as u64);
            &&& !w.can_read(m.regions[k].base, 1)
            &&& !w.can_write(m.regions[k].base, 1)
            &&& w.regions.len() == m.regions.len() - 1
            &&& w.regions.contains(m.regions[j])
        }),
{
    let b = m.regions[k].base;
    lemma_find_region_unique(m, b, k);
    let w = m.unmapped(b as u64);
    assert(w.regions == m.regions.remove(k));
    lemma_find_region(w.regions, b);
    if let Some(x) = find_region(w.regions, b) {
        let y = if x < k {
            x
        } else {
            x + 1
        };
        assert(w.regions[x] == m.regions[y]);
        if y < k {
            assert(m.regions[y].end() <= m.regions[k].base);
        } else {
            assert(m.regions[k].end() <= m.regions[y].base);
        }
    }
    let z = if j < k {
        j
    } else {
        j - 1
    };
    assert(w.regions[z] == m.regions[j]);
}

/// `VirtualProtect` tells the protection that the pages had, and they have the new one from
/// then on.
pub proof fn lemma_protects(
    v: OsView,
    c: CpuView,
    m: MemView,
    host: HostReply,
    a: Seq<u64>,
    i: int,
)
    requires
        given(v, c, m, a),
        a.len() == 4,
        a[0] % 0x1000 == 0,
        v.vm.holder(a[0]) == Some(i),
        0 <= i < v.vm.allocs.len(),
        a[3] != 0,
        m.can_read(a[3] as int, 4),
        dispatch_out(v, Api::Bound(Named::VirtualProtect), c, m, host).r is Ok,
    ensures
        ({
            let o = dispatch_out(v, Api::Bound(Named::VirtualProtect), c, m, host);
            &&& gives(o, 1)
            &&& o.mem.r32(a[3]) == Ok::<u32, Fault>(v.vm.allocs[i].protect)
            &&& o.os.vm.allocs[i].protect == a[2] as u32
            &&& o.os.vm.allocs[i].base == v.vm.allocs[i].base
            &&& o.os.vm.allocs.len() == v.vm.allocs.len()
        }),
{
    reveal(crate::ntvm::vprotect_out);
    bound_virtual_protect(v, c, m, host);
    lemma_read_3(v, c, m, a, 0, 2, 3);
    assert(round_down(a[0] as int, PAGE as int) == a[0]);
    lemma_told(m, a[3], v.vm.allocs[i].protect);
}

/// Where a field of a record stands.
proof fn lemma_info_place(buf: u64, x: MemoryInfo, i: int)
    requires
        buf + 0x30 <= u64::MAX,
        0 <= i < 9,
    ensures
        ({
            let f = info_table(true, buf, x)[i];
            let wide = i == 0 || i == 1 || i == 4;
            &&& f.addr == buf + if i < 2 {
                8 * i
            } else if i < 5 {
                0x08 + 4 * i
            } else {
                0x0C + 4 * i
            }
            &&& f.size == if wide {
                8int
            } else {
                4
            }
            &&& !wide ==> f.value <= u32::MAX
        }),
        info_table(true, buf, x).len() == 9,
{
}

/// A field of a record that was stored with the others.
proof fn lemma_info_field(m: MemView, buf: u64, x: MemoryInfo, i: int)
    requires
        buf + 0x30 <= u64::MAX,
        m.store_all(info_table(true, buf, x)).fault is None,
        0 <= i < 9,
        m.can_read(info_table(true, buf, x)[i].addr as int, info_table(true, buf, x)[i].size as int),
    ensures
        m.store_all(info_table(true, buf, x)).mem.read_le(
            info_table(true, buf, x)[i].addr,
            info_table(true, buf, x)[i].size as nat,
        ) == Ok::<nat, Fault>(info_table(true, buf, x)[i].value as nat),
{
    let t = info_table(true, buf, x);
    lemma_pow256();
    lemma_info_place(buf, x, i);
    assert forall|j: int| i < j < t.len() implies apart(t[i], #[trigger] t[j]) by {
        lemma_info_place(buf, x, j);
    }
    lemma_store_all_get(m, t, i);
}

/// Where the fields of a record stand.
proof fn lemma_info_record(m: MemView, buf: u64, x: MemoryInfo)
    requires
        m.wf(),
        buf + 0x30 <= u64::MAX,
        m.can_read(buf as int, 0x30),
        m.store_all(info_table(true, buf, x)).fault is None,
    ensures
        ({
            let k = m.store_all(info_table(true, buf, x)).mem;
            &&& k.r64(buf) == Ok::<u64, Fault>(x.base)
            &&& k.r64((buf + 8) as u64) == Ok::<u64, Fault>(x.alloc_base)
            &&& k.r32((buf + 16) as u64) == Ok::<u32, Fault>(x.alloc_protect)
            &&& k.r64((buf + 24) as u64) == Ok::<u64, Fault>(x.region_size)
            &&& k.r32((buf + 32) as u64) == Ok::<u32, Fault>(x.state)
            &&& k.r32((buf + 36) as u64) == Ok::<u32, Fault>(x.protect)
            &&& k.r32((buf + 40) as u64) == Ok::<u32, Fault>(x.mtype)
        }),
{
    lemma_sub_access(m, buf as int, 0x30, buf as int, 8);
    lemma_sub_access(m, buf as int, 0x30, buf + 8, 8);
    lemma_sub_access(m, buf as int, 0x30, buf + 16, 4);
    lemma_sub_access(m, buf as int, 0x30, buf + 24, 8);
    lemma_sub_access(m, buf as int, 0x30, buf + 32, 4);
    lemma_sub_access(m, buf as int, 0x30, buf + 36, 4);
    lemma_sub_access(m, buf as int, 0x30, buf + 40, 4);
    lemma_info_field(m, buf, x, 0);
    lemma_info_field(m, buf, x, 1);
    lemma_info_field(m, buf, x, 2);
    lemma_info_field(m, buf, x, 4);
    lemma_info_field(m, buf, x, 5);
    lemma_info_field(m, buf, x, 6);
    lemma_info_field(m, buf, x, 7);
}

/// `VirtualQuery` in 64-bit code fills a record of 48 bytes: the page, where its reservation
/// starts and with what protection, how far it reaches, whether it is committed (0x1000),
/// reserved (0x2000) or free (0x10000), its protection and its kind. Of an address inside a
/// reservation it tells that reservation.
pub proof fn lemma_queries_memory(
    v: OsView,
    c: CpuView,
    m: MemView,
    host: HostReply,
    a: Seq<u64>,
    i: int,
)
    requires
        v.wide(),
        m.wf(),
        given(v, c, m, a),
        a.len() == 2,
        a[1] != 0,
        a[1] + 0x30 <= u64::MAX,
        m.can_read(a[1] as int, 0x30),
        v.vm.holder(a[0]) == Some(i),
        0 <= i < v.vm.allocs.len(),
        v.vm.allocs[i].base <= a[0] < v.vm.allocs[i].base + v.vm.allocs[i].size,
        v.vm.allocs[i].base + v.vm.allocs[i].size <= u64::MAX,
        dispatch_out(v, Api::Bound(Named::VirtualQuery), c, m, host).r is Ok,
    ensures
        ({
            let o = dispatch_out(v, Api::Bound(Named::VirtualQuery), c, m, host);
            let x = v.vm.allocs[i];
            let page = a[0] - a[0] % 0x1000;
            &&& gives(o, 48)
            &&& o.mem.r64(a[1]) == Ok::<u64, Fault>(page as u64)
            &&& o.mem.r64((a[1] + 8) as u64) == Ok::<u64, Fault>(x.base)
            &&& o.mem.r32((a[1] + 16) as u64) == Ok::<u32, Fault>(x.protect)
            &&& o.mem.r64((a[1] + 24) as u64) == Ok::<u64, Fault>((x.base + x.size - page) as u64)
            &&& o.mem.r32((a[1] + 32) as u64) == Ok::<u32, Fault>(
                if x.committed {
                    0x1000
                } else {
                    0x2000
                },
            )
            &&& o.mem.r32((a[1] + 36) as u64) == Ok::<u32, Fault>(
                if x.committed {
                    x.protect
                } else {
                    0
                },
            )
            &&& o.mem.r32((a[1] + 40) as u64) == Ok::<u32, Fault>(x.mtype)
        }),
{
    reveal(crate::ntvm::vquery_reply);
    bound_virtual_query(v, c, m, host);
    lemma_read_2(v, c, m, a, 0, 1);
    assert(round_down(a[0] as int, PAGE as int) == a[0] - a[0] % 0x1000);
    lemma_info_record(m, a[1], v.vm.info(m, a[0]));
}

} // verus!
