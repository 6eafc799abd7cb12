//! Bytes and strings in guest memory: what the calls on them leave behind and answer with.

use vstd::prelude::*;

use crate::api::Api;
use crate::call::args_at;
use crate::cpu::CpuView;
use crate::crt::{block_order_from, bounded_from, bounded_reply, order_reply, units_copied};
use crate::dispatch::dispatch_out;
use crate::gstr::{bytes_from, wide_len_from, wide_order_from};
use crate::host::HostReply;
use crate::laws::{given, gives, lemma_read_2, lemma_read_3};
use crate::laws::served::{
    serves_char_next_a, serves_char_next_w, serves_char_prev_w, serves_lstrcat_w, serves_lstrcmp_w,
    serves_lstrcmpi_w, serves_lstrcpy_w, serves_lstrcpyn_w, serves_lstrlen_a, serves_lstrlen_w,
    serves_memcmp, serves_memcpy, serves_memset, serves_strlen,
};
use crate::mem::{
    ga, lemma_find_region, lemma_le_round_trip, lemma_pow256, lemma_put_get, lemma_put_other,
    lemma_put_shape, s16, Fault, MemView,
};
use crate::os::OsView;

verus! {

// ---- blocks -----------------------------------------------------------------

/// One byte that was read as part of a longer run.
proof fn lemma_byte_of(m: MemView, a: u64, n: nat, i: int)
    requires
        m.wf(),
        m.can_read(a as int, n as int),
        0 <= i < n,
    ensures
        a + n <= u64::MAX,
        m.r8((a + i) as u64) == Ok::<u8, Fault>(m.bytes_at(a as int, n as int)[i]),
{
    lemma_find_region(m.regions, a as int);
    crate::mem::lemma_sub_access(m, a as int, n as int, a + i, 1);
    let k = crate::mem::find_region(m.regions, a as int)->0;
    crate::mem::lemma_find_region_unique(m, a + i, k);
    let s = m.bytes_at(a + i, 1);
    reveal_with_fuel(crate::mem::le_value, 2);
    assert(s.len() == 1);
    assert(s[0] == m.bytes_at(a as int, n as int)[i]);
}

/// A byte that a write did not touch.
proof fn lemma_other_byte(m: MemView, a: u64, d: Seq<u8>, x: u64)
    requires
        m.can_write(a as int, d.len() as int),
        x < a || a + d.len() <= x,
    ensures
        m.put(a as int, d).r8(x) == m.r8(x),
{
    lemma_put_shape(m, a as int, d);
    if m.can_read(x as int, 1) {
        lemma_put_other(m, a as int, d, x as int, 1);
    }
}

/// `memcpy` and `memmove` answer with the destination, which then holds what the source held
/// before, also where the two overlap; nothing else changes. They fault only where the source
/// cannot be read or the destination cannot be written.
pub proof fn lemma_copies(
    v: OsView,
    c: CpuView,
    m: MemView,
    host: HostReply,
    a: Seq<u64>,
    i: int,
    x: u64,
)
    requires
        m.wf(),
        given(v, c, m, a),
        a.len() == 3,
    ensures
        ({
            let o = dispatch_out(v, Api::Memcpy, c, m, host);
            let n = a[2] as int;
            &&& o.os == v
            &&& o.r is Ok <==> m.can_read(a[1] as int, n) && m.can_write(a[0] as int, n)
            &&& o.r is Ok ==> gives(o, a[0])
            &&& o.r is Ok && 0 <= i < n && m.can_read(a[0] as int, n) ==> o.mem.r8(
                (a[0] + i) as u64,
            ) == m.r8((a[1] + i) as u64)
            &&& x < a[0] || a[0] + n <= x ==> o.mem.r8(x) == m.r8(x)
        }),
{
    reveal(crate::crt::move_reply);
    serves_memcpy(v, c, m, host);
    lemma_read_3(v, c, m, a, 0, 1, 2);
    let n = a[2] as nat;
    if m.can_read(a[1] as int, n as int) && m.can_write(a[0] as int, n as int) {
        let d = m.bytes_at(a[1] as int, n as int);
        lemma_find_region(m.regions, a[1] as int);
        assert(d.len() == n);
        lemma_put_shape(m, a[0] as int, d);
        lemma_put_get(m, a[0] as int, d);
        if x < a[0] || a[0] + n <= x {
            lemma_other_byte(m, a[0], d, x);
        }
        if 0 <= i < n && m.can_read(a[0] as int, n as int) {
            lemma_byte_of(m, a[1], n, i);
            lemma_byte_of(m.put(a[0] as int, d), a[0], n, i);
        }
    }
    if m.can_read(a[1] as int, n as int) {
        lemma_find_region(m.regions, a[1] as int);
        assert(m.bytes_at(a[1] as int, n as int).len() == n);
    }
}

/// `memset` answers with the destination, each byte of which is then the low byte of the
/// value; nothing else changes. It faults only where the destination cannot be written.
pub proof fn lemma_fills(
    v: OsView,
    c: CpuView,
    m: MemView,
    host: HostReply,
    a: Seq<u64>,
    i: int,
    x: u64,
)
    requires
        m.wf(),
        given(v, c, m, a),
        a.len() == 3,
    ensures
        ({
            let o = dispatch_out(v, Api::Memset, c, m, host);
            let n = a[2] as int;
            &&& o.os == v
            &&& o.r is Ok <==> m.can_write(a[0] as int, n)
            &&& o.r is Ok ==> gives(o, a[0])
            &&& o.r is Ok && 0 <= i < n && m.can_read(a[0] as int, n) ==> o.mem.r8(
                (a[0] + i) as u64,
            ) == Ok::<u8, Fault>((a[1] % 256) as u8)
            &&& x < a[0] || a[0] + n <= x ==> o.mem.r8(x) == m.r8(x)
        }),
{
    reveal(crate::crt::fill_reply);
    serves_memset(v, c, m, host);
    lemma_read_3(v, c, m, a, 0, 1, 2);
    let n = a[2] as nat;
    let y = a[1];
    assert(y as u8 == (y % 256) as u8) by (bit_vector);
    let d = crate::crt::repeated(a[1] as u8, n);
    if m.can_write(a[0] as int, n as int) {
        lemma_put_shape(m, a[0] as int, d);
        lemma_put_get(m, a[0] as int, d);
        if x < a[0] || a[0] + n <= x {
            lemma_other_byte(m, a[0], d, x);
        }
        if 0 <= i < n && m.can_read(a[0] as int, n as int) {
            lemma_byte_of(m.put(a[0] as int, d), a[0], n, i);
        }
    }
}

/// Whether two blocks of `n` bytes are the same.
pub open spec fn same_bytes(m: MemView, a: u64, b: u64, n: u64) -> bool {
    forall|i: int| 0 <= i < n ==> #[trigger] m.r8(ga(a, i)) == m.r8(ga(b, i))
}

/// Whether byte `i` is the first in which two blocks differ.
pub open spec fn first_difference(m: MemView, a: u64, b: u64, n: u64, i: int) -> bool {
    &&& 0 <= i < n
    &&& same_bytes(m, a, b, i as u64)
    &&& m.r8(ga(a, i)) != m.r8(ga(b, i))
}

proof fn lemma_order_from(m: MemView, a: u64, b: u64, n: u64, k: int)
    requires
        0 <= k <= n,
        same_bytes(m, a, b, k as u64),
        block_order_from(m, a, b, n, k) is Ok,
    ensures
        ({
            let x = block_order_from(m, a, b, n, k)->Ok_0;
            &&& x == 0 <==> same_bytes(m, a, b, n)
            &&& forall|i: int| #[trigger]
                first_difference(m, a, b, n, i) ==> (x < 0x8000_0000_0000_0000 <==> m.r8(
                    ga(a, i),
                )->Ok_0 > m.r8(ga(b, i))->Ok_0)
        }),
    decreases n - k,
{
    if k < n {
        if m.r8(ga(a, k)) == m.r8(ga(b, k)) {
            lemma_order_from(m, a, b, n, k + 1);
        } else {
            let x = block_order_from(m, a, b, n, k)->Ok_0;
            assert forall|i: int| #[trigger] first_difference(m, a, b, n, i) implies i
                == k by {
                if k < i {
                    assert(m.r8(ga(a, k)) == m.r8(ga(b, k)));
                }
                if i < k {
                    assert(m.r8(ga(a, i)) == m.r8(ga(b, i)));
                }
            }
        }
    } else {
        assert forall|i: int| #[trigger] first_difference(m, a, b, n, i) implies false by {
            assert(m.r8(ga(a, i)) == m.r8(ga(b, i)));
        }
    }
}

/// `memcmp` answers with 0 exactly where the blocks are the same, and else with the sign of
/// the order of the first two bytes that differ.
pub proof fn lemma_orders_blocks(
    v: OsView,
    c: CpuView,
    m: MemView,
    host: HostReply,
    a: Seq<u64>,
    x: u64,
    i: int,
)
    requires
        given(v, c, m, a),
        a.len() == 3,
        gives(dispatch_out(v, Api::Memcmp, c, m, host), x),
    ensures
        x == 0 <==> same_bytes(m, a[0], a[1], a[2]),
        first_difference(m, a[0], a[1], a[2], i) ==> (x < 0x8000_0000_0000_0000 <==> m.r8(
            ga(a[0], i),
        )->Ok_0 > m.r8(ga(a[1], i))->Ok_0),
        dispatch_out(v, Api::Memcmp, c, m, host).mem == m,
        dispatch_out(v, Api::Memcmp, c, m, host).os == v,
{
    serves_memcmp(v, c, m, host);
    lemma_read_3(v, c, m, a, 0, 1, 2);
    lemma_order_from(m, a[0], a[1], a[2], 0);
}

// ---- lengths ----------------------------------------------------------------

/// Whether the byte string at `p` has `n` bytes before its NUL.
pub open spec fn byte_string(m: MemView, p: u64, n: int) -> bool {
    &&& m.r8(ga(p, n)) == Ok::<u8, Fault>(0)
    &&& forall|i: int| 0 <= i < n ==> (#[trigger] m.r8(ga(p, i))) is Ok && m.r8(ga(p, i))->Ok_0 != 0
}

/// Whether the string of code units at `p` has `n` units before its NUL.
pub open spec fn unit_string(m: MemView, p: u64, n: int) -> bool {
    &&& m.r16(ga(p, 2 * n)) == Ok::<u16, Fault>(0)
    &&& forall|i: int| 0 <= i < n ==> (#[trigger] m.r16(ga(p, 2 * i))) is Ok && m.r16(ga(p, 2 * i))->Ok_0 != 0
}

proof fn lemma_bytes_len(m: MemView, p: u64, max: u64, n: int, k: int)
    requires
        0 <= k <= n < max,
        byte_string(m, p, n),
    ensures
        bytes_from(m, p, max, k) is Ok,
        bytes_from(m, p, max, k)->Ok_0.len() == n - k,
    decreases n - k,
{
    if k < n {
        assert(m.r8(ga(p, k)) is Ok);
        lemma_bytes_len(m, p, max, n, k + 1);
    }
}

proof fn lemma_units_len(m: MemView, p: u64, n: int, k: int)
    requires
        0 <= k <= n <= 0x10_0000,
        unit_string(m, p, n),
    ensures
        wide_len_from(m, p, k) == Ok::<int, Fault>(n),
    decreases n - k,
{
    if k < n {
        assert(m.r16(ga(p, 2 * k)) is Ok);
        lemma_units_len(m, p, n, k + 1);
    }
}

/// The calls that measure a string answer with the number of bytes, or of code units, before
/// its NUL, up to a megabyte or so; a null pointer has none where the call takes one.
pub proof fn lemma_lengths(v: OsView, c: CpuView, m: MemView, host: HostReply, p: u64, n: int)
    requires
        given(v, c, m, seq![p]),
    ensures
        byte_string(m, p, n) && 0 <= n < 0x10_0000 ==> gives(
            dispatch_out(v, Api::Strlen, c, m, host),
            n as u64,
        ),
        byte_string(m, p, n) && 0 <= n < 0x10_0000 && p != 0 ==> gives(
            dispatch_out(v, Api::LstrlenA, c, m, host),
            n as u64,
        ),
        unit_string(m, p, n) && 0 <= n <= 0x10_0000 && p != 0 ==> gives(
            dispatch_out(v, Api::LstrlenW, c, m, host),
            n as u64,
        ),
        p == 0 ==> gives(dispatch_out(v, Api::LstrlenA, c, m, host), 0),
        p == 0 ==> gives(dispatch_out(v, Api::LstrlenW, c, m, host), 0),
{
    reveal(crate::crt::byte_len_reply);
    reveal(crate::crt::wide_len_reply);
    serves_strlen(v, c, m, host);
    serves_lstrlen_a(v, c, m, host);
    serves_lstrlen_w(v, c, m, host);
    assert(seq![p][0] == p);
    if byte_string(m, p, n) && 0 <= n < 0x10_0000 {
        lemma_bytes_len(m, p, 0x10_0000, n, 0);
    }
    if unit_string(m, p, n) && 0 <= n <= 0x10_0000 {
        lemma_units_len(m, p, n, 0);
    }
}

/// `CharNext` steps over one character and stops at the end.
pub proof fn lemma_steps_forward(v: OsView, c: CpuView, m: MemView, host: HostReply, p: u64)
    requires
        given(v, c, m, seq![p]),
        p <= u64::MAX - 2,
    ensures
        m.r16(p) == Ok::<u16, Fault>(0) ==> gives(dispatch_out(v, Api::CharNextW, c, m, host), p),
        m.r16(p) is Ok && m.r16(p)->Ok_0 != 0 ==> gives(
            dispatch_out(v, Api::CharNextW, c, m, host),
            (p + 2) as u64,
        ),
        m.r8(p) == Ok::<u8, Fault>(0) ==> gives(dispatch_out(v, Api::CharNextA, c, m, host), p),
        m.r8(p) is Ok && m.r8(p)->Ok_0 != 0 ==> gives(
            dispatch_out(v, Api::CharNextA, c, m, host),
            (p + 1) as u64,
        ),
{
    reveal(crate::crt::next_reply);
    serves_char_next_w(v, c, m, host);
    serves_char_next_a(v, c, m, host);
    assert(seq![p][0] == p);
}

/// `CharPrev` steps back over one character, to where `CharNext` came from, and stays at the
/// start.
pub proof fn lemma_steps_back(v: OsView, c: CpuView, m: MemView, host: HostReply, start: u64, p: u64)
    requires
        given(v, c, m, seq![start, p]),
    ensures
        p <= start ==> gives(dispatch_out(v, Api::CharPrevW, c, m, host), start),
        start < p && 2 <= p ==> gives(dispatch_out(v, Api::CharPrevW, c, m, host), (p - 2) as u64),
{
    reveal(crate::crt::prev_reply);
    serves_char_prev_w(v, c, m, host);
    lemma_read_2(v, c, m, seq![start, p], 0, 1);
}

// ---- copies of strings ------------------------------------------------------

proof fn lemma_unit_put(m: MemView, st: u64, u: u16, x: int)
    requires
        m.can_write(st as int, 2),
    ensures
        forall|y: int, k: int| #[trigger] m.store(s16(st, u)).mem.can_read(y, k) == m.can_read(y, k),
        forall|y: int, k: int| #[trigger] m.store(s16(st, u)).mem.can_write(y, k) == m.can_write(y, k),
        m.store(s16(st, u)).fault is None,
        m.can_read(st as int, 2) ==> m.store(s16(st, u)).mem.r16(st) == Ok::<u16, Fault>(u),
        0 <= x <= u64::MAX && (x + 2 <= st || st + 2 <= x) ==> m.store(s16(st, u)).mem.r16(
            x as u64,
        ) == m.r16(x as u64),
{
    let s = s16(st, u);
    lemma_pow256();
    lemma_le_round_trip(u as nat, 2);
    lemma_put_shape(m, st as int, s.bytes());
    lemma_put_get(m, st as int, s.bytes());
    if 0 <= x <= u64::MAX && (x + 2 <= st || st + 2 <= x) && m.can_read(x, 2) {
        lemma_put_other(m, st as int, s.bytes(), x, 2);
    }
}

/// Copying units leaves the mapping as it was.
proof fn lemma_units_shape(m: MemView, dst: u64, src: u64, n: nat)
    ensures
        forall|x: int, k: int| #[trigger]
            units_copied(m, dst, src, n).mem.can_read(x, k) == m.can_read(x, k),
    decreases n,
{
    if n > 0 {
        let s = units_copied(m, dst, src, (n - 1) as nat);
        lemma_units_shape(m, dst, src, (n - 1) as nat);
        if s.fault is None {
            if let Ok(u) = s.mem.r16(ga(src, 2 * (n - 1))) {
                crate::mem::lemma_le_bytes_len(u as nat, 2);
                if s.mem.can_write(ga(dst, 2 * (n - 1)) as int, 2) {
                    lemma_unit_put(s.mem, ga(dst, 2 * (n - 1)), u, 0);
                }
            }
        }
    }
}

/// Copying units leaves what lies outside the destination as it was.
proof fn lemma_units_keep(m: MemView, dst: u64, src: u64, n: nat, x: int)
    requires
        0 <= x <= u64::MAX,
        dst + 2 * n <= u64::MAX,
        x + 2 <= dst || dst + 2 * n <= x,
    ensures
        units_copied(m, dst, src, n).mem.r16(x as u64) == m.r16(x as u64),
    decreases n,
{
    if n > 0 {
        let s = units_copied(m, dst, src, (n - 1) as nat);
        lemma_units_keep(m, dst, src, (n - 1) as nat, x);
        if s.fault is None {
            if let Ok(u) = s.mem.r16(ga(src, 2 * (n - 1))) {
                crate::mem::lemma_le_bytes_len(u as nat, 2);
                assert(ga(dst, 2 * (n - 1)) == dst + 2 * (n - 1));
                if s.mem.can_write(ga(dst, 2 * (n - 1)) as int, 2) {
                    lemma_unit_put(s.mem, ga(dst, 2 * (n - 1)), u, x);
                }
            }
        }
    }
}

/// Units that were copied one by one to a place apart are there.
proof fn lemma_units_copied(m: MemView, dst: u64, src: u64, n: nat, i: int)
    requires
        units_copied(m, dst, src, n).fault is None,
        src + 2 * n <= dst || dst + 2 * n <= src,
        dst + 2 * n <= u64::MAX,
        src + 2 * n <= u64::MAX,
        0 <= i < n,
        m.can_read(dst + 2 * i, 2),
    ensures
        units_copied(m, dst, src, n).mem.r16((dst + 2 * i) as u64) == m.r16((src + 2 * i) as u64),
    decreases n,
{
    let k = (n - 1) as nat;
    let s = units_copied(m, dst, src, k);
    let from = ga(src, 2 * (n - 1));
    let to = ga(dst, 2 * (n - 1));
    assert(from == src + 2 * k && to == dst + 2 * k);
    lemma_units_keep(m, dst, src, k, src + 2 * k);
    lemma_units_shape(m, dst, src, k);
    let u = s.mem.r16(from)->Ok_0;
    crate::mem::lemma_le_bytes_len(u as nat, 2);
    lemma_unit_put(s.mem, to, u, dst + 2 * i);
    assert(s.mem.can_read(dst + 2 * i, 2));
    if i < k {
        lemma_units_copied(m, dst, src, k, i);
    }
}

proof fn lemma_string_copied(m: MemView, to: u64, from: u64, d: int, n: int, i: int)
    requires
        0 <= n < 0x10_0000,
        0 <= d < 0x10_0000,
        to + 2 * (d + n + 1) <= from || from + 2 * (n + 1) <= to,
        to + 2 * (d + n + 1) <= u64::MAX,
        from + 2 * (n + 1) <= u64::MAX,
        units_copied(m, ga(to, 2 * d), from, (n + 1) as nat).fault is None,
    ensures
        ({
            let k = units_copied(m, ga(to, 2 * d), from, (n + 1) as nat).mem;
            &&& 0 <= i <= n && m.can_read(to + 2 * (d + i), 2) ==> k.r16((to + 2 * (d + i)) as u64)
                == m.r16((from + 2 * i) as u64)
            &&& 0 <= i < d ==> k.r16((to + 2 * i) as u64) == m.r16((to + 2 * i) as u64)
        }),
{
    let dst = ga(to, 2 * d);
    assert(dst == to + 2 * d);
    if 0 <= i < d {
        lemma_units_keep(m, dst, from, (n + 1) as nat, to + 2 * i);
    }
    if 0 <= i <= n && m.can_read(to + 2 * (d + i), 2) {
        lemma_units_copied(m, dst, from, (n + 1) as nat, i);
    }
}

/// `lstrcpyW` leaves the source string, with its NUL, at the destination, and answers with
/// the destination.
pub proof fn lemma_copies_string(
    v: OsView,
    c: CpuView,
    m: MemView,
    host: HostReply,
    a: Seq<u64>,
    n: int,
    i: int,
)
    requires
        given(v, c, m, a),
        a.len() == 2,
        0 <= n < 0x10_0000,
        unit_string(m, a[1], n),
        a[0] + 2 * (n + 1) <= a[1] || a[1] + 2 * (n + 1) <= a[0],
        a[0] + 2 * (n + 1) <= u64::MAX,
        a[1] + 2 * (n + 1) <= u64::MAX,
        dispatch_out(v, Api::LstrcpyW, c, m, host).r is Ok,
    ensures
        ({
            let o = dispatch_out(v, Api::LstrcpyW, c, m, host);
            &&& gives(o, a[0])
            &&& o.os == v
            &&& 0 <= i <= n && m.can_read(a[0] + 2 * i, 2) ==> o.mem.r16((a[0] + 2 * i) as u64)
                == m.r16((a[1] + 2 * i) as u64)
        }),
{
    reveal(crate::crt::copy_reply);
    serves_lstrcpy_w(v, c, m, host);
    lemma_read_2(v, c, m, a, 0, 1);
    lemma_units_len(m, a[1], n, 0);
    lemma_string_copied(m, a[0], a[1], 0, n, i);
}

/// `lstrcatW` leaves the source string, with its NUL, behind the string that is at the
/// destination, and answers with the destination.
pub proof fn lemma_appends_string(
    v: OsView,
    c: CpuView,
    m: MemView,
    host: HostReply,
    a: Seq<u64>,
    d: int,
    n: int,
    i: int,
)
    requires
        given(v, c, m, a),
        a.len() == 2,
        0 <= n < 0x10_0000,
        0 <= d < 0x10_0000,
        unit_string(m, a[0], d),
        unit_string(m, a[1], n),
        a[0] + 2 * (d + n + 1) <= a[1] || a[1] + 2 * (n + 1) <= a[0],
        a[0] + 2 * (d + n + 1) <= u64::MAX,
        a[1] + 2 * (n + 1) <= u64::MAX,
        dispatch_out(v, Api::LstrcatW, c, m, host).r is Ok,
    ensures
        ({
            let o = dispatch_out(v, Api::LstrcatW, c, m, host);
            &&& gives(o, a[0])
            &&& o.os == v
            &&& 0 <= i <= n && m.can_read(a[0] + 2 * (d + i), 2) ==> o.mem.r16(
                (a[0] + 2 * (d + i)) as u64,
            ) == m.r16((a[1] + 2 * i) as u64)
            &&& 0 <= i < d ==> o.mem.r16((a[0] + 2 * i) as u64) == m.r16((a[0] + 2 * i) as u64)
        }),
{
    reveal(crate::crt::copy_reply);
    serves_lstrcat_w(v, c, m, host);
    lemma_read_2(v, c, m, a, 0, 1);
    lemma_units_len(m, a[1], n, 0);
    lemma_units_len(m, a[0], d, 0);
    lemma_string_copied(m, a[0], a[1], d, n, i);
}

/// A copy of `n` units, fewer than the room, that stops at the NUL.
proof fn lemma_bounded(m: MemView, dst: u64, src: u64, count: u64, n: int, k: int, i: int)
    requires
        0 <= k <= n,
        src + 2 * (n + 1) <= dst || dst + 2 * (n + 1) <= src,
        dst + 2 * (n + 1) <= u64::MAX,
        src + 2 * (n + 1) <= u64::MAX,
        n + 1 <= count,
        n + 1 < count ==> m.r16((src + 2 * n) as u64) == Ok::<u16, Fault>(0),
        forall|j: int|
            k <= j < n ==> (#[trigger] m.r16((src + 2 * j) as u64)) is Ok && m.r16(
                (src + 2 * j) as u64,
            )->Ok_0 != 0,
        bounded_from(m, dst, src, count, k).fault is None,
    ensures
        ({
            let b = bounded_from(m, dst, src, count, k);
            &&& b.at == n
            &&& forall|x: int, y: int| #[trigger] b.mem.can_read(x, y) == m.can_read(x, y)
            &&& k <= i < n && m.can_read(dst + 2 * i, 2) ==> b.mem.r16((dst + 2 * i) as u64)
                == m.r16((src + 2 * i) as u64)
            &&& 0 <= i < k ==> b.mem.r16((dst + 2 * i) as u64) == m.r16((dst + 2 * i) as u64)
        }),
    decreases n - k,
{
    let from = ga(src, 2 * k);
    let to = ga(dst, 2 * k);
    assert(from == src + 2 * k && to == dst + 2 * k);
    if k + 1 < count {
        let u = m.r16(from)->Ok_0;
        crate::mem::lemma_le_bytes_len(u as nat, 2);
        lemma_unit_put(m, to, u, dst + 2 * i);
        let s = m.store(s16(to, u)).mem;
        if k < n {
            assert(u != 0);
            assert forall|j: int| k + 1 <= j < n implies (#[trigger] s.r16((src + 2 * j) as u64))
                is Ok && s.r16((src + 2 * j) as u64)->Ok_0 != 0 by {
                lemma_unit_put(m, to, u, src + 2 * j);
                assert(m.r16((src + 2 * j) as u64) is Ok);
            }
            lemma_unit_put(m, to, u, src + 2 * n);
            if k < i < n {
                lemma_unit_put(m, to, u, src + 2 * i);
            }
            lemma_bounded(s, dst, src, count, n, k + 1, i);
        }
    }
}

proof fn lemma_bounded_reply(
    is_64bit: bool,
    c: CpuView,
    m: MemView,
    a: Seq<u64>,
    len: int,
    i: int,
)
    requires
        args_at(is_64bit, c, m, seq![0, 1, 2]) == Ok::<Seq<u64>, Fault>(a),
        a.len() == 3,
        0 <= len,
        forall|j: int|
            0 <= j < len ==> (#[trigger] m.r16((a[1] + 2 * j) as u64)) is Ok && m.r16(
                (a[1] + 2 * j) as u64,
            )->Ok_0 != 0,
        m.r16((a[1] + 2 * len) as u64) == Ok::<u16, Fault>(0),
        a[1] + 2 * (len + 1) <= a[0] || a[0] + 2 * (len + 1) <= a[1],
        a[0] + 2 * (len + 1) <= u64::MAX,
        a[1] + 2 * (len + 1) <= u64::MAX,
        0 < a[2],
        bounded_reply(is_64bit, c, m).r is Ok,
    ensures
        ({
            let o = bounded_reply(is_64bit, c, m);
            let n = if len < a[2] {
                len
            } else {
                a[2] - 1
            };
            &&& o.r == Ok::<u64, Fault>(a[0])
            &&& m.can_read(a[0] + 2 * n, 2) ==> o.mem.r16((a[0] + 2 * n) as u64) == Ok::<u16, Fault>(
                0,
            )
            &&& 0 <= i < n && m.can_read(a[0] + 2 * i, 2) ==> o.mem.r16((a[0] + 2 * i) as u64)
                == m.r16((a[1] + 2 * i) as u64)
        }),
{
    let n = if len < a[2] {
        len
    } else {
        a[2] - 1
    };
    lemma_bounded(m, a[0], a[1], a[2], n, 0, i);
    let b = bounded_from(m, a[0], a[1], a[2], 0);
    let last = ga(a[0], 2 * b.at);
    assert(last == a[0] + 2 * n);
    assert(b.mem.can_read(a[0] + 2 * n, 2) == m.can_read(a[0] + 2 * n, 2));
    crate::mem::lemma_le_bytes_len(0, 2);
    if b.mem.can_write(last as int, 2) {
        lemma_unit_put(b.mem, last, 0, a[0] + 2 * i);
    }
}

/// `lstrcpynW` leaves as much of the source string at the destination as the room takes,
/// always with a NUL behind it, and answers with the destination.
pub proof fn lemma_copies_bounded(
    v: OsView,
    c: CpuView,
    m: MemView,
    host: HostReply,
    a: Seq<u64>,
    len: int,
    i: int,
)
    requires
        given(v, c, m, a),
        a.len() == 3,
        0 <= len,
        forall|j: int|
            0 <= j < len ==> (#[trigger] m.r16((a[1] + 2 * j) as u64)) is Ok && m.r16(
                (a[1] + 2 * j) as u64,
            )->Ok_0 != 0,
        m.r16((a[1] + 2 * len) as u64) == Ok::<u16, Fault>(0),
        a[1] + 2 * (len + 1) <= a[0] || a[0] + 2 * (len + 1) <= a[1],
        a[0] + 2 * (len + 1) <= u64::MAX,
        a[1] + 2 * (len + 1) <= u64::MAX,
        0 < a[2],
        dispatch_out(v, Api::LstrcpynW, c, m, host).r is Ok,
    ensures
        ({
            let o = dispatch_out(v, Api::LstrcpynW, c, m, host);
            let n = if len < a[2] {
                len
            } else {
                a[2] - 1
            };
            &&& gives(o, a[0])
            &&& m.can_read(a[0] + 2 * n, 2) ==> o.mem.r16((a[0] + 2 * n) as u64) == Ok::<u16, Fault>(
                0,
            )
            &&& 0 <= i < n && m.can_read(a[0] + 2 * i, 2) ==> o.mem.r16((a[0] + 2 * i) as u64)
                == m.r16((a[1] + 2 * i) as u64)
        }),
{
    serves_lstrcpyn_w(v, c, m, host);
    lemma_read_3(v, c, m, a, 0, 1, 2);
    assert(seq![a[0], a[1], a[2]] =~= a);
    lemma_bounded_reply(v.wide(), c, m, a, len, i);
}

// ---- order of strings -------------------------------------------------------

/// A code unit with the case of a Latin letter dropped.
pub open spec fn small(u: u16) -> int {
    if 'A' as int <= u <= 'Z' as int {
        u + ('a' as int - 'A' as int)
    } else {
        u as int
    }
}

/// How a call counts a code unit: as it is, or without its case.
pub open spec fn weight(u: u16, fold: bool) -> int {
    if fold {
        small(u)
    } else {
        u as int
    }
}

proof fn lemma_order_of(m: MemView, a: u64, b: u64, fold: bool, n: int, k: int)
    requires
        0 <= k <= n < 0x8000_0000_0000_0000,
        m.r16(ga(a, 2 * n)) is Ok,
        m.r16(ga(b, 2 * n)) is Ok,
        forall|i: int|
            0 <= i < n ==> {
                let x = #[trigger] m.r16(ga(a, 2 * i));
                let y = m.r16(ga(b, 2 * i));
                x is Ok && y is Ok && x->Ok_0 != 0 && weight(x->Ok_0, fold) == weight(y->Ok_0, fold)
            },
    ensures
        ({
            let x = weight(m.r16(ga(a, 2 * n))->Ok_0, fold);
            let y = weight(m.r16(ga(b, 2 * n))->Ok_0, fold);
            &&& x < y ==> wide_order_from(m, a, b, fold, k) == Ok::<i32, Fault>(-1i32)
            &&& x > y ==> wide_order_from(m, a, b, fold, k) == Ok::<i32, Fault>(1)
            &&& x == y && x == 0 ==> wide_order_from(m, a, b, fold, k) == Ok::<i32, Fault>(0)
        }),
    decreases n - k,
{
    if k < n {
        let x = m.r16(ga(a, 2 * k));
        assert(x is Ok && x->Ok_0 != 0);
        lemma_order_of(m, a, b, fold, n, k + 1);
    }
}

/// What comparing two strings answers with.
proof fn lemma_order_reply(is_64bit: bool, c: CpuView, m: MemView, fold: bool, x: u64, y: u64, k: i32)
    requires
        args_at(is_64bit, c, m, seq![0, 1]) == Ok::<Seq<u64>, Fault>(seq![x, y]),
        wide_order_from(m, x, y, fold, 0) == Ok::<i32, Fault>(k),
        -1 <= k <= 1,
    ensures
        ({
            let o = order_reply(is_64bit, c, m, fold);
            &&& o.mem == m
            &&& k == -1 ==> o.r == Ok::<u64, Fault>(u64::MAX)
            &&& k == 0 ==> o.r == Ok::<u64, Fault>(0)
            &&& k == 1 ==> o.r == Ok::<u64, Fault>(1)
        }),
{
    reveal(order_reply);
}

/// Comparing two strings leaves memory as it is.
proof fn lemma_order_keeps(is_64bit: bool, c: CpuView, m: MemView, fold: bool)
    ensures
        order_reply(is_64bit, c, m, fold).mem == m,
{
    reveal(order_reply);
}

/// `lstrcmpW`, and `lstrcmpiW` without regard to the case of Latin letters, order two strings
/// by the first unit in which they differ, a string before those that it starts: -1, 0, or 1.
pub proof fn lemma_orders_strings(
    v: OsView,
    c: CpuView,
    m: MemView,
    host: HostReply,
    a: Seq<u64>,
    fold: bool,
    n: int,
)
    requires
        given(v, c, m, a),
        a.len() == 2,
        0 <= n < 0x8000_0000_0000_0000,
        m.r16(ga(a[0], 2 * n)) is Ok,
        m.r16(ga(a[1], 2 * n)) is Ok,
        forall|i: int|
            0 <= i < n ==> {
                let x = #[trigger] m.r16(ga(a[0], 2 * i));
                let y = m.r16(ga(a[1], 2 * i));
                x is Ok && y is Ok && x->Ok_0 != 0 && weight(x->Ok_0, fold) == weight(y->Ok_0, fold)
            },
    ensures
        ({
            let o = dispatch_out(
                v,
                if fold {
                    Api::LstrcmpiW
                } else {
                    Api::LstrcmpW
                },
                c,
                m,
                host,
            );
            let x = weight(m.r16(ga(a[0], 2 * n))->Ok_0, fold);
            let y = weight(m.r16(ga(a[1], 2 * n))->Ok_0, fold);
            &&& x < y ==> gives(o, u64::MAX)
            &&& x > y ==> gives(o, 1)
            &&& x == y && x == 0 ==> gives(o, 0)
            &&& o.mem == m && o.os == v
        }),
{
    lemma_read_2(v, c, m, a, 0, 1);
    lemma_order_of(m, a[0], a[1], fold, n, 0);
    lemma_order_keeps(v.wide(), c, m, fold);
    let x = weight(m.r16(ga(a[0], 2 * n))->Ok_0, fold);
    let y = weight(m.r16(ga(a[1], 2 * n))->Ok_0, fold);
    if x != y || x == 0 {
        let k: i32 = if x < y {
            -1i32
        } else if x > y {
            1
        } else {
            0
        };
        lemma_order_reply(v.wide(), c, m, fold, a[0], a[1], k);
    }
    if fold {
        serves_lstrcmpi_w(v, c, m, host);
    } else {
        serves_lstrcmp_w(v, c, m, host);
    }
}

} // verus!
