//! Blocks of the process heap: what a guest that was given one owns.

use vstd::prelude::*;

use crate::api::Api;
use crate::call::{arg_at, args_at, Outcome};
use crate::cpu::CpuView;
use crate::crt::{bytes_copied, carried, resize_out};
use crate::dispatch::{dispatch_out, memory_group};
use crate::heap::HeapView;
use crate::host::HostReply;
use crate::laws::{given, gives, lemma_memory_serves, lemma_read_2};
use crate::mem::{
    ga, lemma_pow256, lemma_put_get, lemma_put_other, lemma_put_shape, s8, Fault, MemView,
};
use crate::os::{OsOut, OsView};
use crate::serve::replied_os;
use crate::util::lemma_round_up;

verus! {

/// How many bytes a call asks for; the arguments that are a size are counted from 0.
pub open spec fn bytes_asked(api: Api, a: Seq<u64>) -> int {
    match api {
        Api::Malloc => a[0] as int,
        Api::GlobalAlloc => a[1] as int,
        Api::HeapAlloc => a[2] as int,
        Api::Calloc => a[0] * a[1],
        Api::Realloc => a[1] as int,
        Api::HeapReAlloc => a[3] as int,
        _ => 0,
    }
}

/// Whether a call asks for a block.
pub open spec fn asks_block(api: Api) -> bool {
    api is Malloc || api is GlobalAlloc || api is HeapAlloc || api is Calloc || api is Realloc
        || api is HeapReAlloc
}

/// Whether one heap came out of another by handing out blocks.
pub open spec fn heap_follows(k: HeapView, h: HeapView) -> bool {
    k.base == h.base && k.size == h.size && h.next <= k.next
}

/// What a call that asks for `n` bytes leads to on the heap, and what it answers with.
spec fn handed_out(v: OsView, o: OsOut, n: u64) -> bool {
    &&& o.os == v.heap_asked(n)
    &&& o.r matches Ok(x) ==> x == Outcome::Return(v.fresh_block(n))
}

/// A call that names the size of a block hands out that block.
proof fn lemma_asked_block(v: OsView, api: Api, c: CpuView, m: MemView, host: HostReply, a: Seq<u64>)
    requires
        given(v, c, m, a),
        a.len() == 4,
        api is Malloc || api is GlobalAlloc || api is HeapAlloc,
    ensures
        ({
            let o = dispatch_out(v, api, c, m, host);
            let n = bytes_asked(api, a);
            &&& handed_out(
                v,
                o,
                if n > u64::MAX {
                    u64::MAX
                } else {
                    n as u64
                },
            )
            &&& !(api is Realloc || api is HeapReAlloc) ==> o.mem == m && o.r is Ok
        }),
{
    reveal(crate::crt::block_out);
    reveal(memory_group);
    lemma_memory_serves(v, api, c, m, host);
    assert(arg_at(v.wide(), c, m, 0) == Ok::<u64, Fault>(a[0]));
    assert(arg_at(v.wide(), c, m, 1) == Ok::<u64, Fault>(a[1]));
    assert(arg_at(v.wide(), c, m, 2) == Ok::<u64, Fault>(a[2]));
}

/// A call that names a number of items and their size hands out a block for all of them.
proof fn lemma_asked_array(v: OsView, api: Api, c: CpuView, m: MemView, host: HostReply, a: Seq<u64>)
    requires
        given(v, c, m, a),
        a.len() == 4,
        api is Calloc,
    ensures
        ({
            let o = dispatch_out(v, api, c, m, host);
            let n = bytes_asked(api, a);
            &&& handed_out(
                v,
                o,
                if n > u64::MAX {
                    u64::MAX
                } else {
                    n as u64
                },
            )
            &&& !(api is Realloc || api is HeapReAlloc) ==> o.mem == m && o.r is Ok
        }),
{
    reveal(crate::crt::array_out);
    reveal(memory_group);
    lemma_memory_serves(v, api, c, m, host);
    lemma_read_2(v, c, m, a, 0, 1);
    assert(0 <= a[0] * a[1]) by (nonlinear_arith)
        requires
            0 <= a[0],
            0 <= a[1],
    ;
}

/// A call that names a block and its new size hands out a block of that size.
proof fn lemma_asked_resize(v: OsView, api: Api, c: CpuView, m: MemView, host: HostReply, a: Seq<u64>)
    requires
        given(v, c, m, a),
        a.len() == 4,
        api is Realloc || api is HeapReAlloc,
    ensures
        ({
            let o = dispatch_out(v, api, c, m, host);
            let n = bytes_asked(api, a);
            &&& handed_out(
                v,
                o,
                if n > u64::MAX {
                    u64::MAX
                } else {
                    n as u64
                },
            )
            &&& !(api is Realloc || api is HeapReAlloc) ==> o.mem == m && o.r is Ok
        }),
{
    reveal(crate::crt::resize_out);
    reveal(memory_group);
    lemma_memory_serves(v, api, c, m, host);
    lemma_read_2(v, c, m, a, 0, 1);
    lemma_read_2(v, c, m, a, 2, 3);
}

/// What a call that asks for a block leads to.
proof fn lemma_asked(v: OsView, api: Api, c: CpuView, m: MemView, host: HostReply, a: Seq<u64>)
    requires
        given(v, c, m, a),
        a.len() == 4,
        asks_block(api),
    ensures
        ({
            let o = dispatch_out(v, api, c, m, host);
            let n = bytes_asked(api, a);
            &&& handed_out(
                v,
                o,
                if n > u64::MAX {
                    u64::MAX
                } else {
                    n as u64
                },
            )
            &&& !(api is Realloc || api is HeapReAlloc) ==> o.mem == m && o.r is Ok
        }),
{
    if api is Calloc {
        lemma_asked_array(v, api, c, m, host, a);
    } else if api is Realloc || api is HeapReAlloc {
        lemma_asked_resize(v, api, c, m, host, a);
    } else {
        lemma_asked_block(v, api, c, m, host, a);
    }
}

/// A block that a call answers with belongs to whoever asked: it lies in the arena, on a
/// 16-byte boundary, takes as many bytes as were asked for, and ends before every block that
/// any later call answers with.
pub proof fn lemma_block_owned(
    v: OsView,
    api: Api,
    c: CpuView,
    m: MemView,
    host: HostReply,
    a: Seq<u64>,
    p: u64,
    w: OsView,
    api2: Api,
    c2: CpuView,
    m2: MemView,
    host2: HostReply,
    b: Seq<u64>,
    q: u64,
)
    requires
        v.heap.wf(),
        v.heap.base <= v.heap.next,
        asks_block(api),
        given(v, c, m, a),
        a.len() == 4,
        gives(dispatch_out(v, api, c, m, host), p),
        p != 0,
        heap_follows(w.heap, dispatch_out(v, api, c, m, host).os.heap),
        asks_block(api2),
        given(w, c2, m2, b),
        b.len() == 4,
        gives(dispatch_out(w, api2, c2, m2, host2), q),
        q != 0,
    ensures
        p % 16 == 0,
        v.heap.base <= p,
        p + bytes_asked(api, a) <= v.heap.base + v.heap.size,
        p + bytes_asked(api, a) <= q,
        p < q,
        forall|x: u64| #[trigger] v.heap.sizes.contains_key(x) ==> x + v.heap.sizes[x] <= p,
        heap_follows(dispatch_out(v, api, c, m, host).os.heap, v.heap),
{
    lemma_asked(v, api, c, m, host, a);
    lemma_asked(w, api2, c2, m2, host2, b);
    lemma_round_up(v.heap.next as int, 16);
    lemma_round_up(w.heap.next as int, 16);
}

/// A call is refused a block only where the rest of the arena, short of what aligning it
/// takes, does not hold it.
pub proof fn lemma_block_given(
    v: OsView,
    api: Api,
    c: CpuView,
    m: MemView,
    host: HostReply,
    a: Seq<u64>,
)
    requires
        asks_block(api),
        !(api is Realloc || api is HeapReAlloc),
        given(v, c, m, a),
        a.len() == 4,
        0 < v.heap.next,
        v.heap.next + 16 + bytes_asked(api, a) <= v.heap.base + v.heap.size,
        v.heap.next + 16 + bytes_asked(api, a) <= u64::MAX,
    ensures
        dispatch_out(v, api, c, m, host).r matches Ok(Outcome::Return(p)) && p != 0,
        dispatch_out(v, api, c, m, host).mem == m,
{
    lemma_asked(v, api, c, m, host, a);
    lemma_round_up(v.heap.next as int, 16);
    assert(0 <= a[0] * a[1]) by (nonlinear_arith)
        requires
            0 <= a[0],
            0 <= a[1],
    ;
}

/// A block that was copied elsewhere, byte by byte, is there.
proof fn lemma_copied(m: MemView, dst: u64, src: u64, n: nat, i: int)
    requires
        bytes_copied(m, dst, src, n).fault is None,
        src + n <= dst,
        dst + n <= u64::MAX,
        m.can_read(dst + i, 1),
        0 <= i < n,
    ensures
        bytes_copied(m, dst, src, n).mem.r8((dst + i) as u64) == m.r8((src + i) as u64),
    decreases n,
{
    let k = (n - 1) as nat;
    let s = bytes_copied(m, dst, src, k);
    lemma_copy_shape(m, dst, src, k);
    lemma_copy_keeps(m, dst, src, k, src + n - 1);
    lemma_pow256();
    let b = s.mem.r8(ga(src, n - 1))->Ok_0;
    let st = s8(ga(dst, n - 1), b);
    crate::mem::lemma_le_round_trip(b as nat, 1);
    lemma_put_shape(s.mem, st.addr as int, st.bytes());
    lemma_put_get(s.mem, st.addr as int, st.bytes());
    if i < k {
        lemma_copied(m, dst, src, k, i);
        lemma_put_other(s.mem, st.addr as int, st.bytes(), dst + i, 1);
        assert(s.mem.can_read(dst + i, 1));
        assert(s.mem.put(st.addr as int, st.bytes()).can_read(dst + i, 1));
    } else {
        assert(s.mem.can_read(dst + i, 1));
        assert(s.mem.put(st.addr as int, st.bytes()).can_read(dst + i, 1));
    }
}

/// Copying leaves the mapping as it was.
proof fn lemma_copy_shape(m: MemView, dst: u64, src: u64, n: nat)
    ensures
        forall|x: int, k: int| #[trigger]
            bytes_copied(m, dst, src, n).mem.can_read(x, k) == m.can_read(x, k),
    decreases n,
{
    if n > 0 {
        let s = bytes_copied(m, dst, src, (n - 1) as nat);
        lemma_copy_shape(m, dst, src, (n - 1) as nat);
        if s.fault is None {
            if let Ok(b) = s.mem.r8(ga(src, n - 1)) {
                let st = s8(ga(dst, n - 1), b);
                if s.mem.can_write(st.addr as int, st.bytes().len() as int) {
                    lemma_put_shape(s.mem, st.addr as int, st.bytes());
                }
            }
        }
    }
}

/// Copying leaves what lies below the destination as it was.
proof fn lemma_copy_keeps(m: MemView, dst: u64, src: u64, n: nat, x: int)
    requires
        0 <= x < dst,
        dst + n <= u64::MAX,
    ensures
        bytes_copied(m, dst, src, n).mem.r8(x as u64) == m.r8(x as u64),
    decreases n,
{
    if n > 0 {
        let s = bytes_copied(m, dst, src, (n - 1) as nat);
        lemma_copy_keeps(m, dst, src, (n - 1) as nat, x);
        lemma_copy_shape(m, dst, src, (n - 1) as nat);
        if s.fault is None {
            if let Ok(b) = s.mem.r8(ga(src, n - 1)) {
                let st = s8(ga(dst, n - 1), b);
                crate::mem::lemma_le_bytes_len(st.value as nat, 1);
                if s.mem.can_write(st.addr as int, st.bytes().len() as int) {
                    lemma_put_shape(s.mem, st.addr as int, st.bytes());
                    if s.mem.can_read(x, 1) {
                        lemma_put_other(s.mem, st.addr as int, st.bytes(), x, 1);
                    }
                }
            }
        }
    }
}

proof fn lemma_resize(v: OsView, api: Api, c: CpuView, m: MemView, host: HostReply)
    ensures
        api is Realloc ==> dispatch_out(v, api, c, m, host) == replied_os(
            c,
            resize_out(v, c, m, 0, 1),
        ),
        api is HeapReAlloc ==> dispatch_out(v, api, c, m, host) == replied_os(
            c,
            resize_out(v, c, m, 2, 3),
        ),
{
    reveal(crate::crt::resize_out);
    if api is Realloc || api is HeapReAlloc {
        lemma_memory_serves(v, api, c, m, host);
        reveal(memory_group);
    }
}

proof fn lemma_moved(v: OsView, c: CpuView, m: MemView, x: u64, y: u64, p: u64, n: u64, q: u64, i: int)
    requires
        v.heap.wf(),
        args_at(v.wide(), c, m, seq![x, y]) == Ok::<Seq<u64>, Fault>(seq![p, n]),
        resize_out(v, c, m, x, y).r == Ok::<u64, Fault>(q),
        q != 0,
    ensures
        p != 0 && v.heap.sizes.contains_key(p) && 0 <= i < v.heap.sizes[p] && i < n && m.can_read(
            q + i,
            1,
        ) ==> resize_out(v, c, m, x, y).mem.r8((q + i) as u64) == m.r8((p + i) as u64),
        p == 0 ==> resize_out(v, c, m, x, y).mem == m,
{
    reveal(crate::crt::resize_out);
    lemma_round_up(v.heap.next as int, 16);
    if p != 0 && v.heap.sizes.contains_key(p) && 0 <= i < v.heap.sizes[p] && i < n && m.can_read(
        q + i,
        1,
    ) {
        lemma_copied(m, q, p, carried(v, p, n) as nat, i);
    }
}

/// A block that gets another size keeps its content, as far as both sizes go.
pub proof fn lemma_resize_keeps(
    v: OsView,
    api: Api,
    c: CpuView,
    m: MemView,
    host: HostReply,
    a: Seq<u64>,
    q: u64,
    i: int,
)
    requires
        v.heap.wf(),
        api is Realloc || api is HeapReAlloc,
        given(v, c, m, a),
        a.len() == 4,
        gives(dispatch_out(v, api, c, m, host), q),
        q != 0,
    ensures
        ({
            let p = if api is Realloc {
                a[0]
            } else {
                a[2]
            };
            let n = if api is Realloc {
                a[1]
            } else {
                a[3]
            };
            let o = dispatch_out(v, api, c, m, host);
            &&& p != 0 && v.heap.sizes.contains_key(p) && 0 <= i < v.heap.sizes[p] && i
                < n && m.can_read(q + i, 1) ==> o.mem.r8((q + i) as u64) == m.r8(
                (p + i) as u64,
            )
            &&& p == 0 ==> o.mem == m
        }),
{
    lemma_resize(v, api, c, m, host);
    if api is Realloc {
        lemma_read_2(v, c, m, a, 0, 1);
        lemma_moved(v, c, m, 0, 1, a[0], a[1], q, i);
    } else {
        lemma_read_2(v, c, m, a, 2, 3);
        lemma_moved(v, c, m, 2, 3, a[2], a[3], q, i);
    }
}

} // verus!
