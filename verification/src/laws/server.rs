//! What the requests to the object server lead to.

use vstd::prelude::*;

use crate::cpu::CpuView;
use crate::mem::{
    lemma_find_region, lemma_le_value_bound, lemma_load_all_ok, lemma_pow256, lemma_store_all_get,
    lemma_store_all_join, lemma_sub_access, s32, Fault, Load, MemView,
};
use crate::os::OsView;
use crate::server::{create_event_out, create_loads, reply_table, served, server_out};
use crate::sync::KObject;

verus! {

/// What a request word loads.
proof fn lemma_word(m: MemView, a: u64)
    requires
        m.can_read(a as int, 4),
    ensures
        m.read_le(a, 4) is Ok,
        m.r32(a) == Ok::<u32, Fault>(m.read_le(a, 4)->Ok_0 as u32),
        m.read_le(a, 4)->Ok_0 <= u32::MAX,
{
    lemma_pow256();
    lemma_find_region(m.regions, a as int);
    lemma_le_value_bound(m.bytes_at(a as int, 4));
}

/// What a request for an event makes.
proof fn lemma_event_made(v: OsView, c: CpuView, m: MemView, req: u64, manual: u32, initial: u32)
    requires
        v.next_handle < 0xFFFF_0000,
        req + 64 <= u64::MAX,
        m.wf(),
        m.can_read(req as int, 64),
        m.r32((req + 12) as u64) == Ok::<u32, Fault>(manual),
        m.r32((req + 16) as u64) == Ok::<u32, Fault>(initial),
    ensures
        ({
            let o = create_event_out(v, c, m, req);
            let h = v.next_handle;
            let s = m.store(s32((req + 8) as u64, h as u32));
            &&& o.mem == s.mem
            &&& o.r is Ok <==> s.fault is None
            &&& o.r is Ok ==> o.r == Ok::<u64, Fault>(0)
            &&& o.os.objects.obj(h) == Some(
                KObject::Event { manual_reset: manual != 0, signaled: initial != 0 },
            )
            &&& o.os.next_handle == h + 4
            &&& o.os.unix_call_blocked == v.unix_call_blocked
        }),
{
    let t = create_loads(req);
    lemma_sub_access(m, req as int, 64, req + 12, 4);
    lemma_sub_access(m, req as int, 64, req + 16, 4);
    lemma_word(m, (req + 12) as u64);
    lemma_word(m, (req + 16) as u64);
    assert(t[0] == Load { addr: (req + 12) as u64, size: 4 });
    assert(t[1] == Load { addr: (req + 16) as u64, size: 4 });
    lemma_load_all_ok(m, t);
    let s = m.load_all(t)->Ok_0;
    assert(s[0] == manual && s[1] == initial);
}

/// What the handle and the head of a reply leave in memory.
proof fn lemma_reply_written(m: MemView, req: u64, h: u32)
    requires
        req + 64 <= u64::MAX,
        m.wf(),
        m.can_read(req as int, 64),
        m.store(s32((req + 8) as u64, h)).fault is None,
        m.store(s32((req + 8) as u64, h)).mem.store_all(reply_table(req, 0)).fault is None,
    ensures
        ({
            let k = m.store(s32((req + 8) as u64, h)).mem.store_all(reply_table(req, 0)).mem;
            &&& k.r32(req) == Ok::<u32, Fault>(0)
            &&& k.r32((req + 8) as u64) == Ok::<u32, Fault>(h)
        }),
{
    lemma_pow256();
    lemma_sub_access(m, req as int, 64, req as int, 4);
    lemma_sub_access(m, req as int, 64, req + 8, 4);
    let a = seq![s32((req + 8) as u64, h)];
    let b = reply_table(req, 0);
    assert(a.drop_last() =~= Seq::empty());
    assert(m.store_all(a.drop_last()).mem == m);
    assert(m.store_all(a).mem == m.store(a[0]).mem);
    lemma_store_all_join(m, a, b);
    let u = a + b;
    assert(u[0] == a[0] && u[1] == b[0] && u[2] == b[1]);
    lemma_store_all_get(m, u, 0);
    lemma_store_all_get(m, u, 1);
}

proof fn lemma_served_event(v: OsView, c: CpuView, m: MemView, req: u64)
    ensures
        served(v, c, m, req, 1) == create_event_out(v, c, m, req),
{
    reveal(served);
}

/// The request for an event makes one that resets itself unless the first word asks for the
/// other kind, and that is signaled where the second asks for it; its handle is
/// written behind the status, which is 0.
pub proof fn lemma_server_event(
    v: OsView,
    c: CpuView,
    m: MemView,
    req: u64,
    manual: u32,
    initial: u32,
)
    requires
        v.next_handle < 0xFFFF_0000,
        v.objects.wf(),
        0 < req,
        req + 64 <= u64::MAX,
        m.wf(),
        m.can_read(req as int, 64),
        m.r32(req) == Ok::<u32, Fault>(1),
        m.r32((req + 12) as u64) == Ok::<u32, Fault>(manual),
        m.r32((req + 16) as u64) == Ok::<u32, Fault>(initial),
        server_out(v, c, m, req).r is Ok,
    ensures
        ({
            let o = server_out(v, c, m, req);
            let h = v.next_handle;
            &&& o.r == Ok::<u64, Fault>(0)
            &&& o.mem.r32(req) == Ok::<u32, Fault>(0)
            &&& o.mem.r32((req + 8) as u64) == Ok::<u32, Fault>(h as u32)
            &&& o.os.objects.obj(h) == Some(
                KObject::Event { manual_reset: manual != 0, signaled: initial != 0 },
            )
            &&& o.os.next_handle > h
        }),
{
    let w = OsView { unix_call_blocked: false, ..v };
    lemma_served_event(w, c, m, req);
    lemma_event_made(w, c, m, req, manual, initial);
    lemma_reply_written(m, req, v.next_handle as u32);
}

} // verus!
