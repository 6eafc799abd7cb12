//! The object manager as a library of the guest reaches it: one request at a
//! time, in a block of guest memory that also takes the reply.

use vstd::prelude::*;

use crate::cpu::{CpuState, CpuView};
use crate::kobj::lemma_new_below;
use crate::mem::{at, ga, load32, load64, s32, store32, Fault, Load, MemView, Store, VirtualMemory};
use crate::ntreg::{STATUS_INVALID_HANDLE, STATUS_INVALID_PARAMETER, STATUS_SUCCESS};
use crate::os::{OsView, WinOs};
use crate::sched::{switch_out, ThreadState, WaitDesc, WaitView};
use crate::ssdt::STATUS_NOT_IMPLEMENTED;
use crate::sync::{can_dup, lemma_waited_wf, KObject, TableView};
use crate::util::first_index;

verus! {

/// The version of the protocol.
pub const SERVER_PROTOCOL_VERSION: u32 = 930;

/// A wait was over before it was satisfied.
pub const STATUS_TIMEOUT: u64 = 0x0000_0102;

/// A wait is not over.
pub const STATUS_PENDING: u64 = 0x0000_0103;

/// The requests.
pub const REQ_CREATE_EVENT: u32 = 1;

pub const REQ_SELECT: u32 = 2;

pub const REQ_CLOSE_HANDLE: u32 = 3;

pub const REQ_DUP_HANDLE: u32 = 4;

/// Wait for any of the handles.
pub const SELECT_WAIT: u32 = 0;

/// Wait for all of the handles.
pub const SELECT_WAIT_ALL: u32 = 1;

/// The most handles that a wait is for.
pub const MAXIMUM_WAIT_OBJECTS: u64 = 64;

/// Where the reply keeps its status.
pub const REPLY_ERROR: u64 = 0;

/// Where the reply keeps a new handle.
pub const REPLY_HANDLE: u64 = 8;

/// Where a create request keeps whether the event is reset by hand.
pub const CREATE_EVENT_MANUAL: u64 = 12;

/// Where a create request keeps whether the event is signaled.
pub const CREATE_EVENT_INITIAL: u64 = 16;

/// Where a wait keeps its timeout.
pub const SELECT_TIMEOUT: u64 = 28;

/// Where a close request keeps its handle.
pub const CLOSE_HANDLE: u64 = 12;

/// Where a duplicate request keeps its handle.
pub const DUP_SRC_HANDLE: u64 = 16;

/// Where a request keeps how many blocks of data come with it.
pub const DATA_COUNT: u64 = 64;

/// Where a request keeps its first block of data: address and size.
pub const DATA: u64 = 80;

/// What a request leads to.
pub struct ServerOut {
    pub os: OsView,
    pub cpu: CpuView,
    pub mem: MemView,
    pub r: Result<u64, Fault>,
}

/// A request that left everything as it was.
pub open spec fn same(v: OsView, c: CpuView, m: MemView, r: Result<u64, Fault>) -> ServerOut {
    ServerOut { os: v, cpu: c, mem: m, r }
}

/// The loads of a create request.
pub open spec fn create_loads(req: u64) -> Seq<Load> {
    seq![
        load32(ga(req, CREATE_EVENT_MANUAL as int)),
        load32(ga(req, CREATE_EVENT_INITIAL as int)),
    ]
}

/// A new event, whose handle goes into the reply.
pub open spec fn create_event_out(v: OsView, c: CpuView, m: MemView, req: u64) -> ServerOut {
    match m.load_all(create_loads(req)) {
        Err(f) => same(v, c, m, Err(f)),
        Ok(a) => {
            let o = KObject::Event { manual_reset: a[0] != 0, signaled: a[1] != 0 };
            let h = v.next_handle;
            let s = m.store(s32(ga(req, REPLY_HANDLE as int), h as u32));
            ServerOut {
                os: OsView {
                    objects: v.objects.with_new(h, o),
                    next_handle: (h + 4) as u64,
                    ..v
                },
                cpu: c,
                mem: s.mem,
                r: match s.fault {
                    None => Ok(STATUS_SUCCESS),
                    Some(f) => Err(f),
                },
            }
        },
    }
}

impl OsView {
    /// Whether a handle is known to `close_handle`.
    pub open spec fn closable(self, h: u64) -> bool {
        self.objects.handles.contains_key(h) || self.files.is_file(h)
    }

    /// Without a handle: one of an object takes its names along.
    pub open spec fn without_handle(self, h: u64) -> OsView {
        if self.objects.handles.contains_key(h) {
            OsView {
                objects: self.objects.without(h),
                names: self.names.remove_keys(
                    Set::new(|k: Seq<char>| self.names.contains_key(k) && self.names[k] == h),
                ),
                ..self
            }
        } else {
            OsView { files: self.files.without(h), ..self }
        }
    }
}

/// A handle is closed.
pub open spec fn close_out(v: OsView, c: CpuView, m: MemView, req: u64) -> ServerOut {
    match m.r32(ga(req, CLOSE_HANDLE as int)) {
        Err(f) => same(v, c, m, Err(f)),
        Ok(h) => ServerOut {
            os: v.without_handle(h as u64),
            cpu: c,
            mem: m,
            r: Ok(
                if v.closable(h as u64) {
                    STATUS_SUCCESS
                } else {
                    STATUS_INVALID_HANDLE
                },
            ),
        },
    }
}

/// One more handle for an object, which goes into the reply.
pub open spec fn dup_out(v: OsView, c: CpuView, m: MemView, req: u64) -> ServerOut {
    match m.r32(ga(req, DUP_SRC_HANDLE as int)) {
        Err(f) => same(v, c, m, Err(f)),
        Ok(src) => if !can_dup(v.objects, src as u64) {
            same(v, c, m, Ok(STATUS_INVALID_HANDLE))
        } else {
            let h = v.next_handle;
            let s = m.store(s32(ga(req, REPLY_HANDLE as int), h as u32));
            ServerOut {
                os: OsView {
                    objects: v.objects.with_dup(src as u64, h),
                    next_handle: (h + 4) as u64,
                    ..v
                },
                cpu: c,
                mem: s.mem,
                r: match s.fault {
                    None => Ok(STATUS_SUCCESS),
                    Some(f) => Err(f),
                },
            }
        },
    }
}

/// The first `n` handles of a packed list.
pub open spec fn wire_handles(m: MemView, p: u64, n: nat) -> Result<Seq<u64>, Fault>
    decreases n,
{
    if n == 0 {
        Ok(Seq::empty())
    } else {
        let k = (n - 1) as nat;
        match wire_handles(m, p, k) {
            Err(f) => Err(f),
            Ok(hs) => match m.r32(ga(p, 4 * (k as int) + 4)) {
                Err(f) => Err(f),
                Ok(h) => Ok(hs.push(h as u64)),
            },
        }
    }
}

/// Handles whose prefix faults are read no further.
proof fn lemma_wire_stops(m: MemView, p: u64, k: nat, n: nat)
    requires
        k <= n,
        wire_handles(m, p, k) is Err,
    ensures
        wire_handles(m, p, n) == wire_handles(m, p, k),
    decreases n - k,
{
    if k < n {
        lemma_wire_stops(m, p, k, (n - 1) as nat);
    }
}

impl OsView {
    /// What waiting for some handles leads to: satisfied at once, all or the first
    /// signaled one; or over, where the wait is a mere look; or blocked, where
    /// another thread can run; else taken for satisfied.
    pub open spec fn selecting(self, c: CpuView, m: MemView, hs: Seq<u64>, all: bool, timeout: u64) -> ServerOut {
        let tid = self.sched.current_tid;
        if self.objects.satisfiable(hs, all, tid) {
            ServerOut {
                os: OsView {
                    objects: if all {
                        self.objects.waited_all(hs, tid)
                    } else {
                        self.objects.waited(
                            hs[first_index(hs, self.objects.signals(tid))->0],
                            tid,
                        )
                    },
                    ..self
                },
                cpu: c,
                mem: m,
                r: Ok(STATUS_SUCCESS),
            }
        } else if timeout == 0 {
            same(self, c, m, Ok(STATUS_TIMEOUT))
        } else {
            let s = switch_out(
                self.sched,
                self.objects,
                c,
                ThreadState::Blocked,
                Some(WaitView { handles: hs, all }),
            );
            ServerOut {
                os: OsView { sched: s.sched, unix_call_blocked: s.done, ..self },
                cpu: s.cpu,
                mem: m,
                r: Ok(
                    if s.done {
                        STATUS_PENDING
                    } else {
                        STATUS_SUCCESS
                    },
                ),
            }
        }
    }
}

/// The loads of a wait: its cookie and flags, its timeout, and how many blocks of
/// data come with it.
pub open spec fn select_loads(req: u64) -> Seq<Load> {
    seq![
        load64(ga(req, 20)),
        load32(ga(req, 12)),
        load64(ga(req, SELECT_TIMEOUT as int)),
        load32(ga(req, DATA_COUNT as int)),
    ]
}

/// The loads of the first block of data of a request.
pub open spec fn block_loads(req: u64) -> Seq<Load> {
    seq![load64(ga(req, DATA as int)), load32(ga(req, DATA as int + 8))]
}

/// A wait for the handles of the first block of data, whose first word tells
/// whether it is for all of them.
pub open spec fn select_out(v: OsView, c: CpuView, m: MemView, req: u64) -> ServerOut {
    match m.load_all(select_loads(req)) {
        Err(f) => same(v, c, m, Err(f)),
        Ok(a) => if a[3] == 0 {
            same(v, c, m, Ok(STATUS_INVALID_PARAMETER))
        } else {
            match m.load_all(block_loads(req)) {
                Err(f) => same(v, c, m, Err(f)),
                Ok(b) => if b[0] == 0 || b[1] < 4 {
                    same(v, c, m, Ok(STATUS_INVALID_PARAMETER))
                } else {
                    match m.r32(b[0]) {
                        Err(f) => same(v, c, m, Err(f)),
                        Ok(op) => {
                            let n = (b[1] - 4) / 4;
                            if op > SELECT_WAIT_ALL || n == 0 || n > MAXIMUM_WAIT_OBJECTS {
                                same(v, c, m, Ok(STATUS_INVALID_PARAMETER))
                            } else {
                                match wire_handles(m, b[0], n as nat) {
                                    Err(f) => same(v, c, m, Err(f)),
                                    Ok(hs) => v.selecting(
                                        c,
                                        m,
                                        hs,
                                        op == SELECT_WAIT_ALL,
                                        a[2],
                                    ),
                                }
                            }
                        },
                    }
                },
            }
        },
    }
}

/// What the request leads to before its status is written.
#[verifier::opaque]
pub open spec fn served(v: OsView, c: CpuView, m: MemView, req: u64, op: u32) -> ServerOut {
    if op == REQ_CREATE_EVENT {
        create_event_out(v, c, m, req)
    } else if op == REQ_SELECT {
        select_out(v, c, m, req)
    } else if op == REQ_CLOSE_HANDLE {
        close_out(v, c, m, req)
    } else if op == REQ_DUP_HANDLE {
        dup_out(v, c, m, req)
    } else {
        same(v, c, m, Ok(STATUS_NOT_IMPLEMENTED))
    }
}

/// The head of a reply: its status, and no data.
pub open spec fn reply_table(req: u64, status: u64) -> Seq<Store> {
    seq![s32(ga(req, REPLY_ERROR as int), status as u32), s32(ga(req, 4), 0)]
}

/// What one request leads to. The status is written to the request as well, unless
/// the request blocked its thread, which then makes it again.
pub open spec fn server_out(v: OsView, c: CpuView, m: MemView, req: u64) -> ServerOut {
    let v = OsView { unix_call_blocked: false, ..v };
    if req == 0 {
        same(v, c, m, Ok(STATUS_INVALID_PARAMETER))
    } else {
        match m.r32(req) {
            Err(f) => same(v, c, m, Err(f)),
            Ok(op) => {
                let o = served(v, c, m, req, op);
                match o.r {
                    Err(_) => o,
                    Ok(status) => if o.os.unix_call_blocked {
                        o
                    } else {
                        let s = o.mem.store_all(reply_table(req, status));
                        ServerOut {
                            mem: s.mem,
                            r: match s.fault {
                                None => Ok(status),
                                Some(f) => Err(f),
                            },
                            ..o
                        }
                    },
                }
            },
        }
    }
}

/// A request that does not block its thread leaves the registers as they are, however it is
/// served.
proof fn lemma_served_keeps_registers(v: OsView, c: CpuView, m: MemView, req: u64, op: u32)
    requires
        !v.unix_call_blocked,
    ensures
        served(v, c, m, req, op).r is Ok && !served(v, c, m, req, op).os.unix_call_blocked
            ==> served(v, c, m, req, op).cpu == c,
{
    reveal(served);
}

/// A request that does not block its thread leaves the registers as they are.
pub proof fn lemma_request_keeps_registers(v: OsView, c: CpuView, m: MemView, req: u64)
    ensures
        server_out(v, c, m, req).r is Ok && !server_out(v, c, m, req).os.unix_call_blocked
            ==> server_out(v, c, m, req).cpu == c,
{
    if let Ok(op) = m.r32(req) {
        lemma_served_keeps_registers(OsView { unix_call_blocked: false, ..v }, c, m, req, op);
    }
}

/// A request that looks without waiting never blocks its thread.
pub proof fn lemma_poll_never_blocks(v: OsView, c: CpuView, m: MemView, hs: Seq<u64>, all: bool)
    requires
        !v.unix_call_blocked,
    ensures
        ({
            let o = v.selecting(c, m, hs, all, 0);
            &&& !o.os.unix_call_blocked
            &&& o.os.sched == v.sched
            &&& o.cpu == c
            &&& o.r == Ok::<u64, Fault>(STATUS_TIMEOUT) ==> o.os == v
        }),
{
}

// ---- code -------------------------------------------------------------------

/// Handles stay below a bound when one more is added below it.
proof fn lemma_dup_below(t: TableView, src: u64, h: u64, bound: u64)
    requires
        t.wf(),
        can_dup(t, src),
        t.below(h),
        h < bound,
    ensures
        t.with_dup(src, h).below(bound),
{
    let n = t.with_dup(src, h);
    assert(t.objects.contains_key(t.handles[src]));
    assert forall|x: u64| #[trigger] n.handles.contains_key(x) implies x < bound by {
        if x != h {
            assert(t.handles.contains_key(x));
        }
    }
    assert forall|x: u64| #[trigger] n.objects.contains_key(x) implies x < bound by {
        assert(t.objects.contains_key(x));
    }
}

/// Waiting for several handles keeps them below a bound.
pub proof fn lemma_waited_all_wf(t: TableView, hs: Seq<u64>, tid: u32, bound: u64)
    requires
        t.wf(),
    ensures
        t.waited_all(hs, tid).wf(),
        t.below(bound) ==> t.waited_all(hs, tid).below(bound),
    decreases hs.len(),
{
    if hs.len() > 0 {
        lemma_waited_all_wf(t, hs.drop_last(), tid, bound);
        lemma_waited_wf(t.waited_all(hs.drop_last(), tid), hs.last(), tid, bound);
    }
}

/// Closing a handle keeps the others below a bound.
proof fn lemma_without_below(t: TableView, h: u64, bound: u64)
    requires
        t.wf(),
        t.handles.contains_key(h),
        t.below(bound),
    ensures
        t.without(h).below(bound),
{
    let n = t.without(h);
    assert(t.objects.contains_key(t.handles[h]));
    assert forall|x: u64| #[trigger] n.handles.contains_key(x) implies x < bound by {
        assert(t.handles.contains_key(x));
    }
    assert forall|x: u64| #[trigger] n.objects.contains_key(x) implies x < bound by {
        assert(t.objects.contains_key(x));
    }
}

/// Read a packed list of handles.
fn read_wire_handles(mem: &VirtualMemory, p: u64, n: u64) -> (r: Result<Vec<u64>, Fault>)
    requires
        n <= MAXIMUM_WAIT_OBJECTS,
    ensures
        match r {
            Ok(hs) => wire_handles(mem@, p, n as nat) == Ok::<Seq<u64>, Fault>(hs@),
            Err(f) => wire_handles(mem@, p, n as nat) == Err::<Seq<u64>, Fault>(f),
        },
{
    let mut out: Vec<u64> = Vec::new();
    let mut i: u64 = 0;
    assert(out@ =~= Seq::empty());
    while i < n
        invariant
            i <= n <= MAXIMUM_WAIT_OBJECTS,
            wire_handles(mem@, p, i as nat) == Ok::<Seq<u64>, Fault>(out@),
        decreases n - i,
    {
        match mem.read_u32(at(p, 4 * i + 4)) {
            Ok(h) => {
                out.push(h as u64);
            },
            Err(f) => {
                proof {
                    lemma_wire_stops(mem@, p, (i + 1) as nat, n as nat);
                }
                return Err(f);
            },
        }
        i = i + 1;
    }
    Ok(out)
}

impl WinOs {
    /// Close a handle; whether it was known.
    pub fn close_handle(&mut self, h: u64) -> (r: bool)
        requires
            old(self).wf(),
        ensures
            final(self).wf(),
            old(self).has_room() ==> final(self).has_room(),
            final(self).thunks == old(self).thunks,
            r == old(self)@.closable(h),
            final(self)@ == old(self)@.without_handle(h),
    {
        let ghost v = self@;
        proof {
            if v.objects.handles.contains_key(h) {
                lemma_without_below(v.objects, h, self.next_handle);
            }
        }
        if self.objects.close(h) {
            self.objects.forget_names(h);
            assert(self@.names =~= v.without_handle(h).names);
            assert(self@ =~= v.without_handle(h));
            return true;
        }
        self.files.close(h)
    }

    /// Serve a request for an event.
    fn srv_create_event(&mut self, req: u64, mem: &mut VirtualMemory) -> (r: Result<u64, Fault>)
        requires
            old(self).wf(),
            old(self).next_handle <= u64::MAX - 4,
        ensures
            final(self).wf(),
            final(self).thunks == old(self).thunks,
            forall|c: CpuView|
                (ServerOut { os: final(self)@, cpu: c, mem: final(mem)@, r })
                    == #[trigger] create_event_out(old(self)@, c, old(mem)@, req),
    {
        let loads: Vec<Load> = vec![
            load32(at(req, CREATE_EVENT_MANUAL)),
            load32(at(req, CREATE_EVENT_INITIAL)),
        ];
        assert(loads@ =~= create_loads(req));
        let a = match mem.load_all(&loads) {
            Ok(a) => a,
            Err(f) => {
                return Err(f);
            },
        };
        let o = KObject::Event { manual_reset: a[0] != 0, signaled: a[1] != 0 };
        let h: u64 = self.next_handle;
        self.next_handle = h + 4;
        proof {
            lemma_new_below(self.objects@, h, o);
        }
        self.objects.add_object(h, o);
        match mem.store(store32(at(req, REPLY_HANDLE), h as u32)) {
            Ok(_) => Ok(STATUS_SUCCESS),
            Err(f) => Err(f),
        }
    }

    /// Serve a request for one more handle.
    fn srv_dup_handle(&mut self, req: u64, mem: &mut VirtualMemory) -> (r: Result<u64, Fault>)
        requires
            old(self).wf(),
            old(self).next_handle <= u64::MAX - 4,
        ensures
            final(self).wf(),
            final(self).thunks == old(self).thunks,
            forall|c: CpuView|
                (ServerOut { os: final(self)@, cpu: c, mem: final(mem)@, r }) == #[trigger] dup_out(
                    old(self)@,
                    c,
                    old(mem)@,
                    req,
                ),
    {
        let src: u32 = match mem.read_u32(at(req, DUP_SRC_HANDLE)) {
            Ok(h) => h,
            Err(f) => {
                return Err(f);
            },
        };
        let h: u64 = self.next_handle;
        proof {
            if can_dup(self.objects@, src as u64) {
                lemma_dup_below(self.objects@, src as u64, h, (h + 4) as u64);
            }
        }
        if !self.objects.duplicate(src as u64, h) {
            return Ok(STATUS_INVALID_HANDLE);
        }
        self.next_handle = h + 4;
        match mem.store(store32(at(req, REPLY_HANDLE), h as u32)) {
            Ok(_) => Ok(STATUS_SUCCESS),
            Err(f) => Err(f),
        }
    }

    /// Wait for some handles.
    fn server_select_wait(
        &mut self,
        cpu: &mut CpuState,
        hs: Vec<u64>,
        all: bool,
        timeout: u64,
    ) -> (r: u64)
        requires
            old(self).wf(),
            !old(self).unix_call_blocked,
        ensures
            final(self).wf(),
            old(self).has_room() ==> final(self).has_room(),
            final(self).thunks == old(self).thunks,
            forall|m: MemView|
                (ServerOut {
                    os: final(self)@,
                    cpu: final(cpu)@,
                    mem: m,
                    r: Ok::<u64, Fault>(r),
                }) == #[trigger] old(self)@.selecting(old(cpu)@, m, hs@, all, timeout),
    {
        let tid: u32 = self.sched.current_tid;
        if all {
            if self.objects.wait_satisfiable(&hs, true, tid) {
                proof {
                    lemma_waited_all_wf(self.objects@, hs@, tid, self.next_handle);
                }
                self.objects.acquire_all(&hs, tid);
                return STATUS_SUCCESS;
            }
        } else {
            if let Some(i) = self.objects.first_signaled(&hs, tid) {
                proof {
                    lemma_waited_wf(self.objects@, hs@[i as int], tid, self.next_handle);
                }
                let _got = self.objects.acquire(hs[i], tid);
                return STATUS_SUCCESS;
            }
        }
        if timeout == 0 {
            return STATUS_TIMEOUT;
        }
        if self.sched.block_and_switch(cpu, WaitDesc { handles: hs, all }, &self.objects) {
            self.unix_call_blocked = true;
            STATUS_PENDING
        } else {
            STATUS_SUCCESS
        }
    }

    /// Serve a request to wait.
    fn srv_select(&mut self, req: u64, cpu: &mut CpuState, mem: &VirtualMemory) -> (r: Result<
        u64,
        Fault,
    >)
        requires
            old(self).wf(),
            !old(self).unix_call_blocked,
        ensures
            final(self).wf(),
            old(self).has_room() ==> final(self).has_room(),
            final(self).thunks == old(self).thunks,
            (ServerOut { os: final(self)@, cpu: final(cpu)@, mem: mem@, r }) == select_out(
                old(self)@,
                old(cpu)@,
                mem@,
                req,
            ),
    {
        let loads: Vec<Load> = vec![
            load64(at(req, 20)),
            load32(at(req, 12)),
            load64(at(req, SELECT_TIMEOUT)),
            load32(at(req, DATA_COUNT)),
        ];
        assert(loads@ =~= select_loads(req));
        let a = match mem.load_all(&loads) {
            Ok(a) => a,
            Err(f) => {
                return Err(f);
            },
        };
        if a[3] == 0 {
            return Ok(STATUS_INVALID_PARAMETER);
        }
        let loads: Vec<Load> = vec![load64(at(req, DATA)), load32(at(req, DATA + 8))];
        assert(loads@ =~= block_loads(req));
        let b = match mem.load_all(&loads) {
            Ok(b) => b,
            Err(f) => {
                return Err(f);
            },
        };
        if b[0] == 0 || b[1] < 4 {
            return Ok(STATUS_INVALID_PARAMETER);
        }
        let op: u32 = match mem.read_u32(b[0]) {
            Ok(op) => op,
            Err(f) => {
                return Err(f);
            },
        };
        let n: u64 = (b[1] - 4) / 4;
        if op > SELECT_WAIT_ALL || n == 0 || n > MAXIMUM_WAIT_OBJECTS {
            return Ok(STATUS_INVALID_PARAMETER);
        }
        let hs = match read_wire_handles(mem, b[0], n) {
            Ok(hs) => hs,
            Err(f) => {
                return Err(f);
            },
        };
        let ghost v = self@;
        let s: u64 = self.server_select_wait(cpu, hs, op == SELECT_WAIT_ALL, a[2]);
        assert(v.selecting(old(cpu)@, mem@, hs@, op == SELECT_WAIT_ALL, a@[2]).os == self@);
        Ok(s)
    }

    /// Serve a request to close a handle.
    fn srv_close_handle(&mut self, req: u64, mem: &VirtualMemory) -> (r: Result<u64, Fault>)
        requires
            old(self).wf(),
        ensures
            final(self).wf(),
            old(self).has_room() ==> final(self).has_room(),
            final(self).thunks == old(self).thunks,
            forall|c: CpuView|
                (ServerOut { os: final(self)@, cpu: c, mem: mem@, r }) == #[trigger] close_out(
                    old(self)@,
                    c,
                    mem@,
                    req,
                ),
    {
        let h: u32 = match mem.read_u32(at(req, CLOSE_HANDLE)) {
            Ok(h) => h,
            Err(f) => {
                return Err(f);
            },
        };
        if self.close_handle(h as u64) {
            Ok(STATUS_SUCCESS)
        } else {
            Ok(STATUS_INVALID_HANDLE)
        }
    }

    /// Serve the request of kind `op`.
    fn serve_request(&mut self, op: u32, req: u64, cpu: &mut CpuState, mem: &mut VirtualMemory) -> (r:
        Result<u64, Fault>)
        requires
            old(self).wf(),
            old(self).next_handle <= u64::MAX - 4,
            !old(self).unix_call_blocked,
        ensures
            final(self).wf(),
            final(self).thunks == old(self).thunks,
            (ServerOut { os: final(self)@, cpu: final(cpu)@, mem: final(mem)@, r }) == served(
                old(self)@,
                old(cpu)@,
                old(mem)@,
                req,
                op,
            ),
    {
        proof {
            reveal(served);
        }
        if op == REQ_CREATE_EVENT {
            self.srv_create_event(req, mem)
        } else if op == REQ_SELECT {
            self.srv_select(req, cpu, mem)
        } else if op == REQ_CLOSE_HANDLE {
            self.srv_close_handle(req, mem)
        } else if op == REQ_DUP_HANDLE {
            self.srv_dup_handle(req, mem)
        } else {
            Ok(STATUS_NOT_IMPLEMENTED)
        }
    }

    /// Serve one request.
    pub fn wine_server_call(&mut self, req: u64, cpu: &mut CpuState, mem: &mut VirtualMemory) -> (r:
        Result<u64, Fault>)
        requires
            old(self).wf(),
            old(self).next_handle <= u64::MAX - 4,
        ensures
            final(self).wf(),
            final(self).thunks == old(self).thunks,
            (ServerOut { os: final(self)@, cpu: final(cpu)@, mem: final(mem)@, r }) == server_out(
                old(self)@,
                old(cpu)@,
                old(mem)@,
                req,
            ),
    {
        self.unix_call_blocked = false;
        if req == 0 {
            return Ok(STATUS_INVALID_PARAMETER);
        }
        let op: u32 = match mem.read_u32(req) {
            Ok(op) => op,
            Err(f) => {
                return Err(f);
            },
        };
        let status: u64 = match self.serve_request(op, req, cpu, mem) {
            Ok(s) => s,
            Err(f) => {
                return Err(f);
            },
        };
        if self.unix_call_blocked {
            return Ok(status);
        }
        let t: Vec<Store> = vec![
            store32(at(req, REPLY_ERROR), status as u32),
            store32(at(req, 4), 0),
        ];
        assert(t@ =~= reply_table(req, status));
        match mem.store_all(&t) {
            Ok(_) => Ok(status),
            Err(f) => Err(f),
        }
    }
}

} // verus!
