//! Guest threads: their stacks and environment blocks, how they start and end,
//! and the calls on them.

use vstd::prelude::*;

use std::collections::HashMap;

use crate::call::{
    answer, answer_stores, arg, arg_at, args, args_at, faulted, sysargs, sysargs_at, Outcome,
};
use crate::cb::{framed, resumed_or, setup_call_args, set_result, with_result};
use crate::cpu::{CpuState, CpuView, Reg};
use crate::kobj::lemma_new_below;
use crate::loader::thread_targets;
use crate::mem::{
    at, below, fault_result, ga, lemma_store_all_get, lemma_store_all_ok, lemma_sub_access, opt,
    push_opt, s32, s64, sptr, store32, store64, store_ptr, Fault, MemView, Perm, Store, Stored,
    VirtualMemory,
};
use crate::ntreg::{
    finish, STATUS_INVALID_HANDLE, STATUS_INVALID_PARAMETER, STATUS_SUCCESS,
};
use crate::ntvm::STATUS_NO_MEMORY;
use crate::os::{
    entry_calls, make_entry_calls, make_tls_calls, ret, returned, tls_calls, OsOut, OsReply, OsView,
    WinOs, DLL_THREAD_ATTACH, ERROR_NOT_ENOUGH_MEMORY,
};
use crate::sched::{
    resumed, suspended, switch_out, SchedView, Thread, ThreadState, ThreadView, MAIN_TID,
    STILL_ACTIVE,
};
use crate::section::STATUS_INFO_LENGTH_MISMATCH;
use crate::ssdt::STATUS_NOT_IMPLEMENTED;
use crate::sync::{lemma_with_obj_wf, KObject, TableView};
use crate::util::{align_up, lemma_round_up, max_int, round_up};
use crate::vm::{any_map, VmView};

verus! {

broadcast use vstd::std_specs::hash::group_hash_axioms;

/// The least size of a thread's stack.
pub const THREAD_STACK_SIZE: u64 = 0x0010_0000;

/// The size of a thread's environment block.
pub const THREAD_TEB_SIZE: u64 = 0x2000;

/// The id of the process.
pub const PROCESS_ID: u64 = 0x1000;

/// The handle by which a thread means itself.
pub const NT_CURRENT_THREAD: u64 = 0xFFFF_FFFF_FFFF_FFFE;

/// The handle by which a process means itself.
pub const NT_CURRENT_PROCESS: u64 = 0xFFFF_FFFF_FFFF_FFFF;

/// The flag that a thread is created suspended.
pub const CREATE_SUSPENDED: u64 = 4;

/// The same flag of the NT call.
pub const CREATE_SUSPENDED_NT: u64 = 1;

/// What a call on an unknown thread answers in place of a count.
pub const NO_COUNT: u64 = 0xFFFF_FFFF;

/// Lengths of an empty counted string over 261 code units.
pub const STATIC_LENGTHS: u32 = 0x020A_0000;

// ---- environment blocks -----------------------------------------------------

/// The fields of a thread's environment block: no exception handler, its stack,
/// itself, its ids, the process environment block, an empty counted string over
/// a buffer of its own, and in 64-bit code an empty activation context stack.
pub open spec fn teb_table(is_64bit: bool, teb: u64, tid: u32, peb: u64, top: u64, base: u64) -> Seq<
    Store,
> {
    if is_64bit {
        seq![
            s64(ga(teb, 0x000), u64::MAX),
            s64(ga(teb, 0x008), top),
            s64(ga(teb, 0x010), base),
            s64(ga(teb, 0x030), teb),
            s64(ga(teb, 0x040), PROCESS_ID),
            s64(ga(teb, 0x048), tid as u64),
            s64(ga(teb, 0x058), 0),
            s64(ga(teb, 0x060), peb),
            s64(ga(teb, 0x1258), STATIC_LENGTHS as u64),
            s64(ga(teb, 0x1260), ga(teb, 0x1268)),
            s64(ga(teb, 0x6C8), 0),
            s64(ga(teb, 0x1478), base),
            s64(ga(teb, 0x1780), 0),
            s64(ga(teb, 0x2c8), ga(teb, 0x1900)),
            s64(ga(teb, 0x1908), ga(teb, 0x1908)),
            s64(ga(teb, 0x1910), ga(teb, 0x1908)),
        ]
    } else {
        seq![
            s32(ga(teb, 0x000), u32::MAX),
            s32(ga(teb, 0x004), top as u32),
            s32(ga(teb, 0x008), base as u32),
            s32(ga(teb, 0x018), teb as u32),
            s32(ga(teb, 0x020), PROCESS_ID as u32),
            s32(ga(teb, 0x024), tid),
            s32(ga(teb, 0x02C), 0),
            s32(ga(teb, 0x030), peb as u32),
            s32(ga(teb, 0x0AC), STATIC_LENGTHS),
            s32(ga(teb, 0x0B0), ga(teb, 0x0B4) as u32),
            s32(ga(teb, 0x38C), 0),
            s32(ga(teb, 0xE0C), base as u32),
            s32(ga(teb, 0xF94), 0),
        ]
    }
}

/// The fields of a thread's environment block.
fn teb_stores(is_64bit: bool, teb: u64, tid: u32, peb: u64, top: u64, base: u64) -> (t: Vec<Store>)
    ensures
        t@ == teb_table(is_64bit, teb, tid, peb, top, base),
{
    let t: Vec<Store> = if is_64bit {
        vec![
            store64(at(teb, 0x000), u64::MAX),
            store64(at(teb, 0x008), top),
            store64(at(teb, 0x010), base),
            store64(at(teb, 0x030), teb),
            store64(at(teb, 0x040), PROCESS_ID),
            store64(at(teb, 0x048), tid as u64),
            store64(at(teb, 0x058), 0),
            store64(at(teb, 0x060), peb),
            store64(at(teb, 0x1258), STATIC_LENGTHS as u64),
            store64(at(teb, 0x1260), at(teb, 0x1268)),
            store64(at(teb, 0x6C8), 0),
            store64(at(teb, 0x1478), base),
            store64(at(teb, 0x1780), 0),
            store64(at(teb, 0x2c8), at(teb, 0x1900)),
            store64(at(teb, 0x1908), at(teb, 0x1908)),
            store64(at(teb, 0x1910), at(teb, 0x1908)),
        ]
    } else {
        vec![
            store32(at(teb, 0x000), u32::MAX),
            store32(at(teb, 0x004), top as u32),
            store32(at(teb, 0x008), base as u32),
            store32(at(teb, 0x018), teb as u32),
            store32(at(teb, 0x020), PROCESS_ID as u32),
            store32(at(teb, 0x024), tid),
            store32(at(teb, 0x02C), 0),
            store32(at(teb, 0x030), peb as u32),
            store32(at(teb, 0x0AC), STATIC_LENGTHS),
            store32(at(teb, 0x0B0), at(teb, 0x0B4) as u32),
            store32(at(teb, 0x38C), 0),
            store32(at(teb, 0xE0C), base as u32),
            store32(at(teb, 0xF94), 0),
        ]
    };
    assert(t@ =~= teb_table(is_64bit, teb, tid, peb, top, base));
    t
}

/// Every field lies in its block and holds a value of its size.
proof fn lemma_teb_field(
    is_64bit: bool,
    teb: u64,
    tid: u32,
    peb: u64,
    top: u64,
    base: u64,
    k: int,
)
    requires
        teb + THREAD_TEB_SIZE <= u64::MAX,
        0 <= k < teb_table(is_64bit, teb, tid, peb, top, base).len(),
    ensures
        ({
            let f = teb_table(is_64bit, teb, tid, peb, top, base)[k];
            &&& teb <= f.addr
            &&& f.addr + f.size <= teb + THREAD_TEB_SIZE
            &&& f.value < crate::mem::pow256(f.size as nat)
        }),
{
    crate::mem::lemma_pow256();
}

/// How far into a thread's environment block a field lies.
spec fn teb_offset(is_64bit: bool, k: int) -> int {
    if is_64bit {
        if k == 0 {
            0x000
        } else if k == 1 {
            0x008
        } else if k == 2 {
            0x010
        } else if k == 3 {
            0x030
        } else if k == 4 {
            0x040
        } else if k == 5 {
            0x048
        } else if k == 6 {
            0x058
        } else if k == 7 {
            0x060
        } else if k == 8 {
            0x1258
        } else if k == 9 {
            0x1260
        } else if k == 10 {
            0x6C8
        } else if k == 11 {
            0x1478
        } else if k == 12 {
            0x1780
        } else if k == 13 {
            0x2c8
        } else if k == 14 {
            0x1908
        } else {
            0x1910
        }
    } else {
        if k == 0 {
            0x000
        } else if k == 1 {
            0x004
        } else if k == 2 {
            0x008
        } else if k == 3 {
            0x018
        } else if k == 4 {
            0x020
        } else if k == 5 {
            0x024
        } else if k == 6 {
            0x02C
        } else if k == 7 {
            0x030
        } else if k == 8 {
            0x0AC
        } else if k == 9 {
            0x0B0
        } else if k == 10 {
            0x38C
        } else if k == 11 {
            0xE0C
        } else {
            0xF94
        }
    }
}

/// The bytes of a field.
spec fn teb_width(is_64bit: bool) -> int {
    if is_64bit {
        8
    } else {
        4
    }
}

/// Where a field stands.
proof fn lemma_teb_place(
    is_64bit: bool,
    teb: u64,
    tid: u32,
    peb: u64,
    top: u64,
    base: u64,
    k: int,
)
    requires
        teb + THREAD_TEB_SIZE <= u64::MAX,
        0 <= k < teb_table(is_64bit, teb, tid, peb, top, base).len(),
    ensures
        ({
            let f = teb_table(is_64bit, teb, tid, peb, top, base)[k];
            &&& f.addr == teb + teb_offset(is_64bit, k)
            &&& f.size == teb_width(is_64bit)
        }),
        teb_table(is_64bit, teb, tid, peb, top, base).len() == (if is_64bit {
            16int
        } else {
            13
        }),
{
}

/// Two fields lie apart.
proof fn lemma_teb_offsets(is_64bit: bool, i: int, j: int)
    requires
        0 <= i < j < (if is_64bit {
            16int
        } else {
            13
        }),
    ensures
        ({
            let w = teb_width(is_64bit);
            teb_offset(is_64bit, i) + w <= teb_offset(is_64bit, j) || teb_offset(is_64bit, j) + w
                <= teb_offset(is_64bit, i)
        }),
{
}

/// Two fields touch no common byte.
proof fn lemma_teb_apart(
    is_64bit: bool,
    teb: u64,
    tid: u32,
    peb: u64,
    top: u64,
    base: u64,
    i: int,
    j: int,
)
    requires
        teb + THREAD_TEB_SIZE <= u64::MAX,
        0 <= i < j < teb_table(is_64bit, teb, tid, peb, top, base).len(),
    ensures
        crate::mem::apart(
            teb_table(is_64bit, teb, tid, peb, top, base)[i],
            teb_table(is_64bit, teb, tid, peb, top, base)[j],
        ),
{
    lemma_teb_place(is_64bit, teb, tid, peb, top, base, i);
    lemma_teb_place(is_64bit, teb, tid, peb, top, base, j);
    lemma_teb_offsets(is_64bit, i, j);
}

/// In an environment block that can be written and read, every field is laid down
/// and read back.
pub proof fn lemma_teb_read_back(
    is_64bit: bool,
    m: MemView,
    teb: u64,
    tid: u32,
    peb: u64,
    top: u64,
    base: u64,
    i: int,
)
    requires
        m.wf(),
        teb + THREAD_TEB_SIZE <= u64::MAX,
        m.can_read(teb as int, THREAD_TEB_SIZE as int),
        m.can_write(teb as int, THREAD_TEB_SIZE as int),
        0 <= i < teb_table(is_64bit, teb, tid, peb, top, base).len(),
    ensures
        ({
            let t = teb_table(is_64bit, teb, tid, peb, top, base);
            let s = m.store_all(t);
            &&& s.fault is None
            &&& s.mem.read_le(t[i].addr, t[i].size as nat) == Ok::<nat, Fault>(t[i].value as nat)
        }),
{
    let t = teb_table(is_64bit, teb, tid, peb, top, base);
    assert forall|k: int| 0 <= k < t.len() implies m.can_write(
        (#[trigger] t[k]).addr as int,
        t[k].size as int,
    ) && m.can_read(t[k].addr as int, t[k].size as int) by {
        lemma_teb_field(is_64bit, teb, tid, peb, top, base, k);
        lemma_sub_access(
            m,
            teb as int,
            THREAD_TEB_SIZE as int,
            t[k].addr as int,
            t[k].size as int,
        );
    }
    lemma_store_all_ok(m, t);
    assert forall|j: int| i < j < t.len() implies crate::mem::apart(t[i], #[trigger] t[j]) by {
        lemma_teb_apart(is_64bit, teb, tid, peb, top, base, i, j);
    }
    lemma_teb_field(is_64bit, teb, tid, peb, top, base, i);
    lemma_store_all_get(m, t, i);
}

// ---- starting ---------------------------------------------------------------

/// The size of the stack of a thread that asks for `req` bytes; none where it
/// would not fit the address space.
pub open spec fn stack_size(req: u64) -> Option<u64> {
    let n = round_up(max_int(req as int, THREAD_STACK_SIZE as int), 0x1000);
    if n <= u64::MAX {
        Some(n as u64)
    } else {
        None
    }
}

/// Where the first frame of a thread is built.
pub open spec fn first_frame(top: u64) -> u64 {
    let a = ga(top, -0x100);
    (a - a % 16) as u64
}

impl OsView {
    /// Whether a new thread is announced before it starts.
    pub open spec fn announces(self) -> bool {
        self.tls_callbacks.len() > 0 || thread_targets(self.dll.modules).len() > 0
    }

    /// The pushes on the stack of a new thread: where its announcement returns to,
    /// or where its start routine does, in 32-bit code above its parameter.
    pub open spec fn start_table(self, top: u64, param: u64) -> Seq<Store> {
        let sp = first_frame(top);
        if self.announces() {
            seq![
                sptr(
                    self.wide(),
                    ga(sp, -crate::cb::slot(self.wide())),
                    self.drivers.thread_entry,
                ),
            ]
        } else if self.wide() {
            seq![s64(ga(sp, -8), self.drivers.thread_exit)]
        } else {
            seq![
                s32(ga(sp, -4), param as u32),
                s32(ga(sp, -8), self.drivers.thread_exit as u32),
            ]
        }
    }

    /// The registers that a new thread starts with.
    pub open spec fn start_state(self, teb: u64, top: u64, entry: u64, param: u64) -> CpuView {
        let sp = first_frame(top);
        let c = CpuView { gs_base: teb, fs_base: teb, ..CpuView::fresh() };
        if self.announces() {
            c.with_rip(self.drivers.thread_tls).with_rsp(
                ga(sp, -crate::cb::slot(self.wide())),
            )
        } else if self.wide() {
            c.with_reg(Reg::Rcx, param).with_rip(entry).with_rsp(ga(sp, -8))
        } else {
            c.with_rip(entry).with_rsp(ga(sp, -8))
        }
    }
}

/// What creating a thread leads to.
pub struct SpawnOut {
    pub os: OsView,
    pub mem: MemView,
    pub r: Result<Option<(u64, u32)>, Fault>,
}

/// No thread was created for want of memory.
pub open spec fn no_thread(v: OsView, m: MemView) -> SpawnOut {
    SpawnOut { os: v.failed(ERROR_NOT_ENOUGH_MEMORY), mem: m, r: Ok(None) }
}

/// A thread with a stack of its own at `base` and an environment block of its own
/// at `teb`: where its first frame could be built, it has the next handle and the
/// id `tid`, and is ready or suspended.
pub open spec fn thread_added(
    v: OsView,
    m: MemView,
    tid: u32,
    base: u64,
    size: u64,
    teb: u64,
    entry: u64,
    param: u64,
    suspended: bool,
) -> SpawnOut {
    let top = ga(base, size as int);
    let s = m.store_all(v.start_table(top, param));
    match s.fault {
        Some(f) => SpawnOut { os: v, mem: s.mem, r: Err(f) },
        None => {
            let h = v.next_handle;
            let t = ThreadView {
                handle: h,
                state: if suspended {
                    ThreadState::Suspended
                } else {
                    ThreadState::Ready
                },
                saved: v.start_state(teb, top, entry, param),
                stack_base: base,
                stack_size: size,
                teb_base: teb,
                teb_owned: teb,
                suspend_count: if suspended {
                    1
                } else {
                    0
                },
                pending_entry: if v.announces() {
                    Some((entry, param))
                } else {
                    None
                },
                ..ThreadView::first(tid)
            };
            SpawnOut {
                os: OsView {
                    next_handle: (h + 4) as u64,
                    objects: v.objects.with_new(h, KObject::Thread { exited: false }),
                    sched: SchedView { threads: v.sched.threads.push(t), ..v.sched },
                    ..v
                },
                mem: s.mem,
                r: Ok(Some((h, tid))),
            }
        },
    }
}

/// What giving a thread its id and its environment block leads to, once it has a
/// stack: without memory for the block the stack goes back, and there is no thread.
pub open spec fn seat_out(
    v: OsView,
    m: MemView,
    base: u64,
    size: u64,
    entry: u64,
    param: u64,
    suspended: bool,
) -> SpawnOut {
    let tid = v.sched.next_tid;
    let b = any_map(v.vm.next, m, THREAD_TEB_SIZE, Perm::rw());
    let w = OsView {
        vm: VmView { next: b.next, ..v.vm },
        sched: SchedView { next_tid: (tid + 1) as u32, ..v.sched },
        ..v
    };
    match b.base {
        None => no_thread(w, b.mem.unmapped(base)),
        Some(teb) => {
            let s = b.mem.store_all(
                teb_table(v.wide(), teb, tid, v.cfg.peb_addr, ga(base, size as int), base),
            );
            if s.fault is Some {
                no_thread(w, s.mem.unmapped(base))
            } else {
                thread_added(w, s.mem, tid, base, size, teb, entry, param, suspended)
            }
        },
    }
}

/// What creating a thread leads to: a stack, the next id and an environment block
/// are taken, in this order. Without memory for one of them there is no thread.
pub open spec fn spawn_out(
    v: OsView,
    m: MemView,
    req: u64,
    entry: u64,
    param: u64,
    suspended: bool,
) -> SpawnOut {
    match stack_size(req) {
        None => no_thread(v, m),
        Some(size) => {
            let a = any_map(v.vm.next, m, size, Perm::rwx());
            let w = OsView { vm: VmView { next: a.next, ..v.vm }, ..v };
            match a.base {
                None => no_thread(w, a.mem),
                Some(base) => seat_out(w, a.mem, base, size, entry, param, suspended),
            }
        },
    }
}

/// `CreateThread`.
#[verifier::opaque]
pub open spec fn create_thread_out(v: OsView, c: CpuView, m: MemView) -> OsReply {
    match args_at(v.wide(), c, m, seq![1, 2, 3, 4, 5]) {
        Err(f) => OsReply { os: v, mem: m, r: Err(f) },
        Ok(a) => {
            let s = spawn_out(v, m, a[0], a[1], a[2], a[3] & CREATE_SUSPENDED != 0);
            match s.r {
                Err(f) => OsReply { os: s.os, mem: s.mem, r: Err(f) },
                Ok(None) => OsReply { os: s.os, mem: s.mem, r: Ok(0) },
                Ok(Some(t)) => {
                    let reply = answer_stores(s.mem, opt(s32(a[4], t.1)), t.0);
                    OsReply { os: s.os, mem: reply.mem, r: reply.r }
                },
            }
        },
    }
}

/// `NtCreateThreadEx`.
pub open spec fn nt_create_thread_out(v: OsView, c: CpuView, m: MemView) -> OsReply {
    match sysargs_at(v.syscall_rsp, c, m, seq![0, 4, 5, 6, 8]) {
        Err(f) => OsReply { os: v, mem: m, r: Err(f) },
        Ok(a) => if a[0] == 0 {
            OsReply { os: v, mem: m, r: Ok(STATUS_INVALID_PARAMETER) }
        } else {
            let s = spawn_out(v, m, a[4], a[1], a[2], a[3] & CREATE_SUSPENDED_NT != 0);
            match s.r {
                Err(f) => OsReply { os: s.os, mem: s.mem, r: Err(f) },
                Ok(None) => OsReply { os: s.os, mem: s.mem, r: Ok(STATUS_NO_MEMORY) },
                Ok(Some(t)) => {
                    let reply = answer_stores(
                        s.mem,
                        seq![sptr(v.wide(), a[0], t.0)],
                        STATUS_SUCCESS,
                    );
                    OsReply { os: s.os, mem: reply.mem, r: reply.r }
                },
            }
        },
    }
}

// ---- ending -----------------------------------------------------------------

/// The objects after the thread of a handle has ended.
pub open spec fn latched(t: TableView, h: u64) -> TableView {
    match t.obj(h) {
        Some(KObject::Thread { .. }) => t.with_obj(h, KObject::Thread { exited: true }),
        _ => t,
    }
}

/// Memory without what a thread owned.
pub open spec fn reclaimed(m: MemView, t: ThreadView) -> MemView {
    let a = if t.stack_base != 0 {
        m.unmapped(t.stack_base)
    } else {
        m
    };
    if t.teb_owned != 0 {
        a.unmapped(t.teb_owned)
    } else {
        a
    }
}

impl OsView {
    /// With thread `i` ended.
    pub open spec fn ended(self, i: int, code: u32) -> OsView {
        let t = self.sched.threads[i];
        OsView {
            sched: self.sched.with_thread(
                i,
                ThreadView { state: ThreadState::Terminated, exit_code: code, ..t },
            ),
            objects: latched(self.objects, t.handle),
            ..self
        }
    }

    /// What follows when the running thread has ended: another thread goes on, or
    /// the process ends.
    pub open spec fn moved_on(self, c: CpuView, m: MemView, code: u32) -> OsOut {
        match self.sched.next(self.objects) {
            Some(i) => OsOut {
                os: OsView { sched: self.sched.activated(i), ..self },
                cpu: self.sched.threads[i].saved,
                mem: m,
                r: Ok(Outcome::Resume),
            },
            None => OsOut { os: self, cpu: c, mem: m, r: Ok(Outcome::Exit(code as i32)) },
        }
    }

    /// What the end of the running thread leads to.
    pub open spec fn exiting(self, c: CpuView, m: MemView, code: u32) -> OsOut {
        self.ended(self.sched.current, code).moved_on(c, reclaimed(m, self.sched.me()), code)
    }

    /// The thread that an NT call means.
    pub open spec fn nt_thread(self, h: u64) -> Option<int> {
        if h == NT_CURRENT_THREAD {
            Some(self.sched.current)
        } else {
            self.sched.by_handle(h)
        }
    }

    /// What a call that answers with `v` and then lets another thread run leads
    /// to.
    pub open spec fn yielding(self, c: CpuView, m: MemView, v: u64, argc: u32) -> OsOut {
        let d = with_result(self.wide(), c, v);
        match returned(self.wide(), d, m, argc) {
            Err(f) => OsOut { os: self, cpu: d, mem: m, r: Err(f) },
            Ok(e) => {
                let s = switch_out(
                    self.sched,
                    self.objects,
                    e,
                    ThreadState::Ready,
                    self.sched.me().wait,
                );
                OsOut {
                    os: OsView { sched: s.sched, ..self },
                    cpu: s.cpu,
                    mem: m,
                    r: Ok(Outcome::Resume),
                }
            },
        }
    }
}

/// `ExitThread`.
#[verifier::opaque]
pub open spec fn exit_thread_out(v: OsView, c: CpuView, m: MemView) -> OsOut {
    match arg_at(v.wide(), c, m, 0) {
        Err(f) => OsOut { os: v, cpu: c, mem: m, r: Err(f) },
        Ok(code) => v.exiting(c, m, code as u32),
    }
}

/// `TerminateThread`.
#[verifier::opaque]
pub open spec fn terminate_thread_out(v: OsView, c: CpuView, m: MemView) -> OsOut {
    match args_at(v.wide(), c, m, seq![0, 1]) {
        Err(f) => OsOut { os: v, cpu: c, mem: m, r: Err(f) },
        Ok(a) => match v.sched.by_handle(a[0]) {
            None => OsOut { os: v, cpu: c, mem: m, r: Ok(Outcome::Return(0)) },
            Some(i) => if i == v.sched.current {
                v.exiting(c, m, a[1] as u32)
            } else {
                OsOut {
                    os: v.ended(i, a[1] as u32),
                    cpu: c,
                    mem: reclaimed(m, v.sched.threads[i]),
                    r: Ok(Outcome::Return(1)),
                }
            },
        },
    }
}

/// `NtTerminateThread`. The end of the running thread leaves the registers of the
/// next one, or ends the process.
pub open spec fn nt_terminate_thread_out(v: OsView, c: CpuView, m: MemView) -> OsOut {
    match sysargs_at(v.syscall_rsp, c, m, seq![0, 1]) {
        Err(f) => OsOut { os: v, cpu: c, mem: m, r: Err(f) },
        Ok(a) => match v.nt_thread(a[0]) {
            None => OsOut {
                os: v,
                cpu: c,
                mem: m,
                r: Ok(Outcome::Return(STATUS_INVALID_HANDLE)),
            },
            Some(i) => {
                let code = a[1] as u32;
                let e = v.ended(i, code);
                let n = reclaimed(m, v.sched.threads[i]);
                if i == v.sched.current {
                    let o = OsView { resume_as_is: true, ..e }.moved_on(c, n, code);
                    match o.r {
                        Ok(Outcome::Exit(x)) => OsOut {
                            os: OsView { syscall_exit: Some(x), ..o.os },
                            r: Ok(Outcome::Return(code as u64)),
                            ..o
                        },
                        _ => OsOut { r: Ok(Outcome::Return(STATUS_SUCCESS)), ..o },
                    }
                } else {
                    OsOut { os: e, cpu: c, mem: n, r: Ok(Outcome::Return(STATUS_SUCCESS)) }
                }
            },
        },
    }
}

/// `NtTerminateProcess`: of this process, with a code; of any other, nothing.
pub open spec fn nt_terminate_process_out(v: OsView, c: CpuView, m: MemView) -> OsReply {
    match sysargs_at(v.syscall_rsp, c, m, seq![0, 1]) {
        Err(f) => OsReply { os: v, mem: m, r: Err(f) },
        Ok(a) => OsReply {
            os: if a[0] == 0 || a[0] == NT_CURRENT_PROCESS {
                OsView { syscall_exit: Some(a[1] as i32), ..v }
            } else {
                v
            },
            mem: m,
            r: Ok(STATUS_SUCCESS),
        },
    }
}

// ---- counting suspensions and asking ----------------------------------------

/// `ResumeThread` and `SuspendThread`: the count before.
#[verifier::opaque]
pub open spec fn count_out(v: OsView, c: CpuView, m: MemView, suspend: bool) -> OsReply {
    match arg_at(v.wide(), c, m, 0) {
        Err(f) => OsReply { os: v, mem: m, r: Err(f) },
        Ok(h) => match v.sched.by_handle(h) {
            None => OsReply { os: v, mem: m, r: Ok(NO_COUNT) },
            Some(i) => OsReply {
                os: v.counted(i, suspend),
                mem: m,
                r: Ok(v.sched.threads[i].suspend_count as u64),
            },
        },
    }
}

impl OsView {
    /// With thread `i` suspended once more or once less.
    pub open spec fn counted(self, i: int, suspend: bool) -> OsView {
        let t = self.sched.threads[i];
        OsView {
            sched: self.sched.with_thread(
                i,
                if suspend {
                    suspended(t, i != self.sched.current)
                } else {
                    resumed(t)
                },
            ),
            ..self
        }
    }
}

/// `NtResumeThread` and `NtSuspendThread`: the count before goes to the guest
/// where it asks for it.
pub open spec fn nt_count_out(v: OsView, c: CpuView, m: MemView, suspend: bool) -> OsReply {
    match sysargs_at(v.syscall_rsp, c, m, seq![0, 1]) {
        Err(f) => OsReply { os: v, mem: m, r: Err(f) },
        Ok(a) => match v.nt_thread(a[0]) {
            None => OsReply { os: v, mem: m, r: Ok(STATUS_INVALID_HANDLE) },
            Some(i) => {
                let reply = answer_stores(
                    m,
                    opt(s32(a[1], v.sched.threads[i].suspend_count)),
                    STATUS_SUCCESS,
                );
                OsReply { os: v.counted(i, suspend), mem: reply.mem, r: reply.r }
            },
        },
    }
}

/// The exit code of a thread as others see it.
pub open spec fn seen_code(t: ThreadView) -> u32 {
    if t.state == ThreadState::Terminated {
        t.exit_code
    } else {
        STILL_ACTIVE
    }
}

/// `GetExitCodeThread`.
#[verifier::opaque]
pub open spec fn exit_code_out(v: OsView, c: CpuView, m: MemView) -> crate::call::Reply {
    match args_at(v.wide(), c, m, seq![0, 1]) {
        Err(f) => faulted(m, f),
        Ok(a) => answer_stores(
            m,
            opt(
                s32(
                    a[1],
                    match v.sched.by_handle(a[0]) {
                        Some(i) => seen_code(v.sched.threads[i]),
                        None => STILL_ACTIVE,
                    },
                ),
            ),
            1,
        ),
    }
}

/// The size of what is reported of a thread.
pub open spec fn thread_info_size(is_64bit: bool) -> u64 {
    if is_64bit {
        0x30
    } else {
        0x1C
    }
}

/// What is reported of a thread: its exit code, environment block and ids.
pub open spec fn thread_info(is_64bit: bool, p: u64, t: ThreadView) -> Seq<Store> {
    if is_64bit {
        seq![
            s32(p, seen_code(t)),
            s64(ga(p, 0x08), t.teb_base),
            s64(ga(p, 0x10), PROCESS_ID),
            s64(ga(p, 0x18), t.tid as u64),
            s64(ga(p, 0x20), 1),
            s32(ga(p, 0x28), 0),
            s32(ga(p, 0x2C), 0),
        ]
    } else {
        seq![
            s32(p, seen_code(t)),
            s32(ga(p, 0x04), t.teb_base as u32),
            s32(ga(p, 0x08), PROCESS_ID as u32),
            s32(ga(p, 0x0C), t.tid),
            s32(ga(p, 0x10), 1),
            s32(ga(p, 0x14), 0),
            s32(ga(p, 0x18), 0),
        ]
    }
}

/// `NtQueryInformationThread`.
pub open spec fn thread_info_out(v: OsView, c: CpuView, m: MemView) -> crate::call::Reply {
    match sysargs_at(v.syscall_rsp, c, m, seq![0, 1, 2, 3, 4]) {
        Err(f) => faulted(m, f),
        Ok(a) => if a[1] as u32 != 0 {
            answer(m, STATUS_NOT_IMPLEMENTED)
        } else {
            match v.nt_thread(a[0]) {
                None => answer(m, STATUS_INVALID_HANDLE),
                Some(i) => {
                    let need = thread_info_size(v.wide());
                    if a[2] == 0 || a[3] < need {
                        answer(m, STATUS_INFO_LENGTH_MISMATCH)
                    } else {
                        answer_stores(
                            m,
                            thread_info(v.wide(), a[2], v.sched.threads[i]) + opt(
                                s32(a[4], need as u32),
                            ),
                            STATUS_SUCCESS,
                        )
                    }
                },
            }
        },
    }
}

// ---- announcements ----------------------------------------------------------

impl OsView {
    /// What announcing a new thread leads to: the TLS callbacks of the main image,
    /// then the entry points of the loaded images that want to hear of it.
    pub open spec fn announcing(self, c: CpuView, m: MemView) -> OsOut {
        self.calling(
            c,
            m,
            tls_calls(self.tls_callbacks, self.cfg.image_base, DLL_THREAD_ATTACH) + entry_calls(
                thread_targets(self.dll.modules),
                DLL_THREAD_ATTACH,
            ),
            0,
            0,
            false,
        )
    }

    /// What seating the start routine of an announced thread leads to.
    pub open spec fn seating(self, c: CpuView, m: MemView) -> OsOut {
        let t = self.sched.me();
        let e = match t.pending_entry {
            Some(e) => e,
            None => (0, 0),
        };
        let f = framed(
            self.wide(),
            c,
            m,
            e.0,
            seq![e.1],
            self.drivers.thread_exit,
            c.rsp(),
        );
        OsOut {
            os: OsView {
                sched: self.sched.with_thread(
                    self.sched.current,
                    ThreadView { pending_entry: None, ..t },
                ),
                ..self
            },
            cpu: f.cpu,
            mem: f.mem,
            r: resumed_or(f.fault),
        }
    }
}

// ---- code -------------------------------------------------------------------

impl WinOs {
    /// Fill the environment block of the main thread. Without one there is nothing
    /// to fill.
    pub fn seed_main_teb(&self, mem: &mut VirtualMemory, stack_base: u64, stack_top: u64) -> (r:
        Result<(), Fault>)
        ensures
            ({
                let s = if self@.cfg.teb_base == 0 {
                    Stored { mem: old(mem)@, fault: None }
                } else {
                    old(mem)@.store_all(
                        teb_table(
                            self@.wide(),
                            self@.cfg.teb_base,
                            MAIN_TID,
                            self@.cfg.peb_addr,
                            stack_top,
                            stack_base,
                        ),
                    )
                };
                &&& final(mem)@ == s.mem
                &&& r == fault_result(s.fault)
            }),
    {
        let teb: u64 = self.cfg.teb_base;
        if teb == 0 {
            return Ok(());
        }
        let t = teb_stores(
            self.cfg.is_64bit,
            teb,
            MAIN_TID,
            self.cfg.peb_addr,
            stack_top,
            stack_base,
        );
        mem.store_all(&t)
    }

    /// Whether a new thread is announced before it starts.
    fn has_announcements(&self) -> (r: bool)
        ensures
            r == self@.announces(),
    {
        if self.tls_callbacks.len() > 0 {
            return true;
        }
        let t = self.dll.thread_notify_targets();
        t.len() > 0
    }

    /// Build the first frame of a thread and list it.
    fn add_thread(
        &mut self,
        mem: &mut VirtualMemory,
        tid: u32,
        base: u64,
        size: u64,
        teb: u64,
        entry: u64,
        param: u64,
        suspended: bool,
    ) -> (r: Result<Option<(u64, u32)>, Fault>)
        requires
            old(self).wf(),
            old(self).next_handle <= u64::MAX - 4,
        ensures
            final(self).wf(),
            final(self).thunks == old(self).thunks,
            (SpawnOut { os: final(self)@, mem: final(mem)@, r }) == thread_added(
                old(self)@,
                old(mem)@,
                tid,
                base,
                size,
                teb,
                entry,
                param,
                suspended,
            ),
    {
        let ghost v = self@;
        let wide: bool = self.cfg.is_64bit;
        let top: u64 = at(base, size);
        let low: u64 = below(top, 0x100);
        let sp: u64 = low - low % 16;
        let announced: bool = self.has_announcements();
        let slot: u64 = if wide {
            8
        } else {
            4
        };
        let t: Vec<Store> = if announced {
            vec![store_ptr(wide, below(sp, slot), self.drivers.thread_entry)]
        } else if wide {
            vec![store64(below(sp, 8), self.drivers.thread_exit)]
        } else {
            vec![
                store32(below(sp, 4), param as u32),
                store32(below(sp, 8), self.drivers.thread_exit as u32),
            ]
        };
        assert(t@ =~= v.start_table(top, param));
        match mem.store_all(&t) {
            Ok(_) => {},
            Err(f) => {
                return Err(f);
            },
        }
        let mut st = CpuState::new();
        st.gs_base = teb;
        st.fs_base = teb;
        let mut pending: Option<(u64, u64)> = None;
        if announced {
            st.rip = self.drivers.thread_tls;
            st.set_rsp(below(sp, slot));
            pending = Some((entry, param));
        } else {
            if wide {
                st.set_reg(Reg::Rcx, param);
            }
            st.rip = entry;
            st.set_rsp(below(sp, 8));
        }
        let h: u64 = self.next_handle;
        self.next_handle = h + 4;
        proof {
            lemma_new_below(self.objects@, h, KObject::Thread { exited: false });
        }
        self.objects.add_object(h, KObject::Thread { exited: false });
        let thread = Thread {
            tid,
            handle: h,
            state: if suspended {
                ThreadState::Suspended
            } else {
                ThreadState::Ready
            },
            saved: st,
            exit_code: STILL_ACTIVE,
            stack_base: base,
            stack_size: size,
            teb_base: teb,
            teb_owned: teb,
            suspend_count: if suspended {
                1
            } else {
                0
            },
            wait: None,
            tls: HashMap::new(),
            fls: HashMap::new(),
            msgs: Vec::new(),
            quit_code: None,
            pending_entry: pending,
        };
        let ghost tv = thread@;
        self.sched.threads.push(thread);
        proof {
            let want = thread_added(
                v,
                old(mem)@,
                tid,
                base,
                size,
                teb,
                entry,
                param,
                suspended,
            ).os;
            assert(tv =~= want.sched.threads.last());
            assert(self@.sched.threads =~= want.sched.threads);
            assert(self@ =~= want);
        }
        Ok(Some((h, tid)))
    }

    /// Give a thread its id and its environment block.
    fn seat_thread(
        &mut self,
        mem: &mut VirtualMemory,
        base: u64,
        size: u64,
        entry: u64,
        param: u64,
        suspended: bool,
    ) -> (r: Result<Option<(u64, u32)>, Fault>)
        requires
            old(self).wf(),
            old(self).has_room(),
        ensures
            final(self).wf(),
            final(self).thunks == old(self).thunks,
            (SpawnOut { os: final(self)@, mem: final(mem)@, r }) == seat_out(
                old(self)@,
                old(mem)@,
                base,
                size,
                entry,
                param,
                suspended,
            ),
    {
        let tid: u32 = self.sched.next_tid;
        self.sched.next_tid = tid + 1;
        let teb: u64 = match self.vm.map_anywhere(mem, THREAD_TEB_SIZE, Perm::rw()) {
            Some(b) => b,
            None => {
                let _gone = mem.unmap(base);
                self.last_error = ERROR_NOT_ENOUGH_MEMORY;
                return Ok(None);
            },
        };
        let t = teb_stores(self.cfg.is_64bit, teb, tid, self.cfg.peb_addr, at(base, size), base);
        match mem.store_all(&t) {
            Ok(_) => {},
            Err(_) => {
                let _gone = mem.unmap(base);
                self.last_error = ERROR_NOT_ENOUGH_MEMORY;
                return Ok(None);
            },
        }
        self.add_thread(mem, tid, base, size, teb, entry, param, suspended)
    }

    /// Create a thread.
    pub fn spawn_thread(
        &mut self,
        mem: &mut VirtualMemory,
        req: u64,
        entry: u64,
        param: u64,
        suspended: bool,
    ) -> (r: Result<Option<(u64, u32)>, Fault>)
        requires
            old(self).wf(),
            old(self).has_room(),
        ensures
            final(self).wf(),
            final(self).thunks == old(self).thunks,
            (SpawnOut { os: final(self)@, mem: final(mem)@, r }) == spawn_out(
                old(self)@,
                old(mem)@,
                req,
                entry,
                param,
                suspended,
            ),
    {
        let least: u64 = if req < THREAD_STACK_SIZE {
            THREAD_STACK_SIZE
        } else {
            req
        };
        proof {
            lemma_round_up(least as int, 0x1000);
        }
        let size: u64 = match align_up(least, 0x1000) {
            Some(n) => n,
            None => {
                self.last_error = ERROR_NOT_ENOUGH_MEMORY;
                return Ok(None);
            },
        };
        let base: u64 = match self.vm.map_anywhere(mem, size, Perm::rwx()) {
            Some(b) => b,
            None => {
                self.last_error = ERROR_NOT_ENOUGH_MEMORY;
                return Ok(None);
            },
        };
        self.seat_thread(mem, base, size, entry, param, suspended)
    }

    /// Serve `CreateThread`.
    pub fn create_thread(&mut self, cpu: &CpuState, mem: &mut VirtualMemory) -> (r: Result<
        u64,
        Fault,
    >)
        requires
            old(self).wf(),
            old(self).has_room(),
        ensures
            final(self).wf(),
            final(self).thunks == old(self).thunks,
            (OsReply { os: final(self)@, mem: final(mem)@, r }) == create_thread_out(
                old(self)@,
                cpu@,
                old(mem)@,
            ),
    {
        proof {
            reveal(create_thread_out);
        }
        let list: Vec<u64> = vec![1, 2, 3, 4, 5];
        assert(list@ =~= seq![1u64, 2, 3, 4, 5]);
        let a = match args(self.cfg.is_64bit, cpu, mem, &list) {
            Ok(a) => a,
            Err(f) => {
                return Err(f);
            },
        };
        match self.spawn_thread(mem, a[0], a[1], a[2], a[3] & CREATE_SUSPENDED != 0) {
            Err(f) => Err(f),
            Ok(None) => Ok(0),
            Ok(Some((h, tid))) => {
                let mut t: Vec<Store> = Vec::new();
                push_opt(&mut t, store32(a[4], tid));
                assert(t@ =~= opt(s32(a@[4], tid)));
                finish(mem, &t, h)
            },
        }
    }

    /// Serve `NtCreateThreadEx`.
    pub fn nt_create_thread_ex(&mut self, cpu: &CpuState, mem: &mut VirtualMemory) -> (r: Result<
        u64,
        Fault,
    >)
        requires
            old(self).wf(),
            old(self).has_room(),
        ensures
            final(self).wf(),
            final(self).thunks == old(self).thunks,
            (OsReply { os: final(self)@, mem: final(mem)@, r }) == nt_create_thread_out(
                old(self)@,
                cpu@,
                old(mem)@,
            ),
    {
        let list: Vec<u64> = vec![0, 4, 5, 6, 8];
        assert(list@ =~= seq![0u64, 4, 5, 6, 8]);
        let a = match sysargs(self.syscall_rsp, cpu, mem, &list) {
            Ok(a) => a,
            Err(f) => {
                return Err(f);
            },
        };
        if a[0] == 0 {
            return Ok(STATUS_INVALID_PARAMETER);
        }
        let wide: bool = self.cfg.is_64bit;
        match self.spawn_thread(mem, a[4], a[1], a[2], a[3] & CREATE_SUSPENDED_NT != 0) {
            Err(f) => Err(f),
            Ok(None) => Ok(STATUS_NO_MEMORY),
            Ok(Some((h, _tid))) => {
                let t: Vec<Store> = vec![store_ptr(wide, a[0], h)];
                assert(t@ =~= seq![sptr(wide, a@[0], h)]);
                finish(mem, &t, STATUS_SUCCESS)
            },
        }
    }

    /// Mark thread `i` as ended, wake those that wait for it, and take back its
    /// memory.
    fn end_thread(&mut self, mem: &mut VirtualMemory, i: usize, code: u32)
        requires
            old(self).wf(),
            i < old(self).sched.threads.len(),
        ensures
            final(self).wf(),
            old(self).has_room() ==> final(self).has_room(),
            final(self).thunks == old(self).thunks,
            final(self)@ == old(self)@.ended(i as int, code),
            final(mem)@ == reclaimed(old(mem)@, old(self)@.sched.threads[i as int]),
    {
        let ghost v = self@;
        let t = &self.sched.threads[i];
        assert(t@ == v.sched.threads[i as int]);
        let h: u64 = t.handle;
        let stack: u64 = t.stack_base;
        let teb: u64 = t.teb_owned;
        self.sched.terminate(i, code);
        let known = self.objects.get(h);
        if let Some(KObject::Thread { .. }) = known {
            proof {
                lemma_with_obj_wf(
                    self.objects@,
                    h,
                    KObject::Thread { exited: true },
                    self.next_handle,
                );
            }
            self.objects.set(h, KObject::Thread { exited: true });
        }
        if stack != 0 {
            let _gone = mem.unmap(stack);
        }
        if teb != 0 {
            let _gone = mem.unmap(teb);
        }
        assert(self@ =~= v.ended(i as int, code));
    }

    /// Go on with another thread, or end the process.
    fn move_on(&mut self, cpu: &mut CpuState, code: u32) -> (r: Outcome)
        requires
            old(self).wf(),
        ensures
            final(self).wf(),
            old(self).has_room() ==> final(self).has_room(),
            final(self).thunks == old(self).thunks,
            forall|m: MemView|
                (OsOut {
                    os: final(self)@,
                    cpu: final(cpu)@,
                    mem: m,
                    r: Ok::<Outcome, Fault>(r),
                }) == #[trigger] old(self)@.moved_on(old(cpu)@, m, code),
    {
        match self.sched.pick_next(&self.objects) {
            Some(next) => {
                self.sched.activate(cpu, next);
                Outcome::Resume
            },
            None => Outcome::Exit(code as i32),
        }
    }

    /// End the running thread.
    pub fn exit_thread(&mut self, cpu: &mut CpuState, mem: &mut VirtualMemory, code: u32) -> (r:
        Result<Outcome, Fault>)
        requires
            old(self).wf(),
        ensures
            final(self).wf(),
            old(self).has_room() ==> final(self).has_room(),
            final(self).thunks == old(self).thunks,
            (OsOut { os: final(self)@, cpu: final(cpu)@, mem: final(mem)@, r })
                == old(self)@.exiting(old(cpu)@, old(mem)@, code),
    {
        let cur: usize = self.sched.current;
        self.end_thread(mem, cur, code);
        Ok(self.move_on(cpu, code))
    }

    /// The start routine of the running thread returned: its result is the exit
    /// code.
    pub fn thread_start_returned(&mut self, cpu: &mut CpuState, mem: &mut VirtualMemory) -> (r:
        Result<Outcome, Fault>)
        requires
            old(self).wf(),
        ensures
            final(self).wf(),
            old(self).has_room() ==> final(self).has_room(),
            final(self).thunks == old(self).thunks,
            (OsOut { os: final(self)@, cpu: final(cpu)@, mem: final(mem)@, r })
                == old(self)@.exiting(old(cpu)@, old(mem)@, old(cpu)@.reg(Reg::Rax) as u32),
    {
        let code: u32 = cpu.reg(Reg::Rax) as u32;
        self.exit_thread(cpu, mem, code)
    }

    /// Serve `ExitThread`.
    pub fn api_exit_thread(&mut self, cpu: &mut CpuState, mem: &mut VirtualMemory) -> (r: Result<
        Outcome,
        Fault,
    >)
        requires
            old(self).wf(),
        ensures
            final(self).wf(),
            old(self).has_room() ==> final(self).has_room(),
            final(self).thunks == old(self).thunks,
            (OsOut { os: final(self)@, cpu: final(cpu)@, mem: final(mem)@, r }) == exit_thread_out(
                old(self)@,
                old(cpu)@,
                old(mem)@,
            ),
    {
        proof {
            reveal(exit_thread_out);
        }
        match arg(self.cfg.is_64bit, cpu, mem, 0) {
            Err(f) => Err(f),
            Ok(code) => self.exit_thread(cpu, mem, code as u32),
        }
    }

    /// Serve `TerminateThread`.
    pub fn terminate_thread(&mut self, cpu: &mut CpuState, mem: &mut VirtualMemory) -> (r: Result<
        Outcome,
        Fault,
    >)
        requires
            old(self).wf(),
        ensures
            final(self).wf(),
            old(self).has_room() ==> final(self).has_room(),
            final(self).thunks == old(self).thunks,
            (OsOut { os: final(self)@, cpu: final(cpu)@, mem: final(mem)@, r })
                == terminate_thread_out(old(self)@, old(cpu)@, old(mem)@),
    {
        proof {
            reveal(terminate_thread_out);
        }
        let list: Vec<u64> = vec![0, 1];
        assert(list@ =~= seq![0u64, 1]);
        let a = match args(self.cfg.is_64bit, cpu, mem, &list) {
            Ok(a) => a,
            Err(f) => {
                return Err(f);
            },
        };
        match self.sched.thread_by_handle(a[0]) {
            None => Ok(Outcome::Return(0)),
            Some(i) => {
                if i == self.sched.current {
                    return self.exit_thread(cpu, mem, a[1] as u32);
                }
                self.end_thread(mem, i, a[1] as u32);
                Ok(Outcome::Return(1))
            },
        }
    }

    /// The thread that an NT call means.
    fn nt_thread_index(&self, h: u64) -> (r: Option<usize>)
        requires
            self.wf(),
        ensures
            match r {
                Some(i) => i < self.sched.threads.len() && self@.nt_thread(h) == Some(i as int),
                None => self@.nt_thread(h) is None,
            },
    {
        if h == NT_CURRENT_THREAD {
            return Some(self.sched.current);
        }
        self.sched.thread_by_handle(h)
    }

    /// Serve `NtTerminateThread`.
    pub fn nt_terminate_thread(&mut self, cpu: &mut CpuState, mem: &mut VirtualMemory) -> (r:
        Result<u64, Fault>)
        requires
            old(self).wf(),
        ensures
            final(self).wf(),
            old(self).has_room() ==> final(self).has_room(),
            final(self).thunks == old(self).thunks,
            ({
                let o = nt_terminate_thread_out(old(self)@, old(cpu)@, old(mem)@);
                &&& final(self)@ == o.os
                &&& final(cpu)@ == o.cpu
                &&& final(mem)@ == o.mem
                &&& match r {
                    Ok(s) => o.r == Ok::<Outcome, Fault>(Outcome::Return(s)),
                    Err(f) => o.r == Err::<Outcome, Fault>(f),
                }
            }),
    {
        let list: Vec<u64> = vec![0, 1];
        assert(list@ =~= seq![0u64, 1]);
        let a = match sysargs(self.syscall_rsp, cpu, mem, &list) {
            Ok(a) => a,
            Err(f) => {
                return Err(f);
            },
        };
        let code: u32 = a[1] as u32;
        match self.nt_thread_index(a[0]) {
            None => Ok(STATUS_INVALID_HANDLE),
            Some(i) => {
                let own: bool = i == self.sched.current;
                self.end_thread(mem, i, code);
                if !own {
                    return Ok(STATUS_SUCCESS);
                }
                self.resume_as_is = true;
                let ghost v = self@;
                let ghost m = mem@;
                let o = self.move_on(cpu, code);
                assert(v.moved_on(old(cpu)@, m, code).os == self@);
                match o {
                    Outcome::Exit(x) => {
                        self.syscall_exit = Some(x);
                        Ok(code as u64)
                    },
                    _ => Ok(STATUS_SUCCESS),
                }
            },
        }
    }

    /// Serve `NtTerminateProcess`.
    pub fn nt_terminate_process(&mut self, cpu: &CpuState, mem: &VirtualMemory) -> (r: Result<
        u64,
        Fault,
    >)
        requires
            old(self).wf(),
        ensures
            final(self).wf(),
            old(self).has_room() ==> final(self).has_room(),
            final(self).thunks == old(self).thunks,
            (OsReply { os: final(self)@, mem: mem@, r }) == nt_terminate_process_out(
                old(self)@,
                cpu@,
                mem@,
            ),
    {
        let list: Vec<u64> = vec![0, 1];
        assert(list@ =~= seq![0u64, 1]);
        let a = match sysargs(self.syscall_rsp, cpu, mem, &list) {
            Ok(a) => a,
            Err(f) => {
                return Err(f);
            },
        };
        if a[0] == 0 || a[0] == NT_CURRENT_PROCESS {
            self.syscall_exit = Some(a[1] as i32);
        }
        Ok(STATUS_SUCCESS)
    }

    /// Suspend thread `i` once more or once less; returns the count before.
    fn count(&mut self, i: usize, suspend: bool) -> (prev: u32)
        requires
            old(self).wf(),
            i < old(self).sched.threads.len(),
        ensures
            final(self).wf(),
            old(self).has_room() ==> final(self).has_room(),
            final(self).thunks == old(self).thunks,
            final(self)@ == old(self)@.counted(i as int, suspend),
            prev == old(self)@.sched.threads[i as int].suspend_count,
    {
        if suspend {
            self.sched.suspend(i)
        } else {
            self.sched.resume(i)
        }
    }

    /// Serve `ResumeThread`, or `SuspendThread` where `suspend`.
    pub fn count_thread(&mut self, cpu: &CpuState, mem: &VirtualMemory, suspend: bool) -> (r: Result<
        u64,
        Fault,
    >)
        requires
            old(self).wf(),
        ensures
            final(self).wf(),
            old(self).has_room() ==> final(self).has_room(),
            final(self).thunks == old(self).thunks,
            (OsReply { os: final(self)@, mem: mem@, r }) == count_out(
                old(self)@,
                cpu@,
                mem@,
                suspend,
            ),
    {
        proof {
            reveal(count_out);
        }
        let h: u64 = match arg(self.cfg.is_64bit, cpu, mem, 0) {
            Ok(h) => h,
            Err(f) => {
                return Err(f);
            },
        };
        match self.sched.thread_by_handle(h) {
            None => Ok(NO_COUNT),
            Some(i) => Ok(self.count(i, suspend) as u64),
        }
    }

    /// Serve `ResumeThread`.
    pub fn resume_thread(&mut self, cpu: &CpuState, mem: &VirtualMemory) -> (r: Result<u64, Fault>)
        requires
            old(self).wf(),
        ensures
            final(self).wf(),
            old(self).has_room() ==> final(self).has_room(),
            final(self).thunks == old(self).thunks,
            (OsReply { os: final(self)@, mem: mem@, r }) == count_out(
                old(self)@,
                cpu@,
                mem@,
                false,
            ),
    {
        proof {
            reveal(count_out);
        }
        self.count_thread(cpu, mem, false)
    }

    /// Serve `SuspendThread`.
    pub fn suspend_thread(&mut self, cpu: &CpuState, mem: &VirtualMemory) -> (r: Result<u64, Fault>)
        requires
            old(self).wf(),
        ensures
            final(self).wf(),
            old(self).has_room() ==> final(self).has_room(),
            final(self).thunks == old(self).thunks,
            (OsReply { os: final(self)@, mem: mem@, r }) == count_out(
                old(self)@,
                cpu@,
                mem@,
                true,
            ),
    {
        proof {
            reveal(count_out);
        }
        self.count_thread(cpu, mem, true)
    }

    /// Serve `NtResumeThread`, or `NtSuspendThread` where `suspend`.
    pub fn nt_count_thread(&mut self, cpu: &CpuState, mem: &mut VirtualMemory, suspend: bool) -> (r:
        Result<u64, Fault>)
        requires
            old(self).wf(),
        ensures
            final(self).wf(),
            old(self).has_room() ==> final(self).has_room(),
            final(self).thunks == old(self).thunks,
            (OsReply { os: final(self)@, mem: final(mem)@, r }) == nt_count_out(
                old(self)@,
                cpu@,
                old(mem)@,
                suspend,
            ),
    {
        let list: Vec<u64> = vec![0, 1];
        assert(list@ =~= seq![0u64, 1]);
        let a = match sysargs(self.syscall_rsp, cpu, mem, &list) {
            Ok(a) => a,
            Err(f) => {
                return Err(f);
            },
        };
        match self.nt_thread_index(a[0]) {
            None => Ok(STATUS_INVALID_HANDLE),
            Some(i) => {
                let prev: u32 = self.count(i, suspend);
                let mut t: Vec<Store> = Vec::new();
                push_opt(&mut t, store32(a[1], prev));
                assert(t@ =~= opt(s32(a@[1], prev)));
                finish(mem, &t, STATUS_SUCCESS)
            },
        }
    }

    /// The exit code of thread `i` as others see it.
    fn code_of_thread(&self, i: usize) -> (r: u32)
        requires
            i < self.sched.threads.len(),
        ensures
            r == seen_code(self@.sched.threads[i as int]),
    {
        let t = &self.sched.threads[i];
        assert(t@ == self@.sched.threads[i as int]);
        if t.state == ThreadState::Terminated {
            t.exit_code
        } else {
            STILL_ACTIVE
        }
    }

    /// Serve `GetExitCodeThread`.
    pub fn get_exit_code_thread(&self, cpu: &CpuState, mem: &mut VirtualMemory) -> (r: Result<
        u64,
        Fault,
    >)
        requires
            self.wf(),
        ensures
            final(mem)@ == exit_code_out(self@, cpu@, old(mem)@).mem,
            r == exit_code_out(self@, cpu@, old(mem)@).r,
    {
        proof {
            reveal(exit_code_out);
        }
        let list: Vec<u64> = vec![0, 1];
        assert(list@ =~= seq![0u64, 1]);
        let a = match args(self.cfg.is_64bit, cpu, mem, &list) {
            Ok(a) => a,
            Err(f) => {
                return Err(f);
            },
        };
        let code: u32 = match self.sched.thread_by_handle(a[0]) {
            Some(i) => self.code_of_thread(i),
            None => STILL_ACTIVE,
        };
        let mut t: Vec<Store> = Vec::new();
        push_opt(&mut t, store32(a[1], code));
        assert(t@ =~= opt(s32(a@[1], code)));
        finish(mem, &t, 1)
    }

    /// Serve `NtQueryInformationThread`.
    pub fn nt_query_information_thread(&self, cpu: &CpuState, mem: &mut VirtualMemory) -> (r:
        Result<u64, Fault>)
        requires
            self.wf(),
        ensures
            final(mem)@ == thread_info_out(self@, cpu@, old(mem)@).mem,
            r == thread_info_out(self@, cpu@, old(mem)@).r,
    {
        let list: Vec<u64> = vec![0, 1, 2, 3, 4];
        assert(list@ =~= seq![0u64, 1, 2, 3, 4]);
        let a = match sysargs(self.syscall_rsp, cpu, mem, &list) {
            Ok(a) => a,
            Err(f) => {
                return Err(f);
            },
        };
        if a[1] as u32 != 0 {
            return Ok(STATUS_NOT_IMPLEMENTED);
        }
        let i: usize = match self.nt_thread_index(a[0]) {
            Some(i) => i,
            None => {
                return Ok(STATUS_INVALID_HANDLE);
            },
        };
        let wide: bool = self.cfg.is_64bit;
        let need: u64 = if wide {
            0x30
        } else {
            0x1C
        };
        let p: u64 = a[2];
        if p == 0 || a[3] < need {
            return Ok(STATUS_INFO_LENGTH_MISMATCH);
        }
        let code: u32 = self.code_of_thread(i);
        let x = &self.sched.threads[i];
        assert(x@ == self@.sched.threads[i as int]);
        let mut t: Vec<Store> = if wide {
            vec![
                store32(p, code),
                store64(at(p, 0x08), x.teb_base),
                store64(at(p, 0x10), PROCESS_ID),
                store64(at(p, 0x18), x.tid as u64),
                store64(at(p, 0x20), 1),
                store32(at(p, 0x28), 0),
                store32(at(p, 0x2C), 0),
            ]
        } else {
            vec![
                store32(p, code),
                store32(at(p, 0x04), x.teb_base as u32),
                store32(at(p, 0x08), PROCESS_ID as u32),
                store32(at(p, 0x0C), x.tid),
                store32(at(p, 0x10), 1),
                store32(at(p, 0x14), 0),
                store32(at(p, 0x18), 0),
            ]
        };
        assert(t@ =~= thread_info(wide, p, x@));
        push_opt(&mut t, store32(a[4], need as u32));
        finish(mem, &t, STATUS_SUCCESS)
    }

    /// Answer a call and let another thread run.
    pub fn complete_and_yield(
        &mut self,
        cpu: &mut CpuState,
        mem: &VirtualMemory,
        v: u64,
        argc: u32,
    ) -> (r: Result<Outcome, Fault>)
        requires
            old(self).wf(),
        ensures
            final(self).wf(),
            old(self).has_room() ==> final(self).has_room(),
            final(self).thunks == old(self).thunks,
            (OsOut { os: final(self)@, cpu: final(cpu)@, mem: mem@, r }) == old(self)@.yielding(
                old(cpu)@,
                mem@,
                v,
                argc,
            ),
    {
        set_result(self.cfg.is_64bit, cpu, v);
        match ret(self.cfg.is_64bit, cpu, mem, argc) {
            Ok(_) => {},
            Err(f) => {
                return Err(f);
            },
        }
        let _switched = self.sched.yield_and_switch(cpu, &self.objects);
        Ok(Outcome::Resume)
    }

    /// Serve `Sleep` and `SleepEx`.
    pub fn sleep(&mut self, cpu: &mut CpuState, mem: &VirtualMemory, argc: u32) -> (r: Result<
        Outcome,
        Fault,
    >)
        requires
            old(self).wf(),
        ensures
            final(self).wf(),
            old(self).has_room() ==> final(self).has_room(),
            final(self).thunks == old(self).thunks,
            (OsOut { os: final(self)@, cpu: final(cpu)@, mem: mem@, r }) == old(self)@.yielding(
                old(cpu)@,
                mem@,
                0,
                argc,
            ),
    {
        self.complete_and_yield(cpu, mem, 0, argc)
    }

    /// Serve `SwitchToThread`: whether another thread can run.
    pub fn switch_to_thread(&mut self, cpu: &mut CpuState, mem: &VirtualMemory) -> (r: Result<
        Outcome,
        Fault,
    >)
        requires
            old(self).wf(),
        ensures
            final(self).wf(),
            old(self).has_room() ==> final(self).has_room(),
            final(self).thunks == old(self).thunks,
            (OsOut { os: final(self)@, cpu: final(cpu)@, mem: mem@, r }) == old(self)@.yielding(
                old(cpu)@,
                mem@,
                if old(self)@.sched.next(old(self)@.objects) is Some {
                    1
                } else {
                    0
                },
                0,
            ),
    {
        let other: u64 = match self.sched.pick_next(&self.objects) {
            Some(_) => 1,
            None => 0,
        };
        self.complete_and_yield(cpu, mem, other, 0)
    }

    /// Announce a new thread.
    pub fn thread_tls_attach(&mut self, cpu: &mut CpuState, mem: &mut VirtualMemory) -> (r: Result<
        Outcome,
        Fault,
    >)
        requires
            old(self).wf(),
        ensures
            final(self).wf(),
            old(self).has_room() ==> final(self).has_room(),
            final(self).thunks == old(self).thunks,
            (OsOut { os: final(self)@, cpu: final(cpu)@, mem: final(mem)@, r })
                == old(self)@.announcing(old(cpu)@, old(mem)@),
    {
        let mut calls = make_tls_calls(&self.tls_callbacks, self.cfg.image_base, DLL_THREAD_ATTACH);
        let ghost a = crate::cb::call_views(calls@);
        let targets = self.dll.thread_notify_targets();
        let mut more = make_entry_calls(&targets, DLL_THREAD_ATTACH);
        let ghost b = crate::cb::call_views(more@);
        calls.append(&mut more);
        assert(crate::cb::call_views(calls@) =~= a + b);
        self.invoke(cpu, mem, calls, 0, 0, false)
    }

    /// Seat the start routine of a thread that was announced.
    pub fn thread_start_entry(&mut self, cpu: &mut CpuState, mem: &mut VirtualMemory) -> (r: Result<
        Outcome,
        Fault,
    >)
        requires
            old(self).wf(),
        ensures
            final(self).wf(),
            old(self).has_room() ==> final(self).has_room(),
            final(self).thunks == old(self).thunks,
            (OsOut { os: final(self)@, cpu: final(cpu)@, mem: final(mem)@, r })
                == old(self)@.seating(old(cpu)@, old(mem)@),
    {
        let ghost v = self@;
        let cur: usize = self.sched.current;
        let mut t = self.sched.threads.remove(cur);
        assert(t@ == v.sched.me());
        let (entry, param) = match t.pending_entry {
            Some(e) => e,
            None => (0, 0),
        };
        t.pending_entry = None;
        self.sched.threads.insert(cur, t);
        assert(self@.sched.threads =~= v.seating(cpu@, mem@).os.sched.threads);
        assert(self@ =~= v.seating(cpu@, mem@).os);
        let list: Vec<u64> = vec![param];
        assert(list@ =~= seq![param]);
        let base: u64 = cpu.rsp();
        match setup_call_args(
            self.cfg.is_64bit,
            cpu,
            mem,
            entry,
            &list,
            self.drivers.thread_exit,
            base,
        ) {
            Ok(_) => Ok(Outcome::Resume),
            Err(f) => Err(f),
        }
    }
}

/// A thread that ended is signaled from then on, for everyone who waits for it.
pub proof fn lemma_end_signals(v: OsView, i: int, code: u32, tid: u32)
    requires
        0 <= i < v.sched.threads.len(),
        v.objects.obj(v.sched.threads[i].handle) matches Some(KObject::Thread { .. }),
    ensures
        v.ended(i, code).objects.signaled(v.sched.threads[i].handle, tid),
        v.ended(i, code).objects.waited(v.sched.threads[i].handle, tid).signaled(
            v.sched.threads[i].handle,
            tid,
        ),
        v.ended(i, code).sched.threads[i].exit_code == code,
{
}

} // verus!
