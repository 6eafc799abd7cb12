//! NT calls: the guest's registers are saved, a service runs on a stack of its
//! own, and the guest goes on with its registers and a status.

use vstd::prelude::*;

use crate::boot::continue_out;
use crate::call::{Exit, Outcome, Reply};
use crate::clock::{
    nt_counter_reply, nt_query_performance_counter, nt_query_system_time, nt_time_reply,
};
use crate::cpu::{
    half_at, high_half, high_of, join, join_halves, low_half, low_of, CpuState, CpuView, FLAG_DF,
    Reg,
};
use crate::fs::{
    nt_create_file_asks, nt_create_file_out, nt_query_dir_asks, nt_query_dir_out,
    nt_query_file_reply, nt_query_volume_reply, nt_read_file_asks, nt_read_file_reply,
    nt_write_file_asks, nt_write_file_reply,
};
use crate::host::{HostReply, HostRequest, RequestView};
use crate::mem::{
    at, ga, l64, lemma_store_all_get, lemma_store_all_ok, lemma_store_all_shape, lemma_sub_access,
    load64, s64, store64, Fault, Load, MemView, Perm, Store, VirtualMemory,
};
use crate::nls::{nls_files_out, nls_section_out};
use crate::ntreg::{
    nt_create_out, nt_enumerate_reply, nt_open_out, nt_query_key_reply, nt_query_value_reply,
    nt_set_out,
};
use crate::ntvm::{nt_alloc_out, nt_free_out, nt_protect_out};
use crate::os::{OsReply, OsView, WinOs};
use crate::reg::{reg_ctx, RegCtx, RegOut};
use crate::section::{create_asks, create_out, map_out, query_reply, unmap_out, SectionTable};
use crate::server::{same, ServerOut};
use crate::ssdt::{handler_at, with_handler, SyscallHandler, STATUS_NOT_IMPLEMENTED};
use crate::thread::{
    nt_count_out, nt_create_thread_out, nt_terminate_process_out, nt_terminate_thread_out,
    thread_info_out,
};
use crate::unixlib::query_memory_reply;
use crate::vm::{any_map, lemma_any_map_keeps, VmView};

verus! {

/// The size of the stack that services run on.
pub const UNIX_STACK_SIZE: u64 = 0x4000;

/// Where in a thread's environment block its registers are saved.
pub const FRAME_OFFSET: u64 = 0x1ec0;

// ---- saved registers --------------------------------------------------------

/// The words that a call must not change: the non-volatile registers, where the
/// guest goes on and its flags, and the halves of the non-volatile vector
/// registers.
pub open spec fn saved_words(c: CpuView) -> Seq<u64> {
    seq![
        c.reg(Reg::Rbx),
        c.reg(Reg::Rbp),
        c.reg(Reg::Rsi),
        c.reg(Reg::Rdi),
        c.rsp(),
        c.reg(Reg::R12),
        c.reg(Reg::R13),
        c.reg(Reg::R14),
        c.reg(Reg::R15),
        c.reg(Reg::Rcx),
        c.reg(Reg::R11),
    ] + Seq::new(20, |k: int| half_at(c.xmm, 12 + k))
}

/// Where word `i` is saved.
pub open spec fn frame_off(i: int) -> int {
    if i < 11 {
        8 * i
    } else {
        0x60 + 8 * (i - 11)
    }
}

/// The saved words laid down at `base`.
pub open spec fn frame_table(base: u64, w: Seq<u64>) -> Seq<Store> {
    Seq::new(31, |i: int| s64(ga(base, frame_off(i)), w[i]))
}

/// The loads of the words saved at `base`.
pub open spec fn frame_loads(base: u64) -> Seq<Load> {
    Seq::new(31, |i: int| l64(ga(base, frame_off(i))))
}

/// A register file with saved words put back.
pub open spec fn restored(c: CpuView, w: Seq<u64>) -> CpuView {
    let d = c.with_reg(Reg::Rbx, w[0]).with_reg(Reg::Rbp, w[1]).with_reg(Reg::Rsi, w[2]).with_reg(
        Reg::Rdi,
        w[3],
    ).with_rsp(w[4]).with_reg(Reg::R12, w[5]).with_reg(Reg::R13, w[6]).with_reg(
        Reg::R14,
        w[7],
    ).with_reg(Reg::R15, w[8]);
    CpuView {
        rip: w[9],
        rflags: w[10],
        xmm: Seq::new(
            16,
            |i: int|
                if i < 6 {
                    c.xmm[i]
                } else {
                    join_halves(w[2 * i - 1], w[2 * i])
                },
        ),
        ..d
    }
}

/// Where the registers of a call are kept.
pub enum SavedContext {
    /// In the environment block of the thread.
    Teb(u64),
    /// With the host, for a thread without one.
    Host(Vec<u64>),
}

/// Where the registers of a call are kept, as mathematics.
pub enum SavedView {
    Teb(u64),
    Host(Seq<u64>),
}

impl View for SavedContext {
    type V = SavedView;

    open spec fn view(&self) -> SavedView {
        match *self {
            SavedContext::Teb(b) => SavedView::Teb(b),
            SavedContext::Host(w) => SavedView::Host(w@),
        }
    }
}

impl SavedView {
    /// All words are there.
    pub open spec fn wf(self) -> bool {
        self matches SavedView::Host(w) ==> w.len() == 31
    }
}

impl OsView {
    /// Where the registers of the running thread are saved; nowhere in guest memory
    /// where it has no environment block.
    pub open spec fn frame_base(self) -> Option<u64> {
        let teb = self.sched.me().teb_base;
        if teb != 0 {
            Some(ga(teb, FRAME_OFFSET as int))
        } else {
            None
        }
    }
}

/// What an entered call leads to.
pub struct EnterOut {
    pub os: OsView,
    pub cpu: CpuView,
    pub mem: MemView,
    pub r: Result<SavedView, Fault>,
}

/// The stack for services: the one that is there, or a new one.
pub struct UnixStack {
    pub os: OsView,
    pub mem: MemView,
}

/// Services have a stack, where there is memory for one.
pub open spec fn with_unix_stack(v: OsView, m: MemView) -> UnixStack {
    if v.unix_stack_top != 0 {
        UnixStack { os: v, mem: m }
    } else {
        let a = any_map(v.vm.next, m, UNIX_STACK_SIZE, Perm::rw());
        let w = OsView { vm: VmView { next: a.next, ..v.vm }, ..v };
        match a.base {
            None => UnixStack { os: w, mem: a.mem },
            Some(b) => {
                let top = ga(b, UNIX_STACK_SIZE as int - 0x10);
                UnixStack {
                    os: OsView { unix_stack_top: (top - top % 16) as u64, ..w },
                    mem: a.mem,
                }
            },
        }
    }
}

/// The registers of a call as they are saved: string operations run forward.
pub open spec fn entered(c: CpuView) -> CpuView {
    CpuView { rflags: c.rflags & !FLAG_DF, ..c }
}

/// What entering a call leads to: its stack pointer is noted, the registers are
/// saved, string operations run forward, and the stack is switched.
pub open spec fn enter_out(v: OsView, c: CpuView, m: MemView) -> EnterOut {
    let v1 = OsView { syscall_rsp: c.rsp(), resume_as_is: false, syscall_exit: None, ..v };
    let c1 = entered(c);
    let w = saved_words(c1);
    let s = match v1.frame_base() {
        Some(b) => m.store_all(frame_table(b, w)),
        None => crate::mem::Stored { mem: m, fault: None },
    };
    match s.fault {
        Some(f) => EnterOut { os: v1, cpu: c1, mem: s.mem, r: Err(f) },
        None => {
            let u = with_unix_stack(v1, s.mem);
            EnterOut {
                os: u.os,
                cpu: if u.os.unix_stack_top != 0 {
                    c1.with_rsp(u.os.unix_stack_top)
                } else {
                    c1
                },
                mem: u.mem,
                r: Ok(
                    match v1.frame_base() {
                        Some(b) => SavedView::Teb(b),
                        None => SavedView::Host(w),
                    },
                ),
            }
        },
    }
}

/// The words that were saved.
pub open spec fn saved_at(s: SavedView, m: MemView) -> Result<Seq<u64>, Fault> {
    match s {
        SavedView::Host(w) => Ok(w),
        SavedView::Teb(b) => m.load_all(frame_loads(b)),
    }
}

/// What a left call leads to.
pub struct LeaveOut {
    pub os: OsView,
    pub cpu: CpuView,
    pub r: Result<Exit, Fault>,
}

/// What leaving a call leads to: the process ends where the service said so; the
/// guest goes on as the service left it where it said so; else it goes on with its
/// saved registers and the status.
pub open spec fn leave_out(v: OsView, c: CpuView, m: MemView, s: SavedView, status: u64) -> LeaveOut {
    match v.syscall_exit {
        Some(code) => LeaveOut {
            os: OsView { syscall_exit: None, ..v },
            cpu: c,
            r: Ok(Exit::ProcessExit(code)),
        },
        None => if v.resume_as_is {
            LeaveOut { os: v, cpu: c, r: Ok(Exit::Continue) }
        } else {
            match saved_at(s, m) {
                Err(f) => LeaveOut { os: v, cpu: c, r: Err(f) },
                Ok(w) => LeaveOut {
                    os: v,
                    cpu: restored(c, w).with_reg(Reg::Rax, status),
                    r: Ok(Exit::Continue),
                },
            }
        },
    }
}

// ---- services ---------------------------------------------------------------

/// A service that only answers.
pub open spec fn replied(v: OsView, c: CpuView, reply: Reply) -> ServerOut {
    ServerOut { os: v, cpu: c, mem: reply.mem, r: reply.r }
}

/// A service on the operating system.
pub open spec fn replied_os(c: CpuView, o: OsReply) -> ServerOut {
    ServerOut { os: o.os, cpu: c, mem: o.mem, r: o.r }
}

/// A service on the registry.
pub open spec fn replied_reg(v: OsView, c: CpuView, o: RegOut) -> ServerOut {
    ServerOut {
        os: OsView { reg: o.ctx.reg, next_handle: o.ctx.next, last_error: o.ctx.error, ..v },
        cpu: c,
        mem: o.reply.mem,
        r: o.reply.r,
    }
}

impl OsView {
    /// The registry with the next handle and the last error.
    pub open spec fn reg_ctx(self) -> RegCtx {
        RegCtx { reg: self.reg, next: self.next_handle, error: self.last_error }
    }

    /// Whether the guest has files.
    pub open spec fn has_files(self) -> bool {
        self.cfg.sandbox@.len() > 0
    }
}

/// The services on memory.
pub open spec fn memory_out(v: OsView, h: SyscallHandler, c: CpuView, m: MemView) -> ServerOut {
    let rsp = v.syscall_rsp;
    match h {
        SyscallHandler::AllocateVirtualMemory => {
            let o = nt_alloc_out(v.vm, v.last_error, rsp, c, m);
            replied(OsView { vm: o.vm, last_error: o.error, ..v }, c, o.reply)
        },
        SyscallHandler::FreeVirtualMemory => {
            let o = nt_free_out(v.vm, v.last_error, rsp, c, m);
            replied(OsView { vm: o.vm, last_error: o.error, ..v }, c, o.reply)
        },
        SyscallHandler::ProtectVirtualMemory => {
            let o = nt_protect_out(v.vm, v.last_error, rsp, c, m);
            replied(OsView { vm: o.vm, last_error: o.error, ..v }, c, o.reply)
        },
        SyscallHandler::QueryVirtualMemory => replied(v, c, query_memory_reply(v, c, m)),
        SyscallHandler::InitializeNlsFiles => {
            let o = nls_files_out(v.nls, v.vm, c, m);
            replied(OsView { nls: o.nls, vm: o.vm, ..v }, c, o.reply)
        },
        SyscallHandler::GetNlsSectionPtr => {
            let o = nls_section_out(v.nls, v.vm, rsp, c, m);
            replied(OsView { nls: o.nls, vm: o.vm, ..v }, c, o.reply)
        },
        _ => same(v, c, m, Ok(STATUS_NOT_IMPLEMENTED)),
    }
}

/// The services on sections.
pub open spec fn section_out(
    v: OsView,
    h: SyscallHandler,
    c: CpuView,
    m: MemView,
    host: HostReply,
) -> ServerOut {
    let rsp = v.syscall_rsp;
    match h {
        SyscallHandler::CreateSection => {
            let o = create_out(v.sections, v.next_handle, v.vm, v.files, rsp, c, m, host);
            replied(OsView { sections: o.sections, next_handle: o.next, ..v }, c, o.reply)
        },
        SyscallHandler::QuerySection => replied(v, c, query_reply(v.sections, rsp, c, m)),
        SyscallHandler::MapViewOfSection => {
            let o = map_out(v.sections, 0, v.vm, rsp, c, m);
            replied(OsView { vm: o.vm, ..v }, c, o.reply)
        },
        SyscallHandler::UnmapViewOfSection => {
            let o = unmap_out(v.vm, rsp, c, m);
            replied(OsView { vm: o.0, ..v }, c, o.1)
        },
        _ => same(v, c, m, Ok(STATUS_NOT_IMPLEMENTED)),
    }
}

/// The services on the registry.
pub open spec fn registry_out(v: OsView, h: SyscallHandler, c: CpuView, m: MemView) -> ServerOut {
    let rsp = v.syscall_rsp;
    match h {
        SyscallHandler::CreateKey => replied_reg(
            v,
            c,
            nt_create_out(v.reg_ctx(), v.wide(), rsp, c, m),
        ),
        SyscallHandler::OpenKey => replied_reg(
            v,
            c,
            nt_open_out(v.reg_ctx(), v.wide(), rsp, c, m),
        ),
        SyscallHandler::SetValueKey => replied_reg(v, c, nt_set_out(v.reg_ctx(), rsp, c, m)),
        SyscallHandler::QueryValueKey => replied(v, c, nt_query_value_reply(v.reg, rsp, c, m)),
        SyscallHandler::EnumerateKey => replied(
            v,
            c,
            nt_enumerate_reply(v.reg, v.clock.filetime, rsp, c, m),
        ),
        SyscallHandler::QueryKey => replied(
            v,
            c,
            nt_query_key_reply(v.reg, v.clock.filetime, rsp, c, m),
        ),
        _ => same(v, c, m, Ok(STATUS_NOT_IMPLEMENTED)),
    }
}

/// The services on files.
pub open spec fn files_out(
    v: OsView,
    h: SyscallHandler,
    c: CpuView,
    m: MemView,
    host: HostReply,
) -> ServerOut {
    let rsp = v.syscall_rsp;
    match h {
        SyscallHandler::CreateFile => {
            let o = nt_create_file_out(v.files, v.next_handle, 0, v.has_files(), rsp, c, m, host);
            replied(OsView { files: o.fs, next_handle: o.next, ..v }, c, o.reply)
        },
        SyscallHandler::ReadFile => replied(v, c, nt_read_file_reply(v.files, rsp, c, m, host)),
        SyscallHandler::WriteFile => replied(v, c, nt_write_file_reply(v.files, rsp, c, m, host)),
        SyscallHandler::QueryInformationFile => replied(
            v,
            c,
            nt_query_file_reply(v.files, rsp, c, m, host),
        ),
        SyscallHandler::QueryVolumeInformationFile => replied(
            v,
            c,
            nt_query_volume_reply(v.files, rsp, c, m),
        ),
        SyscallHandler::QueryDirectoryFile => {
            let o = nt_query_dir_out(v.files, v.next_handle, 0, rsp, c, m, host);
            replied(OsView { files: o.fs, next_handle: o.next, ..v }, c, o.reply)
        },
        _ => same(v, c, m, Ok(STATUS_NOT_IMPLEMENTED)),
    }
}

/// The services on threads, processes and time.
pub open spec fn process_out(v: OsView, h: SyscallHandler, c: CpuView, m: MemView) -> ServerOut {
    let rsp = v.syscall_rsp;
    match h {
        SyscallHandler::Continue => continue_out(v, c, m),
        SyscallHandler::CreateThreadEx => replied_os(c, nt_create_thread_out(v, c, m)),
        SyscallHandler::TerminateThread => {
            let o = nt_terminate_thread_out(v, c, m);
            ServerOut {
                os: o.os,
                cpu: o.cpu,
                mem: o.mem,
                r: match o.r {
                    Ok(Outcome::Return(s)) => Ok(s),
                    Ok(_) => Ok(0),
                    Err(f) => Err(f),
                },
            }
        },
        SyscallHandler::TerminateProcess => replied_os(c, nt_terminate_process_out(v, c, m)),
        SyscallHandler::SuspendThread => replied_os(c, nt_count_out(v, c, m, true)),
        SyscallHandler::ResumeThread => replied_os(c, nt_count_out(v, c, m, false)),
        SyscallHandler::QueryInformationThread => replied(v, c, thread_info_out(v, c, m)),
        SyscallHandler::QuerySystemTime => replied(v, c, nt_time_reply(v.clock, rsp, c, m)),
        SyscallHandler::QueryPerformanceCounter => replied(
            v,
            c,
            nt_counter_reply(v.clock, rsp, c, m),
        ),
        _ => same(v, c, m, Ok(STATUS_NOT_IMPLEMENTED)),
    }
}

/// The kinds of services.
#[derive(Clone, Copy, Debug, PartialEq, Eq, Structural)]
pub enum Service {
    Memory,
    Section,
    Registry,
    Files,
    Process,
    Nothing,
}

/// The kind of a service.
pub open spec fn kind_of(h: SyscallHandler) -> Service {
    match h {
        SyscallHandler::AllocateVirtualMemory
        | SyscallHandler::FreeVirtualMemory
        | SyscallHandler::ProtectVirtualMemory
        | SyscallHandler::QueryVirtualMemory
        | SyscallHandler::InitializeNlsFiles
        | SyscallHandler::GetNlsSectionPtr => Service::Memory,
        SyscallHandler::CreateSection
        | SyscallHandler::QuerySection
        | SyscallHandler::MapViewOfSection
        | SyscallHandler::UnmapViewOfSection => Service::Section,
        SyscallHandler::CreateKey
        | SyscallHandler::OpenKey
        | SyscallHandler::SetValueKey
        | SyscallHandler::QueryValueKey
        | SyscallHandler::EnumerateKey
        | SyscallHandler::QueryKey => Service::Registry,
        SyscallHandler::CreateFile
        | SyscallHandler::ReadFile
        | SyscallHandler::WriteFile
        | SyscallHandler::QueryInformationFile
        | SyscallHandler::QueryVolumeInformationFile
        | SyscallHandler::QueryDirectoryFile => Service::Files,
        SyscallHandler::Continue
        | SyscallHandler::CreateThreadEx
        | SyscallHandler::TerminateThread
        | SyscallHandler::TerminateProcess
        | SyscallHandler::SuspendThread
        | SyscallHandler::ResumeThread
        | SyscallHandler::QueryInformationThread
        | SyscallHandler::QuerySystemTime
        | SyscallHandler::QueryPerformanceCounter => Service::Process,
        SyscallHandler::Unimplemented | SyscallHandler::Application(_) => Service::Nothing,
    }
}

/// What a service leads to. One of the application's own is served by it, and here
/// like one that is not implemented.
#[verifier::opaque]
pub open spec fn serve_out(
    v: OsView,
    h: SyscallHandler,
    c: CpuView,
    m: MemView,
    host: HostReply,
) -> ServerOut {
    match kind_of(h) {
        Service::Memory => memory_out(v, h, c, m),
        Service::Section => section_out(v, h, c, m, host),
        Service::Registry => registry_out(v, h, c, m),
        Service::Files => files_out(v, h, c, m, host),
        Service::Process => process_out(v, h, c, m),
        Service::Nothing => same(v, c, m, Ok(STATUS_NOT_IMPLEMENTED)),
    }
}

/// What a service asks the host for.
pub open spec fn serve_asks(v: OsView, h: SyscallHandler, c: CpuView, m: MemView) -> RequestView {
    let rsp = v.syscall_rsp;
    match h {
        SyscallHandler::CreateFile => nt_create_file_asks(v.files, v.has_files(), rsp, c, m),
        SyscallHandler::ReadFile => nt_read_file_asks(v.files, rsp, c, m),
        SyscallHandler::WriteFile => nt_write_file_asks(v.files, rsp, c, m),
        SyscallHandler::QueryInformationFile => match crate::call::sysargs_at(
            rsp,
            c,
            m,
            seq![0],
        ) {
            Ok(a) => if v.files.is_file(a[0]) {
                RequestView::Stat { handle: a[0] }
            } else {
                RequestView::Nothing
            },
            Err(_) => RequestView::Nothing,
        },
        SyscallHandler::QueryDirectoryFile => nt_query_dir_asks(
            v.files,
            v.has_files(),
            rsp,
            c,
            m,
        ),
        SyscallHandler::CreateSection => create_asks(v.files, rsp, c, m),
        _ => RequestView::Nothing,
    }
}

/// An NT call from its entry to its end.
pub struct SyscallOut {
    pub os: OsView,
    pub cpu: CpuView,
    pub mem: MemView,
    pub r: Result<Exit, Fault>,
}

/// What an NT call leads to.
pub open spec fn syscall_out(v: OsView, index: u32, c: CpuView, m: MemView, host: HostReply) -> SyscallOut {
    let e = enter_out(v, c, m);
    match e.r {
        Err(f) => SyscallOut { os: e.os, cpu: e.cpu, mem: e.mem, r: Err(f) },
        Ok(s) => {
            let o = serve_out(e.os, handler_at(v.ssdt, index), e.cpu, e.mem, host);
            match o.r {
                Err(f) => SyscallOut { os: o.os, cpu: o.cpu, mem: o.mem, r: Err(f) },
                Ok(status) => {
                    let l = leave_out(o.os, o.cpu, o.mem, s, status);
                    SyscallOut { os: l.os, cpu: l.cpu, mem: o.mem, r: l.r }
                },
            }
        },
    }
}

// ---- laws -------------------------------------------------------------------

/// The halves of a vector register join to it.
proof fn lemma_halves_join(v: u128)
    ensures
        join_halves(low_half(v), high_half(v)) == v,
{
    let m = 0x1_0000_0000_0000_0000int;
    assert(v as int == m * (v as int / m) + v as int % m) by (nonlinear_arith)
        requires
            m == 0x1_0000_0000_0000_0000int,
    ;
}

/// Whatever a service does to the registers, putting the saved words back gives
/// the guest its non-volatile registers, its stack, its flags, and the place it
/// called from; the other registers are as the service left them.
pub proof fn lemma_nonvolatiles_preserved(c: CpuView, d: CpuView)
    requires
        c.gpr.len() == 16,
        c.xmm.len() == 16,
        d.gpr.len() == 16,
        d.xmm.len() == 16,
    ensures
        ({
            let e = restored(d, saved_words(c));
            &&& e.reg(Reg::Rbx) == c.reg(Reg::Rbx)
            &&& e.reg(Reg::Rbp) == c.reg(Reg::Rbp)
            &&& e.reg(Reg::Rsi) == c.reg(Reg::Rsi)
            &&& e.reg(Reg::Rdi) == c.reg(Reg::Rdi)
            &&& e.rsp() == c.rsp()
            &&& e.reg(Reg::R12) == c.reg(Reg::R12)
            &&& e.reg(Reg::R13) == c.reg(Reg::R13)
            &&& e.reg(Reg::R14) == c.reg(Reg::R14)
            &&& e.reg(Reg::R15) == c.reg(Reg::R15)
            &&& e.rip == c.reg(Reg::Rcx)
            &&& e.rflags == c.reg(Reg::R11)
            &&& forall|i: int| 6 <= i < 16 ==> #[trigger] e.xmm[i] == c.xmm[i]
            &&& forall|i: int| 0 <= i < 6 ==> #[trigger] e.xmm[i] == d.xmm[i]
            &&& e.reg(Reg::Rax) == d.reg(Reg::Rax)
            &&& e.reg(Reg::Rdx) == d.reg(Reg::Rdx)
            &&& e.reg(Reg::R8) == d.reg(Reg::R8)
            &&& e.reg(Reg::R9) == d.reg(Reg::R9)
            &&& e.reg(Reg::R10) == d.reg(Reg::R10)
            &&& e.ymm_high == d.ymm_high
            &&& e.gs_base == d.gs_base
            &&& e.fs_base == d.fs_base
        }),
{
    let w = saved_words(c);
    let e = restored(d, w);
    assert forall|i: int| 6 <= i < 16 implies #[trigger] e.xmm[i] == c.xmm[i] by {
        let lo = 2 * (i - 6);
        assert(w[11 + lo] == half_at(c.xmm, 12 + lo));
        assert(w[12 + lo] == half_at(c.xmm, 13 + lo));
        assert((12 + lo) / 2 == i);
        assert((13 + lo) / 2 == i);
        assert((12 + lo) % 2 == 0);
        assert((13 + lo) % 2 == 1);
        lemma_halves_join(c.xmm[i]);
    }
}

/// Words saved in an environment block are found there again.
pub proof fn lemma_frame_read_back(m: MemView, base: u64, w: Seq<u64>)
    requires
        m.wf(),
        w.len() == 31,
        base + 0x140 <= u64::MAX,
        m.can_read(base as int, 0x140),
        m.can_write(base as int, 0x140),
    ensures
        m.store_all(frame_table(base, w)).fault is None,
        m.store_all(frame_table(base, w)).mem.load_all(frame_loads(base)) == Ok::<Seq<u64>, Fault>(
            w,
        ),
{
    let t = frame_table(base, w);
    let l = frame_loads(base);
    let n = m.store_all(t).mem;
    crate::mem::lemma_pow256();
    assert forall|i: int| 0 <= i < t.len() implies (#[trigger] t[i]).addr == base + frame_off(i)
        && t[i].size == 8 && m.can_write(t[i].addr as int, 8) && m.can_read(t[i].addr as int, 8) by {
        lemma_sub_access(m, base as int, 0x140, base + frame_off(i), 8);
    }
    lemma_store_all_ok(m, t);
    lemma_store_all_shape(m, t);
    assert forall|i: int| 0 <= i < l.len() implies (#[trigger] n.read_le(l[i].addr, l[i].size as nat))
        == Ok::<nat, Fault>(w[i] as nat) by {
        assert(t[i].addr == l[i].addr);
        assert forall|j: int| i < j < t.len() implies crate::mem::apart(t[i], #[trigger] t[j]) by {}
        lemma_store_all_get(m, t, i);
    }
    lemma_loads_are(n, l, w);
}

/// Loads whose values are known one by one.
proof fn lemma_loads_are(n: MemView, l: Seq<Load>, w: Seq<u64>)
    requires
        l.len() == w.len(),
        forall|i: int|
            0 <= i < l.len() ==> (#[trigger] n.read_le(l[i].addr, l[i].size as nat)) == Ok::<
                nat,
                Fault,
            >(w[i] as nat),
    ensures
        n.load_all(l) == Ok::<Seq<u64>, Fault>(w),
    decreases l.len(),
{
    if l.len() == 0 {
        assert(w =~= Seq::empty());
    } else {
        let ld = l.drop_last();
        let wd = w.drop_last();
        assert forall|i: int| 0 <= i < ld.len() implies (#[trigger] n.read_le(
            ld[i].addr,
            ld[i].size as nat,
        )) == Ok::<nat, Fault>(wd[i] as nat) by {
            assert(n.read_le(l[i].addr, l[i].size as nat) == Ok::<nat, Fault>(w[i] as nat));
        }
        lemma_loads_are(n, ld, wd);
        let k = l.len() - 1;
        assert(n.read_le(l[k].addr, l[k].size as nat) == Ok::<nat, Fault>(w[k] as nat));
        assert(wd.push(w.last()) =~= w);
    }
}

/// Whether the registers of a call can be saved: in the environment block of the
/// running thread where it has one.
pub open spec fn can_save(v: OsView, m: MemView) -> bool {
    match v.frame_base() {
        None => true,
        Some(b) => {
            &&& b + 0x140 <= u64::MAX
            &&& m.can_read(b as int, 0x140)
            &&& m.can_write(b as int, 0x140)
        },
    }
}

/// What is saved where a call is entered is found there by the service.
proof fn lemma_entered(v: OsView, c: CpuView, m: MemView)
    requires
        m.wf(),
        can_save(v, m),
        c.gpr.len() == 16,
        c.xmm.len() == 16,
    ensures
        ({
            let e = enter_out(v, c, m);
            &&& e.r is Ok
            &&& saved_at(e.r->Ok_0, e.mem) == Ok::<Seq<u64>, Fault>(saved_words(entered(c)))
            &&& e.cpu.gpr.len() == 16
            &&& e.cpu.xmm.len() == 16
            &&& !e.os.resume_as_is
            &&& e.os.syscall_exit is None
        }),
{
    let v1 = OsView { syscall_rsp: c.rsp(), resume_as_is: false, syscall_exit: None, ..v };
    let w = saved_words(entered(c));
    assert(w.len() == 31);
    match v1.frame_base() {
        None => {},
        Some(b) => {
            lemma_frame_read_back(m, b, w);
            let n = m.store_all(frame_table(b, w)).mem;
            lemma_store_all_shape(m, frame_table(b, w));
            if v1.unix_stack_top == 0 {
                lemma_any_map_keeps(v1.vm.next, n, UNIX_STACK_SIZE, Perm::rw(), frame_loads(b));
            }
        },
    }
}

/// Around a call that answers with a status, the guest keeps its non-volatile
/// registers, its stack and its flags, and goes on behind the call, whatever the
/// service did to the registers: all that it must leave alone is the place where
/// they are saved.
pub proof fn lemma_call_preserves(v: OsView, index: u32, c: CpuView, m: MemView, host: HostReply)
    requires
        m.wf(),
        can_save(v, m),
        c.gpr.len() == 16,
        c.xmm.len() == 16,
        ({
            let e = enter_out(v, c, m);
            let o = serve_out(e.os, handler_at(v.ssdt, index), e.cpu, e.mem, host);
            &&& o.r is Ok
            &&& o.cpu.gpr.len() == 16
            &&& o.cpu.xmm.len() == 16
            &&& !o.os.resume_as_is
            &&& o.os.syscall_exit is None
            &&& saved_at(e.r->Ok_0, o.mem) == saved_at(e.r->Ok_0, e.mem)
        }),
    ensures
        ({
            let e = enter_out(v, c, m);
            let o = syscall_out(v, index, c, m, host);
            let s = serve_out(e.os, handler_at(v.ssdt, index), e.cpu, e.mem, host);
            &&& o.r == Ok::<Exit, Fault>(Exit::Continue)
            &&& Ok::<u64, Fault>(o.cpu.reg(Reg::Rax)) == s.r
            &&& o.cpu.reg(Reg::Rbx) == c.reg(Reg::Rbx)
            &&& o.cpu.reg(Reg::Rbp) == c.reg(Reg::Rbp)
            &&& o.cpu.reg(Reg::Rsi) == c.reg(Reg::Rsi)
            &&& o.cpu.reg(Reg::Rdi) == c.reg(Reg::Rdi)
            &&& o.cpu.rsp() == c.rsp()
            &&& o.cpu.reg(Reg::R12) == c.reg(Reg::R12)
            &&& o.cpu.reg(Reg::R13) == c.reg(Reg::R13)
            &&& o.cpu.reg(Reg::R14) == c.reg(Reg::R14)
            &&& o.cpu.reg(Reg::R15) == c.reg(Reg::R15)
            &&& o.cpu.rip == c.reg(Reg::Rcx)
            &&& o.cpu.rflags == c.reg(Reg::R11)
            &&& forall|i: int| 6 <= i < 16 ==> #[trigger] o.cpu.xmm[i] == c.xmm[i]
        }),
{
    let e = enter_out(v, c, m);
    let s = serve_out(e.os, handler_at(v.ssdt, index), e.cpu, e.mem, host);
    lemma_entered(v, c, m);
    lemma_nonvolatiles_preserved(entered(c), s.cpu);
}

/// A service that is not implemented changes nothing.
proof fn lemma_serve_nothing(v: OsView, c: CpuView, m: MemView, host: HostReply)
    ensures
        serve_out(v, SyscallHandler::Unimplemented, c, m, host) == same(
            v,
            c,
            m,
            Ok(STATUS_NOT_IMPLEMENTED),
        ),
{
    reveal(serve_out);
}

/// A call that no service is installed for goes on behind the call with the status
/// that says so, and its stack as it was.
pub proof fn lemma_unimplemented(v: OsView, index: u32, c: CpuView, m: MemView, host: HostReply)
    requires
        handler_at(v.ssdt, index) == SyscallHandler::Unimplemented,
        m.wf(),
        can_save(v, m),
        c.gpr.len() == 16,
        c.xmm.len() == 16,
    ensures
        ({
            let o = syscall_out(v, index, c, m, host);
            &&& o.r == Ok::<Exit, Fault>(Exit::Continue)
            &&& o.cpu.reg(Reg::Rax) == STATUS_NOT_IMPLEMENTED
            &&& o.cpu.rip == c.reg(Reg::Rcx)
            &&& o.cpu.rsp() == c.rsp()
        }),
{
    let e = enter_out(v, c, m);
    lemma_entered(v, c, m);
    lemma_serve_nothing(e.os, e.cpu, e.mem, host);
    lemma_call_preserves(v, index, c, m, host);
}

// ---- code -------------------------------------------------------------------

/// The words that a call must not change.
fn words_of(cpu: &CpuState) -> (w: Vec<u64>)
    ensures
        w@ == saved_words(cpu@),
{
    let mut w: Vec<u64> = vec![
        cpu.reg(Reg::Rbx),
        cpu.reg(Reg::Rbp),
        cpu.reg(Reg::Rsi),
        cpu.reg(Reg::Rdi),
        cpu.rsp(),
        cpu.reg(Reg::R12),
        cpu.reg(Reg::R13),
        cpu.reg(Reg::R14),
        cpu.reg(Reg::R15),
        cpu.reg(Reg::Rcx),
        cpu.reg(Reg::R11),
    ];
    let ghost want = saved_words(cpu@);
    assert(w@ =~= want.take(11));
    let mut n: u8 = 6;
    while n < 16
        invariant
            6 <= n <= 16,
            want == saved_words(cpu@),
            w@ == want.take(11 + 2 * (n - 6)),
        decreases 16 - n,
    {
        let v: u128 = cpu.xmm(n);
        proof {
            let k = 2 * (n - 6);
            assert((12 + k) / 2 == n);
            assert((13 + k) / 2 == n);
            assert((12 + k) % 2 == 0);
            assert((13 + k) % 2 == 1);
            assert(want[11 + k] == low_half(cpu@.xmm[n as int]));
            assert(want[12 + k] == high_half(cpu@.xmm[n as int]));
        }
        w.push(low_of(v));
        w.push(high_of(v));
        n = n + 1;
        assert(w@ =~= want.take(11 + 2 * (n - 6)));
    }
    assert(want.take(31) =~= want);
    w
}

/// The saved words as stores.
fn frame_stores(base: u64, w: &Vec<u64>) -> (t: Vec<Store>)
    requires
        w.len() == 31,
    ensures
        t@ == frame_table(base, w@),
{
    let mut t: Vec<Store> = Vec::new();
    let mut i: usize = 0;
    while i < 31
        invariant
            i <= 31,
            w.len() == 31,
            t.len() == i,
            forall|j: int| 0 <= j < i ==> #[trigger] t@[j] == s64(ga(base, frame_off(j)), w@[j]),
        decreases 31 - i,
    {
        let off: u64 = if i < 11 {
            8 * (i as u64)
        } else {
            0x60 + 8 * (i as u64 - 11)
        };
        t.push(store64(at(base, off), w[i]));
        i = i + 1;
    }
    assert(t@ =~= frame_table(base, w@));
    t
}

/// The loads of saved words.
fn frame_load_list(base: u64) -> (t: Vec<Load>)
    ensures
        t@ == frame_loads(base),
{
    let mut t: Vec<Load> = Vec::new();
    let mut i: usize = 0;
    while i < 31
        invariant
            i <= 31,
            t.len() == i,
            forall|j: int| 0 <= j < i ==> #[trigger] t@[j] == l64(ga(base, frame_off(j))),
        decreases 31 - i,
    {
        let off: u64 = if i < 11 {
            8 * (i as u64)
        } else {
            0x60 + 8 * (i as u64 - 11)
        };
        t.push(load64(at(base, off)));
        i = i + 1;
    }
    assert(t@ =~= frame_loads(base));
    t
}

/// Put saved words back.
fn put_back(cpu: &mut CpuState, w: &Vec<u64>)
    requires
        w.len() == 31,
    ensures
        final(cpu)@ == restored(old(cpu)@, w@),
{
    let ghost c = cpu@;
    cpu.set_reg(Reg::Rbx, w[0]);
    cpu.set_reg(Reg::Rbp, w[1]);
    cpu.set_reg(Reg::Rsi, w[2]);
    cpu.set_reg(Reg::Rdi, w[3]);
    cpu.set_rsp(w[4]);
    cpu.set_reg(Reg::R12, w[5]);
    cpu.set_reg(Reg::R13, w[6]);
    cpu.set_reg(Reg::R14, w[7]);
    cpu.set_reg(Reg::R15, w[8]);
    cpu.rip = w[9];
    cpu.rflags = w[10];
    let ghost d = cpu@;
    let mut n: u8 = 6;
    while n < 16
        invariant
            6 <= n <= 16,
            w.len() == 31,
            d.xmm == c.xmm,
            d.xmm.len() == 16,
            cpu@ == (CpuView { xmm: cpu@.xmm, ..d }),
            cpu@.xmm.len() == 16,
            forall|i: int| 0 <= i < 6 ==> #[trigger] cpu@.xmm[i] == c.xmm[i],
            forall|i: int|
                6 <= i < n ==> #[trigger] cpu@.xmm[i] == join_halves(w@[2 * i - 1], w@[2 * i]),
        decreases 16 - n,
    {
        let k: usize = n as usize;
        cpu.set_xmm_keep_upper(n, join(w[2 * k - 1], w[2 * k]));
        n = n + 1;
    }
    assert(cpu@.xmm =~= restored(c, w@).xmm);
}

impl WinOs {
    /// Install a service for an NT call.
    pub fn set_syscall_handler(&mut self, index: u32, handler: SyscallHandler)
        ensures
            final(self)@ == (OsView {
                ssdt: with_handler(old(self)@.ssdt, index, handler),
                ..old(self)@
            }),
            old(self).wf() ==> final(self).wf(),
            old(self).has_room() ==> final(self).has_room(),
    {
        self.ssdt.set(index, handler);
    }

    /// A stack for services.
    fn ensure_unix_stack(&mut self, mem: &mut VirtualMemory)
        requires
            old(self).wf(),
        ensures
            final(self).wf(),
            old(self).has_room() ==> final(self).has_room(),
            final(self).thunks == old(self).thunks,
            final(self)@ == with_unix_stack(old(self)@, old(mem)@).os,
            final(mem)@ == with_unix_stack(old(self)@, old(mem)@).mem,
    {
        if self.unix_stack_top != 0 {
            return;
        }
        if let Some(b) = self.vm.map_anywhere(mem, UNIX_STACK_SIZE, Perm::rw()) {
            let top: u64 = at(b, UNIX_STACK_SIZE - 0x10);
            self.unix_stack_top = top - top % 16;
        }
    }

    /// Where the registers of the running thread are saved.
    fn saved_base(&self) -> (r: Option<u64>)
        requires
            self.wf(),
        ensures
            r == self@.frame_base(),
    {
        let t = &self.sched.threads[self.sched.current];
        assert(t@ == self@.sched.me());
        if t.teb_base != 0 {
            Some(at(t.teb_base, FRAME_OFFSET))
        } else {
            None
        }
    }

    /// Enter an NT call.
    pub fn enter_syscall(&mut self, cpu: &mut CpuState, mem: &mut VirtualMemory) -> (r: Result<
        SavedContext,
        Fault,
    >)
        requires
            old(self).wf(),
        ensures
            final(self).wf(),
            old(self).has_room() ==> final(self).has_room(),
            final(self).thunks == old(self).thunks,
            ({
                let e = enter_out(old(self)@, old(cpu)@, old(mem)@);
                &&& final(self)@ == e.os
                &&& final(cpu)@ == e.cpu
                &&& final(mem)@ == e.mem
                &&& match r {
                    Ok(s) => e.r == Ok::<SavedView, Fault>(s@) && s@.wf(),
                    Err(f) => e.r == Err::<SavedView, Fault>(f),
                }
            }),
    {
        self.syscall_rsp = cpu.rsp();
        self.resume_as_is = false;
        self.syscall_exit = None;
        cpu.rflags = cpu.rflags & !FLAG_DF;
        let w = words_of(cpu);
        assert(w.len() == 31);
        let saved: SavedContext = match self.saved_base() {
            Some(b) => {
                let t = frame_stores(b, &w);
                match mem.store_all(&t) {
                    Ok(_) => {},
                    Err(f) => {
                        return Err(f);
                    },
                }
                SavedContext::Teb(b)
            },
            None => SavedContext::Host(w),
        };
        self.ensure_unix_stack(mem);
        if self.unix_stack_top != 0 {
            cpu.set_rsp(self.unix_stack_top);
        }
        Ok(saved)
    }

    /// Leave an NT call whose service answered with a status.
    pub fn leave_syscall(
        &mut self,
        saved: &SavedContext,
        status: u64,
        cpu: &mut CpuState,
        mem: &VirtualMemory,
    ) -> (r: Result<Exit, Fault>)
        requires
            old(self).wf(),
            saved@.wf(),
        ensures
            final(self).wf(),
            old(self).has_room() ==> final(self).has_room(),
            final(self).thunks == old(self).thunks,
            (LeaveOut { os: final(self)@, cpu: final(cpu)@, r }) == leave_out(
                old(self)@,
                old(cpu)@,
                mem@,
                saved@,
                status,
            ),
    {
        if let Some(code) = self.syscall_exit {
            self.syscall_exit = None;
            return Ok(Exit::ProcessExit(code));
        }
        if self.resume_as_is {
            return Ok(Exit::Continue);
        }
        match saved {
            SavedContext::Teb(b) => {
                let t = frame_load_list(*b);
                match mem.load_all(&t) {
                    Ok(w) => {
                        put_back(cpu, &w);
                    },
                    Err(f) => {
                        return Err(f);
                    },
                }
            },
            SavedContext::Host(w) => {
                put_back(cpu, w);
            },
        }
        cpu.set_reg(Reg::Rax, status);
        Ok(Exit::Continue)
    }

    /// Whether the guest has files.
    pub fn has_sandbox(&self) -> (r: bool)
        ensures
            r == self@.has_files(),
    {
        let cs = crate::text::chars_of(self.cfg.sandbox.as_str());
        cs.len() > 0
    }

    /// What the service of an entered call asks the host for.
    pub fn syscall_request(&self, h: SyscallHandler, cpu: &CpuState, mem: &VirtualMemory) -> (r:
        HostRequest)
        ensures
            r@ == serve_asks(self@, h, cpu@, mem@),
    {
        let rsp: u64 = self.syscall_rsp;
        match h {
            SyscallHandler::CreateFile => self.files.nt_create_file_request(
                self.has_sandbox(),
                rsp,
                cpu,
                mem,
            ),
            SyscallHandler::ReadFile => self.files.nt_read_file_request(rsp, cpu, mem),
            SyscallHandler::WriteFile => self.files.nt_write_file_request(rsp, cpu, mem),
            SyscallHandler::QueryInformationFile => self.files.nt_query_file_request(rsp, cpu, mem),
            SyscallHandler::QueryDirectoryFile => self.files.nt_query_directory_request(
                self.has_sandbox(),
                rsp,
                cpu,
                mem,
            ),
            SyscallHandler::CreateSection => SectionTable::nt_create_section_request(
                &self.files,
                rsp,
                cpu,
                mem,
            ),
            _ => HostRequest::Nothing,
        }
    }

    /// Serve a call on memory.
    fn serve_memory(&mut self, h: SyscallHandler, cpu: &CpuState, mem: &mut VirtualMemory) -> (r:
        Result<u64, Fault>)
        requires
            old(self).wf(),
        ensures
            final(self).wf(),
            final(self).thunks == old(self).thunks,
            (ServerOut { os: final(self)@, cpu: cpu@, mem: final(mem)@, r }) == memory_out(
                old(self)@,
                h,
                cpu@,
                old(mem)@,
            ),
    {
        let rsp: u64 = self.syscall_rsp;
        match h {
            SyscallHandler::AllocateVirtualMemory => self.vm.nt_allocate_virtual_memory(
                &mut self.last_error,
                rsp,
                cpu,
                mem,
            ),
            SyscallHandler::FreeVirtualMemory => self.vm.nt_free_virtual_memory(
                &mut self.last_error,
                rsp,
                cpu,
                mem,
            ),
            SyscallHandler::ProtectVirtualMemory => self.vm.nt_protect_virtual_memory(
                &mut self.last_error,
                rsp,
                cpu,
                mem,
            ),
            SyscallHandler::QueryVirtualMemory => self.nt_query_virtual_memory(cpu, mem),
            SyscallHandler::InitializeNlsFiles => self.nls.nt_initialize_nls_files(
                &mut self.vm,
                cpu,
                mem,
            ),
            SyscallHandler::GetNlsSectionPtr => self.nls.nt_get_nls_section_ptr(
                &mut self.vm,
                rsp,
                cpu,
                mem,
            ),
            _ => Ok(STATUS_NOT_IMPLEMENTED),
        }
    }

    /// Serve a call on sections.
    fn serve_section(
        &mut self,
        h: SyscallHandler,
        cpu: &CpuState,
        mem: &mut VirtualMemory,
        host: HostReply,
    ) -> (r: Result<u64, Fault>)
        requires
            old(self).wf(),
            old(self).next_handle <= u64::MAX - 4,
        ensures
            final(self).wf(),
            final(self).thunks == old(self).thunks,
            (ServerOut { os: final(self)@, cpu: cpu@, mem: final(mem)@, r }) == section_out(
                old(self)@,
                h,
                cpu@,
                old(mem)@,
                host,
            ),
    {
        let rsp: u64 = self.syscall_rsp;
        match h {
            SyscallHandler::CreateSection => self.sections.nt_create_section(
                &mut self.next_handle,
                &self.vm,
                &self.files,
                rsp,
                cpu,
                mem,
                host,
            ),
            SyscallHandler::QuerySection => self.sections.nt_query_section(rsp, cpu, mem),
            SyscallHandler::MapViewOfSection => self.sections.nt_map_view_of_section(
                &mut self.vm,
                rsp,
                cpu,
                mem,
            ),
            SyscallHandler::UnmapViewOfSection => SectionTable::nt_unmap_view_of_section(
                &mut self.vm,
                rsp,
                cpu,
                mem,
            ),
            _ => Ok(STATUS_NOT_IMPLEMENTED),
        }
    }

    /// Serve a call on the registry.
    fn serve_registry(&mut self, h: SyscallHandler, cpu: &CpuState, mem: &mut VirtualMemory) -> (r:
        Result<u64, Fault>)
        requires
            old(self).wf(),
            old(self).next_handle <= u64::MAX - 4,
        ensures
            final(self).wf(),
            final(self).thunks == old(self).thunks,
            (ServerOut { os: final(self)@, cpu: cpu@, mem: final(mem)@, r }) == registry_out(
                old(self)@,
                h,
                cpu@,
                old(mem)@,
            ),
    {
        let rsp: u64 = self.syscall_rsp;
        let wide: bool = self.cfg.is_64bit;
        match h {
            SyscallHandler::CreateKey => self.reg.nt_create_key(
                &mut self.next_handle,
                &mut self.last_error,
                wide,
                rsp,
                cpu,
                mem,
            ),
            SyscallHandler::OpenKey => self.reg.nt_open_key(
                &mut self.next_handle,
                &mut self.last_error,
                wide,
                rsp,
                cpu,
                mem,
            ),
            SyscallHandler::SetValueKey => self.reg.nt_set_value_key(
                &mut self.next_handle,
                &mut self.last_error,
                rsp,
                cpu,
                mem,
            ),
            SyscallHandler::QueryValueKey => self.reg.nt_query_value_key(rsp, cpu, mem),
            SyscallHandler::EnumerateKey => self.reg.nt_enumerate_key(
                self.clock.filetime,
                rsp,
                cpu,
                mem,
            ),
            SyscallHandler::QueryKey => self.reg.nt_query_key(self.clock.filetime, rsp, cpu, mem),
            _ => Ok(STATUS_NOT_IMPLEMENTED),
        }
    }

    /// Serve a call on files.
    fn serve_files(
        &mut self,
        h: SyscallHandler,
        cpu: &CpuState,
        mem: &mut VirtualMemory,
        host: HostReply,
    ) -> (r: Result<u64, Fault>)
        requires
            old(self).wf(),
            old(self).next_handle <= u64::MAX - 4,
        ensures
            final(self).wf(),
            final(self).thunks == old(self).thunks,
            (ServerOut { os: final(self)@, cpu: cpu@, mem: final(mem)@, r }) == files_out(
                old(self)@,
                h,
                cpu@,
                old(mem)@,
                host,
            ),
    {
        let rsp: u64 = self.syscall_rsp;
        let sandbox: bool = self.has_sandbox();
        match h {
            SyscallHandler::CreateFile => self.files.nt_create_file(
                &mut self.next_handle,
                sandbox,
                rsp,
                cpu,
                mem,
                &host,
            ),
            SyscallHandler::ReadFile => self.files.nt_read_file(rsp, cpu, mem, &host),
            SyscallHandler::WriteFile => self.files.nt_write_file(rsp, cpu, mem, &host),
            SyscallHandler::QueryInformationFile => self.files.nt_query_information_file(
                rsp,
                cpu,
                mem,
                &host,
            ),
            SyscallHandler::QueryVolumeInformationFile => self.files.nt_query_volume_information_file(
                rsp,
                cpu,
                mem,
            ),
            SyscallHandler::QueryDirectoryFile => self.files.nt_query_directory_file(
                &mut self.next_handle,
                rsp,
                cpu,
                mem,
                &host,
            ),
            _ => Ok(STATUS_NOT_IMPLEMENTED),
        }
    }

    /// Serve a call on threads, processes and time.
    fn serve_process(&mut self, h: SyscallHandler, cpu: &mut CpuState, mem: &mut VirtualMemory) -> (r:
        Result<u64, Fault>)
        requires
            old(self).wf(),
            old(self).has_room(),
        ensures
            final(self).wf(),
            final(self).thunks == old(self).thunks,
            (ServerOut { os: final(self)@, cpu: final(cpu)@, mem: final(mem)@, r }) == process_out(
                old(self)@,
                h,
                old(cpu)@,
                old(mem)@,
            ),
    {
        let rsp: u64 = self.syscall_rsp;
        match h {
            SyscallHandler::Continue => self.nt_continue(cpu, mem),
            SyscallHandler::CreateThreadEx => self.nt_create_thread_ex(cpu, mem),
            SyscallHandler::TerminateThread => self.nt_terminate_thread(cpu, mem),
            SyscallHandler::TerminateProcess => self.nt_terminate_process(cpu, mem),
            SyscallHandler::SuspendThread => self.nt_count_thread(cpu, mem, true),
            SyscallHandler::ResumeThread => self.nt_count_thread(cpu, mem, false),
            SyscallHandler::QueryInformationThread => self.nt_query_information_thread(cpu, mem),
            SyscallHandler::QuerySystemTime => nt_query_system_time(&self.clock, rsp, cpu, mem),
            SyscallHandler::QueryPerformanceCounter => nt_query_performance_counter(
                &self.clock,
                rsp,
                cpu,
                mem,
            ),
            _ => Ok(STATUS_NOT_IMPLEMENTED),
        }
    }

    /// The kind of a service.
    fn service_kind(h: SyscallHandler) -> (k: Service)
        ensures
            k == kind_of(h),
    {
        match h {
            SyscallHandler::AllocateVirtualMemory
            | SyscallHandler::FreeVirtualMemory
            | SyscallHandler::ProtectVirtualMemory
            | SyscallHandler::QueryVirtualMemory
            | SyscallHandler::InitializeNlsFiles
            | SyscallHandler::GetNlsSectionPtr => Service::Memory,
            SyscallHandler::CreateSection
            | SyscallHandler::QuerySection
            | SyscallHandler::MapViewOfSection
            | SyscallHandler::UnmapViewOfSection => Service::Section,
            SyscallHandler::CreateKey
            | SyscallHandler::OpenKey
            | SyscallHandler::SetValueKey
            | SyscallHandler::QueryValueKey
            | SyscallHandler::EnumerateKey
            | SyscallHandler::QueryKey => Service::Registry,
            SyscallHandler::CreateFile
            | SyscallHandler::ReadFile
            | SyscallHandler::WriteFile
            | SyscallHandler::QueryInformationFile
            | SyscallHandler::QueryVolumeInformationFile
            | SyscallHandler::QueryDirectoryFile => Service::Files,
            SyscallHandler::Continue
            | SyscallHandler::CreateThreadEx
            | SyscallHandler::TerminateThread
            | SyscallHandler::TerminateProcess
            | SyscallHandler::SuspendThread
            | SyscallHandler::ResumeThread
            | SyscallHandler::QueryInformationThread
            | SyscallHandler::QuerySystemTime
            | SyscallHandler::QueryPerformanceCounter => Service::Process,
            SyscallHandler::Unimplemented | SyscallHandler::Application(_) => Service::Nothing,
        }
    }

    /// Run the service of an entered call.
    pub fn serve_syscall(
        &mut self,
        h: SyscallHandler,
        cpu: &mut CpuState,
        mem: &mut VirtualMemory,
        host: HostReply,
    ) -> (r: Result<u64, Fault>)
        requires
            old(self).wf(),
            old(self).has_room(),
        ensures
            final(self).wf(),
            final(self).thunks == old(self).thunks,
            (ServerOut { os: final(self)@, cpu: final(cpu)@, mem: final(mem)@, r }) == serve_out(
                old(self)@,
                h,
                old(cpu)@,
                old(mem)@,
                host,
            ),
    {
        reveal(serve_out);
        match WinOs::service_kind(h) {
            Service::Memory => self.serve_memory(h, cpu, mem),
            Service::Section => self.serve_section(h, cpu, mem, host),
            Service::Registry => self.serve_registry(h, cpu, mem),
            Service::Files => self.serve_files(h, cpu, mem, host),
            Service::Process => self.serve_process(h, cpu, mem),
            Service::Nothing => Ok(STATUS_NOT_IMPLEMENTED),
        }
    }

    /// Serve an NT call from its entry to its end.
    pub fn dispatch_syscall(
        &mut self,
        index: u32,
        cpu: &mut CpuState,
        mem: &mut VirtualMemory,
        host: HostReply,
    ) -> (r: Result<Exit, Fault>)
        requires
            old(self).wf(),
            old(self).has_room(),
        ensures
            final(self).wf(),
            final(self).thunks == old(self).thunks,
            (SyscallOut { os: final(self)@, cpu: final(cpu)@, mem: final(mem)@, r }) == syscall_out(
                old(self)@,
                index,
                old(cpu)@,
                old(mem)@,
                host,
            ),
    {
        let h = self.ssdt.handler(index);
        let saved = match self.enter_syscall(cpu, mem) {
            Ok(s) => s,
            Err(f) => {
                return Err(f);
            },
        };
        let status: u64 = match self.serve_syscall(h, cpu, mem, host) {
            Ok(s) => s,
            Err(f) => {
                return Err(f);
            },
        };
        self.leave_syscall(&saved, status, cpu, mem)
    }
}

} // verus!
