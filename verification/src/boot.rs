//! How a thread is handed over to the loader of the guest, and how it resumes.

use vstd::prelude::*;

use crate::clock::STATUS_ACCESS_VIOLATION;
use crate::cpu::{CpuState, CpuView, Reg};
use crate::exc::{
    context_at, context_readable, context_written, read_context, write_context, CONTEXT_SIZE,
};
use crate::mem::{at, ga, Fault, MemView, VirtualMemory};
use crate::ntreg::STATUS_SUCCESS;
use crate::os::{OsView, WinOs};
use crate::server::{same, ServerOut};

verus! {

/// Where `LdrInitializeThunk` lies in `ntdll`.
pub const RVA_LDR_INITIALIZE_THUNK: u64 = 0x155c0;

/// Where `RtlUserThreadStart` lies in `ntdll`.
pub const RVA_RTL_USER_THREAD_START: u64 = 0x10d14;

/// `NtContinue`: the thread resumes with the registers of a context record, and
/// keeps its segment bases and the high halves of its vector registers.
pub open spec fn continue_out(v: OsView, c: CpuView, m: MemView) -> ServerOut {
    let ctx = c.reg(Reg::R10);
    if ctx == 0 {
        same(v, c, m, Ok(STATUS_ACCESS_VIOLATION))
    } else {
        match context_at(m, ctx) {
            Err(_) => same(v, c, m, Ok(STATUS_ACCESS_VIOLATION)),
            Ok(s) => ServerOut {
                os: OsView { resume_as_is: true, ..v },
                cpu: CpuView { gpr: s.gpr, xmm: s.xmm, rip: s.rip, rflags: s.rflags, ..c },
                mem: m,
                r: Ok(STATUS_SUCCESS),
            },
        }
    }
}

/// The registers of a thread that is about to start at `entry` with `arg`.
pub open spec fn boot_state(ntdll_base: u64, entry: u64, arg: u64, stack_top: u64) -> CpuView {
    CpuView::fresh().with_rip(ga(ntdll_base, RVA_RTL_USER_THREAD_START as int)).with_reg(
        Reg::Rcx,
        entry,
    ).with_reg(Reg::Rdx, arg).with_rsp((stack_top - stack_top % 16) as u64)
}

/// What handing a thread over to the loader leads to.
pub struct BootOut {
    pub os: OsView,
    pub cpu: CpuView,
    pub mem: MemView,
    pub r: Result<Option<u64>, Fault>,
}

/// A context record for the start of the thread is laid down in the heap, and the
/// thread is at the loader with the record as its argument. The heap may be
/// exhausted.
pub open spec fn boot_out(
    v: OsView,
    c: CpuView,
    m: MemView,
    ntdll_base: u64,
    entry: u64,
    arg: u64,
    stack_top: u64,
) -> BootOut {
    let ctx = v.fresh_block(CONTEXT_SIZE);
    let w = v.heap_asked(CONTEXT_SIZE);
    if ctx == 0 {
        BootOut { os: w, cpu: c, mem: m, r: Ok(None) }
    } else {
        let s = context_written(m, ctx, boot_state(ntdll_base, entry, arg, stack_top));
        match s.fault {
            Some(f) => BootOut { os: w, cpu: c, mem: s.mem, r: Err(f) },
            None => BootOut {
                os: w,
                cpu: c.with_rip(ga(ntdll_base, RVA_LDR_INITIALIZE_THUNK as int)).with_reg(
                    Reg::Rcx,
                    ctx,
                ),
                mem: s.mem,
                r: Ok(Some(ctx)),
            },
        }
    }
}

/// Resuming at the record of a booted thread starts it: at `RtlUserThreadStart`,
/// with its entry point and argument, on an aligned stack.
pub proof fn lemma_boot_resumes(
    v: OsView,
    c: CpuView,
    m: MemView,
    ctx: u64,
    ntdll_base: u64,
    entry: u64,
    arg: u64,
    stack_top: u64,
)
    requires
        0 < ctx,
        context_written(m, ctx, boot_state(ntdll_base, entry, arg, stack_top)).fault is None,
        context_readable(m, ctx),
        c.reg(Reg::R10) == ctx,
    ensures
        ({
            let b = boot_state(ntdll_base, entry, arg, stack_top);
            let n = context_written(m, ctx, b).mem;
            let o = continue_out(v, c, n);
            &&& o.r == Ok::<u64, Fault>(STATUS_SUCCESS)
            &&& o.os.resume_as_is
            &&& o.cpu.rip == ga(ntdll_base, RVA_RTL_USER_THREAD_START as int)
            &&& o.cpu.reg(Reg::Rcx) == entry
            &&& o.cpu.reg(Reg::Rdx) == arg
            &&& o.cpu.rsp() == stack_top - stack_top % 16
            &&& o.cpu.gs_base == c.gs_base
            &&& o.cpu.fs_base == c.fs_base
        }),
{
    let b = boot_state(ntdll_base, entry, arg, stack_top);
    crate::exc::lemma_context_round_trip(m, ctx, b, context_written(m, ctx, b).mem);
}

impl WinOs {
    /// Serve `NtContinue`.
    pub fn nt_continue(&mut self, cpu: &mut CpuState, mem: &VirtualMemory) -> (r: Result<u64, Fault>)
        requires
            old(self).wf(),
        ensures
            final(self).wf(),
            old(self).has_room() ==> final(self).has_room(),
            final(self).thunks == old(self).thunks,
            (ServerOut { os: final(self)@, cpu: final(cpu)@, mem: mem@, r }) == continue_out(
                old(self)@,
                old(cpu)@,
                mem@,
            ),
    {
        let ctx: u64 = cpu.reg(Reg::R10);
        if ctx == 0 {
            return Ok(STATUS_ACCESS_VIOLATION);
        }
        let s = match read_context(mem, ctx) {
            Ok(s) => s,
            Err(_) => {
                return Ok(STATUS_ACCESS_VIOLATION);
            },
        };
        cpu.gpr = s.gpr;
        cpu.xmm = s.xmm;
        cpu.rip = s.rip;
        cpu.rflags = s.rflags;
        self.resume_as_is = true;
        Ok(STATUS_SUCCESS)
    }

    /// Hand the first thread of a process over to the loader of the guest; returns
    /// where its context record lies, or nothing where the heap is exhausted.
    pub fn bootstrap_via_ldr_init(
        &mut self,
        cpu: &mut CpuState,
        mem: &mut VirtualMemory,
        ntdll_base: u64,
        entry: u64,
        arg: u64,
        stack_top: u64,
    ) -> (r: Result<Option<u64>, Fault>)
        requires
            old(self).wf(),
        ensures
            final(self).wf(),
            old(self).has_room() ==> final(self).has_room(),
            final(self).thunks == old(self).thunks,
            (BootOut { os: final(self)@, cpu: final(cpu)@, mem: final(mem)@, r }) == boot_out(
                old(self)@,
                old(cpu)@,
                old(mem)@,
                ntdll_base,
                entry,
                arg,
                stack_top,
            ),
    {
        let ctx: u64 = self.heap_alloc(CONTEXT_SIZE);
        if ctx == 0 {
            return Ok(None);
        }
        let mut b = CpuState::new();
        b.rip = at(ntdll_base, RVA_RTL_USER_THREAD_START);
        b.set_reg(Reg::Rcx, entry);
        b.set_reg(Reg::Rdx, arg);
        b.set_rsp(stack_top - stack_top % 16);
        match write_context(mem, ctx, &b) {
            Ok(_) => {},
            Err(f) => {
                return Err(f);
            },
        }
        cpu.rip = at(ntdll_base, RVA_LDR_INITIALIZE_THUNK);
        cpu.set_reg(Reg::Rcx, ctx);
        Ok(Some(ctx))
    }
}

} // verus!
