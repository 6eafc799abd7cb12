use exemu_os::boot::{RVA_LDR_INITIALIZE_THUNK, RVA_RTL_USER_THREAD_START};
use exemu_os::call::Exit;
use exemu_os::clock::STATUS_ACCESS_VIOLATION;
use exemu_os::config::WinConfig;
use exemu_os::cpu::{CpuState, Reg, FLAG_CF, FLAG_RESERVED_ONE, FLAG_ZF};
use exemu_os::exc::write_context;
use exemu_os::host::HostReply;
use exemu_os::mem::{Perm, VirtualMemory};
use exemu_os::os::WinOs;
use exemu_os::ssdt::SSDT_NT_CONTINUE;

const CTX_CONTEXT_FLAGS: u64 = 0x30;
const CTX_RCX: u64 = 0x80;
const CTX_RDX: u64 = 0x88;
const CTX_RSP: u64 = 0x98;
const CTX_RIP: u64 = 0xf8;

const TEB: u64 = 0x7fff_0000_0000;
const HEAP: u64 = 0x2_0000_0000;
const STACK_TOP: u64 = 0x10_0000_1000;

fn os_mem() -> (WinOs, VirtualMemory) {
    let mut mem = VirtualMemory::new();
    mem.map_fixed(TEB, 0x2000, Perm::rw()).unwrap();
    mem.map_fixed(HEAP, 0x10000, Perm::rw()).unwrap();
    mem.map_fixed(0x5000_0000, 0x4000, Perm::rw()).unwrap();
    let os = WinOs::new(WinConfig {
        is_64bit: true,
        echo: false,
        teb_base: TEB,
        heap_base: HEAP,
        heap_size: 0x10000,
        ..WinConfig::default()
    });
    (os, mem)
}

/// The context record becomes the register file, and the guest goes on there.
#[test]
fn nt_continue_loads_context_and_resumes() {
    let (mut os, mut mem) = os_mem();
    let ctx = 0x5000_0000u64;

    let mut want = CpuState::new();
    want.set_reg(Reg::Rbx, 0xB16B_00B5);
    want.set_reg(Reg::Rsi, 0x5151_5151);
    want.set_reg(Reg::Rcx, 0x00C0_FFEE);
    want.rip = 0x1_4000_1234;
    want.set_rsp(0x10_0000_0FF0);
    want.rflags = FLAG_RESERVED_ONE | FLAG_CF | FLAG_ZF;
    write_context(&mut mem, ctx, &want).unwrap();

    let mut cpu = CpuState::new();
    cpu.gs_base = TEB;
    cpu.fs_base = TEB;
    cpu.set_reg(Reg::R10, ctx);
    cpu.set_reg(Reg::Rcx, 0xDEAD);
    let flags = cpu.rflags;
    cpu.set_reg(Reg::R11, flags);
    cpu.set_rsp(0x10_0000_2000);

    let exit = os
        .dispatch_syscall(SSDT_NT_CONTINUE, &mut cpu, &mut mem, HostReply::Nothing)
        .unwrap();
    assert_eq!(exit, Exit::Continue);
    assert_eq!(cpu.rip, want.rip, "resumed at CONTEXT.Rip");
    assert_eq!(cpu.rsp(), want.rsp(), "resumed on CONTEXT.Rsp");
    assert_eq!(cpu.reg(Reg::Rbx), 0xB16B_00B5, "Rbx loaded from CONTEXT");
    assert_eq!(cpu.reg(Reg::Rsi), 0x5151_5151, "Rsi loaded from CONTEXT");
    assert_eq!(cpu.reg(Reg::Rcx), 0x00C0_FFEE, "Rcx loaded (NOT the frame's return rip)");
    assert_eq!(cpu.rflags & FLAG_CF, FLAG_CF, "RFLAGS.CF loaded from CONTEXT");
    assert_eq!(cpu.gs_base, TEB, "segment bases preserved across NtContinue");
    assert_eq!(cpu.fs_base, TEB, "segment bases preserved across NtContinue");
}

/// Without a record the caller stays where it was, with a status.
#[test]
fn nt_continue_null_context_is_access_violation() {
    let (mut os, mut mem) = os_mem();
    let mut cpu = CpuState::new();
    cpu.gs_base = TEB;
    cpu.set_reg(Reg::R10, 0);
    cpu.set_reg(Reg::Rcx, 0x1234);
    let flags = cpu.rflags;
    cpu.set_reg(Reg::R11, flags);
    cpu.set_rsp(0x10_0000_2000);
    os.dispatch_syscall(SSDT_NT_CONTINUE, &mut cpu, &mut mem, HostReply::Nothing).unwrap();
    assert_eq!(cpu.reg(Reg::Rax), STATUS_ACCESS_VIOLATION);
    assert_eq!(cpu.rip, 0x1234, "returned to the frame's rip (RCX), not resumed");
}

/// The first thread starts in the guest's loader, with a record for its start
/// routine.
#[test]
fn bootstrap_builds_context_and_seats_ldr_init() {
    let (mut os, mut mem) = os_mem();
    let ntdll_base = 0x6_0000_0000u64;
    let entry = 0x1_4000_5000u64;
    let arg = 0xABCD;
    let mut cpu = CpuState::new();
    cpu.gs_base = TEB;

    let ctx = os
        .bootstrap_via_ldr_init(&mut cpu, &mut mem, ntdll_base, entry, arg, STACK_TOP)
        .unwrap()
        .expect("heap had room for the CONTEXT");

    assert_eq!(cpu.rip, ntdll_base + RVA_LDR_INITIALIZE_THUNK, "rip = LdrInitializeThunk");
    assert_eq!(cpu.reg(Reg::Rcx), ctx, "RCX = &CONTEXT");

    assert_ne!(mem.read_u32(ctx + CTX_CONTEXT_FLAGS).unwrap(), 0, "ContextFlags set");
    assert_eq!(mem.read_u64(ctx + CTX_RIP).unwrap(), ntdll_base + RVA_RTL_USER_THREAD_START);
    assert_eq!(mem.read_u64(ctx + CTX_RCX).unwrap(), entry, "CONTEXT.Rcx = EntryPoint");
    assert_eq!(mem.read_u64(ctx + CTX_RDX).unwrap(), arg, "CONTEXT.Rdx = Arg");
    let rsp = mem.read_u64(ctx + CTX_RSP).unwrap();
    assert_eq!(rsp & 0xf, 0, "CONTEXT.Rsp 16-byte aligned");
    assert!(rsp <= STACK_TOP && rsp > STACK_TOP - 0x1000, "CONTEXT.Rsp near the stack top");
}

/// An exhausted heap leaves the thread where it was.
#[test]
fn bootstrap_without_heap_is_refused() {
    let mut mem = VirtualMemory::new();
    let mut os = WinOs::new(WinConfig { heap_size: 0, ..WinConfig::default() });
    let mut cpu = CpuState::new();
    cpu.rip = 7;
    let r = os.bootstrap_via_ldr_init(&mut cpu, &mut mem, 0, 0, 0, STACK_TOP).unwrap();
    assert_eq!(r, None);
    assert_eq!(cpu.rip, 7);
}
