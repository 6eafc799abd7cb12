use exemu_os::call::Exit;
use exemu_os::config::WinConfig;
use exemu_os::cpu::{CpuState, Reg, FLAG_DF};
use exemu_os::host::HostReply;
use exemu_os::mem::{Perm, VirtualMemory};
use exemu_os::os::WinOs;
use exemu_os::ssdt::{SyscallHandler, STATUS_NOT_IMPLEMENTED};

/// A service of the application that overwrites every register it may not keep.
fn clobber(cpu: &mut CpuState) -> u64 {
    for r in [Reg::Rbx, Reg::Rbp, Reg::Rsi, Reg::Rdi, Reg::R12, Reg::R13, Reg::R14, Reg::R15] {
        cpu.set_reg(r, 0xDEAD);
    }
    for n in 6u8..=15 {
        cpu.set_xmm_keep_upper(n, 0xDEAD);
    }
    cpu.set_reg(Reg::R8, 0x5A5A);
    0x1234_5678
}

fn roundtrip(os: &mut WinOs, mem: &mut VirtualMemory) {
    os.set_syscall_handler(7, SyscallHandler::Application(1));

    let mut cpu = CpuState::new();
    let ret = 0x0000_0000_0040_1234;
    cpu.set_reg(Reg::Rcx, ret);
    let flags = cpu.rflags | FLAG_DF;
    cpu.set_reg(Reg::R11, flags);
    cpu.set_rsp(0x0000_0010_0000_1000);
    cpu.set_reg(Reg::Rbx, 0xB16B_00B5);
    cpu.set_reg(Reg::Rbp, 0x0BADF00D);
    cpu.set_xmm_keep_upper(6, 0xCAFE);
    cpu.set_reg(Reg::R8, 0);
    let rsp_before = cpu.rsp();

    assert_eq!(os.ssdt.handler(7), SyscallHandler::Application(1));
    let saved = os.enter_syscall(&mut cpu, mem).unwrap();
    assert!(cpu.rflags & FLAG_DF == 0, "services run with DF clear");
    let status = clobber(&mut cpu);
    let exit = os.leave_syscall(&saved, status, &mut cpu, mem).unwrap();
    assert!(matches!(exit, Exit::Continue));

    assert_eq!(cpu.reg(Reg::Rax), 0x1234_5678, "NTSTATUS in RAX");
    assert_eq!(cpu.reg(Reg::Rbx), 0xB16B_00B5, "RBX restored");
    assert_eq!(cpu.reg(Reg::Rbp), 0x0BADF00D, "RBP restored");
    assert_eq!(cpu.xmm(6), 0xCAFE, "XMM6 restored");
    assert_eq!(cpu.reg(Reg::R8), 0x5A5A, "R8 (volatile) passes through");
    assert_eq!(cpu.rsp(), rsp_before, "guest RSP restored");
    assert_eq!(cpu.rip, ret, "resumes at the return address (saved RCX)");
    assert!(cpu.rflags & FLAG_DF != 0, "guest DF restored from saved R11");
}

/// Without an environment block the registers are kept with the host.
#[test]
fn host_fallback_roundtrip_preserves_nonvolatiles() {
    let mut mem = VirtualMemory::new();
    let mut os = WinOs::new(WinConfig {
        is_64bit: true,
        echo: false,
        teb_base: 0,
        ..WinConfig::default()
    });
    roundtrip(&mut os, &mut mem);
}

/// With one they are kept there.
#[test]
fn frame_in_the_environment_block_preserves_nonvolatiles() {
    let mut mem = VirtualMemory::new();
    mem.map_fixed(0x7000_0000, 0x3000, Perm::rw()).unwrap();
    let mut os = WinOs::new(WinConfig { teb_base: 0x7000_0000, ..WinConfig::default() });
    roundtrip(&mut os, &mut mem);
    assert_eq!(mem.read_u64(0x7000_0000 + 0x1ec0).unwrap(), 0xB16B_00B5);
}

#[test]
fn unimplemented_index_returns_not_implemented() {
    let mut mem = VirtualMemory::new();
    let mut os = WinOs::new(WinConfig { is_64bit: true, echo: false, ..WinConfig::default() });
    let mut cpu = CpuState::new();
    cpu.set_reg(Reg::Rcx, 0x4000);
    cpu.set_rsp(0x1_0000);
    os.dispatch_syscall(0x123, &mut cpu, &mut mem, HostReply::Nothing).unwrap();
    assert_eq!(cpu.reg(Reg::Rax), STATUS_NOT_IMPLEMENTED);
}

#[test]
fn index_outside_of_the_table_returns_not_implemented() {
    let mut mem = VirtualMemory::new();
    let mut os = WinOs::new(WinConfig::default());
    let mut cpu = CpuState::new();
    cpu.set_reg(Reg::Rcx, 0x4000);
    os.dispatch_syscall(0xffff_ffff, &mut cpu, &mut mem, HostReply::Nothing).unwrap();
    assert_eq!(cpu.reg(Reg::Rax), STATUS_NOT_IMPLEMENTED);
    assert_eq!(cpu.rip, 0x4000);
}
