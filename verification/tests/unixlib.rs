use std::time::{SystemTime, UNIX_EPOCH};

use exemu_os::call::Exit;
use exemu_os::config::WinConfig;
use exemu_os::cpu::{CpuState, Reg};
use exemu_os::host::HostReply;
use exemu_os::mem::{Perm, VirtualMemory};
use exemu_os::ntreg::{STATUS_INVALID_PARAMETER, STATUS_SUCCESS};
use exemu_os::os::WinOs;
use exemu_os::ssdt::{SSDT_NT_QUERY_VIRTUAL_MEMORY, STATUS_NOT_IMPLEMENTED};
use exemu_os::time::{filetime_of, HostClock};
use exemu_os::unixlib::{
    MEMORY_WINE_UNIX_FUNCS, STATUS_DLL_NOT_FOUND, STATUS_INVALID_ADDRESS, STATUS_UNSUCCESSFUL,
};

fn os64() -> WinOs {
    WinOs::new(WinConfig { is_64bit: true, echo: false, ..WinConfig::default() })
}

fn filetime_now() -> u64 {
    let d = SystemTime::now().duration_since(UNIX_EPOCH).unwrap();
    filetime_of(d.as_secs(), d.subsec_nanos())
}

fn tell_time(os: &mut WinOs) {
    os.set_clock(HostClock { filetime: filetime_now(), ticks: 0 });
}

/// Ask for the host half of the library at `base`, with the arguments of an NT call.
fn cpu_query(os: &mut WinOs, mem: &mut VirtualMemory, base: u64, out_buf: u64, ret_len: u64) {
    let gsp = 0x2_0800;
    mem.write_u64(gsp + 0x28, 8).unwrap();
    mem.write_u64(gsp + 0x30, ret_len).unwrap();
    os.syscall_rsp = gsp;

    let mut cpu = CpuState::new();
    cpu.set_reg(Reg::R10, 0xFFFF_FFFF_FFFF_FFFF);
    cpu.set_reg(Reg::Rdx, base);
    cpu.set_reg(Reg::R8, MEMORY_WINE_UNIX_FUNCS as u64);
    cpu.set_reg(Reg::R9, out_buf);
    let status = os.nt_query_virtual_memory(&cpu, mem).unwrap();
    assert_eq!(status, STATUS_SUCCESS);
}

#[test]
fn query_then_call_system_time_precise() {
    let mut mem = VirtualMemory::new();
    mem.map_fixed(0x2_0000, 0x1000, Perm::rw()).unwrap();

    let mut os = os64();
    let ntdll_base = 0x7f00_0000;
    let expected_handle = os.register_ntdll_unixlib(ntdll_base);

    let out_buf = 0x2_0100;
    let ret_len = 0x2_0108;
    cpu_query(&mut os, &mut mem, ntdll_base, out_buf, ret_len);
    let handle = mem.read_u64(out_buf).unwrap();
    assert_eq!(handle, expected_handle, "query returns the registered handle");
    assert_eq!(mem.read_u64(ret_len).unwrap(), 8, "return_length written");

    let host_before = filetime_now();
    tell_time(&mut os);
    let args = 0x2_0200;
    let mut cpu = CpuState::new();
    cpu.set_reg(Reg::Rcx, handle);
    cpu.set_reg(Reg::Rdx, 7);
    cpu.set_reg(Reg::R8, args);
    let status = os.wine_unix_call(&mut cpu, &mut mem).unwrap();
    let host_after = filetime_now();
    assert_eq!(status, STATUS_SUCCESS, "system_time_precise succeeded");
    let precise = mem.read_u64(args).unwrap();
    assert!(
        (host_before..=host_after).contains(&precise),
        "system_time_precise {precise} within host clock bracket [{host_before}, {host_after}]",
    );
}

#[test]
fn bad_handle_or_code_is_invalid_parameter() {
    let mut mem = VirtualMemory::new();
    let mut os = os64();
    let base = 0x7f00_0000;
    let h = os.register_ntdll_unixlib(base);
    let mut cpu = CpuState::new();
    assert_eq!(
        os.dispatch_unix_call(h + 99, 0, 0, &mut cpu, &mut mem).unwrap(),
        STATUS_INVALID_PARAMETER
    );
    assert_eq!(
        os.dispatch_unix_call(h, 8, 0, &mut cpu, &mut mem).unwrap(),
        STATUS_INVALID_PARAMETER
    );
    assert_eq!(
        os.dispatch_unix_call(h, 999, 0, &mut cpu, &mut mem).unwrap(),
        STATUS_INVALID_PARAMETER
    );
}

#[test]
fn all_eight_entries_walk_without_faulting() {
    let mut mem = VirtualMemory::new();
    mem.map_fixed(0x3_0000, 0x1000, Perm::rw()).unwrap();
    let mut os = os64();
    tell_time(&mut os);
    let base = 0x7f00_0000;
    let h = os.register_ntdll_unixlib(base);
    let mut cpu = CpuState::new();

    let msg = 0x3_0100;
    mem.write(msg, &b"hi".to_vec()).unwrap();
    let dbg_args = 0x3_0200;
    mem.write_u64(dbg_args, msg).unwrap();
    mem.write_u64(dbg_args + 8, 2).unwrap();
    let time_args = 0x3_0300;
    let srv_req = 0x3_0400;

    let expected = [
        (0u32, STATUS_DLL_NOT_FOUND, 0u64),
        (1, STATUS_UNSUCCESSFUL, 0),
        (2, 2, dbg_args),
        (3, STATUS_NOT_IMPLEMENTED, srv_req),
        (4, STATUS_NOT_IMPLEMENTED, 0),
        (5, STATUS_NOT_IMPLEMENTED, 0),
        (6, STATUS_NOT_IMPLEMENTED, 0),
        (7, STATUS_SUCCESS, time_args),
    ];
    for (code, want, args) in expected {
        let got = os.dispatch_unix_call(h, code, args, &mut cpu, &mut mem).unwrap();
        assert_eq!(got, want, "entry {code} returned an unexpected NTSTATUS");
    }
    assert!(
        mem.read_u64(time_args).unwrap() > 0,
        "system_time_precise wrote a nonzero FILETIME"
    );
    assert_eq!(
        os.dispatch_unix_call(h, 8, 0, &mut cpu, &mut mem).unwrap(),
        STATUS_INVALID_PARAMETER
    );
}

#[test]
fn query_rejects_bad_base_and_class() {
    let mut mem = VirtualMemory::new();
    mem.map_fixed(0x2_0000, 0x1000, Perm::rw()).unwrap();
    let mut os = os64();
    os.register_ntdll_unixlib(0x7f00_0000);
    os.syscall_rsp = 0x2_0800;

    let mut cpu = CpuState::new();
    mem.write_u64(0x2_0800 + 0x28, 8).unwrap();
    mem.write_u64(0x2_0800 + 0x30, 0).unwrap();
    cpu.set_reg(Reg::Rdx, 0xdead_0000);
    cpu.set_reg(Reg::R8, MEMORY_WINE_UNIX_FUNCS as u64);
    cpu.set_reg(Reg::R9, 0x2_0100);
    assert_eq!(os.nt_query_virtual_memory(&cpu, &mut mem).unwrap(), STATUS_INVALID_ADDRESS);

    let mut cpu = CpuState::new();
    cpu.set_reg(Reg::Rdx, 0x7f00_0000);
    cpu.set_reg(Reg::R8, 0);
    cpu.set_reg(Reg::R9, 0x2_0100);
    assert_eq!(os.nt_query_virtual_memory(&cpu, &mut mem).unwrap(), STATUS_INVALID_PARAMETER);
}

#[test]
fn ssdt_slot_answers_query() {
    let mut mem = VirtualMemory::new();
    mem.map_fixed(0x2_0000, 0x1000, Perm::rw()).unwrap();
    let mut os = os64();
    let base = 0x7f00_0000;
    let h = os.register_ntdll_unixlib(base);

    let gsp = 0x2_0800;
    mem.write_u64(gsp + 0x28, 8).unwrap();
    mem.write_u64(gsp + 0x30, 0).unwrap();

    let mut cpu = CpuState::new();
    cpu.set_rsp(gsp);
    cpu.set_reg(Reg::Rcx, 0x4000);
    cpu.set_reg(Reg::R10, 0xFFFF_FFFF_FFFF_FFFF);
    cpu.set_reg(Reg::Rdx, base);
    cpu.set_reg(Reg::R8, MEMORY_WINE_UNIX_FUNCS as u64);
    cpu.set_reg(Reg::R9, 0x2_0100);

    let exit = os
        .dispatch_syscall(SSDT_NT_QUERY_VIRTUAL_MEMORY, &mut cpu, &mut mem, HostReply::Nothing)
        .unwrap();
    assert!(matches!(exit, Exit::Continue));
    assert_eq!(cpu.reg(Reg::Rax), STATUS_SUCCESS, "NTSTATUS in RAX");
    assert_eq!(mem.read_u64(0x2_0100).unwrap(), h, "handle written to out-buffer");
}

/// A report of the guest is kept only where calls are reported.
#[test]
fn reports_are_kept_where_calls_are_reported() {
    for trace in [false, true] {
        let mut mem = VirtualMemory::new();
        mem.map_fixed(0x3_0000, 0x1000, Perm::rw()).unwrap();
        let mut os = WinOs::new(WinConfig { trace, ..WinConfig::default() });
        let h = os.register_ntdll_unixlib(0x7f00_0000);
        mem.write(0x3_0100, &b"hi".to_vec()).unwrap();
        mem.write_u64(0x3_0200, 0x3_0100).unwrap();
        mem.write_u64(0x3_0208, 2).unwrap();
        let mut cpu = CpuState::new();
        assert_eq!(os.dispatch_unix_call(h, 2, 0x3_0200, &mut cpu, &mut mem).unwrap(), 2);
        assert_eq!(os.traced.as_slice(), if trace { b"hi".as_slice() } else { b"".as_slice() });
    }
}
