use exemu_os::call::Exit;
use exemu_os::config::WinConfig;
use exemu_os::cpu::{CpuState, Reg};
use exemu_os::host::HostReply;
use exemu_os::mem::{Perm, VirtualMemory};
use exemu_os::nls::{
    build_codepage_nls, build_locale_nls, CP_UTF8, HDR_LOCALE_TABLE_OFF, LCID_ENTRY_LEN,
    LT_LCIDS_OFF, LT_LOCALES_OFF, LT_NB_LCIDS, LT_STRIDE, LT_STRINGS_OFF, REC_ACP, REC_FLAG_18,
    REC_LEN, REC_OEMCP, SYSTEM_LCID,
};
use exemu_os::ntreg::STATUS_SUCCESS;
use exemu_os::os::WinOs;
use exemu_os::ssdt::{SSDT_NT_GET_NLS_SECTION_PTR, SSDT_NT_INITIALIZE_NLS_FILES};

fn os64() -> WinOs {
    WinOs::new(WinConfig { is_64bit: true, echo: false, ..WinConfig::default() })
}

fn rd32(b: &[u8], off: usize) -> u32 {
    u32::from_le_bytes(b[off..off + 4].try_into().unwrap())
}

fn rd16(b: &[u8], off: usize) -> u16 {
    u16::from_le_bytes(b[off..off + 2].try_into().unwrap())
}

/// Walk the locale file as the guest does: from the header to the table, the index
/// of locales, and the record of the only one.
#[test]
fn locale_nls_header_is_walkable() {
    let b = build_locale_nls();

    let lt = rd32(&b, HDR_LOCALE_TABLE_OFF) as usize;
    assert!(lt < b.len(), "locale-table offset in-bounds");

    let count = rd16(&b, lt + LT_NB_LCIDS);
    assert_eq!(count, 1, "exactly one locale entry");
    let lcids = lt + rd32(&b, lt + LT_LCIDS_OFF) as usize;
    assert!(lcids + LCID_ENTRY_LEN <= b.len(), "LCID index in-bounds");
    let strings = lt + rd32(&b, lt + LT_STRINGS_OFF) as usize;
    assert!(strings < b.len(), "strings block in-bounds");

    assert_eq!(rd32(&b, lcids), SYSTEM_LCID, "index holds LCID 0x409");
    let idx = rd16(&b, lcids + 4) as usize;
    let stride = rd16(&b, lt + LT_STRIDE) as usize;
    let rec = lt + rd32(&b, lt + LT_LOCALES_OFF) as usize + idx * stride;
    assert!(rec + REC_LEN <= b.len(), "resolved record in-bounds");

    assert_eq!(rd16(&b, rec + REC_ACP), CP_UTF8, "ANSI cp = UTF-8");
    assert_eq!(rd16(&b, rec + REC_OEMCP), CP_UTF8, "OEM cp = UTF-8");
    assert_ne!(rd16(&b, rec + REC_FLAG_18), 0, "validate-locale success flag");
}

#[test]
fn codepage_section_marks_utf8() {
    let b = build_codepage_nls();
    assert_eq!(rd16(&b, 0x02), CP_UTF8, "CodePage field = 65001 (UTF-8)");
}

#[test]
fn ssdt_initialize_nls_files_maps_and_reports() {
    let mut mem = VirtualMemory::new();
    mem.map_fixed(0x2_0000, 0x1000, Perm::rw()).unwrap();
    let mut os = os64();

    let base_out = 0x2_0100u64;
    let lcid_out = 0x2_0108u64;
    let size_out = 0x2_0110u64;

    let mut cpu = CpuState::new();
    cpu.set_rsp(0x2_0800);
    cpu.set_reg(Reg::Rcx, 0x4000);
    cpu.set_reg(Reg::R10, base_out);
    cpu.set_reg(Reg::Rdx, lcid_out);
    cpu.set_reg(Reg::R8, size_out);

    let exit = os
        .dispatch_syscall(SSDT_NT_INITIALIZE_NLS_FILES, &mut cpu, &mut mem, HostReply::Nothing)
        .unwrap();
    assert!(matches!(exit, Exit::Continue));
    assert_eq!(cpu.reg(Reg::Rax), STATUS_SUCCESS, "NTSTATUS in RAX");

    let base = mem.read_u64(base_out).unwrap();
    assert_ne!(base, 0, "a non-null NLS base was returned");
    assert_eq!(mem.read_u32(lcid_out).unwrap(), SYSTEM_LCID, "system LCID reported");
    assert_ne!(mem.read_u64(size_out).unwrap(), 0, "mapping size reported");

    let lt = base + mem.read_u32(base + HDR_LOCALE_TABLE_OFF as u64).unwrap() as u64;
    let lcids = lt + mem.read_u32(lt + LT_LCIDS_OFF as u64).unwrap() as u64;
    assert_eq!(mem.read_u32(lcids).unwrap(), SYSTEM_LCID, "walkable to LCID 0x409");

    let mut cpu2 = CpuState::new();
    cpu2.set_rsp(0x2_0800);
    cpu2.set_reg(Reg::Rcx, 0x4000);
    cpu2.set_reg(Reg::R10, base_out);
    cpu2.set_reg(Reg::Rdx, lcid_out);
    cpu2.set_reg(Reg::R8, size_out);
    os.dispatch_syscall(SSDT_NT_INITIALIZE_NLS_FILES, &mut cpu2, &mut mem, HostReply::Nothing)
        .unwrap();
    assert_eq!(mem.read_u64(base_out).unwrap(), base, "cached base is stable");
}

#[test]
fn ssdt_get_nls_section_ptr_maps_section() {
    let mut mem = VirtualMemory::new();
    mem.map_fixed(0x2_0000, 0x1000, Perm::rw()).unwrap();
    let mut os = os64();

    let base_out = 0x2_0100u64;
    let size_out = 0x2_0200u64;
    let gsp = 0x2_0800u64;
    mem.write_u64(gsp + 0x28, size_out).unwrap();

    let mut cpu = CpuState::new();
    cpu.set_rsp(gsp);
    cpu.set_reg(Reg::Rcx, 0x4000);
    cpu.set_reg(Reg::R10, 0xb);
    cpu.set_reg(Reg::Rdx, 1252);
    cpu.set_reg(Reg::R8, 0);
    cpu.set_reg(Reg::R9, base_out);

    let exit = os
        .dispatch_syscall(SSDT_NT_GET_NLS_SECTION_PTR, &mut cpu, &mut mem, HostReply::Nothing)
        .unwrap();
    assert!(matches!(exit, Exit::Continue));
    assert_eq!(cpu.reg(Reg::Rax), STATUS_SUCCESS);

    let base = mem.read_u64(base_out).unwrap();
    assert_ne!(base, 0, "a non-null section base was returned");
    assert_ne!(mem.read_u64(size_out).unwrap(), 0, "section size reported");
    assert_eq!(mem.read_u16(base + 0x02).unwrap(), CP_UTF8, "UTF-8 codepage stub");
}
