use exemu_os::call::Exit;
use exemu_os::config::WinConfig;
use exemu_os::cpu::{CpuState, Reg};
use exemu_os::host::{HostReply, HostRequest, Seek};
use exemu_os::mem::{Perm, VirtualMemory};
use exemu_os::os::WinOs;
use exemu_os::ssdt::{
    SSDT_NT_ALLOCATE_VIRTUAL_MEMORY, SSDT_NT_CREATE_FILE, SSDT_NT_CREATE_KEY,
    SSDT_NT_CREATE_SECTION, SSDT_NT_CREATE_THREAD_EX, SSDT_NT_ENUMERATE_KEY,
    SSDT_NT_FREE_VIRTUAL_MEMORY, SSDT_NT_MAP_VIEW_OF_SECTION, SSDT_NT_OPEN_KEY,
    SSDT_NT_PROTECT_VIRTUAL_MEMORY, SSDT_NT_QUERY_INFORMATION_FILE,
    SSDT_NT_QUERY_INFORMATION_THREAD, SSDT_NT_QUERY_KEY, SSDT_NT_QUERY_PERFORMANCE_COUNTER,
    SSDT_NT_QUERY_SYSTEM_TIME, SSDT_NT_QUERY_VALUE_KEY, SSDT_NT_QUERY_VIRTUAL_MEMORY,
    SSDT_NT_READ_FILE, SSDT_NT_RESUME_THREAD, SSDT_NT_SET_VALUE_KEY, SSDT_NT_SUSPEND_THREAD,
    SSDT_NT_TERMINATE_PROCESS, SSDT_NT_TERMINATE_THREAD, SSDT_NT_UNMAP_VIEW_OF_SECTION,
    SSDT_NT_WRITE_FILE,
};
use exemu_os::time::HostClock;

const SP: u64 = 0x10_8000;
const DATA: u64 = 0x20_0000;
const NO_NAME: u64 = 0xC000_0034;
const BAD_HANDLE: u64 = 0xC000_0008;
const BAD_PARAMETER: u64 = 0xC000_000D;
const TOO_SMALL: u64 = 0xC000_0023;
const OVERFLOW: u64 = 0x8000_0005;
const NO_MORE: u64 = 0x8000_001A;
const END_OF_FILE: u64 = 0xC000_0011;

struct Rig {
    os: WinOs,
    mem: VirtualMemory,
    cpu: CpuState,
    asked: HostRequest,
    exit: Exit,
}

fn rig() -> Rig {
    let mut mem = VirtualMemory::new();
    mem.map_fixed(0x10_0000, 0x1_0000, Perm::rw()).unwrap();
    mem.map_fixed(DATA, 0x1_0000, Perm::rw()).unwrap();
    let os = WinOs::new(WinConfig { sandbox: "box".to_string(), ..WinConfig::default() });
    Rig { os, mem, cpu: CpuState::new(), asked: HostRequest::Nothing, exit: Exit::Continue }
}

fn call_host(r: &mut Rig, index: u32, args: &[u64], host: HostReply) -> u64 {
    let regs = [Reg::R10, Reg::Rdx, Reg::R8, Reg::R9];
    r.cpu.set_rsp(SP);
    r.cpu.set_reg(Reg::Rcx, 0x5000);
    for (i, a) in args.iter().enumerate() {
        if i < 4 {
            r.cpu.set_reg(regs[i], *a);
        } else {
            r.mem.write_u64(SP + 0x28 + (i as u64 - 4) * 8, *a).unwrap();
        }
    }
    let handler = r.os.ssdt.handler(index);
    let saved = r.os.enter_syscall(&mut r.cpu, &mut r.mem).unwrap();
    r.asked = r.os.syscall_request(handler, &r.cpu, &r.mem);
    let status = r.os.serve_syscall(handler, &mut r.cpu, &mut r.mem, host).unwrap();
    r.exit = r.os.leave_syscall(&saved, status, &mut r.cpu, &r.mem).unwrap();
    status
}

fn call(r: &mut Rig, index: u32, args: &[u64]) -> u64 {
    call_host(r, index, args, HostReply::Nothing)
}

/// A counted text at `at`, its characters behind it.
fn put_counted(r: &mut Rig, at: u64, s: &str) {
    let units: Vec<u16> = s.encode_utf16().collect();
    r.mem.write_u16(at, 2 * units.len() as u16).unwrap();
    r.mem.write_u16(at + 2, 2 * units.len() as u16).unwrap();
    r.mem.write_u64(at + 8, at + 16).unwrap();
    for (i, u) in units.iter().enumerate() {
        r.mem.write_u16(at + 16 + 2 * i as u64, *u).unwrap();
    }
}

/// Attributes at `at` that name `s` below `root`.
fn put_attributes(r: &mut Rig, at: u64, root: u64, s: &str) {
    r.mem.write_u64(at + 8, root).unwrap();
    r.mem.write_u64(at + 16, at + 0x40).unwrap();
    put_counted(r, at + 0x40, s);
}

fn get_units(r: &Rig, at: u64, n: u64) -> String {
    let u: Vec<u16> = (0..n).map(|i| r.mem.read_u16(at + 2 * i).unwrap()).collect();
    String::from_utf16(&u).unwrap()
}

// ---- memory -----------------------------------------------------------------

#[test]
fn native_memory_is_reserved_protected_and_freed() {
    let mut r = rig();
    r.mem.write_u64(DATA, 0).unwrap();
    r.mem.write_u64(DATA + 8, 0x1801).unwrap();
    let me = u64::MAX;
    assert_eq!(call(&mut r, SSDT_NT_ALLOCATE_VIRTUAL_MEMORY, &[me, DATA, 0, DATA + 8, 0x3000, 4]), 0);
    let base = r.mem.read_u64(DATA).unwrap();
    assert_ne!(base, 0);
    assert_eq!(base % 0x1_0000, 0);
    assert_eq!(r.mem.read_u64(DATA + 8).unwrap(), 0x2000);
    r.mem.write_u64(base, 0x1122).unwrap();
    assert_eq!(call(&mut r, SSDT_NT_PROTECT_VIRTUAL_MEMORY, &[me, DATA, DATA + 8, 2, DATA + 16]), 0);
    assert_eq!(r.mem.read_u32(DATA + 16).unwrap(), 4);
    assert_eq!(call(&mut r, SSDT_NT_QUERY_VIRTUAL_MEMORY, &[me, base, 0, DATA + 0x100, 0x30, DATA + 24]), 0);
    assert_eq!(r.mem.read_u64(DATA + 24).unwrap(), 0x30);
    assert_eq!(r.mem.read_u64(DATA + 0x100).unwrap(), base);
    assert_eq!(r.mem.read_u64(DATA + 0x118).unwrap(), 0x2000);
    assert_eq!(r.mem.read_u32(DATA + 0x124).unwrap(), 2);
    assert_eq!(call(&mut r, SSDT_NT_QUERY_VIRTUAL_MEMORY, &[me, base, 0, DATA, 8, 0]), BAD_PARAMETER);
    assert_eq!(call(&mut r, SSDT_NT_FREE_VIRTUAL_MEMORY, &[me, DATA, DATA + 8, 0x8000]), 0);
    assert!(r.mem.read_u64(base).is_err());
    assert_eq!(call(&mut r, SSDT_NT_FREE_VIRTUAL_MEMORY, &[me, 0, 0, 0x8000]), BAD_PARAMETER);
}

// ---- the registry -----------------------------------------------------------

#[test]
fn native_keys_hold_values() {
    let mut r = rig();
    put_attributes(&mut r, DATA, 0, "\\Registry\\Machine\\Software\\Acme");
    assert_eq!(call(&mut r, SSDT_NT_CREATE_KEY, &[DATA + 0x200, 0, DATA, 0, 0, 0, DATA + 0x208]), 0);
    let k = r.mem.read_u64(DATA + 0x200).unwrap();
    assert_eq!(r.mem.read_u32(DATA + 0x208).unwrap(), 1);
    put_attributes(&mut r, DATA + 0x300, k, "Sub");
    assert_eq!(call(&mut r, SSDT_NT_OPEN_KEY, &[DATA + 0x210, 0, DATA + 0x300]), NO_NAME);
    assert_eq!(call(&mut r, SSDT_NT_CREATE_KEY, &[DATA + 0x210, 0, DATA + 0x300, 0, 0, 0, 0]), 0);
    assert_eq!(call(&mut r, SSDT_NT_OPEN_KEY, &[DATA + 0x210, 0, DATA + 0x300]), 0);

    put_counted(&mut r, DATA + 0x400, "Level");
    r.mem.write_u32(DATA + 0x480, 77).unwrap();
    assert_eq!(call(&mut r, SSDT_NT_SET_VALUE_KEY, &[k, DATA + 0x400, 0, 4, DATA + 0x480, 4]), 0);
    let partial = [k, DATA + 0x400, 2, DATA + 0x500, 0x40, DATA + 0x580];
    assert_eq!(call(&mut r, SSDT_NT_QUERY_VALUE_KEY, &partial), 0);
    assert_eq!(r.mem.read_u32(DATA + 0x580).unwrap(), 16);
    assert_eq!(r.mem.read_u32(DATA + 0x504).unwrap(), 4);
    assert_eq!(r.mem.read_u32(DATA + 0x508).unwrap(), 4);
    assert_eq!(r.mem.read_u32(DATA + 0x50C).unwrap(), 77);
    let short = [k, DATA + 0x400, 2, DATA + 0x500, 4, DATA + 0x580];
    assert_eq!(call(&mut r, SSDT_NT_QUERY_VALUE_KEY, &short), TOO_SMALL);
    put_counted(&mut r, DATA + 0x400, "None");
    assert_eq!(call(&mut r, SSDT_NT_QUERY_VALUE_KEY, &partial), NO_NAME);
    assert_eq!(call(&mut r, SSDT_NT_SET_VALUE_KEY, &[0x9999, DATA + 0x400, 0, 4, 0, 0]), BAD_HANDLE);
}

#[test]
fn native_keys_are_described() {
    let mut r = rig();
    put_attributes(&mut r, DATA, 0, "\\Registry\\Machine\\Software\\Acme");
    assert_eq!(call(&mut r, SSDT_NT_CREATE_KEY, &[DATA + 0x200, 0, DATA, 0, 0, 0, 0]), 0);
    let k = r.mem.read_u64(DATA + 0x200).unwrap();
    for name in ["B", "Long"] {
        put_attributes(&mut r, DATA + 0x300, k, name);
        assert_eq!(call(&mut r, SSDT_NT_CREATE_KEY, &[DATA + 0x210, 0, DATA + 0x300, 0, 0, 0, 0]), 0);
    }
    assert_eq!(call(&mut r, SSDT_NT_ENUMERATE_KEY, &[k, 0, 0, DATA + 0x600, 0x40, DATA + 0x680]), 0);
    assert_eq!(r.mem.read_u32(DATA + 0x60C).unwrap(), 2);
    assert_eq!(get_units(&r, DATA + 0x610, 1), "B");
    assert_eq!(call(&mut r, SSDT_NT_ENUMERATE_KEY, &[k, 1, 0, DATA + 0x600, 0x12, DATA + 0x680]), OVERFLOW);
    assert_eq!(r.mem.read_u32(DATA + 0x680).unwrap(), 24);
    assert_eq!(call(&mut r, SSDT_NT_ENUMERATE_KEY, &[k, 2, 0, DATA + 0x600, 0x40, 0]), NO_MORE);
    assert_eq!(call(&mut r, SSDT_NT_QUERY_KEY, &[k, 2, DATA + 0x700, 44, DATA + 0x780]), 0);
    assert_eq!(r.mem.read_u32(DATA + 0x714).unwrap(), 2);
    assert_eq!(r.mem.read_u32(DATA + 0x718).unwrap(), 8);
    assert_eq!(r.mem.read_u32(DATA + 0x720).unwrap(), 0);
    assert_eq!(call(&mut r, SSDT_NT_QUERY_KEY, &[k, 3, DATA + 0x700, 0x60, DATA + 0x780]), 0);
    let n = r.mem.read_u32(DATA + 0x700).unwrap() as u64 / 2;
    assert_eq!(get_units(&r, DATA + 0x704, n), "HKLM\\Software\\Acme");
    assert_eq!(call(&mut r, SSDT_NT_QUERY_KEY, &[k, 9, DATA + 0x700, 0x60, 0]), BAD_PARAMETER);
}

// ---- files ------------------------------------------------------------------

#[test]
fn native_files_go_through_the_host() {
    let mut r = rig();
    put_attributes(&mut r, DATA, 0, "\\??\\C:\\dir\\a.txt");
    let create = [DATA + 0x200, 0x4000_0000, DATA, DATA + 0x210, 0, 0, 0, 3];
    let opened = HostReply::Opened { existed: false, is_dir: false };
    assert_eq!(call_host(&mut r, SSDT_NT_CREATE_FILE, &create, opened), 0);
    match &r.asked {
        HostRequest::Open { path, plan } => {
            assert_eq!(path.last().unwrap(), "a.txt");
            assert!(plan.write && plan.create && !plan.create_new && !plan.truncate);
        }
        _ => panic!("no file was asked for"),
    }
    let h = r.mem.read_u64(DATA + 0x200).unwrap();
    assert_eq!(r.mem.read_u64(DATA + 0x218).unwrap(), 2, "it was created");

    r.mem.write(DATA + 0x300, &b"hello".to_vec()).unwrap();
    let write = [h, 0, 0, 0, DATA + 0x210, DATA + 0x300, 5, 0];
    assert_eq!(call_host(&mut r, SSDT_NT_WRITE_FILE, &write, HostReply::Count(5)), 0);
    assert_eq!(r.mem.read_u64(DATA + 0x218).unwrap(), 5);
    match &r.asked {
        HostRequest::Write { handle, data, .. } => {
            assert_eq!((*handle, data.as_slice()), (h, b"hello".as_slice()))
        }
        _ => panic!("nothing was written"),
    }

    r.mem.write_u64(DATA + 0x400, 2).unwrap();
    let read = [h, 0, 0, 0, DATA + 0x210, DATA + 0x380, 8, DATA + 0x400];
    assert_eq!(call_host(&mut r, SSDT_NT_READ_FILE, &read, HostReply::Data(b"llo".to_vec())), 0);
    assert_eq!(r.mem.read_u64(DATA + 0x218).unwrap(), 3);
    assert_eq!(r.mem.read_u8(DATA + 0x382).unwrap(), b'o');
    match &r.asked {
        HostRequest::Read { handle, seek, len } => {
            assert!(*handle == h && *seek == Seek::Start(2) && *len == 8)
        }
        _ => panic!("nothing was read"),
    }
    assert_eq!(call_host(&mut r, SSDT_NT_READ_FILE, &read, HostReply::Data(Vec::new())), END_OF_FILE);

    let stat = HostReply::Stat { size: 5, pos: 3 };
    let query = [h, DATA + 0x210, DATA + 0x500, 24, 5];
    assert_eq!(call_host(&mut r, SSDT_NT_QUERY_INFORMATION_FILE, &query, stat), 0);
    assert_eq!(r.mem.read_u64(DATA + 0x508).unwrap(), 5);
    assert_eq!(call(&mut r, SSDT_NT_READ_FILE, &[0x9999, 0, 0, 0, 0, 0, 0, 0]), BAD_HANDLE);
    assert_eq!(call(&mut r, SSDT_NT_CREATE_FILE, &create), NO_NAME);
}

// ---- sections ---------------------------------------------------------------

#[test]
fn sections_show_their_content() {
    let mut r = rig();
    put_attributes(&mut r, DATA, 0, "C:\\data.bin");
    let create = [DATA + 0x200, 0, DATA, DATA + 0x210, 0, 0, 0, 1];
    let opened = HostReply::Opened { existed: true, is_dir: false };
    assert_eq!(call_host(&mut r, SSDT_NT_CREATE_FILE, &create, opened), 0);
    let file = r.mem.read_u64(DATA + 0x200).unwrap();

    let make = [DATA + 0x220, 0, 0, 0, 2, 0x0800_0000, file];
    let content = HostReply::Content { data: b"0123456789".to_vec(), image: None };
    assert_eq!(call_host(&mut r, SSDT_NT_CREATE_SECTION, &make, content), 0);
    let s = r.mem.read_u64(DATA + 0x220).unwrap();
    r.mem.write_u64(DATA + 0x230, 0).unwrap();
    r.mem.write_u64(DATA + 0x238, 0).unwrap();
    let map = [s, u64::MAX, DATA + 0x230, 0, 0, 0, DATA + 0x238, 1, 0, 2];
    assert_eq!(call(&mut r, SSDT_NT_MAP_VIEW_OF_SECTION, &map), 0);
    let view = r.mem.read_u64(DATA + 0x230).unwrap();
    let shown: Vec<u8> = (0..10).map(|i| r.mem.read_u8(view + i).unwrap()).collect();
    assert_eq!(shown, b"0123456789");
    assert_eq!(r.mem.read_u8(view + 10).unwrap(), 0);
    assert_eq!(call(&mut r, SSDT_NT_UNMAP_VIEW_OF_SECTION, &[u64::MAX, view]), 0);
    assert!(r.mem.read_u8(view).is_err());
    assert_eq!(call(&mut r, SSDT_NT_UNMAP_VIEW_OF_SECTION, &[u64::MAX, view]), BAD_PARAMETER);
    let map = [0x9999, u64::MAX, DATA + 0x230, 0, 0, 0, DATA + 0x238, 1, 0, 2];
    assert_eq!(call(&mut r, SSDT_NT_MAP_VIEW_OF_SECTION, &map), BAD_HANDLE);
}

// ---- threads and time -------------------------------------------------------

#[test]
fn native_threads_are_counted_and_ended() {
    let mut r = rig();
    let make = [DATA, 0, 0, u64::MAX, 0x6000, 0x77, 1, 0, 0, 0, 0];
    assert_eq!(call(&mut r, SSDT_NT_CREATE_THREAD_EX, &make), 0);
    let h = r.mem.read_u64(DATA).unwrap();
    assert_eq!(r.os.sched.threads.len(), 2);
    assert_eq!(call(&mut r, SSDT_NT_SUSPEND_THREAD, &[h, DATA + 8]), 0);
    assert_eq!(r.mem.read_u32(DATA + 8).unwrap(), 1);
    assert_eq!(call(&mut r, SSDT_NT_RESUME_THREAD, &[h, DATA + 8]), 0);
    assert_eq!(r.mem.read_u32(DATA + 8).unwrap(), 2);
    assert_eq!(call(&mut r, SSDT_NT_TERMINATE_THREAD, &[h, 5]), 0);
    assert_eq!(call(&mut r, SSDT_NT_QUERY_INFORMATION_THREAD, &[h, 0, DATA + 0x100, 0x30, 0]), 0);
    assert_eq!(r.mem.read_u32(DATA + 0x100).unwrap(), 5);
    assert_eq!(call(&mut r, SSDT_NT_SUSPEND_THREAD, &[0x9999, 0]), BAD_HANDLE);
    assert_eq!(r.exit, Exit::Continue);
    assert_eq!(call(&mut r, SSDT_NT_TERMINATE_PROCESS, &[u64::MAX, 9]), 0);
    assert_eq!(r.exit, Exit::ProcessExit(9));
}

#[test]
fn native_time_is_the_hosts() {
    let mut r = rig();
    r.os.set_clock(HostClock { filetime: 0x01D0_0000_0000_0001, ticks: 1234 });
    assert_eq!(call(&mut r, SSDT_NT_QUERY_SYSTEM_TIME, &[DATA]), 0);
    assert_eq!(r.mem.read_u64(DATA).unwrap(), 0x01D0_0000_0000_0001);
    assert_eq!(call(&mut r, SSDT_NT_QUERY_PERFORMANCE_COUNTER, &[DATA, DATA + 8]), 0);
    assert_eq!(r.mem.read_u64(DATA).unwrap(), 1234);
    assert_ne!(r.mem.read_u64(DATA + 8).unwrap(), 0);
}
