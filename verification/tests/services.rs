use exemu_os::api::{win32_argc, Api};
use exemu_os::call::Exit;
use exemu_os::cb::GuiEvent;
use exemu_os::config::WinConfig;
use exemu_os::cpu::{CpuState, Reg};
use exemu_os::dialogs::{HWND_CONTROL, HWND_DIALOG};
use exemu_os::dispatch::Step;
use exemu_os::files::{ERROR_FILE_EXISTS, ERROR_FILE_NOT_FOUND};
use exemu_os::gdi::{FAKE_HANDLE, HWND_CUSTOM};
use exemu_os::host::{HostReply, HostRequest, OpenPlan, Seek};
use exemu_os::mem::{Perm, VirtualMemory};
use exemu_os::os::{WinOs, HANDLE_STDERR, HANDLE_STDIN, HANDLE_STDOUT};
use exemu_os::thunk::ImportSymbol;
use exemu_os::time::HostClock;
use exemu_os::ui::{DrawOp, Effect};

const STACK: u64 = 0x10_0000;
const SP: u64 = 0x10_8000;
const DATA: u64 = 0x20_0000;
const HEAP: u64 = 0x30_0000;
const RET: u64 = 0x40_1234;

struct Rig {
    os: WinOs,
    mem: VirtualMemory,
    cpu: CpuState,
    asked: HostRequest,
}

fn rig_with(cfg: WinConfig) -> Rig {
    let mut mem = VirtualMemory::new();
    mem.map_fixed(STACK, 0x1_0000, Perm::rw()).unwrap();
    mem.map_fixed(DATA, 0x1_0000, Perm::rw()).unwrap();
    mem.map_fixed(HEAP, 0x1_0000, Perm::rw()).unwrap();
    let os = WinOs::new(WinConfig { heap_base: HEAP, heap_size: 0x1_0000, ..cfg });
    Rig { os, mem, cpu: CpuState::new(), asked: HostRequest::Nothing }
}

fn rig() -> Rig {
    rig_with(WinConfig::default())
}

fn sandboxed() -> Rig {
    rig_with(WinConfig { sandbox: "box".to_string(), ..WinConfig::default() })
}

/// Go to the thunk at `addr` and serve its call.
fn serve(r: &mut Rig, addr: u64, host: HostReply) -> Exit {
    match r.os.intercept(addr, &mut r.cpu, &r.mem) {
        Step::Serve { thunk, request } => {
            r.asked = request;
            r.os.complete(thunk, &mut r.cpu, &mut r.mem, &host).unwrap()
        }
        _ => panic!("no thunk at {addr:#x}"),
    }
}

fn start(r: &mut Rig, name: &str, args: &[u64], host: HostReply) -> Exit {
    let addr = r.os.resolve_import("x.dll", &ImportSymbol::Named(name.to_string()), None);
    let regs = [Reg::Rcx, Reg::Rdx, Reg::R8, Reg::R9];
    r.cpu.set_rsp(SP);
    r.mem.write_u64(SP, RET).unwrap();
    for (i, a) in args.iter().enumerate() {
        if i < 4 {
            r.cpu.set_reg(regs[i], *a);
        } else {
            r.mem.write_u64(SP + 0x28 + (i as u64 - 4) * 8, *a).unwrap();
        }
    }
    serve(r, addr, host)
}

fn call_host(r: &mut Rig, name: &str, args: &[u64], host: HostReply) -> u64 {
    let e = start(r, name, args, host);
    assert_eq!(e, Exit::Continue);
    assert_eq!(r.cpu.rip, RET, "{name} returned to its caller");
    assert_eq!(r.cpu.rsp(), SP + 8, "{name} took its return address off");
    r.cpu.reg(Reg::Rax)
}

fn call(r: &mut Rig, name: &str, args: &[u64]) -> u64 {
    call_host(r, name, args, HostReply::Nothing)
}

/// A callback that is in progress returns.
fn callback_returns(r: &mut Rig, host: HostReply) {
    let driver = r.os.drivers.callback;
    let sp = r.cpu.rsp();
    assert_eq!(r.mem.read_u64(sp).unwrap(), driver, "callbacks return to their driver");
    r.cpu.set_rsp(sp + 8);
    assert_eq!(serve(r, driver, host), Exit::Continue);
}

fn put_wide(r: &mut Rig, at: u64, s: &str) {
    let mut a = at;
    for u in s.encode_utf16().chain([0]) {
        r.mem.write_u16(a, u).unwrap();
        a += 2;
    }
}

fn get_wide(r: &Rig, at: u64) -> String {
    let mut v = Vec::new();
    let mut a = at;
    loop {
        let u = r.mem.read_u16(a).unwrap();
        if u == 0 {
            return String::from_utf16(&v).unwrap();
        }
        v.push(u);
        a += 2;
    }
}

fn put_bytes(r: &mut Rig, at: u64, s: &[u8]) {
    r.mem.write(at, &s.to_vec()).unwrap();
}

// ---- the console ------------------------------------------------------------

#[test]
fn standard_handles() {
    let mut r = rig();
    assert_eq!(call(&mut r, "GetStdHandle", &[-10i32 as u32 as u64]), HANDLE_STDIN);
    assert_eq!(call(&mut r, "GetStdHandle", &[-11i32 as u32 as u64]), HANDLE_STDOUT);
    assert_eq!(call(&mut r, "GetStdHandle", &[-12i32 as u32 as u64]), HANDLE_STDERR);
    assert_eq!(call(&mut r, "GetStdHandle", &[1]), 0);
}

#[test]
fn console_output_accumulates() {
    let mut r = rig();
    put_bytes(&mut r, DATA, b"Hello\n");
    assert_eq!(call(&mut r, "WriteFile", &[HANDLE_STDOUT, DATA, 6, DATA + 0x100, 0]), 1);
    assert_eq!(r.mem.read_u32(DATA + 0x100).unwrap(), 6);
    assert_eq!(call(&mut r, "WriteConsoleA", &[HANDLE_STDOUT, DATA, 5, 0, 0]), 1);
    assert_eq!(call(&mut r, "WriteFile", &[HANDLE_STDERR, DATA, 1, 0, 0]), 1);
    assert_eq!(r.os.captured_stdout().as_slice(), b"Hello\nHello");
    assert_eq!(r.os.captured_stderr().as_slice(), b"H");
}

#[test]
fn wide_console_output_is_utf8() {
    let mut r = rig();
    put_wide(&mut r, DATA, "h\u{e9}\u{1F600}");
    assert_eq!(call(&mut r, "WriteConsoleW", &[HANDLE_STDOUT, DATA, 4, DATA + 0x100, 0]), 1);
    assert_eq!(r.os.captured_stdout().as_slice(), "h\u{e9}\u{1F600}".as_bytes());
    assert_eq!(r.mem.read_u32(DATA + 0x100).unwrap(), 4);
}

#[test]
fn runtime_streams_go_to_standard_output() {
    let mut r = rig();
    put_bytes(&mut r, DATA, b"abcdef\0");
    assert_eq!(call(&mut r, "puts", &[DATA]), 0);
    assert_eq!(call(&mut r, "fputs", &[DATA + 4, 0]), 0);
    assert_eq!(call(&mut r, "fputc", &[0x141, 0]), 0x41);
    assert_eq!(call(&mut r, "fwrite", &[DATA, 2, 2, 0]), 2);
    assert_eq!(r.os.captured_stdout().as_slice(), b"abcdef\nefAabcd");
}

#[test]
fn console_mode_is_processed_output() {
    let mut r = rig();
    assert_eq!(call(&mut r, "GetConsoleMode", &[HANDLE_STDOUT, DATA]), 1);
    assert_eq!(r.mem.read_u32(DATA).unwrap(), 3);
}

// ---- memory and strings -----------------------------------------------------

#[test]
fn heap_blocks_are_apart_and_run_out() {
    let mut r = rig();
    let a = call(&mut r, "malloc", &[10]);
    let b = call(&mut r, "HeapAlloc", &[0, 0, 10]);
    assert!(a != 0 && b >= a + 10);
    assert_eq!(call(&mut r, "malloc", &[0x10_0000]), 0);
    assert_eq!(call(&mut r, "GetLastError", &[]), 8);
    assert_eq!(call(&mut r, "calloc", &[u64::MAX, 2]), 0);
}

#[test]
fn resizing_keeps_the_content() {
    let mut r = rig();
    let a = call(&mut r, "malloc", &[8]);
    put_bytes(&mut r, a, b"12345678");
    let b = call(&mut r, "realloc", &[a, 16]);
    assert_ne!(a, b);
    assert_eq!(r.mem.read(b, 8).unwrap(), b"12345678".to_vec());
    let c = call(&mut r, "HeapReAlloc", &[0, 0, b, 4]);
    assert_eq!(r.mem.read(c, 4).unwrap(), b"1234".to_vec());
    assert_ne!(call(&mut r, "realloc", &[0, 4]), 0);
}

#[test]
fn blocks_move_fill_and_order() {
    let mut r = rig();
    put_bytes(&mut r, DATA, b"abcd\0");
    assert_eq!(call(&mut r, "memmove", &[DATA + 1, DATA, 4]), DATA + 1);
    assert_eq!(r.mem.read(DATA, 5).unwrap(), b"aabcd".to_vec());
    assert_eq!(call(&mut r, "memset", &[DATA, 0x178, 3]), DATA);
    assert_eq!(r.mem.read(DATA, 5).unwrap(), b"xxxcd".to_vec());
    put_bytes(&mut r, DATA + 0x10, b"xxyzz");
    assert_eq!(call(&mut r, "memcmp", &[DATA, DATA + 0x10, 2]), 0);
    assert_eq!(call(&mut r, "memcmp", &[DATA, DATA + 0x10, 3]), -1i64 as u64);
    assert_eq!(call(&mut r, "memcmp", &[DATA + 0x10, DATA, 3]), 1);
    put_bytes(&mut r, DATA, b"four\0");
    assert_eq!(call(&mut r, "strlen", &[DATA]), 4);
    assert_eq!(call(&mut r, "lstrlenA", &[0]), 0);
}

#[test]
fn wide_strings() {
    let mut r = rig();
    put_wide(&mut r, DATA, "Hello");
    assert_eq!(call(&mut r, "lstrlenW", &[DATA]), 5);
    assert_eq!(call(&mut r, "lstrlenW", &[0]), 0);
    assert_eq!(call(&mut r, "lstrcpyW", &[DATA + 0x100, DATA]), DATA + 0x100);
    assert_eq!(call(&mut r, "lstrcatW", &[DATA + 0x100, DATA]), DATA + 0x100);
    assert_eq!(get_wide(&r, DATA + 0x100), "HelloHello");
    assert_eq!(call(&mut r, "lstrcpynW", &[DATA + 0x200, DATA, 4]), DATA + 0x200);
    assert_eq!(get_wide(&r, DATA + 0x200), "Hel");
    assert_eq!(call(&mut r, "lstrcpynW", &[DATA + 0x200, DATA, 40]), DATA + 0x200);
    assert_eq!(get_wide(&r, DATA + 0x200), "Hello");
    put_wide(&mut r, DATA + 0x300, "hELLO");
    assert_eq!(call(&mut r, "lstrcmpW", &[DATA, DATA + 0x300]), -1i64 as u64);
    assert_eq!(call(&mut r, "lstrcmpW", &[DATA + 0x300, DATA]), 1);
    assert_eq!(call(&mut r, "lstrcmpiW", &[DATA, DATA + 0x300]), 0);
    assert_eq!(call(&mut r, "CharNextW", &[DATA]), DATA + 2);
    assert_eq!(call(&mut r, "CharNextW", &[DATA + 10]), DATA + 10);
    assert_eq!(call(&mut r, "CharPrevW", &[DATA, DATA + 4]), DATA + 2);
    assert_eq!(call(&mut r, "CharPrevW", &[DATA, DATA]), DATA);
}

#[test]
fn a_bad_pointer_is_a_fault() {
    let mut r = rig();
    let addr = r.os.resolve_import("x.dll", &ImportSymbol::Named("strlen".to_string()), None);
    r.cpu.set_rsp(SP);
    r.cpu.set_reg(Reg::Rcx, 0x9999_0000);
    match r.os.intercept(addr, &mut r.cpu, &r.mem) {
        Step::Serve { thunk, .. } => {
            let f = r.os.complete(thunk, &mut r.cpu, &mut r.mem, &HostReply::Nothing).unwrap_err();
            assert_eq!(f.addr, 0x9999_0000);
        }
        _ => panic!("no thunk"),
    }
}

// ---- the process ------------------------------------------------------------

#[test]
fn exit_codes() {
    let mut r = rig();
    assert_eq!(start(&mut r, "ExitProcess", &[42], HostReply::Nothing), Exit::ProcessExit(42));
    assert_eq!(start(&mut r, "exit", &[7], HostReply::Nothing), Exit::ProcessExit(7));
    assert_eq!(
        start(&mut r, "TerminateProcess", &[0, 0xffff_ffff], HostReply::Nothing),
        Exit::ProcessExit(-1)
    );
    let t = r.os.exit_thunk();
    r.cpu.set_reg(Reg::Rax, 3);
    assert_eq!(serve(&mut r, t, HostReply::Nothing), Exit::ProcessExit(3));
}

#[test]
fn last_error_and_ids() {
    let mut r = rig();
    call(&mut r, "SetLastError", &[0x1_0000_0005]);
    assert_eq!(call(&mut r, "GetLastError", &[]), 5);
    assert_eq!(call(&mut r, "GetCurrentProcessId", &[]), 0x1000);
    assert_eq!(call(&mut r, "GetCurrentThreadId", &[]), 0x1001);
    assert_eq!(call(&mut r, "GetCurrentProcess", &[]), u64::MAX);
    assert_eq!(call(&mut r, "IsDebuggerPresent", &[]), 0);
    assert_eq!(call(&mut r, "GetACP", &[]), 65001);
    assert_eq!(call(&mut r, "GetVersion", &[]), 0x23F0_0206);
}

#[test]
fn times_come_from_the_host() {
    let mut r = rig();
    r.os.set_clock(HostClock { filetime: 0x1234_5678_9abc, ticks: 25_000 });
    assert_eq!(call(&mut r, "QueryPerformanceCounter", &[DATA]), 1);
    assert_eq!(r.mem.read_u64(DATA).unwrap(), 25_000);
    assert_eq!(call(&mut r, "QueryPerformanceFrequency", &[DATA]), 1);
    assert_eq!(r.mem.read_u64(DATA).unwrap(), 10_000_000);
    call(&mut r, "GetSystemTimeAsFileTime", &[DATA]);
    assert_eq!(r.mem.read_u64(DATA).unwrap(), 0x1234_5678_9abc);
    assert_eq!(call(&mut r, "GetTickCount", &[]), 2);
}

#[test]
fn environment_block_is_a_list_of_assignments() {
    let mut r = rig();
    let p = call(&mut r, "GetEnvironmentStringsW", &[]);
    assert_ne!(p, 0);
    let mut a = p;
    let mut vars = Vec::new();
    loop {
        let s = get_wide(&r, a);
        if s.is_empty() {
            break;
        }
        a += 2 * (s.encode_utf16().count() as u64 + 1);
        vars.push(s);
    }
    assert_eq!(vars.len(), 24);
    assert!(vars.contains(&"OS=Windows_NT".to_string()));
    assert!(vars.contains(&"TEMP=C:\\Temp".to_string()));
}

#[test]
fn start_up_records() {
    let mut r = rig_with(WinConfig { cmdline_ptr_a: 0x5555, ..WinConfig::default() });
    put_bytes(&mut r, DATA, &[0xff; 0x80]);
    call(&mut r, "GetStartupInfoW", &[DATA]);
    assert_eq!(r.mem.read_u32(DATA).unwrap(), 104);
    assert_eq!(r.mem.read_u64(DATA + 8).unwrap(), 0);
    assert_eq!(r.mem.read_u8(DATA + 104).unwrap(), 0xff);
    call(&mut r, "GetVersionExW", &[DATA]);
    assert_eq!(r.mem.read_u32(DATA + 4).unwrap(), 6);
    assert_eq!(r.mem.read_u32(DATA + 12).unwrap(), 9200);
    call(&mut r, "__getmainargs", &[DATA, DATA + 8, DATA + 16]);
    assert_eq!(r.mem.read_u32(DATA).unwrap(), 1);
    let argv = r.mem.read_u64(DATA + 8).unwrap();
    assert_eq!(r.mem.read_u64(argv).unwrap(), 0x5555);
    assert_eq!(r.mem.read_u64(argv + 8).unwrap(), 0);
    let env = r.mem.read_u64(DATA + 16).unwrap();
    assert_eq!(r.mem.read_u64(env).unwrap(), 0);
}

#[test]
fn initializers_run_in_order() {
    let mut r = rig();
    for (i, f) in [0x7000u64, 0, 0x8000].iter().enumerate() {
        r.mem.write_u64(DATA + 8 * i as u64, *f).unwrap();
    }
    let driver = r.os.drivers.initterm;
    start(&mut r, "_initterm", &[DATA, DATA + 24], HostReply::Nothing);
    assert_eq!(r.cpu.rip, 0x7000);
    assert_eq!(r.cpu.rsp() % 16, 8);
    assert_eq!(r.mem.read_u64(r.cpu.rsp()).unwrap(), driver);
    serve(&mut r, driver, HostReply::Nothing);
    assert_eq!(r.cpu.rip, 0x8000);
    serve(&mut r, driver, HostReply::Nothing);
    assert_eq!(r.cpu.rip, RET);
    assert_eq!(r.cpu.rsp(), SP + 8);
    assert_eq!(r.cpu.reg(Reg::Rax), 0);
    assert_eq!(call(&mut r, "_initterm", &[DATA, DATA]), 0);
}

#[test]
fn emulated_libraries_hand_out_thunks() {
    let mut r = rig();
    assert_eq!(call(&mut r, "GetModuleHandleW", &[0]), 0x1_4000_0000);
    put_bytes(&mut r, DATA, b"User32\0");
    let h = call(&mut r, "LoadLibraryA", &[DATA]);
    match &r.asked {
        HostRequest::Library { name, load } => {
            assert_eq!(name, "User32");
            assert!(*load);
        }
        _ => panic!("the library was not asked for"),
    }
    assert_ne!(h, 0);
    assert_eq!(call(&mut r, "GetModuleHandleA", &[DATA]), h);
    put_bytes(&mut r, DATA + 0x100, b"MessageBoxW\0");
    let p = call(&mut r, "GetProcAddress", &[h, DATA + 0x100]);
    assert_eq!(r.os.symbol_for_thunk(p).as_deref(), Some("user32.dll!MessageBoxW"));
    assert_eq!(call(&mut r, "GetProcAddress", &[h, DATA + 0x100]), p);
    assert_eq!(call(&mut r, "GetProcAddress", &[0x77, DATA + 0x100]), 0);
    assert_eq!(call(&mut r, "FreeLibrary", &[h]), 1);
    assert_eq!(call(&mut r, "FreeLibrary", &[0x77]), 0);
    put_bytes(&mut r, DATA, b"plugin\0");
    assert_eq!(call(&mut r, "LoadLibraryA", &[DATA]), 0);
    let host = Some("kernelbase.dll".to_string());
    put_bytes(&mut r, DATA, b"api-ms-win-core-synch-l1-2-0.dll\0");
    let k = call_host(
        &mut r,
        "LoadLibraryA",
        &[DATA],
        HostReply::Library { host, loaded: None },
    );
    put_bytes(&mut r, DATA, b"KERNELBASE.DLL\0");
    assert_eq!(call(&mut r, "GetModuleHandleA", &[DATA]), k);
}

#[test]
fn unsupported_symbols_return_zero() {
    let mut r = rig();
    assert_eq!(call(&mut r, "NoSuchFunction", &[1, 2, 3]), 0);
    assert!(matches!(Api::classify("x.dll", "NoSuchFunction"), Api::Unsupported { argc: 0, .. }));
    assert!(matches!(Api::classify("x.dll", "AppendMenuW"), Api::Unsupported { argc: 4, .. }));
    assert_eq!(call(&mut r, "LoadCursorW", &[0, 0]), FAKE_HANDLE);
}

/// The count of a symbol is that of its service, where it has one.
#[test]
fn symbols_have_one_count() {
    let cases = [
        ("GetModuleFileNameW", 3),
        ("FillRect", 3),
        ("DrawTextW", 5),
        ("UpdateWindow", 1),
        ("LoadIconW", 2),
        ("GetModuleHandleExW", 3),
        ("SetFileTime", 4),
        ("CreateThread", 6),
        ("wsprintfW", 0),
        ("CreateProcessW", 10),
        ("CreateWindowExW", 12),
    ];
    for (name, argc) in cases {
        assert_eq!(win32_argc("x.dll", name), Some(argc), "{name}");
        assert_eq!(Api::classify("x.dll", name).argc(), argc, "{name}");
    }
    assert_eq!(win32_argc("comctl32.dll", "#ord17"), Some(0));
    assert_eq!(win32_argc("other.dll", "#ord17"), None);
    assert_eq!(win32_argc("msvcrt.dll", "malloc"), None);
    assert_eq!(win32_argc("x.dll", "NoSuchFunction"), None);
}

/// In 32-bit code the callee takes its arguments off the stack, unless it belongs to
/// the C runtime.
#[test]
fn callees_clean_the_32_bit_stack() {
    let mut r = rig_with(WinConfig { is_64bit: false, ..WinConfig::default() });
    for (name, argc) in [("GetStdHandle", 1u64), ("CreateThread", 6), ("GetWindowTextW", 3), ("strlen", 0), ("GetACP", 0)] {
        let addr = r.os.resolve_import("x.dll", &ImportSymbol::Named(name.to_string()), None);
        r.cpu.set_rsp(SP);
        r.mem.write_u32(SP, RET as u32).unwrap();
        r.mem.write_u32(SP + 4, DATA as u32).unwrap();
        assert_eq!(serve(&mut r, addr, HostReply::Nothing), Exit::Continue);
        assert_eq!(r.cpu.rip, RET);
        assert_eq!(r.cpu.rsp(), SP + 4 + 4 * argc, "{name}");
    }
}

#[test]
fn code_that_is_no_thunk_is_executed() {
    let mut r = rig();
    assert!(matches!(r.os.intercept(0x1234, &mut r.cpu, &r.mem), Step::Pass));
}

// ---- files ------------------------------------------------------------------

#[test]
fn files_go_through_the_host() {
    let mut r = sandboxed();
    put_wide(&mut r, DATA, "C:\\dir\\..\\a.txt");
    let h = call_host(
        &mut r,
        "CreateFileW",
        &[DATA, 0x4000_0000, 0, 0, 2, 0, 0],
        HostReply::Opened { existed: false, is_dir: false },
    );
    match &r.asked {
        HostRequest::Open { path, plan } => {
            assert_eq!(path.as_slice(), ["C", "dir", "a.txt"]);
            assert_eq!(
                *plan,
                OpenPlan { write: true, create: true, create_new: false, truncate: true }
            );
        }
        _ => panic!("no file was asked for"),
    }
    assert_eq!(h, 0x1000);

    put_bytes(&mut r, DATA, b"data");
    let n = call_host(&mut r, "WriteFile", &[h, DATA, 4, DATA + 8, 0], HostReply::Count(3));
    assert_eq!(n, 1);
    assert_eq!(r.mem.read_u32(DATA + 8).unwrap(), 3);
    match &r.asked {
        HostRequest::Write { handle, data, .. } => {
            assert_eq!(*handle, h);
            assert_eq!(data.as_slice(), b"data");
        }
        _ => panic!("nothing was written"),
    }
    assert!(r.os.captured_stdout().is_empty());

    let got = HostReply::Data(b"xyz".to_vec());
    assert_eq!(call_host(&mut r, "ReadFile", &[h, DATA + 0x20, 2, DATA + 8, 0], got), 1);
    assert_eq!(r.mem.read_u32(DATA + 8).unwrap(), 2);
    assert_eq!(r.mem.read(DATA + 0x20, 3).unwrap(), b"xy\0".to_vec());

    let size = HostReply::Stat { size: 0x2_0000_0007, pos: 0 };
    assert_eq!(call_host(&mut r, "GetFileSize", &[h, DATA + 8], size), 7);
    assert_eq!(r.mem.read_u32(DATA + 8).unwrap(), 2);

    let minus = -3i32 as u32 as u64;
    assert_eq!(call_host(&mut r, "SetFilePointer", &[h, minus, 0, 2], HostReply::Count(9)), 9);
    assert!(matches!(r.asked, HostRequest::SeekTo { seek: Seek::End(-3), .. }));
    assert_eq!(call(&mut r, "SetFilePointer", &[0x99, 0, 0, 0]), 0xFFFF_FFFF);

    assert_eq!(call(&mut r, "CloseHandle", &[h]), 1);
    assert!(matches!(r.asked, HostRequest::Close { handle } if handle == h));
    assert_eq!(call(&mut r, "ReadFile", &[h, DATA, 4, DATA + 8, 0]), 1);
    assert!(matches!(r.asked, HostRequest::Nothing));
    assert_eq!(r.mem.read_u32(DATA + 8).unwrap(), 0);
}

#[test]
fn files_that_cannot_be_opened() {
    let mut r = sandboxed();
    put_wide(&mut r, DATA, "C:\\none");
    assert_eq!(call(&mut r, "CreateFileW", &[DATA, 0, 0, 0, 3, 0, 0]), 0xFFFF_FFFF);
    assert_eq!(call(&mut r, "GetLastError", &[]), 2);
    let mut r = rig();
    put_wide(&mut r, DATA, "C:\\none");
    assert_eq!(call(&mut r, "CreateFileW", &[DATA, 0, 0, 0, 3, 0, 0]), 0xFFFF_FFFF);
    assert!(matches!(r.asked, HostRequest::Nothing));
    assert_eq!(call(&mut r, "GetLastError", &[]), 0);
}

#[test]
fn paths_go_through_the_host() {
    let mut r = sandboxed();
    put_wide(&mut r, DATA, "C:\\sub");
    assert_eq!(call_host(&mut r, "CreateDirectoryW", &[DATA, 0], HostReply::Done), 1);
    assert!(matches!(&r.asked, HostRequest::MakeDir { path } if path.len() == 2));
    assert_eq!(call(&mut r, "DeleteFileW", &[DATA]), 0);
    assert!(matches!(&r.asked, HostRequest::Remove { .. }));
    let dir = HostReply::Attributes { is_dir: true };
    assert_eq!(call_host(&mut r, "GetFileAttributesW", &[DATA], dir), 0x10);
    let file = HostReply::Attributes { is_dir: false };
    assert_eq!(call_host(&mut r, "GetFileAttributesW", &[DATA], file), 0x80);
    assert_eq!(call(&mut r, "GetFileAttributesW", &[DATA]), 0xFFFF_FFFF);
}

#[test]
fn temporary_files_are_numbered() {
    let mut r = sandboxed();
    put_wide(&mut r, DATA, "C:\\Temp");
    put_wide(&mut r, DATA + 0x100, "setup");
    assert_eq!(call(&mut r, "GetTempFileNameW", &[DATA, DATA + 0x100, 0, DATA + 0x200]), 1);
    assert_eq!(get_wide(&r, DATA + 0x200), "C:\\Temp\\set1.TMP");
    assert!(matches!(&r.asked, HostRequest::Touch { path } if path[2] == "set1.TMP"));
    assert_eq!(call(&mut r, "GetTempFileNameW", &[DATA, DATA + 0x100, 0x1ABCD, DATA + 0x200]), 0x1ABCD);
    assert_eq!(get_wide(&r, DATA + 0x200), "C:\\Temp\\setabcd.TMP");
    assert_eq!(call(&mut r, "GetTempFileNameW", &[DATA, DATA + 0x100, 0, DATA + 0x200]), 2);
    assert_eq!(call(&mut r, "GetTempPathW", &[100, DATA]), 8);
    assert_eq!(get_wide(&r, DATA), "C:\\Temp\\");
    assert_eq!(call(&mut r, "GetSystemDirectoryW", &[DATA, 5]), 4);
    assert_eq!(get_wide(&r, DATA), "C:\\W");
    assert_eq!(call(&mut r, "GetModuleFileNameW", &[0, DATA, 100]), 14);
    assert_eq!(get_wide(&r, DATA), "C:\\program.exe");
}

#[test]
fn moves_and_copies() {
    let mut r = sandboxed();
    match r.os.copy_request("C:\\a", "D:\\b", true) {
        HostRequest::Copy { from, to, fail_if_there } => {
            assert_eq!(from.as_slice(), ["C", "a"]);
            assert_eq!(to.as_slice(), ["D", "b"]);
            assert!(fail_if_there);
        }
        _ => panic!("no copy was asked for"),
    }
    assert!(matches!(r.os.move_request("C:\\a", "D:\\b"), HostRequest::Move { .. }));
    assert!(r.os.move_file(&HostReply::Done));
    assert!(!r.os.copy_file(&HostReply::Exists));
    assert_eq!(r.os.last_error, ERROR_FILE_EXISTS);
    assert!(!r.os.move_file(&HostReply::Nothing));
    assert_eq!(r.os.last_error, ERROR_FILE_NOT_FOUND);
    let mut r = rig();
    assert!(matches!(r.os.move_request("C:\\a", "D:\\b"), HostRequest::Nothing));
    assert!(!r.os.move_file(&HostReply::Done));
}

// ---- dialogs and messages ---------------------------------------------------

const DLGPROC: u64 = 0x50_0000;

#[test]
fn a_dialog_without_a_window_is_confirmed() {
    let mut r = rig();
    start(&mut r, "DialogBoxParamW", &[0, 101, 0, DLGPROC, 0x77], HostReply::Nothing);
    assert_eq!(r.cpu.rip, DLGPROC);
    assert_eq!(r.cpu.reg(Reg::Rcx), HWND_DIALOG);
    assert_eq!(r.cpu.reg(Reg::Rdx), 0x110);
    assert_eq!(r.cpu.reg(Reg::R9), 0x77);
    callback_returns(&mut r, HostReply::Nothing);
    assert_eq!(r.cpu.rip, DLGPROC);
    assert_eq!(r.cpu.reg(Reg::Rdx), 0x111);
    assert_eq!(r.cpu.reg(Reg::R8), 1);
    callback_returns(&mut r, HostReply::Nothing);
    assert_eq!(r.cpu.rip, RET);
    assert_eq!(r.cpu.rsp(), SP + 8);
    assert_eq!(r.cpu.reg(Reg::Rax), 1);
}

#[test]
fn a_modal_dialog_is_driven_by_its_user() {
    let mut r = rig();
    r.os.set_gui(true, vec![101]);
    start(&mut r, "DialogBoxParamW", &[0, 101, 0, DLGPROC, 0], HostReply::Nothing);
    assert_eq!(r.cpu.reg(Reg::Rdx), 0x110);
    callback_returns(&mut r, HostReply::Event(GuiEvent::Command(5)));
    assert!(matches!(r.asked, HostRequest::Event { wait: true }));
    assert_eq!(r.cpu.rip, DLGPROC);
    assert_eq!(r.cpu.reg(Reg::R8), 5);
    r.os.dialog.result = Some(9);
    callback_returns(&mut r, HostReply::Nothing);
    assert_eq!(r.cpu.rip, RET);
    assert_eq!(r.cpu.reg(Reg::Rax), 9);

    start(&mut r, "DialogBoxParamW", &[0, 101, 0, DLGPROC, 0], HostReply::Nothing);
    callback_returns(&mut r, HostReply::Event(GuiEvent::Close));
    assert_eq!(r.cpu.rip, RET);
    assert_eq!(r.cpu.reg(Reg::Rax), 2);
}

#[test]
fn controls_keep_their_text() {
    let mut r = rig();
    put_wide(&mut r, DATA, "text");
    assert_eq!(call(&mut r, "SetDlgItemTextW", &[HWND_DIALOG, 7, DATA]), 1);
    assert!(matches!(
        r.os.ui.take_effects().as_slice(),
        [Effect::SetText { id: 7, text }] if text == "text"
    ));
    assert_eq!(call(&mut r, "GetDlgItemTextW", &[HWND_DIALOG, 7, DATA + 0x100, 3]), 2);
    assert_eq!(get_wide(&r, DATA + 0x100), "te");
    let w = call(&mut r, "GetDlgItem", &[HWND_DIALOG, 7]);
    assert_eq!(w, HWND_CONTROL | 7);
    assert_eq!(call(&mut r, "SendMessageW", &[w, 0x0E, 0, 0]), 4);
    put_wide(&mut r, DATA, "other");
    assert_eq!(call(&mut r, "SetWindowTextW", &[w, DATA]), 1);
    assert_eq!(call(&mut r, "SendMessageW", &[w, 0x0D, 100, DATA + 0x100]), 5);
    assert_eq!(get_wide(&r, DATA + 0x100), "other");
    r.os.ui.note_edit(7, "mine".encode_utf16().collect());
    assert_eq!(call(&mut r, "GetDlgItemTextW", &[HWND_DIALOG, 7, DATA + 0x100, 100]), 4);
    assert_eq!(get_wide(&r, DATA + 0x100), "mine");
    assert_eq!(call(&mut r, "GetWindowTextW", &[w, DATA + 0x100, 100]), 5);
    assert_eq!(call(&mut r, "SendMessageW", &[1, 0x0E, 0, 0]), 0);
}

#[test]
fn progress_bars_report_their_state() {
    let mut r = rig();
    let w = HWND_CONTROL | 3;
    assert_eq!(call(&mut r, "SendMessageW", &[w, 0x401, 0, 0x0032_000A]), 0);
    assert_eq!(call(&mut r, "SendMessageW", &[w, 0x402, 20, 0]), 0);
    assert_eq!(call(&mut r, "SendMessageW", &[w, 0x403, 5, 0]), 20);
    assert_eq!(call(&mut r, "SendMessageW", &[w, 0x406, 4, 4]), 0);
    let e = r.os.ui.take_effects();
    assert!(matches!(e[0], Effect::Progress { id: 3, min: 10, max: 50, pos: 0 }));
    assert!(matches!(e[1], Effect::Progress { id: 3, min: 10, max: 50, pos: 20 }));
    assert!(matches!(e[2], Effect::Progress { id: 3, min: 10, max: 50, pos: 25 }));
    assert!(matches!(e[3], Effect::Progress { id: 3, min: 4, max: 5, pos: 25 }));
}

#[test]
fn a_loop_that_nobody_feeds_ends() {
    let mut r = rig();
    for _ in 0..8 {
        assert_eq!(call(&mut r, "GetMessageW", &[DATA, 0, 0, 0]), 1);
        assert_eq!(r.mem.read_u64(DATA).unwrap(), HWND_DIALOG);
        assert_eq!(r.mem.read_u32(DATA + 8).unwrap(), 0);
    }
    assert_eq!(call(&mut r, "GetMessageW", &[DATA, 0, 0, 0]), 0);
    assert_eq!(call(&mut r, "PeekMessageW", &[DATA, 0, 0, 0, 1]), 0);
}

#[test]
fn a_quit_comes_once() {
    let mut r = rig();
    r.os.msg_pumps = 1;
    call(&mut r, "PostQuitMessage", &[6]);
    assert_eq!(call(&mut r, "PeekMessageW", &[DATA, 0, 0, 0, 0]), 1);
    assert_eq!(call(&mut r, "GetMessageW", &[DATA, 0, 0, 0]), 0);
    assert_eq!(r.mem.read_u32(DATA + 8).unwrap(), 0x12);
    assert_eq!(r.mem.read_u64(DATA + 16).unwrap(), 6);
    assert_eq!(call(&mut r, "GetMessageW", &[DATA, 0, 0, 0]), 1);
}

#[test]
fn a_modeless_dialog_gets_its_commands() {
    let mut r = rig();
    r.os.set_gui(true, vec![101]);
    start(&mut r, "CreateDialogParamW", &[0, 101, 0, DLGPROC, 0], HostReply::Nothing);
    callback_returns(&mut r, HostReply::Nothing);
    assert_eq!(r.cpu.reg(Reg::Rax), HWND_DIALOG);
    let e = start(
        &mut r,
        "GetMessageW",
        &[DATA, 0, 0, 0],
        HostReply::Event(GuiEvent::Command(12)),
    );
    assert_eq!(e, Exit::Continue);
    assert!(matches!(r.asked, HostRequest::Event { wait: true }));
    assert_eq!(r.cpu.rip, DLGPROC);
    assert_eq!(r.cpu.reg(Reg::R8), 12);
    callback_returns(&mut r, HostReply::Nothing);
    assert_eq!(r.cpu.reg(Reg::Rax), 1);
    let close = HostReply::Event(GuiEvent::Close);
    assert_eq!(call_host(&mut r, "PeekMessageW", &[DATA, 0, 0, 0, 1], close), 0);
    assert_eq!(call(&mut r, "GetMessageW", &[DATA, 0, 0, 0]), 0);
}

#[test]
fn objects_of_other_kinds_are_not_created() {
    let mut r = rig();
    r.mem.write_u64(DATA, 7).unwrap();
    assert_eq!(call(&mut r, "CoCreateInstance", &[0, 0, 0, 0, DATA]), 0x8004_0154);
    assert_eq!(r.mem.read_u64(DATA).unwrap(), 0);
}

// ---- windows and drawing ----------------------------------------------------

const WNDPROC: u64 = 0x60_0000;

fn window(r: &mut Rig, class: u64, wndproc: u64, name: &str) -> u64 {
    put_wide(r, DATA + 0x800, name);
    r.mem.write_u64(class + 8, wndproc).unwrap();
    r.mem.write_u64(class + 64, DATA + 0x800).unwrap();
    assert_eq!(call(r, "RegisterClassW", &[class]), 0xC0DE);
    put_wide(r, DATA + 0x900, "Title");
    let args = [0, DATA + 0x800, DATA + 0x900, 0, 1, 2, 300, 200, 0, 0, 0, 0x99];
    start(r, "CreateWindowExW", &args, HostReply::Nothing);
    if r.cpu.rip == RET {
        return r.cpu.reg(Reg::Rax);
    }
    assert_eq!(r.cpu.rip, wndproc);
    assert_eq!(r.cpu.reg(Reg::Rdx), 1);
    assert_eq!(r.mem.read_u64(r.cpu.reg(Reg::R9)).unwrap(), 0x99);
    callback_returns(r, HostReply::Nothing);
    r.cpu.reg(Reg::Rax)
}

#[test]
fn windows_are_distinct_and_get_their_own_messages() {
    let mut r = rig();
    r.os.set_gui(true, Vec::new());
    let a = window(&mut r, DATA, WNDPROC, "first");
    let b = window(&mut r, DATA + 0x100, WNDPROC + 0x100, "second");
    assert_eq!(a, HWND_CUSTOM);
    assert_ne!(a, b);
    let e = r.os.ui.take_effects();
    assert!(matches!(
        &e[0],
        Effect::OpenWindow { title, width: 300, height: 200 } if title == "Title"
    ));

    for (h, p) in [(a, WNDPROC), (b, WNDPROC + 0x100)] {
        r.mem.write_u64(DATA + 0x400, h).unwrap();
        r.mem.write_u32(DATA + 0x408, 0x200).unwrap();
        r.mem.write_u64(DATA + 0x410, 11).unwrap();
        r.mem.write_u64(DATA + 0x418, 12).unwrap();
        start(&mut r, "DispatchMessageW", &[DATA + 0x400], HostReply::Nothing);
        assert_eq!(r.cpu.rip, p);
        assert_eq!(r.cpu.reg(Reg::Rcx), h);
        assert_eq!(r.cpu.reg(Reg::R8), 11);
        callback_returns(&mut r, HostReply::Nothing);
        assert_eq!(r.cpu.rip, RET);
    }

    put_wide(&mut r, DATA + 0x900, "New");
    assert_eq!(call(&mut r, "SetWindowTextW", &[a, DATA + 0x900]), 1);
    assert_eq!(call(&mut r, "GetWindowTextW", &[a, DATA + 0x400, 100]), 3);
    assert_eq!(call(&mut r, "GetWindowTextW", &[b, DATA + 0x400, 100]), 5);
    assert_eq!(call(&mut r, "GetClientRect", &[a, DATA + 0x400]), 1);
    assert_eq!(r.mem.read_u32(DATA + 0x408).unwrap(), 300);
    assert_eq!(r.mem.read_u32(DATA + 0x40C).unwrap(), 200);
}

#[test]
fn a_window_paints_then_takes_input() {
    let mut r = rig();
    r.os.set_gui(true, Vec::new());
    let h = window(&mut r, DATA, WNDPROC, "c");
    assert_eq!(call(&mut r, "GetMessageW", &[DATA + 0x400, 0, 0, 0]), 1);
    assert!(matches!(r.asked, HostRequest::Nothing));
    assert_eq!(r.mem.read_u64(DATA + 0x400).unwrap(), h);
    assert_eq!(r.mem.read_u32(DATA + 0x408).unwrap(), 0x0F);
    assert_ne!(call(&mut r, "BeginPaint", &[h, DATA + 0x500]), 0);
    assert_eq!(r.mem.read_u32(DATA + 0x514).unwrap(), 300);
    assert_eq!(call(&mut r, "EndPaint", &[h, DATA + 0x500]), 1);
    let click = HostReply::Event(GuiEvent::MouseDown(3, 4));
    assert_eq!(call_host(&mut r, "GetMessageW", &[DATA + 0x400, 0, 0, 0], click), 1);
    assert!(matches!(r.asked, HostRequest::Event { wait: true }));
    assert_eq!(r.mem.read_u32(DATA + 0x408).unwrap(), 0x201);
    assert_eq!(r.mem.read_u64(DATA + 0x418).unwrap(), 0x0004_0003);
    let close = HostReply::Event(GuiEvent::Close);
    assert_eq!(call_host(&mut r, "GetMessageW", &[DATA + 0x400, 0, 0, 0], close), 0);
    assert_eq!(call(&mut r, "DefWindowProcW", &[h, 0x10, 0, 0]), 0);
    assert!(!r.os.ui.open);
    assert_eq!(call(&mut r, "GetMessageW", &[DATA + 0x400, 0, 0, 0]), 0);
}

#[test]
fn a_class_that_is_not_registered_has_a_handle_only() {
    let mut r = rig();
    put_wide(&mut r, DATA, "none");
    let args = [0, DATA, 0, 0, 0, 0, 1, 1, 0, 0, 0, 0];
    assert_eq!(call(&mut r, "CreateWindowExW", &args), FAKE_HANDLE);
}

#[test]
fn drawing_reaches_the_backend() {
    let mut r = rig();
    let brush = call(&mut r, "CreateSolidBrush", &[0x00FF_0000]);
    let pen = call(&mut r, "CreatePen", &[0, 1, 0x0000_00FF]);
    assert_ne!(brush, pen);
    assert_eq!(call(&mut r, "SelectObject", &[0, pen]), 0);
    assert_eq!(call(&mut r, "SelectObject", &[0, brush]), 0);
    assert_eq!(call(&mut r, "SelectObject", &[0, pen]), pen);
    for (i, v) in [1u32, 2, 11, 22].iter().enumerate() {
        r.mem.write_u32(DATA + 4 * i as u64, *v).unwrap();
    }
    assert_eq!(call(&mut r, "FillRect", &[0, DATA, brush]), 1);
    assert_eq!(call(&mut r, "MoveToEx", &[0, 5, 6, 0]), 1);
    assert_eq!(call(&mut r, "LineTo", &[0, 7, 8]), 1);
    assert_eq!(call(&mut r, "SetPixel", &[0, 9, 10, 0x0000_FF00]), 0xFF00);
    assert_eq!(call(&mut r, "SetTextColor", &[0, 0x0000_00FF]), 0);
    assert_eq!(call(&mut r, "SetTextColor", &[0, 0]), 0x00FF_0000);
    put_wide(&mut r, DATA + 0x100, "abc");
    assert_eq!(call(&mut r, "TextOutW", &[0, 1, 2, DATA + 0x100, 2]), 1);
    assert_eq!(call(&mut r, "Rectangle", &[0, 0, 0, 4, 5]), 1);
    let e = r.os.ui.take_effects();
    assert!(matches!(
        e[0],
        Effect::Draw(DrawOp::FillRect { x: 1, y: 2, w: 10, h: 20, color: 0x0000_00FF })
    ));
    assert!(matches!(
        e[1],
        Effect::Draw(DrawOp::Line { x0: 5, y0: 6, x1: 7, y1: 8, color: 0x00FF_0000 })
    ));
    assert!(matches!(e[2], Effect::Draw(DrawOp::Pixel { x: 9, y: 10, color: 0x0000_FF00 })));
    assert!(matches!(&e[3], Effect::Draw(DrawOp::Text { text, color: 0, .. }) if text == "ab"));
    assert!(matches!(
        e[4],
        Effect::Draw(DrawOp::FillRect { w: 4, h: 5, color: 0x0000_00FF, .. })
    ));
    assert!(matches!(
        e[5],
        Effect::Draw(DrawOp::FrameRect { w: 4, h: 5, color: 0x00FF_0000, .. })
    ));
}
