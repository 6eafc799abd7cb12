use exemu_os::call::Exit;
use exemu_os::config::WinConfig;
use exemu_os::cpu::{CpuState, Reg};
use exemu_os::dispatch::Step;
use exemu_os::gdi::HDC_HANDLE;
use exemu_os::host::{FindEntry, HostReply, HostRequest, Listing, NewTimes, Times};
use exemu_os::mem::{Perm, VirtualMemory};
use exemu_os::named::Named;
use exemu_os::os::WinOs;
use exemu_os::sync::WAIT_TIMEOUT;
use exemu_os::thunk::ImportSymbol;
use exemu_os::time::HostClock;
use exemu_os::win::{WM_MOVE, WM_SIZE};

const STACK: u64 = 0x10_0000;
const SP: u64 = 0x10_8000;
const DATA: u64 = 0x20_0000;
const HEAP: u64 = 0x30_0000;
const RET: u64 = 0x40_1234;

struct Rig {
    os: WinOs,
    mem: VirtualMemory,
    cpu: CpuState,
    asked: HostRequest,
}

fn rig_with(cfg: WinConfig) -> Rig {
    let mut mem = VirtualMemory::new();
    mem.map_fixed(STACK, 0x1_0000, Perm::rw()).unwrap();
    mem.map_fixed(DATA, 0x1_0000, Perm::rw()).unwrap();
    mem.map_fixed(HEAP, 0x1_0000, Perm::rw()).unwrap();
    let os = WinOs::new(WinConfig { heap_base: HEAP, heap_size: 0x1_0000, ..cfg });
    Rig { os, mem, cpu: CpuState::new(), asked: HostRequest::Nothing }
}

fn rig() -> Rig {
    rig_with(WinConfig::default())
}

fn sandboxed() -> Rig {
    rig_with(WinConfig { sandbox: "box".to_string(), ..WinConfig::default() })
}

/// Go to the thunk at `addr` and serve its call.
fn serve(r: &mut Rig, addr: u64, host: HostReply) -> Exit {
    r.cpu.rip = addr;
    match r.os.intercept(addr, &mut r.cpu, &r.mem) {
        Step::Serve { thunk, request } => {
            r.asked = request;
            r.os.complete(thunk, &mut r.cpu, &mut r.mem, &host).unwrap()
        }
        _ => panic!("no thunk at {addr:#x}"),
    }
}

fn start(r: &mut Rig, name: &str, args: &[u64], host: HostReply) -> Exit {
    let addr = r.os.resolve_import("x.dll", &ImportSymbol::Named(name.to_string()), None);
    let regs = [Reg::Rcx, Reg::Rdx, Reg::R8, Reg::R9];
    r.cpu.set_rsp(SP);
    r.mem.write_u64(SP, RET).unwrap();
    for (i, a) in args.iter().enumerate() {
        if i < 4 {
            r.cpu.set_reg(regs[i], *a);
        } else {
            r.mem.write_u64(SP + 0x28 + (i as u64 - 4) * 8, *a).unwrap();
        }
    }
    serve(r, addr, host)
}

fn call_host(r: &mut Rig, name: &str, args: &[u64], host: HostReply) -> u64 {
    let e = start(r, name, args, host);
    assert_eq!(e, Exit::Continue);
    assert_eq!(r.cpu.rip, RET, "{name} returned to its caller");
    assert_eq!(r.cpu.rsp(), SP + 8, "{name} took its return address off");
    r.cpu.reg(Reg::Rax)
}

fn call(r: &mut Rig, name: &str, args: &[u64]) -> u64 {
    call_host(r, name, args, HostReply::Nothing)
}

fn put_wide(r: &mut Rig, at: u64, s: &str) {
    let mut a = at;
    for u in s.encode_utf16().chain([0]) {
        r.mem.write_u16(a, u).unwrap();
        a += 2;
    }
}

fn get_wide(r: &Rig, at: u64) -> String {
    let mut v = Vec::new();
    let mut a = at;
    loop {
        let u = r.mem.read_u16(a).unwrap();
        if u == 0 {
            return String::from_utf16(&v).unwrap();
        }
        v.push(u);
        a += 2;
    }
}

fn put_bytes(r: &mut Rig, at: u64, s: &[u8]) {
    r.mem.write(at, &s.to_vec()).unwrap();
}

/// A callback that is in progress returns.
fn callback_returns(r: &mut Rig, host: HostReply) {
    let driver = r.os.drivers.callback;
    let sp = r.cpu.rsp();
    assert_eq!(r.mem.read_u64(sp).unwrap(), driver, "callbacks return to their driver");
    r.cpu.set_rsp(sp + 8);
    assert_eq!(serve(r, driver, host), Exit::Continue);
}

/// A window of a class of its own.
fn window(r: &mut Rig) -> u64 {
    put_wide(r, DATA + 0x800, "Class");
    let class = DATA + 0x900;
    r.mem.write_u64(class + 8, 0x6000).unwrap();
    r.mem.write_u64(class + 64, DATA + 0x800).unwrap();
    assert_ne!(call(r, "RegisterClassW", &[class]), 0);
    put_wide(r, DATA + 0xA00, "Title");
    let args = [0, DATA + 0x800, DATA + 0xA00, 0, 0, 0, 100, 80, 0, 0, 0, 0];
    start(r, "CreateWindowExW", &args, HostReply::Nothing);
    callback_returns(r, HostReply::Nothing);
    r.cpu.reg(Reg::Rax)
}

// ---- names ------------------------------------------------------------------

#[test]
fn names_lead_to_services() {
    assert_eq!(Named::of("CreateThread"), Some(Named::CreateThread { runtime: false }));
    assert_eq!(Named::of("_beginthreadex"), Some(Named::CreateThread { runtime: true }));
    assert_eq!(Named::of("RegQueryValueExA"), Some(Named::RegQuery { wide: false }));
    assert_eq!(Named::of("createthread"), None);
    assert_eq!(Named::of("CreateThread").unwrap().argc(), 6);
    assert_eq!(Named::of("_beginthreadex").unwrap().argc(), 0);
    assert_eq!(Named::of("MoveFileExW").unwrap().argc(), 3);
}

#[test]
fn narrow_calls_pop_their_arguments() {
    let mut r = rig_with(WinConfig { is_64bit: false, ..WinConfig::default() });
    let addr = r.os.resolve_import("u", &ImportSymbol::Named("SetFocus".to_string()), None);
    r.cpu.set_rsp(SP);
    r.mem.write_u32(SP, RET as u32).unwrap();
    r.mem.write_u32(SP + 4, 0x77).unwrap();
    assert_eq!(serve(&mut r, addr, HostReply::Nothing), Exit::Continue);
    assert_eq!(r.cpu.rsp(), SP + 8);
    assert_eq!(r.os.gdi.get_focus(), 0x77);
}

// ---- threads ----------------------------------------------------------------

#[test]
fn a_thread_is_made_run_and_joined() {
    let mut r = rig();
    let h = call(&mut r, "CreateThread", &[0, 0, 0x5000, 0x99, 0, DATA]);
    assert_ne!(h, 0);
    let tid = r.mem.read_u32(DATA).unwrap();
    assert_eq!(call(&mut r, "GetExitCodeThread", &[h, DATA + 8]), 1);
    assert_eq!(r.mem.read_u32(DATA + 8).unwrap(), 259);

    // The wait blocks, and the new thread goes on at its entry.
    assert_eq!(start(&mut r, "WaitForSingleObject", &[h, u32::MAX as u64], HostReply::Nothing), Exit::Continue);
    assert_eq!(r.os.sched.current_tid, tid);
    assert_eq!(r.cpu.rip, 0x5000);
    assert_eq!(r.cpu.reg(Reg::Rcx), 0x99);

    // It ends, and the wait is made again.
    assert_eq!(start(&mut r, "ExitThread", &[7], HostReply::Nothing), Exit::Continue);
    assert_ne!(r.os.sched.current_tid, tid);
    let again = r.cpu.rip;
    assert_eq!(serve(&mut r, again, HostReply::Nothing), Exit::Continue);
    assert_eq!(r.cpu.rip, RET);
    assert_eq!(r.cpu.reg(Reg::Rax), 0);
    assert_eq!(call(&mut r, "GetExitCodeThread", &[h, DATA + 8]), 1);
    assert_eq!(r.mem.read_u32(DATA + 8).unwrap(), 7);
}

#[test]
fn suspensions_are_counted_by_name() {
    let mut r = rig();
    let h = call(&mut r, "CreateThread", &[0, 0, 0x5000, 0, 4, 0]);
    assert_eq!(call(&mut r, "SuspendThread", &[h]), 1);
    assert_eq!(call(&mut r, "ResumeThread", &[h]), 2);
    assert_eq!(call(&mut r, "ResumeThread", &[h]), 1);
    assert_eq!(call(&mut r, "TerminateThread", &[h, 3]), 1);
    assert_eq!(call(&mut r, "GetExitCodeThread", &[h, DATA]), 1);
    assert_eq!(r.mem.read_u32(DATA).unwrap(), 3);
}

#[test]
fn yielding_without_another_thread_returns() {
    let mut r = rig();
    assert_eq!(call(&mut r, "SwitchToThread", &[]), 0);
    assert_eq!(call(&mut r, "SleepEx", &[10, 0]), 0);
}

#[test]
fn slots_are_handed_out_by_name() {
    let mut r = rig();
    let a = call(&mut r, "TlsAlloc", &[]);
    let b = call(&mut r, "TlsAlloc", &[]);
    assert_eq!((a, b), (0, 1));
    assert_eq!(call(&mut r, "FlsAlloc", &[0]), 0);
    assert_eq!(call(&mut r, "TlsSetValue", &[b, 0x1234]), 1);
    assert_eq!(call(&mut r, "TlsGetValue", &[b]), 0x1234);
    assert_eq!(call(&mut r, "FlsGetValue", &[b]), 0);
    assert_eq!(call(&mut r, "TlsFree", &[b]), 1);
    assert_eq!(call(&mut r, "TlsAlloc", &[]), b);
    assert_eq!(call(&mut r, "TlsGetValue", &[b]), 0);
}

#[test]
fn runtime_variables_have_accessors() {
    let mut r = rig_with(WinConfig { cmdline_ptr_a: 0xAAAA, ..WinConfig::default() });
    let mode = call(&mut r, "__p__fmode", &[]);
    assert_ne!(mode, 0);
    assert_eq!(r.mem.read_u64(mode).unwrap(), 0);
    let line = call(&mut r, "__p__acmdln", &[]);
    assert_eq!(r.mem.read_u64(line).unwrap(), 0xAAAA);
    assert_eq!(call(&mut r, "__p__fmode", &[]), mode);
}

// ---- objects ----------------------------------------------------------------

#[test]
fn objects_are_shared_by_name() {
    let mut r = rig();
    put_wide(&mut r, DATA, "gate");
    put_bytes(&mut r, DATA + 0x100, b"gate\0");
    let h = call(&mut r, "CreateEventW", &[0, 0, 0, DATA]);
    assert_eq!(call(&mut r, "OpenEventA", &[0, 0, DATA + 0x100]), h);
    assert_eq!(call(&mut r, "WaitForSingleObject", &[h, 0]), WAIT_TIMEOUT);
    assert_eq!(call(&mut r, "SetEvent", &[h]), 1);
    assert_eq!(call(&mut r, "WaitForSingleObjectEx", &[h, 0, 0]), 0);
    assert_eq!(call(&mut r, "WaitForSingleObject", &[h, 0]), WAIT_TIMEOUT);
    put_wide(&mut r, DATA, "other");
    assert_eq!(call(&mut r, "OpenEventW", &[0, 0, DATA]), 0);
    assert_eq!(r.os.last_error, 2);
}

#[test]
fn several_objects_are_waited_for() {
    let mut r = rig();
    let a = call(&mut r, "CreateEventW", &[0, 1, 0, 0]);
    let s = call(&mut r, "CreateSemaphoreW", &[0, 1, 5, 0]);
    r.mem.write_u64(DATA, a).unwrap();
    r.mem.write_u64(DATA + 8, s).unwrap();
    assert_eq!(call(&mut r, "WaitForMultipleObjects", &[2, DATA, 1, 0]), WAIT_TIMEOUT);
    assert_eq!(call(&mut r, "WaitForMultipleObjects", &[2, DATA, 0, 0]), 1);
    assert_eq!(call(&mut r, "ReleaseSemaphore", &[s, 2, DATA + 0x40]), 1);
    assert_eq!(r.mem.read_u32(DATA + 0x40).unwrap(), 0);
    assert_eq!(call(&mut r, "SetEvent", &[a]), 1);
    assert_eq!(call(&mut r, "WaitForMultipleObjects", &[2, DATA, 1, 0]), 0);
}

// ---- the registry -----------------------------------------------------------

#[test]
fn the_registry_is_reached_by_name() {
    let mut r = rig();
    put_wide(&mut r, DATA, "Software\\Acme");
    let args = [0x8000_0001, DATA, 0, 0, 0, 0, 0, DATA + 0x100, DATA + 0x108];
    assert_eq!(call(&mut r, "RegCreateKeyExW", &args), 0);
    let k = r.mem.read_u64(DATA + 0x100).unwrap();
    put_wide(&mut r, DATA + 0x200, "Version");
    r.mem.write_u32(DATA + 0x300, 41).unwrap();
    assert_eq!(call(&mut r, "RegSetValueExW", &[k, DATA + 0x200, 0, 4, DATA + 0x300, 4]), 0);
    put_bytes(&mut r, DATA + 0x280, b"Version\0");
    r.mem.write_u32(DATA + 0x410, 4).unwrap();
    let args = [k, DATA + 0x280, 0, DATA + 0x400, DATA + 0x408, DATA + 0x410];
    assert_eq!(call(&mut r, "RegQueryValueExA", &args), 0);
    assert_eq!(r.mem.read_u32(DATA + 0x400).unwrap(), 4);
    assert_eq!(r.mem.read_u32(DATA + 0x408).unwrap(), 41);
    let args = [k, 0, 0, 0, DATA + 0x500, 0, 0, DATA + 0x508, 0, 0, 0, 0];
    assert_eq!(call(&mut r, "RegQueryInfoKeyW", &args), 0);
    assert_eq!(r.mem.read_u32(DATA + 0x500).unwrap(), 0);
    assert_eq!(r.mem.read_u32(DATA + 0x508).unwrap(), 1);
    r.mem.write_u32(DATA + 0x610, 20).unwrap();
    let args = [k, 0, DATA + 0x600, DATA + 0x610, 0, DATA + 0x618, 0, 0];
    assert_eq!(call(&mut r, "RegEnumValueW", &args), 0);
    assert_eq!(get_wide(&r, DATA + 0x600), "Version");
    assert_eq!(call(&mut r, "RegEnumValueW", &[k, 1, DATA + 0x600, DATA + 0x610, 0, 0, 0, 0]), 259);
    assert_eq!(call(&mut r, "RegDeleteValueW", &[k, DATA + 0x200]), 0);
    assert_eq!(call(&mut r, "RegDeleteValueW", &[k, DATA + 0x200]), 2);
    assert_eq!(call(&mut r, "RegCloseKey", &[k]), 0);
}

#[test]
fn a_deleted_key_is_gone() {
    assert_eq!(Named::of("RegDeleteKeyW").unwrap().argc(), 2);
    assert_eq!(Named::of("RegDeleteKeyExW").unwrap().argc(), 4);
    let mut r = rig();
    put_wide(&mut r, DATA, "Software\\Acme");
    put_bytes(&mut r, DATA + 0x80, b"Software\\Acme\0");
    for delete in ["RegDeleteKeyW", "RegDeleteKeyExW", "RegDeleteKeyA", "RegDeleteKeyExA"] {
        let args = [0x8000_0001, DATA, 0, 0, 0, 0, 0, DATA + 0x100, DATA + 0x108];
        assert_eq!(call(&mut r, "RegCreateKeyExW", &args), 0);
        let open = [0x8000_0001, DATA, 0, 0, DATA + 0x100];
        assert_eq!(call(&mut r, "RegOpenKeyExW", &open), 0);
        let name = if delete.ends_with('W') { DATA } else { DATA + 0x80 };
        assert_eq!(call(&mut r, delete, &[0x8000_0001, name, 0, 0]), 0);
        assert_eq!(call(&mut r, "RegOpenKeyExW", &open), 2);
    }
}

// ---- windows ----------------------------------------------------------------

#[test]
fn a_window_is_told_where_it_is() {
    let mut r = rig();
    let h = window(&mut r);
    assert_eq!(call(&mut r, "IsWindow", &[h]), 1);
    assert_eq!(call(&mut r, "IsWindow", &[h + 1]), 0);
    assert_eq!(call(&mut r, "MoveWindow", &[h, 5, 6, 30, 40, 1]), 1);
    let m = r.os.sched.msg_next().unwrap();
    assert_eq!((m.hwnd, m.message, m.lparam), (h, WM_MOVE, 0x0006_0005));
    let m = r.os.sched.msg_next().unwrap();
    assert_eq!((m.hwnd, m.message, m.lparam), (h, WM_SIZE, 0x0028_001E));
    assert!(r.os.sched.msg_next().is_none());
    assert_eq!(call(&mut r, "GetWindowRect", &[h, DATA]), 1);
    let edges: Vec<u32> = (0..4).map(|i| r.mem.read_u32(DATA + 4 * i).unwrap()).collect();
    assert_eq!(edges, [5, 6, 35, 46]);

    // A position that stays is not told of, nor is a size.
    assert_eq!(call(&mut r, "SetWindowPos", &[h, 0, 9, 9, 9, 9, 1]), 1);
    assert_eq!(r.os.sched.msg_next().unwrap().message, WM_MOVE);
    assert!(r.os.sched.msg_next().is_none());
    assert_eq!(call(&mut r, "SetWindowPos", &[h, 0, 1, 1, 1, 1, 3]), 1);
    assert!(r.os.sched.msg_next().is_none());
    assert_eq!(call(&mut r, "MoveWindow", &[h + 1, 0, 0, 1, 1, 1]), 0);
}

/// The procedure of the first window is told that it was created; a later window is
/// answered alone.
#[test]
fn the_first_window_is_announced() {
    let mut r = rig();
    let first = window(&mut r);
    assert_eq!(first, 0x00C1_0000);
    let args = [0, DATA + 0x800, DATA + 0xA00, 0, 0, 0, 100, 80, 0, 0, 0, 0];
    let second = call(&mut r, "CreateWindowExW", &args);
    assert_eq!(second, 0x00C1_0010);
    assert_eq!(call(&mut r, "IsWindow", &[second]), 1);
}

#[test]
fn window_words_and_properties() {
    let mut r = rig();
    let h = window(&mut r);
    let user = -21i32 as u32 as u64;
    assert_eq!(call(&mut r, "SetWindowLongPtrW", &[h, user, 0xABCD]), 0);
    assert_eq!(call(&mut r, "GetWindowLongPtrW", &[h, user]), 0xABCD);
    assert_eq!(call(&mut r, "SetWindowLongPtrW", &[h, 16, 7]), 0);
    assert_eq!(call(&mut r, "SetWindowLongPtrA", &[h, 16, 8]), 7);
    put_wide(&mut r, DATA, "prop");
    put_bytes(&mut r, DATA + 0x40, b"prop\0");
    assert_eq!(call(&mut r, "SetPropW", &[h, DATA, 0x55]), 1);
    assert_eq!(call(&mut r, "GetPropA", &[h, DATA + 0x40]), 0x55);
    assert_eq!(call(&mut r, "RemovePropW", &[h, DATA]), 0x55);
    assert_eq!(call(&mut r, "GetPropW", &[h, DATA]), 0);
    assert_eq!(call(&mut r, "GetClassNameW", &[h, DATA + 0x80, 32]), 5);
    assert_eq!(get_wide(&r, DATA + 0x80), "Class");
}

#[test]
fn a_replaced_procedure_gets_the_messages() {
    let mut r = rig();
    let h = window(&mut r);
    assert_eq!(call(&mut r, "SetWindowLongPtrW", &[h, -4i32 as u32 as u64, 0x7000]), 0x6000);
    r.mem.write_u64(DATA, h).unwrap();
    r.mem.write_u32(DATA + 8, 0x0401).unwrap();
    r.mem.write_u64(DATA + 16, 5).unwrap();
    r.mem.write_u64(DATA + 24, 6).unwrap();
    start(&mut r, "DispatchMessageW", &[DATA], HostReply::Nothing);
    assert_eq!(r.cpu.rip, 0x7000);
    assert_eq!(r.cpu.reg(Reg::Rcx), h);
    assert_eq!(r.cpu.reg(Reg::Rdx), 0x0401);
    assert_eq!((r.cpu.reg(Reg::R8), r.cpu.reg(Reg::R9)), (5, 6));
}

#[test]
fn messages_are_posted_by_name() {
    let mut r = rig();
    assert_eq!(call(&mut r, "PostMessageW", &[3, 0x401, 1, 2]), 1);
    let m = r.os.sched.msg_next().unwrap();
    assert_eq!((m.hwnd, m.message, m.wparam, m.lparam), (3, 0x401, 1, 2));
    let me = r.os.sched.current_tid as u64;
    assert_eq!(call(&mut r, "PostThreadMessageW", &[me, 0x402, 1, 2]), 1);
    assert_eq!(r.os.sched.msg_next().unwrap().hwnd, 0);
    assert_eq!(call(&mut r, "PostThreadMessageW", &[me + 99, 0x402, 1, 2]), 0);
    assert_eq!(r.os.last_error, 1444);

    // A key press brings its character.
    r.mem.write_u64(DATA, 9).unwrap();
    r.mem.write_u32(DATA + 8, 0x0100).unwrap();
    r.mem.write_u64(DATA + 16, 0x41).unwrap();
    assert_eq!(call(&mut r, "TranslateMessage", &[DATA]), 1);
    let m = r.os.sched.msg_next().unwrap();
    assert_eq!((m.hwnd, m.message, m.wparam), (9, 0x0102, 'a' as u64));
    r.mem.write_u32(DATA + 8, 0x0200).unwrap();
    assert_eq!(call(&mut r, "TranslateMessage", &[DATA]), 0);
}

#[test]
fn focus_and_capture() {
    let mut r = rig();
    assert_eq!(call(&mut r, "SetFocus", &[5]), 0);
    assert_eq!(call(&mut r, "SetFocus", &[6]), 5);
    assert_eq!(call(&mut r, "GetFocus", &[]), 6);
    assert_eq!(call(&mut r, "SetCapture", &[7]), 0);
    assert_eq!(call(&mut r, "GetCapture", &[]), 7);
    assert_eq!(call(&mut r, "ReleaseCapture", &[]), 1);
    assert_eq!(call(&mut r, "GetCapture", &[]), 0);
    assert_eq!(call(&mut r, "GetKeyState", &[0x41]), 0);
    r.mem.write_u64(DATA, u64::MAX).unwrap();
    assert_eq!(call(&mut r, "GetCursorPos", &[DATA]), 1);
    assert_eq!(r.mem.read_u64(DATA).unwrap(), 0);
}

// ---- painting ---------------------------------------------------------------

#[test]
fn invalid_parts_add_up_until_they_are_valid() {
    let mut r = rig();
    let h = window(&mut r);
    assert_eq!(call(&mut r, "ValidateRect", &[h, 0]), 1);
    assert_eq!(call(&mut r, "GetUpdateRect", &[h, 0, 0]), 0);
    for (k, v) in [1u32, 2, 3, 4].iter().enumerate() {
        r.mem.write_u32(DATA + 4 * k as u64, *v).unwrap();
    }
    assert_eq!(call(&mut r, "InvalidateRect", &[h, DATA, 0]), 1);
    for (k, v) in [2u32, 1, 9, 3].iter().enumerate() {
        r.mem.write_u32(DATA + 4 * k as u64, *v).unwrap();
    }
    assert_eq!(call(&mut r, "InvalidateRect", &[h, DATA, 0]), 1);
    assert_eq!(call(&mut r, "GetUpdateRect", &[h, DATA + 0x40, 0]), 1);
    let part: Vec<u32> = (0..4).map(|i| r.mem.read_u32(DATA + 0x40 + 4 * i).unwrap()).collect();
    assert_eq!(part, [1, 1, 9, 4]);
    assert_eq!(call(&mut r, "GetDC", &[h]), HDC_HANDLE);
}

#[test]
fn fonts_are_read_back() {
    let mut r = rig();
    r.mem.write_u32(DATA, -12i32 as u32).unwrap();
    r.mem.write_u32(DATA + 16, 700).unwrap();
    put_wide(&mut r, DATA + 28, "Arial");
    let f = call(&mut r, "CreateFontIndirectW", &[DATA]);
    assert_ne!(f, 0);
    assert_eq!(call(&mut r, "GetObjectW", &[f, 92, DATA + 0x100]), 92);
    assert_eq!(r.mem.read_u32(DATA + 0x100).unwrap() as i32, -12);
    assert_eq!(r.mem.read_u32(DATA + 0x110).unwrap(), 700);
    assert_eq!(get_wide(&r, DATA + 0x100 + 28), "Arial");
    assert_eq!(call(&mut r, "GetObjectW", &[f + 1, 92, DATA + 0x100]), 0);
}

#[test]
fn contexts_are_saved_by_name() {
    let mut r = rig();
    assert_eq!(call(&mut r, "SetBkColor", &[1, 0x00FF_0000]), 0);
    assert_eq!(call(&mut r, "SaveDC", &[1]), 1);
    assert_eq!(call(&mut r, "SetBkColor", &[1, 0]), 0x0000_00FF);
    assert_eq!(call(&mut r, "SetBkMode", &[1, 1]), 0);
    assert_eq!(call(&mut r, "RestoreDC", &[1, -1i32 as u32 as u64]), 1);
    assert_eq!(call(&mut r, "SetBkMode", &[1, 2]), 0);
    assert_eq!(call(&mut r, "SetBkColor", &[1, 0]), 0x0000_00FF);
    assert_eq!(call(&mut r, "RestoreDC", &[1, 1]), 0);
}

// ---- memory, time, libraries and directories ---------------------------------

#[test]
fn pages_change_their_protection() {
    let mut r = rig();
    let p = call(&mut r, "VirtualAlloc", &[0, 0x1000, 0x3000, 4]);
    assert_eq!(call(&mut r, "VirtualProtect", &[p, 0x1000, 2, DATA]), 1);
    assert_eq!(r.mem.read_u32(DATA).unwrap(), 4);
    assert_eq!(call(&mut r, "VirtualQuery", &[p, DATA + 0x100, 48]), 48);
    assert_eq!(r.mem.read_u64(DATA + 0x100).unwrap(), p);
    assert_eq!(r.mem.read_u32(DATA + 0x124).unwrap(), 2);
}

#[test]
fn dates_are_told() {
    let mut r = rig();
    r.os.set_clock(HostClock { filetime: 0x01DC_0000_0000_0000, ticks: 0 });
    assert_eq!(call(&mut r, "GetSystemTime", &[DATA]), 0);
    let date: Vec<u16> = (0..8).map(|i| r.mem.read_u16(DATA + 2 * i).unwrap()).collect();
    assert_eq!(date[0], 2025);
    assert!(date[1] >= 1 && date[1] <= 12);
    assert_eq!(call(&mut r, "GetLocalTime", &[0]), 0);
}

#[test]
fn the_image_itself_keeps_its_thread_calls() {
    let mut r = rig();
    let base = r.os.cfg.image_base;
    assert_eq!(call(&mut r, "DisableThreadLibraryCalls", &[base]), 1);
    assert_eq!(call(&mut r, "DisableThreadLibraryCalls", &[0x1234]), 0);
}

#[test]
fn libraries_are_asked_for_in_either_width() {
    let mut r = rig();
    put_wide(&mut r, DATA, "user32");
    put_bytes(&mut r, DATA + 0x100, b"user32.dll\0");
    let h = call(&mut r, "LoadLibraryW", &[DATA]);
    assert_ne!(h, 0);
    assert_eq!(call(&mut r, "LoadLibraryExA", &[DATA + 0x100, 0, 0]), h);
    match &r.asked {
        HostRequest::Library { name, load } => assert!(name == "user32.dll" && *load),
        _ => panic!("no library was asked for"),
    }
}

#[test]
fn directories_are_searched_by_name() {
    let mut r = sandboxed();
    let t = Times { ctime: 1, atime: 2, mtime: 3 };
    let file = |n: &str| FindEntry {
        name: n.to_string(),
        is_dir: false,
        size: 5,
        ctime: 1,
        atime: 2,
        mtime: 3,
    };
    let listing = Listing { here: t, parent: t, entries: vec![file("b.txt"), file("a.txt"), file("c.bin")] };
    put_wide(&mut r, DATA, "C:\\dir\\*.TXT");
    let h = call_host(&mut r, "FindFirstFileW", &[DATA, DATA + 0x100], HostReply::Listing(listing));
    match &r.asked {
        HostRequest::List { path } => assert_eq!(path.last().unwrap(), "dir"),
        _ => panic!("no directory was asked for"),
    }
    assert_eq!(get_wide(&r, DATA + 0x100 + 44), "a.txt");
    assert_eq!(call(&mut r, "FindNextFileW", &[h, DATA + 0x100]), 1);
    assert_eq!(get_wide(&r, DATA + 0x100 + 44), "b.txt");
    assert_eq!(call(&mut r, "FindNextFileW", &[h, DATA + 0x100]), 0);
    assert_eq!(r.os.last_error, 18);
    assert_eq!(call(&mut r, "FindClose", &[h]), 1);
    assert_eq!(call(&mut r, "FindFirstFileW", &[DATA, DATA + 0x100]), 0xFFFF_FFFF);
    assert_eq!(r.os.last_error, 2);
}

#[test]
fn files_are_moved_by_name() {
    let mut r = sandboxed();
    put_wide(&mut r, DATA, "C:\\a");
    put_wide(&mut r, DATA + 0x100, "C:\\b");
    assert_eq!(call_host(&mut r, "MoveFileExW", &[DATA, DATA + 0x100, 1], HostReply::Done), 1);
    match &r.asked {
        HostRequest::Move { from, to } => {
            assert_eq!((from.last().unwrap().as_str(), to.last().unwrap().as_str()), ("a", "b"))
        }
        _ => panic!("no move was asked for"),
    }
    assert_eq!(call_host(&mut r, "CopyFileW", &[DATA, DATA + 0x100, 1], HostReply::Exists), 0);
    match &r.asked {
        HostRequest::Copy { fail_if_there, .. } => assert!(*fail_if_there),
        _ => panic!("no copy was asked for"),
    }
    assert_eq!(r.os.last_error, 80);
}

/// The times that are given go to the host; a null pointer leaves a time as it is.
#[test]
fn file_times_are_set_by_name() {
    let mut r = sandboxed();
    assert_eq!(Named::of("SetFileTime").unwrap().argc(), 4);
    put_wide(&mut r, DATA, "C:\\a.txt");
    let args = [DATA, 0xC000_0000, 0, 0, 2, 0, 0];
    let opened = HostReply::Opened { existed: false, is_dir: false };
    let h = call_host(&mut r, "CreateFileW", &args, opened);
    r.mem.write_u64(DATA + 0x100, 116_444_736_000_000_000).unwrap();
    r.mem.write_u64(DATA + 0x108, 0x1122_3344_5566_7788).unwrap();
    let args = [h, DATA + 0x100, 0, DATA + 0x108];
    assert_eq!(call_host(&mut r, "SetFileTime", &args, HostReply::Done), 1);
    match &r.asked {
        HostRequest::SetTimes { handle, times } => {
            assert_eq!(*handle, h);
            let want = NewTimes {
                ctime: Some(116_444_736_000_000_000),
                atime: None,
                mtime: Some(0x1122_3344_5566_7788),
            };
            assert_eq!(*times, want);
        }
        _ => panic!("no times were set"),
    }
    assert_eq!(call(&mut r, "SetFileTime", &args), 0);
    assert_eq!(call_host(&mut r, "SetFileTime", &[h + 4, 0, 0, 0], HostReply::Done), 0);
    assert!(matches!(r.asked, HostRequest::Nothing));
}

#[test]
fn paths_become_absolute() {
    let mut r = rig();
    for (name, full) in [("a/b.txt", "C:\\a\\b.txt"), ("\\x", "C:\\x"), ("D:y", "D:y")] {
        put_wide(&mut r, DATA, name);
        let n = call(&mut r, "GetFullPathNameW", &[DATA, 64, DATA + 0x100, 0]);
        assert_eq!(get_wide(&r, DATA + 0x100), full);
        assert_eq!(n, full.len() as u64);
    }
}
