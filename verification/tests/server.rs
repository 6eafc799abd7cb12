use exemu_os::config::WinConfig;
use exemu_os::cpu::CpuState;
use exemu_os::mem::{Perm, VirtualMemory};
use exemu_os::ntreg::{STATUS_INVALID_HANDLE, STATUS_INVALID_PARAMETER, STATUS_SUCCESS};
use exemu_os::os::WinOs;
use exemu_os::sched::MAIN_TID;
use exemu_os::server::{
    CLOSE_HANDLE, CREATE_EVENT_INITIAL, CREATE_EVENT_MANUAL, DATA, DATA_COUNT, DUP_SRC_HANDLE,
    REPLY_ERROR, REQ_CLOSE_HANDLE, REQ_CREATE_EVENT, REQ_DUP_HANDLE, REQ_SELECT, SELECT_TIMEOUT,
    SELECT_WAIT, SERVER_PROTOCOL_VERSION, STATUS_TIMEOUT,
};
use exemu_os::ssdt::STATUS_NOT_IMPLEMENTED;
use exemu_os::sync::{KObject, ObjectTable};

const TIMEOUT_INFINITE: u64 = 0x7fff_ffff_ffff_ffff;
const OP: u64 = 0;
const HANDLES: u64 = 4;

fn os64() -> WinOs {
    WinOs::new(WinConfig { is_64bit: true, echo: false, ..WinConfig::default() })
}

fn memory(size: u64) -> VirtualMemory {
    let mut mem = VirtualMemory::new();
    mem.map_fixed(0x5_0000, size, Perm::rw()).unwrap();
    mem
}

fn make_req(mem: &mut VirtualMemory, req: u64, opcode: u32) {
    mem.write_u32(req, opcode).unwrap();
}

fn call(os: &mut WinOs, mem: &mut VirtualMemory, req: u64) -> u64 {
    os.wine_server_call(req, &mut CpuState::new(), mem).unwrap()
}

fn make_select(mem: &mut VirtualMemory, sel: u64, sel_op: u64, handle: u64, timeout: u64) {
    mem.write_u32(sel_op + OP, SELECT_WAIT).unwrap();
    mem.write_u32(sel_op + HANDLES, handle as u32).unwrap();
    make_req(mem, sel, REQ_SELECT);
    mem.write_u64(sel + SELECT_TIMEOUT, timeout).unwrap();
    mem.write_u32(sel + DATA_COUNT, 1).unwrap();
    mem.write_u64(sel + DATA, sel_op).unwrap();
    mem.write_u32(sel + DATA + 8, (HANDLES + 4) as u32).unwrap();
}

#[test]
fn protocol_version_is_pinned_930() {
    assert_eq!(SERVER_PROTOCOL_VERSION, 930);
    assert_eq!(SERVER_PROTOCOL_VERSION, 0x3a2);
}

#[test]
fn create_event_through_wine_server_call() {
    let mut mem = memory(0x1000);
    let mut os = os64();
    let req = 0x5_0000;
    make_req(&mut mem, req, REQ_CREATE_EVENT);
    mem.write_u32(req + CREATE_EVENT_MANUAL, 1).unwrap();
    mem.write_u32(req + CREATE_EVENT_INITIAL, 1).unwrap();

    assert_eq!(call(&mut os, &mut mem, req), STATUS_SUCCESS);
    assert_eq!(mem.read_u32(req + REPLY_ERROR).unwrap() as u64, STATUS_SUCCESS);
    let handle = mem.read_u32(req + 8).unwrap() as u64;
    assert!(handle != 0, "a handle was minted");
    assert!(os.objects.is_signaled(handle, MAIN_TID));
}

#[test]
fn close_handle_through_wine_server_call() {
    let mut mem = memory(0x2000);
    let mut os = os64();
    let create = 0x5_0000;
    make_req(&mut mem, create, REQ_CREATE_EVENT);
    call(&mut os, &mut mem, create);
    let handle = mem.read_u32(create + 8).unwrap();

    let close = 0x5_1000;
    make_req(&mut mem, close, REQ_CLOSE_HANDLE);
    mem.write_u32(close + CLOSE_HANDLE, handle).unwrap();
    assert_eq!(call(&mut os, &mut mem, close), STATUS_SUCCESS);
    make_req(&mut mem, close, REQ_CLOSE_HANDLE);
    assert_eq!(call(&mut os, &mut mem, close), STATUS_INVALID_HANDLE);
}

#[test]
fn dup_handle_through_wine_server_call() {
    let mut mem = memory(0x3000);
    let mut os = os64();
    let create = 0x5_0000;
    make_req(&mut mem, create, REQ_CREATE_EVENT);
    mem.write_u32(create + CREATE_EVENT_MANUAL, 1).unwrap();
    mem.write_u32(create + CREATE_EVENT_INITIAL, 1).unwrap();
    call(&mut os, &mut mem, create);
    let h1 = mem.read_u32(create + 8).unwrap();

    let dup = 0x5_1000;
    make_req(&mut mem, dup, REQ_DUP_HANDLE);
    mem.write_u32(dup + DUP_SRC_HANDLE, h1).unwrap();
    assert_eq!(call(&mut os, &mut mem, dup), STATUS_SUCCESS);
    let h2 = mem.read_u32(dup + 8).unwrap();
    assert!(h2 != 0 && h2 != h1, "a distinct duplicate handle");

    let close = 0x5_2000;
    make_req(&mut mem, close, REQ_CLOSE_HANDLE);
    mem.write_u32(close + CLOSE_HANDLE, h1).unwrap();
    call(&mut os, &mut mem, close);
    assert!(
        os.objects.is_signaled(h2 as u64, MAIN_TID),
        "duplicate survives the original's close"
    );

    make_req(&mut mem, dup, REQ_DUP_HANDLE);
    mem.write_u32(dup + DUP_SRC_HANDLE, 0xdead_beef).unwrap();
    assert_eq!(call(&mut os, &mut mem, dup), STATUS_INVALID_HANDLE);
}

/// What happens to an object through one of its handles is seen through the other.
#[test]
fn duplicates_share_their_object() {
    let mut t = ObjectTable::new();
    t.add_object(4, KObject::Event { manual_reset: false, signaled: true });
    assert!(t.duplicate(4, 8));
    assert!(!t.duplicate(12, 16));
    assert!(t.acquire(8, MAIN_TID));
    assert!(!t.is_signaled(4, MAIN_TID));
    t.set(4, KObject::Event { manual_reset: false, signaled: true });
    assert!(t.is_signaled(8, MAIN_TID));
    assert!(t.close(4));
    assert!(t.get(4).is_none());
    assert!(t.is_signaled(8, MAIN_TID) && t.get(8).is_some());
}

#[test]
fn select_on_signaled_event_completes() {
    let mut mem = memory(0x4000);
    let mut os = os64();
    let create = 0x5_0000;
    make_req(&mut mem, create, REQ_CREATE_EVENT);
    mem.write_u32(create + CREATE_EVENT_MANUAL, 1).unwrap();
    mem.write_u32(create + CREATE_EVENT_INITIAL, 1).unwrap();
    call(&mut os, &mut mem, create);
    let handle = mem.read_u32(create + 8).unwrap() as u64;

    let sel = 0x5_1000;
    make_select(&mut mem, sel, 0x5_2000, handle, TIMEOUT_INFINITE);
    assert_eq!(call(&mut os, &mut mem, sel), STATUS_SUCCESS);
    assert_eq!(mem.read_u32(sel + REPLY_ERROR).unwrap() as u64, STATUS_SUCCESS);
    assert!(!os.unix_call_blocked, "did not block on a signaled object");
}

#[test]
fn zero_timeout_select_polls_status_timeout() {
    let mut mem = memory(0x4000);
    let mut os = os64();
    let create = 0x5_0000;
    make_req(&mut mem, create, REQ_CREATE_EVENT);
    call(&mut os, &mut mem, create);
    let handle = mem.read_u32(create + 8).unwrap() as u64;

    let sel = 0x5_1000;
    make_select(&mut mem, sel, 0x5_2000, handle, 0);
    assert_eq!(call(&mut os, &mut mem, sel), STATUS_TIMEOUT);
    assert_eq!(mem.read_u32(sel + REPLY_ERROR).unwrap() as u64, STATUS_TIMEOUT);
    assert!(!os.unix_call_blocked, "a poll never blocks");
}

#[test]
fn select_on_unsignaled_single_thread_does_not_hang() {
    let mut mem = memory(0x4000);
    let mut os = os64();
    let create = 0x5_0000;
    make_req(&mut mem, create, REQ_CREATE_EVENT);
    call(&mut os, &mut mem, create);
    let handle = mem.read_u32(create + 8).unwrap() as u64;

    let sel = 0x5_1000;
    make_select(&mut mem, sel, 0x5_2000, handle, TIMEOUT_INFINITE);
    assert_eq!(call(&mut os, &mut mem, sel), STATUS_SUCCESS);
    assert!(!os.unix_call_blocked);
}

/// A request without an address, of an unknown kind or without its data.
#[test]
fn malformed_requests_are_refused() {
    let mut mem = memory(0x4000);
    let mut os = os64();
    assert_eq!(call(&mut os, &mut mem, 0), STATUS_INVALID_PARAMETER);
    make_req(&mut mem, 0x5_0000, 0x1234);
    assert_eq!(call(&mut os, &mut mem, 0x5_0000), STATUS_NOT_IMPLEMENTED);
    make_req(&mut mem, 0x5_1000, REQ_SELECT);
    assert_eq!(call(&mut os, &mut mem, 0x5_1000), STATUS_INVALID_PARAMETER);
    assert!(os.wine_server_call(0x9_0000, &mut CpuState::new(), &mut mem).is_err());
}
