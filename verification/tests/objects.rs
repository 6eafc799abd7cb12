use exemu_os::call::Outcome;
use exemu_os::config::WinConfig;
use exemu_os::cpu::{CpuState, Reg};
use exemu_os::dispatch::Step;
use exemu_os::kobj::{wait_multiple, wait_single, ERROR_ALREADY_EXISTS, ERROR_NAME_NOT_FOUND};
use exemu_os::mem::{Perm, VirtualMemory};
use exemu_os::os::WinOs;
use exemu_os::sched::{ThreadState, TIMESLICE};
use exemu_os::sync::{KObject, SignalOp, SyncKind, WAIT_TIMEOUT};

const SP: u64 = 0x10_8000;
const DATA: u64 = 0x20_0000;

struct Rig {
    os: WinOs,
    mem: VirtualMemory,
    cpu: CpuState,
}

fn rig() -> Rig {
    let mut mem = VirtualMemory::new();
    mem.map_fixed(0x10_0000, 0x1_0000, Perm::rw()).unwrap();
    mem.map_fixed(DATA, 0x1000, Perm::rw()).unwrap();
    let mut cpu = CpuState::new();
    cpu.set_rsp(SP);
    Rig { os: WinOs::new(WinConfig::default()), mem, cpu }
}

fn args(r: &mut Rig, list: &[u64]) {
    let regs = [Reg::Rcx, Reg::Rdx, Reg::R8, Reg::R9];
    let sp = r.cpu.rsp();
    for (i, a) in list.iter().enumerate() {
        if i < 4 {
            r.cpu.set_reg(regs[i], *a);
        } else {
            r.mem.write_u64(sp + 0x28 + (i as u64 - 4) * 8, *a).unwrap();
        }
    }
}

fn create(r: &mut Rig, kind: SyncKind, list: &[u64]) -> u64 {
    args(r, list);
    let tid = r.os.sched.current_tid;
    r.os
        .objects
        .create_sync(
            &mut r.os.next_handle,
            &mut r.os.last_error,
            tid,
            true,
            &r.cpu,
            &r.mem,
            kind,
            false,
            true,
        )
        .unwrap()
}

fn signal(r: &mut Rig, op: SignalOp, list: &[u64]) -> u64 {
    args(r, list);
    let tid = r.os.sched.current_tid;
    r.os.objects.signal_sync(tid, true, &r.cpu, &mut r.mem, op).unwrap()
}

fn wait(r: &mut Rig, h: u64, timeout: u64) -> Outcome {
    args(r, &[h, timeout]);
    wait_single(&mut r.os.sched, &mut r.os.objects, true, &mut r.cpu, &r.mem).unwrap()
}

fn put_wide(r: &mut Rig, at: u64, s: &str) {
    for (i, u) in s.encode_utf16().chain([0]).enumerate() {
        r.mem.write_u16(at + 2 * i as u64, u).unwrap();
    }
}

#[test]
fn auto_reset_events_satisfy_one_wait() {
    let mut r = rig();
    let h = create(&mut r, SyncKind::Event, &[0, 0, 1, 0]);
    assert_eq!(wait(&mut r, h, 0), Outcome::Return(0));
    assert_eq!(wait(&mut r, h, 0), Outcome::Return(WAIT_TIMEOUT));
    assert_eq!(signal(&mut r, SignalOp::SetEvent, &[h]), 1);
    assert_eq!(wait(&mut r, h, 0), Outcome::Return(0));
}

#[test]
fn manual_reset_events_stay() {
    let mut r = rig();
    let h = create(&mut r, SyncKind::Event, &[0, 1, 1, 0]);
    assert_eq!(wait(&mut r, h, 0), Outcome::Return(0));
    assert_eq!(wait(&mut r, h, 0), Outcome::Return(0));
    assert_eq!(signal(&mut r, SignalOp::ResetEvent, &[h]), 1);
    assert_eq!(wait(&mut r, h, 0), Outcome::Return(WAIT_TIMEOUT));
}

#[test]
fn semaphores_count() {
    let mut r = rig();
    let h = create(&mut r, SyncKind::Semaphore, &[0, 1, 3, 0]);
    assert_eq!(wait(&mut r, h, 0), Outcome::Return(0));
    assert_eq!(wait(&mut r, h, 0), Outcome::Return(WAIT_TIMEOUT));
    assert_eq!(signal(&mut r, SignalOp::ReleaseSemaphore, &[h, 2, DATA]), 1);
    assert_eq!(r.mem.read_u32(DATA).unwrap(), 0);
    assert_eq!(signal(&mut r, SignalOp::ReleaseSemaphore, &[h, 2, DATA]), 0);
    assert_eq!(wait(&mut r, h, 0), Outcome::Return(0));
    assert_eq!(wait(&mut r, h, 0), Outcome::Return(0));
    assert_eq!(wait(&mut r, h, 0), Outcome::Return(WAIT_TIMEOUT));
}

#[test]
fn mutexes_have_owners() {
    let mut o = KObject::create(SyncKind::Mutex, false, true, 0, 0, 5);
    assert!(o.is_signaled(5));
    assert!(!o.is_signaled(6));
    assert!(o.acquire(5));
    assert!(!o.acquire(6));
    assert!(!o.signal(SignalOp::ReleaseMutex, 6, 0).0);
    assert!(o.signal(SignalOp::ReleaseMutex, 5, 0).0);
    assert!(!o.is_signaled(6));
    assert!(o.signal(SignalOp::ReleaseMutex, 5, 0).0);
    assert!(o.acquire(6));
}

#[test]
fn names_are_shared() {
    let mut r = rig();
    put_wide(&mut r, DATA, "Global\\ready");
    let h = create(&mut r, SyncKind::Event, &[0, 1, 0, DATA]);
    assert_eq!(r.os.last_error, 0);
    assert_eq!(create(&mut r, SyncKind::Event, &[0, 1, 0, DATA]), h);
    assert_eq!(r.os.last_error, ERROR_ALREADY_EXISTS);
    args(&mut r, &[0, 0, DATA]);
    let o = r.os.objects.open_sync(&mut r.os.last_error, true, &r.cpu, &r.mem, true).unwrap();
    assert_eq!(o, h);
    put_wide(&mut r, DATA, "other");
    let o = r.os.objects.open_sync(&mut r.os.last_error, true, &r.cpu, &r.mem, true).unwrap();
    assert_eq!(o, 0);
    assert_eq!(r.os.last_error, ERROR_NAME_NOT_FOUND);
}

#[test]
fn a_wait_for_all_takes_nothing_until_it_can_take_all() {
    let mut r = rig();
    let a = create(&mut r, SyncKind::Event, &[0, 0, 1, 0]);
    let b = create(&mut r, SyncKind::Event, &[0, 0, 0, 0]);
    r.mem.write_u64(DATA, a).unwrap();
    r.mem.write_u64(DATA + 8, b).unwrap();
    args(&mut r, &[2, DATA, 1, 0]);
    let w = wait_multiple(&mut r.os.sched, &mut r.os.objects, true, &mut r.cpu, &r.mem).unwrap();
    assert_eq!(w, Outcome::Return(WAIT_TIMEOUT));
    assert!(r.os.objects.is_signaled(a, 1));
    args(&mut r, &[2, DATA, 0, 0]);
    let w = wait_multiple(&mut r.os.sched, &mut r.os.objects, true, &mut r.cpu, &r.mem).unwrap();
    assert_eq!(w, Outcome::Return(0));
    signal(&mut r, SignalOp::SetEvent, &[b]);
    args(&mut r, &[2, DATA, 0, 0]);
    let w = wait_multiple(&mut r.os.sched, &mut r.os.objects, true, &mut r.cpu, &r.mem).unwrap();
    assert_eq!(w, Outcome::Return(1));
}

/// The main thread joins another one: it blocks, the other one runs and ends, and
/// then the wait is satisfied.
#[test]
fn threads_run_and_join() {
    let mut r = rig();
    args(&mut r, &[0, 0, 0x70_0000, 0x99, 0, DATA]);
    let h = r.os.create_thread(&r.cpu, &mut r.mem).unwrap();
    assert_eq!(h, 0x1000);
    assert_eq!(r.mem.read_u32(DATA).unwrap(), 0x1002);
    assert_eq!(r.os.sched.threads.len(), 2);

    let main_sp = r.cpu.rsp();
    assert_eq!(wait(&mut r, h, 0xffff_ffff), Outcome::Resume);
    assert_eq!(r.os.sched.current_tid, 0x1002);
    assert_eq!(r.cpu.rip, 0x70_0000);
    assert_eq!(r.cpu.reg(Reg::Rcx), 0x99);
    assert_ne!(r.cpu.rsp(), main_sp);
    let sp = r.cpu.rsp();
    assert_eq!(sp % 16, 8);
    assert_eq!(r.mem.read_u64(sp).unwrap(), r.os.drivers.thread_exit);
    let teb = r.cpu.gs_base;
    assert_eq!(r.mem.read_u64(teb + 0x30).unwrap(), teb);
    assert_eq!(r.mem.read_u64(teb + 0x48).unwrap(), 0x1002);

    r.cpu.set_reg(Reg::Rax, 7);
    assert_eq!(r.os.thread_start_returned(&mut r.cpu, &mut r.mem).unwrap(), Outcome::Resume);
    assert_eq!(r.os.sched.current_tid, 0x1001);
    assert_eq!(r.cpu.rsp(), main_sp);
    assert!(r.mem.read_u64(teb).is_err(), "what the thread owned is gone");
    assert_eq!(wait(&mut r, h, 0xffff_ffff), Outcome::Return(0));
    args(&mut r, &[h, DATA]);
    assert_eq!(r.os.get_exit_code_thread(&r.cpu, &mut r.mem).unwrap(), 1);
    assert_eq!(r.mem.read_u32(DATA).unwrap(), 7);
}

#[test]
fn the_last_thread_takes_the_process_along() {
    let mut r = rig();
    args(&mut r, &[9]);
    assert_eq!(r.os.api_exit_thread(&mut r.cpu, &mut r.mem).unwrap(), Outcome::Exit(9));
}

#[test]
fn suspended_threads_do_not_run() {
    let mut r = rig();
    args(&mut r, &[0, 0, 0x70_0000, 0, 4, 0]);
    let h = r.os.create_thread(&r.cpu, &mut r.mem).unwrap();
    assert_eq!(r.os.sched.threads[1].state, ThreadState::Suspended);
    assert!(!r.os.sched.yield_and_switch(&mut r.cpu, &r.os.objects));
    args(&mut r, &[h]);
    assert_eq!(r.os.suspend_thread(&r.cpu, &r.mem).unwrap(), 1);
    assert_eq!(r.os.resume_thread(&r.cpu, &r.mem).unwrap(), 2);
    assert_eq!(r.os.resume_thread(&r.cpu, &r.mem).unwrap(), 1);
    assert_eq!(r.os.sched.threads[1].state, ThreadState::Ready);
    assert!(r.os.sched.yield_and_switch(&mut r.cpu, &r.os.objects));
    assert_eq!(r.os.sched.current_tid, 0x1002);
}

#[test]
fn a_timeslice_ends() {
    let mut r = rig();
    args(&mut r, &[0, 0, 0x70_0000, 0, 0, 0]);
    r.os.create_thread(&r.cpu, &mut r.mem).unwrap();
    for _ in 0..TIMESLICE - 1 {
        assert!(matches!(r.os.intercept(0x1234, &mut r.cpu, &r.mem), Step::Pass));
    }
    assert!(matches!(r.os.intercept(0x1234, &mut r.cpu, &r.mem), Step::Switched));
    assert_eq!(r.os.sched.current_tid, 0x1002);
}

#[test]
fn slots_belong_to_threads() {
    let mut r = rig();
    let a = r.os.tls_alloc(false);
    let b = r.os.tls_alloc(false);
    let f = r.os.tls_alloc(true);
    assert_eq!((a, b, f), (0, 1, 0));
    assert!(r.os.tls_set(false, a, 5));
    assert_eq!(r.os.tls_get(false, a), 5);
    assert_eq!(r.os.tls_get(false, b), 0);
    assert_eq!(r.os.tls_get(true, f), 0);
    args(&mut r, &[0, 0, 0x70_0000, 0, 0, 0]);
    r.os.create_thread(&r.cpu, &mut r.mem).unwrap();
    assert!(r.os.sched.yield_and_switch(&mut r.cpu, &r.os.objects));
    assert_eq!(r.os.tls_get(false, a), 0);
    assert!(r.os.tls_free(false, a));
    assert_eq!(r.os.tls_alloc(false), a);
    assert_eq!(r.os.alloc_tls_index(), 2);
}

#[test]
fn handles_close_once() {
    let mut r = rig();
    put_wide(&mut r, DATA, "n");
    let h = create(&mut r, SyncKind::Mutex, &[0, 0, DATA]);
    assert!(r.os.close_handle(h));
    assert!(!r.os.close_handle(h));
    let again = create(&mut r, SyncKind::Mutex, &[0, 0, DATA]);
    assert_ne!(again, h);
    assert_eq!(r.os.last_error, 0);
}
