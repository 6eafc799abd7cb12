use exemu_os::call::Exit;
use exemu_os::config::WinConfig;
use exemu_os::cpu::{CpuState, Reg};
use exemu_os::dispatch::Step;
use exemu_os::host::HostReply;
use exemu_os::loader::Export;
use exemu_os::mem::{Perm, VirtualMemory};
use exemu_os::os::{UnwindEntry, WinOs};
use exemu_os::plugin::{Asked, FoundFile, PeImage};

const STACK: u64 = 0x10_0000;
const SP: u64 = 0x10_8000;
const HEAP: u64 = 0x30_0000;
const DLLS: u64 = 0x6000_0000;
const PEB: u64 = 0x7000_0000;
const TEB: u64 = 0x7001_0000;
const ENTRY: u64 = 0x40_1000;

struct Rig {
    os: WinOs,
    mem: VirtualMemory,
    cpu: CpuState,
}

fn rig() -> Rig {
    let mut mem = VirtualMemory::new();
    mem.map_fixed(STACK, 0x1_0000, Perm::rw()).unwrap();
    mem.map_fixed(HEAP, 0x1000, Perm::rw()).unwrap();
    mem.map_fixed(DLLS, 0x10_0000, Perm::rwx()).unwrap();
    mem.map_fixed(PEB, 0x1000, Perm::rw()).unwrap();
    mem.map_fixed(TEB, 0x4000, Perm::rw()).unwrap();
    let os = WinOs::new(WinConfig {
        heap_base: HEAP,
        heap_size: 0x800,
        dll_base: DLLS,
        dll_size: 0x10_0000,
        peb_addr: PEB,
        teb_base: TEB,
        cmdline_ptr_a: HEAP + 0x800,
        cmdline_ptr_w: HEAP + 0x900,
        ..WinConfig::default()
    });
    let mut cpu = CpuState::new();
    cpu.set_rsp(SP);
    Rig { os, mem, cpu }
}

/// The guest function that is running returns to its driver, which is served.
fn come_back(r: &mut Rig) {
    let sp = r.cpu.rsp();
    let to = r.mem.read_u64(sp).unwrap();
    assert_eq!(to, r.os.drivers.callback);
    r.cpu.set_rsp(sp + 8);
    match r.os.intercept(to, &mut r.cpu, &r.mem) {
        Step::Serve { thunk, .. } => {
            let e = r.os.complete(thunk, &mut r.cpu, &mut r.mem, &HostReply::Nothing).unwrap();
            assert_eq!(e, Exit::Continue);
        }
        _ => panic!("no driver"),
    }
}

#[test]
fn a_plain_start_goes_to_the_entry() {
    let mut r = rig();
    r.os.start_process(&mut r.cpu, &mut r.mem, ENTRY).unwrap();
    assert_eq!(r.cpu.rip, ENTRY);
    assert_eq!(r.cpu.rsp(), SP);
}

#[test]
fn start_callbacks_run_before_the_entry() {
    let mut r = rig();
    r.os.set_tls_callbacks(vec![0x5000, 0x6000]);
    r.os.start_process(&mut r.cpu, &mut r.mem, ENTRY).unwrap();
    for cb in [0x5000, 0x6000] {
        assert_eq!(r.cpu.rip, cb);
        assert_eq!(r.cpu.reg(Reg::Rcx), r.os.cfg.image_base);
        assert_eq!(r.cpu.reg(Reg::Rdx), 1);
        come_back(&mut r);
    }
    assert_eq!(r.cpu.rip, ENTRY);
    assert_eq!(r.cpu.rsp(), SP);
}

#[test]
fn runtime_variables_keep_their_cells() {
    let mut r = rig();
    let mode = r.os.crt_global(&mut r.mem, "__p__fmode").unwrap();
    let line = r.os.crt_global(&mut r.mem, "__p__acmdln").unwrap();
    let wide = r.os.crt_global(&mut r.mem, "__p__wcmdln").unwrap();
    assert_ne!(mode, line);
    assert_eq!(r.mem.read_u64(mode).unwrap(), 0);
    assert_eq!(r.mem.read_u64(line).unwrap(), HEAP + 0x800);
    assert_eq!(r.mem.read_u64(wide).unwrap(), HEAP + 0x900);
    assert_eq!(r.os.crt_global(&mut r.mem, "__p__acmdln").unwrap(), line);
}

#[test]
fn the_main_thread_has_its_block() {
    let mut r = rig();
    r.os.seed_main_teb(&mut r.mem, STACK, STACK + 0x1_0000).unwrap();
    assert_eq!(r.mem.read_u64(TEB + 0x08).unwrap(), STACK + 0x1_0000);
    assert_eq!(r.mem.read_u64(TEB + 0x10).unwrap(), STACK);
    assert_eq!(r.mem.read_u64(TEB + 0x30).unwrap(), TEB);
    assert_eq!(r.mem.read_u64(TEB + 0x60).unwrap(), PEB);
}

#[test]
fn the_loader_lock_nests() {
    let mut r = rig();
    r.os.init_ldr(&mut r.mem).unwrap();
    let lock = r.os.dll.lock;
    assert_ne!(lock, 0);
    let tid = r.os.sched.current_tid;
    r.os.dll.enter_loader_lock(true, tid, &mut r.mem).unwrap();
    r.os.dll.enter_loader_lock(true, tid, &mut r.mem).unwrap();
    assert_eq!(r.mem.read_u32(lock + 8).unwrap(), 1);
    assert_eq!(r.mem.read_u32(lock + 12).unwrap(), 2);
    assert_eq!(r.mem.read_u64(lock + 16).unwrap(), tid as u64);
    r.os.dll.leave_loader_lock(true, &mut r.mem).unwrap();
    r.os.dll.leave_loader_lock(true, &mut r.mem).unwrap();
    assert_eq!(r.mem.read_u32(lock + 8).unwrap(), u32::MAX);
    assert_eq!(r.mem.read_u32(lock + 12).unwrap(), 0);
    assert_eq!(r.mem.read_u64(lock + 16).unwrap(), 0);
}

#[test]
fn unwind_entries_are_kept() {
    let mut r = rig();
    assert!(r.os.unwind_table().is_empty());
    let e = UnwindEntry { begin_rva: 1, end_rva: 2, unwind_rva: 3 };
    r.os.set_unwind_table(vec![e]);
    assert_eq!(r.os.unwind_table().len(), 1);
}

#[test]
fn loaded_libraries_are_told_of_the_process() {
    let mut r = rig();
    let mut load = r
        .os
        .begin_library("ntdll_like", &HostReply::Library { host: None, loaded: None })
        .expect("a library that is not emulated is loaded");
    let image = PeImage {
        size_of_image: 0x2000,
        entry_rva: 0x1000,
        headers: b"MZ".to_vec(),
        imports: Vec::new(),
        exports: vec![Export { name: Some("f".to_string()), ordinal: 1, rva: 0x1010, forwarder: None }],
    };
    let mut file = Some(FoundFile { full_path: "C:\\ntdll_like.dll".to_string(), image });
    let base = loop {
        let step = match &load.asked {
            Asked::Finished(b) => break b.expect("the library was loaded"),
            Asked::Find { .. } => 0,
            Asked::Relocate { .. } => 1,
            Asked::Resolve => 2,
        };
        match step {
            0 => load.found(&r.os.cfg, &mut r.os.dll, file.take()),
            1 => load.relocated(&mut r.os.dll, &mut r.mem, Some(Vec::new())).unwrap(),
            _ => load
                .resolved(&r.os.cfg, &mut r.os.dll, &mut r.os.thunks, &mut r.mem, &Vec::new(), true)
                .unwrap(),
        }
    };
    assert_eq!(r.os.dll.export_address("ntdll_like.dll", "f"), Some(base + 0x1010));
    assert_eq!(r.os.ntdll_export("f"), None);
    r.cpu.rip = ENTRY;
    r.mem.write_u64(SP, 0x1234).unwrap();
    r.os.run_pending_dllmains(&mut r.cpu, &mut r.mem).unwrap();
    assert_eq!(r.cpu.rip, base + 0x1000);
    assert_eq!(r.cpu.reg(Reg::Rcx), base);
    assert_eq!(r.cpu.reg(Reg::Rdx), 1);
    come_back(&mut r);
    assert_eq!(r.cpu.rip, 0x1234);
    assert_eq!(r.cpu.rsp(), SP + 8);

    // Each is told once.
    r.os.run_pending_dllmains(&mut r.cpu, &mut r.mem).unwrap();
    assert_eq!(r.cpu.rip, 0x1234);
}
