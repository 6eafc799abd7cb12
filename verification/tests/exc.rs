use exemu_os::cpu::{CpuState, FLAG_CF, FLAG_RESERVED_ONE, FLAG_ZF};
use exemu_os::exc::{read_context, write_context};
use exemu_os::mem::{Perm, VirtualMemory};

fn flat() -> VirtualMemory {
    let mut mem = VirtualMemory::new();
    mem.map_fixed(0, 0x1000, Perm::rw()).unwrap();
    mem
}

#[test]
fn context_round_trips_all_state() {
    let mut mem = flat();
    let mut s = CpuState::new();
    for i in 0..16 {
        s.gpr[i] = 0x1000 + i as u64;
        s.xmm[i] = (i as u128) << 64 | 0xdead_beef;
    }
    s.rip = 0x1_4000_1234;
    s.set_rsp(0x8_0000);
    s.rflags = FLAG_RESERVED_ONE | FLAG_CF | FLAG_ZF;

    write_context(&mut mem, 0x100, &s).unwrap();
    let back = read_context(&mem, 0x100).unwrap();

    assert_eq!(back.gpr, s.gpr);
    assert_eq!(back.xmm, s.xmm);
    assert_eq!(back.rip, s.rip);
    assert_eq!(back.rsp(), 0x8_0000);
    assert_eq!(back.rflags & 0xffff_ffff, s.rflags & 0xffff_ffff);
}

/// Handlers find the stack pointer at 0x98 and the instruction pointer at 0xf8.
#[test]
fn context_places_rsp_and_rip_at_abi_offsets() {
    let mut mem = flat();
    let mut s = CpuState::new();
    s.set_rsp(0xAAAA);
    s.rip = 0xBBBB;
    write_context(&mut mem, 0, &s).unwrap();
    assert_eq!(mem.read_u64(0x98).unwrap(), 0xAAAA);
    assert_eq!(mem.read_u64(0xf8).unwrap(), 0xBBBB);
}

#[test]
fn context_outside_of_memory_is_a_fault() {
    let mut mem = flat();
    let s = CpuState::new();
    assert!(write_context(&mut mem, 0xf00, &s).is_err());
    assert!(read_context(&mem, 0x2000).is_err());
}

/// Only the low half of the flags is kept, and the reserved bit is set.
#[test]
fn flags_come_back_legal() {
    let mut mem = flat();
    let mut s = CpuState::new();
    s.rflags = 0xABCD_0000_0000_0000 | FLAG_CF;
    write_context(&mut mem, 0x100, &s).unwrap();
    assert_eq!(read_context(&mem, 0x100).unwrap().rflags, FLAG_CF | FLAG_RESERVED_ONE);
}

/// A record may lie across two regions, as long as each of its fields lies in one.
#[test]
fn a_context_spans_regions() {
    let mut mem = VirtualMemory::new();
    mem.map_fixed(0x1000, 0x1000, Perm::rw()).unwrap();
    mem.map_fixed(0x2000, 0x1000, Perm::rw()).unwrap();
    let mut s = CpuState::new();
    for i in 0..16 {
        s.gpr[i] = 0x2000 + i as u64;
        s.xmm[i] = (i as u128) << 120 | 0xfeed;
    }
    s.rip = 0x77;
    write_context(&mut mem, 0x1e00, &s).unwrap();
    let back = read_context(&mem, 0x1e00).unwrap();
    assert_eq!((back.gpr, back.xmm, back.rip), (s.gpr, s.xmm, s.rip));
    assert!(write_context(&mut mem, 0x1e08, &s).is_err());
    assert!(read_context(&mem, 0x1e08).is_err());
}
