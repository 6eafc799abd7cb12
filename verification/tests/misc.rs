use exemu_os::config::WinConfig;
use exemu_os::cpu::{CpuState, Reg};
use exemu_os::env::default_environment;
use exemu_os::fs::FileTable;
use exemu_os::gdi::{colorref_to_rgb, union_rect, Gdi, Rect};
use exemu_os::gstr::{read_astr, read_wstr, write_astr};
use exemu_os::heap::Heap;
use exemu_os::host::{FindEntry, HostRequest, Listing, Times};
use exemu_os::mem::{MapError, Perm, VirtualMemory};
use exemu_os::msg::vkey_to_char;
use exemu_os::path::{full_path_name, glob_matches, host_parts, split_pattern, strip_nt_prefix};
use exemu_os::text::{decode_utf16_lossy, encode_utf16, eq_ignore_case};
use exemu_os::time::{filetime_of, systemtime_fields, unix_time};
use exemu_os::vm::VmState;

const DATA: u64 = 0x20_0000;

fn memory() -> VirtualMemory {
    let mut mem = VirtualMemory::new();
    mem.map_fixed(DATA, 0x4000, Perm::rw()).unwrap();
    mem
}

// ---- memory -----------------------------------------------------------------

#[test]
fn regions_do_not_overlap() {
    let mut mem = memory();
    assert_eq!(mem.map_fixed(DATA + 0x3000, 0x2000, Perm::rw()), Err(MapError::Overlap));
    mem.map_fixed(DATA + 0x4000, 0x1000, Perm { read: true, write: false, execute: false }).unwrap();
    assert!(mem.write_u8(DATA + 0x4000, 1).is_err());
    assert_eq!(mem.read_u8(DATA + 0x4000).unwrap(), 0);
    assert!(mem.read(DATA + 0x3fff, 2).is_err(), "no access spans two regions");
    mem.unmap(DATA).unwrap();
    assert_eq!(mem.read_u8(DATA).unwrap_err().addr, DATA);
    assert_eq!(mem.unmap(DATA), Err(MapError::NotMapped));
}

#[test]
fn words_are_little_endian() {
    let mut mem = memory();
    mem.write_u64(DATA, 0x1122_3344_5566_7788).unwrap();
    assert_eq!(mem.read_u8(DATA).unwrap(), 0x88);
    assert_eq!(mem.read_u16(DATA + 1).unwrap(), 0x6677);
    assert_eq!(mem.read_u32(DATA + 4).unwrap(), 0x1122_3344);
}

#[test]
fn reservations_are_reported() {
    let mut mem = memory();
    let mut vm = VmState::new(0x4000_0000);
    let a = vm.alloc_region(&mut mem, 0, 0x1800, 0x3000, 4).unwrap();
    let b = vm.alloc_region(&mut mem, 0, 1, 0x2000, 4).unwrap();
    assert_eq!(a, 0x4000_0000);
    assert_eq!(b, 0x4001_0000);
    let i = vm.query(&mem, a + 0x10);
    assert_eq!((i.base, i.alloc_base, i.region_size), (a, a, 0x2000));
    assert_eq!((i.state, i.protect), (0x1000, 4));
    assert_eq!(vm.query(&mem, b).state, 0x2000);
    assert_eq!(vm.protect_region(a, 2), 4);
    assert_eq!(vm.query(&mem, a).protect, 2);
    mem.write_u8(a, 7).unwrap();
    vm.free_region(&mut mem, a, 0x8000);
    assert!(mem.read_u8(a).is_err());
    assert_eq!(vm.query(&mem, a).state, 0x1_0000);
}

#[test]
fn heaps_hand_out_aligned_blocks() {
    let mut h = Heap::new(0x1000, 0x40);
    let a = h.allocate(1).unwrap();
    let b = h.allocate(0x10).unwrap();
    assert_eq!((a % 16, b % 16), (0, 0));
    assert!(b > a);
    assert_eq!(h.block_size(b), Some(0x10));
    assert_eq!(h.allocate(0x100), None);
}

// ---- texts and paths --------------------------------------------------------

#[test]
fn texts_round_trip() {
    let s = "a\u{e9}\u{1F600}";
    assert_eq!(decode_utf16_lossy(&encode_utf16(s)), s);
    assert_eq!(decode_utf16_lossy(&vec![0xD800, 0x41]), "\u{FFFD}A");
    assert!(eq_ignore_case("AbC", "aBc"));
    assert!(!eq_ignore_case("AbC", "aBcd"));
    let mut mem = memory();
    assert_eq!(write_astr(&mut mem, DATA, "h\u{e9}", 10).unwrap(), 3);
    assert_eq!(read_astr(&mem, DATA).unwrap(), "h\u{e9}");
    mem.write(DATA, &vec![0x41, 0xff, 0x42, 0]).unwrap();
    assert_eq!(read_astr(&mem, DATA).unwrap(), "A\u{FFFD}B");
    mem.write(DATA, &vec![0x41, 0, 0x42, 0, 0, 0]).unwrap();
    assert_eq!(read_wstr(&mem, DATA).unwrap(), "AB");
    assert_eq!(read_wstr(&mem, 0).unwrap(), "");
}

#[test]
fn guest_paths_stay_in_the_sandbox() {
    assert_eq!(host_parts("C:\\a\\..\\..\\b/./c").as_slice(), ["C", "a", "b", "c"]);
    assert_eq!(host_parts("\\\\?\\D:\\x").as_slice(), ["D", "x"]);
    assert!(host_parts("..\\..").is_empty());
    assert_eq!(full_path_name("a/b"), "C:\\a\\b");
    assert_eq!(full_path_name("\\a"), "C:\\a");
    assert_eq!(full_path_name("D:x"), "D:x");
    assert_eq!(strip_nt_prefix("\\??\\C:\\x"), "C:\\x");
    assert_eq!(split_pattern("C:\\d\\*.txt"), ("C:\\d".to_string(), "*.txt".to_string()));
    assert_eq!(split_pattern("*"), (String::new(), "*".to_string()));
}

#[test]
fn patterns_ignore_case() {
    assert!(glob_matches("*.TXT", "a.txt"));
    assert!(glob_matches("a?c", "AbC"));
    assert!(!glob_matches("a?c", "ac"));
    assert!(glob_matches("*", "anything"));
    assert!(glob_matches("*.*", "noext"));
}

fn entry(name: &str, is_dir: bool, size: u64) -> FindEntry {
    FindEntry { name: name.to_string(), is_dir, size, ctime: 1, atime: 2, mtime: 3 }
}

#[test]
fn searches_walk_a_directory() {
    let mut mem = memory();
    let mut files = FileTable::new();
    let (mut next, mut error) = (0x1000u64, 0u32);
    assert!(matches!(
        FileTable::find_request("C:\\d\\*", true),
        HostRequest::List { path } if path.as_slice() == ["C", "d"]
    ));
    let t = Times { ctime: 0, atime: 0, mtime: 0 };
    let listing = Listing {
        here: t,
        parent: t,
        entries: vec![entry("b.txt", false, 5), entry("A", true, 0)],
    };
    let h = files
        .find_first_file(&mut next, &mut error, &mut mem, "C:\\d\\*", Some(&listing), DATA, true)
        .unwrap();
    assert_eq!(h, 0x1000);
    let mut names = vec![read_wstr(&mem, DATA + 44).unwrap()];
    while files.find_next_file(&mut next, &mut error, &mut mem, h, DATA).unwrap() == 1 {
        names.push(read_wstr(&mem, DATA + 44).unwrap());
    }
    assert_eq!(error, 18);
    assert_eq!(names, [".", "..", "A", "b.txt"]);
    assert_eq!(mem.read_u32(DATA + 32).unwrap(), 5);
    assert_eq!(files.find_close(h), 1);
    let none = Listing { here: t, parent: t, entries: Vec::new() };
    let h = files
        .find_first_file(&mut next, &mut error, &mut mem, "C:\\d\\x", Some(&none), DATA, true)
        .unwrap();
    assert_eq!((h, error), (0xFFFF_FFFF, 2));
}

// ---- environment and time ---------------------------------------------------

#[test]
fn environment_names_ignore_case() {
    let mut e = default_environment();
    assert_eq!(e.env_get("PATHext").map(|s| s.as_str()), Some(".COM;.EXE;.BAT;.CMD;.VBS;.JS"));
    e.env_set("Mine", Some("1".to_string()));
    assert_eq!(e.env_get("MINE").map(|s| s.as_str()), Some("1"));
    assert_eq!(e.expand_env("<%mine%|%none%|100%>"), "<1|%none%|100%>");
    e.env_set("mine", None);
    assert!(e.env_get("Mine").is_none());
    let block = e.env_block_ansi();
    assert!(block.ends_with(b"windir=C:\\Windows\0\0"));
}

#[test]
fn filetimes_lead_back_to_unix_times() {
    assert_eq!(unix_time(filetime_of(951_827_696, 789_000_100)), (false, 951_827_696, 789_000_100));
    assert_eq!(unix_time(filetime_of(7, 99)), (false, 7, 0));
    assert_eq!(unix_time(0), (true, 11_644_473_600, 0));
    assert_eq!(unix_time(116_444_735_999_999_999), (true, 0, 100));
}

/// A region may be larger than a signed 32-bit number counts: only what is there already
/// stands in its way.
#[test]
fn large_regions_are_asked_for() {
    let mut mem = VirtualMemory::new();
    mem.map_fixed(0x1_0000_0000, 0x1000, Perm::rw()).unwrap();
    assert_eq!(mem.map_fixed(0x8000_0000, 0x8000_1000, Perm::rw()), Err(MapError::Overlap));
    assert_eq!(mem.map_fixed(0x8000_0000, u64::MAX, Perm::rw()), Err(MapError::BadRange));
}

#[test]
fn times_break_into_fields() {
    assert_eq!(filetime_of(0, 0), 116_444_736_000_000_000);
    assert_eq!(filetime_of(1, 200), 116_444_736_010_000_002);
    assert_eq!(systemtime_fields(0), [1601, 1, 1, 1, 0, 0, 0, 0]);
    let leap = filetime_of(951_827_696, 789_000_000);
    assert_eq!(systemtime_fields(leap), [2000, 2, 2, 29, 12, 34, 56, 789]);
}

// ---- drawing ----------------------------------------------------------------

#[test]
fn colors_swap_their_ends() {
    assert_eq!(colorref_to_rgb(0x0011_2233), 0x0033_2211);
    let u = union_rect(Rect { a: 1, b: 5, c: 3, d: 6 }, Rect { a: 2, b: 2, c: 9, d: 4 });
    assert_eq!((u.a, u.b, u.c, u.d), (1, 2, 9, 6));
    assert_eq!(colorref_to_rgb(colorref_to_rgb(0xFF12_3456)), 0x0012_3456);
}

#[test]
fn saved_contexts_are_restored() {
    let mut g = Gdi::new();
    g.set_text_color(0xFF);
    assert_eq!(g.save_dc(), 1);
    g.set_text_color(0);
    assert_eq!(g.save_dc(), 2);
    assert_eq!(g.restore_dc(1), 1);
    assert_eq!(g.dc.text_color, 0x00FF_0000);
    assert_eq!(g.restore_dc(1), 0);
    assert_eq!(g.restore_dc(-1), 0);
}

#[test]
fn keys_have_characters() {
    assert_eq!(vkey_to_char(0x41), Some(0x61));
    assert_eq!(vkey_to_char(0x35), Some(0x35));
    assert_eq!(vkey_to_char(0x70), None);
}

#[test]
fn defaults_of_the_configuration() {
    let c = WinConfig::default();
    assert_eq!(c.api_base, 0x0000_7EFF_0000_0000);
    assert_eq!(c.module_path_w, "C:\\program.exe");
    assert!(c.is_64bit && c.echo && !c.trace);
    assert!(c.sandbox.is_empty());
    let mut cpu = CpuState::default();
    cpu.set_reg(Reg::R15, 7);
    assert_eq!(cpu.gpr[15], 7);
}
