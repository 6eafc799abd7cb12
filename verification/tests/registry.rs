use exemu_os::cpu::{CpuState, Reg};
use exemu_os::hive::{Registry, REG_DWORD};
use exemu_os::mem::{Perm, VirtualMemory};
use exemu_os::ntreg::map_nt_registry_root;
use exemu_os::reg::{
    ERROR_FILE_NOT_FOUND, ERROR_INVALID_HANDLE, ERROR_MORE_DATA, ERROR_NO_MORE_ITEMS,
    ERROR_SUCCESS,
};

const HKLM: u64 = 0x8000_0002;
const HKCU: u64 = 0x8000_0001;
const SP: u64 = 0x10_8000;
const DATA: u64 = 0x20_0000;

struct Rig {
    reg: Registry,
    next: u64,
    error: u32,
    mem: VirtualMemory,
    cpu: CpuState,
}

fn rig() -> Rig {
    let mut mem = VirtualMemory::new();
    mem.map_fixed(0x10_0000, 0x1_0000, Perm::rw()).unwrap();
    mem.map_fixed(DATA, 0x4000, Perm::rw()).unwrap();
    let mut cpu = CpuState::new();
    cpu.set_rsp(SP);
    let mut reg = Registry::new();
    reg.reg_seed();
    Rig { reg, next: 0x1000, error: 0, mem, cpu }
}

fn args(r: &mut Rig, list: &[u64]) {
    let regs = [Reg::Rcx, Reg::Rdx, Reg::R8, Reg::R9];
    for (i, a) in list.iter().enumerate() {
        if i < 4 {
            r.cpu.set_reg(regs[i], *a);
        } else {
            r.mem.write_u64(SP + 0x28 + (i as u64 - 4) * 8, *a).unwrap();
        }
    }
}

fn put_wide(r: &mut Rig, at: u64, s: &str) {
    for (i, u) in s.encode_utf16().chain([0]).enumerate() {
        r.mem.write_u16(at + 2 * i as u64, u).unwrap();
    }
}

fn put_narrow(r: &mut Rig, at: u64, s: &str) {
    let mut v = s.as_bytes().to_vec();
    v.push(0);
    r.mem.write(at, &v).unwrap();
}

fn create(r: &mut Rig, root: u64, path: &str) -> u64 {
    put_wide(r, DATA, path);
    args(r, &[root, DATA, 0, 0, 0, 0, 0, DATA + 0x100, DATA + 0x108]);
    let e = r.reg.reg_create(&mut r.next, &mut r.error, true, &r.cpu, &mut r.mem, true).unwrap();
    assert_eq!(e, ERROR_SUCCESS);
    r.mem.read_u64(DATA + 0x100).unwrap()
}

fn open(r: &mut Rig, root: u64, path: &str) -> Result<u64, u64> {
    put_wide(r, DATA, path);
    args(r, &[root, DATA, 0, 0, DATA + 0x100]);
    let e = r.reg.reg_open(&mut r.next, &mut r.error, true, &r.cpu, &mut r.mem, true).unwrap();
    if e == ERROR_SUCCESS {
        Ok(r.mem.read_u64(DATA + 0x100).unwrap())
    } else {
        Err(e)
    }
}

fn set(r: &mut Rig, key: u64, name: &str, ty: u32, data: &[u8]) {
    put_wide(r, DATA, name);
    r.mem.write(DATA + 0x800, &data.to_vec()).unwrap();
    args(r, &[key, DATA, 0, ty as u64, DATA + 0x800, data.len() as u64]);
    let e = r.reg.reg_set(&mut r.next, &mut r.error, true, &r.cpu, &mut r.mem, true).unwrap();
    assert_eq!(e, ERROR_SUCCESS);
}

fn query(r: &mut Rig, key: u64, name: &str, room: u32) -> (u64, u32, Vec<u8>) {
    put_wide(r, DATA, name);
    r.mem.write_u32(DATA + 0x110, room).unwrap();
    args(r, &[key, DATA, 0, DATA + 0x118, DATA + 0x900, DATA + 0x110]);
    let e = r.reg.reg_query(&mut r.next, &mut r.error, true, &r.cpu, &mut r.mem, true).unwrap();
    let n = r.mem.read_u32(DATA + 0x110).unwrap();
    let d = if e == ERROR_SUCCESS { r.mem.read(DATA + 0x900, n as usize).unwrap() } else { Vec::new() };
    (e, n, d)
}

#[test]
fn values_are_read_back() {
    let mut r = rig();
    let k = create(&mut r, HKCU, "Software\\Acme");
    assert_eq!(r.mem.read_u32(DATA + 0x108).unwrap(), 1);
    set(&mut r, k, "Path", 3, b"\x01\x02\x03");
    assert_eq!(query(&mut r, k, "Path", 10), (ERROR_SUCCESS, 3, vec![1, 2, 3]));
    assert_eq!(r.mem.read_u32(DATA + 0x118).unwrap(), 3);
    assert_eq!(query(&mut r, k, "Path", 2).0, ERROR_MORE_DATA);
    assert_eq!(query(&mut r, k, "none", 2).0, ERROR_FILE_NOT_FOUND);
    assert_eq!(query(&mut r, 0x77, "none", 2).0, ERROR_INVALID_HANDLE);
    let again = create(&mut r, HKCU, "Software\\Acme");
    assert_eq!(r.mem.read_u32(DATA + 0x108).unwrap(), 2);
    assert_ne!(again, k);
    assert_eq!(query(&mut r, again, "Path", 10).2, vec![1, 2, 3]);
}

#[test]
fn keys_are_there_with_what_is_below_them() {
    let mut r = rig();
    assert!(open(&mut r, HKLM, "SOFTWARE\\Microsoft").is_ok());
    assert_eq!(open(&mut r, HKLM, "SOFTWARE\\None"), Err(ERROR_FILE_NOT_FOUND));
    assert_eq!(open(&mut r, 0x55, "SOFTWARE"), Err(ERROR_INVALID_HANDLE));
    let k = open(&mut r, HKLM, "SOFTWARE\\Microsoft\\Windows NT\\CurrentVersion").unwrap();
    let (e, n, d) = query(&mut r, k, "CurrentMajorVersionNumber", 100);
    assert_eq!((e, n, d), (ERROR_SUCCESS, 4, vec![10, 0, 0, 0]));
    assert_eq!(r.mem.read_u32(DATA + 0x118).unwrap(), REG_DWORD);
    let name: Vec<u8> = "Windows 10 Pro\0".encode_utf16().flat_map(|u| u.to_le_bytes()).collect();
    assert_eq!(query(&mut r, k, "ProductName", 100).2, name);
}

#[test]
fn keys_and_values_are_enumerated_in_order() {
    let mut r = rig();
    let k = create(&mut r, HKCU, "List");
    create(&mut r, HKCU, "List\\beta");
    create(&mut r, HKCU, "List\\Alpha\\deep");
    let mut names = Vec::new();
    for i in 0..3 {
        r.mem.write_u32(DATA + 0x200, 50).unwrap();
        args(&mut r, &[k, i, DATA + 0x300, DATA + 0x200, 0, 0, 0, 0]);
        let e = r
            .reg
            .reg_enum_key(&mut r.next, &mut r.error, true, &r.cpu, &mut r.mem, true)
            .unwrap();
        if e == ERROR_SUCCESS {
            let n = r.mem.read_u32(DATA + 0x200).unwrap() as u64;
            let units: Vec<u16> =
                (0..n).map(|j| r.mem.read_u16(DATA + 0x300 + 2 * j).unwrap()).collect();
            names.push(String::from_utf16(&units).unwrap());
        } else {
            assert_eq!(e, ERROR_NO_MORE_ITEMS);
        }
    }
    assert_eq!(names.len(), 2);
    assert_eq!(names[0].to_lowercase(), "alpha");
    assert_eq!(names[1].to_lowercase(), "beta");
}

#[test]
fn what_is_deleted_is_gone() {
    let mut r = rig();
    let k = create(&mut r, HKCU, "Gone\\sub");
    set(&mut r, k, "v", 1, b"x");
    put_wide(&mut r, DATA, "v");
    args(&mut r, &[k, DATA]);
    let e = r.reg.reg_delete_value(&mut r.next, &mut r.error, true, &r.cpu, &mut r.mem, true);
    assert_eq!(e.unwrap(), ERROR_SUCCESS);
    assert_eq!(query(&mut r, k, "v", 10).0, ERROR_FILE_NOT_FOUND);
    put_wide(&mut r, DATA, "Gone");
    args(&mut r, &[HKCU, DATA]);
    let e = r.reg.reg_delete_key(&mut r.next, &mut r.error, true, &r.cpu, &mut r.mem, true);
    assert_eq!(e.unwrap(), ERROR_SUCCESS);
    assert_eq!(open(&mut r, HKCU, "Gone\\sub"), Err(ERROR_FILE_NOT_FOUND));
}

#[test]
fn narrow_names_mean_the_same_keys() {
    let mut r = rig();
    create(&mut r, HKCU, "Both");
    put_narrow(&mut r, DATA, "Both");
    args(&mut r, &[HKCU, DATA, 0, 0, DATA + 0x100]);
    let e = r.reg.reg_open(&mut r.next, &mut r.error, true, &r.cpu, &mut r.mem, false).unwrap();
    assert_eq!(e, ERROR_SUCCESS);
    let key = r.next - 4;
    args(&mut r, &[key]);
    let e = r.reg.reg_close(&mut r.next, &mut r.error, true, &r.cpu, &mut r.mem).unwrap();
    assert_eq!(e, ERROR_SUCCESS);
}

#[test]
fn native_paths_lead_to_the_same_hive() {
    assert_eq!(
        map_nt_registry_root("\\Registry\\Machine\\Software").as_deref(),
        Some("HKLM\\Software")
    );
    assert_eq!(map_nt_registry_root("\\Device\\X"), None);
}
