use exemu_os::config::WinConfig;
use exemu_os::host::{FindEntry, HostReply};
use exemu_os::loader::{base_name, canonical_name, Export};
use exemu_os::mem::{Perm, VirtualMemory};
use exemu_os::os::WinOs;
use exemu_os::plugin::{Asked, FoundFile, PeImage, PeImport, PluginLoad};
use exemu_os::search::{find_dll_file, TreeSearch};
use exemu_os::section::ImageSection;
use exemu_os::thunk::ImportSymbol;
use exemu_os::wine::{core_library, CoreLoad};

const DLLS: u64 = 0x6000_0000;

fn rig() -> (WinOs, VirtualMemory) {
    let mut mem = VirtualMemory::new();
    mem.map_fixed(DLLS, 0x10_0000, Perm::rwx()).unwrap();
    let cfg = WinConfig { dll_base: DLLS, dll_size: 0x10_0000, ..WinConfig::default() };
    (WinOs::new(cfg), mem)
}

fn image(size: u32, entry: u32, imports: &[(&str, &str, u32)], exports: &[(&str, u32)]) -> PeImage {
    PeImage {
        size_of_image: size,
        entry_rva: entry,
        headers: b"MZ".to_vec(),
        imports: imports
            .iter()
            .map(|(d, s, rva)| PeImport {
                dll: d.to_string(),
                host: None,
                symbol: ImportSymbol::Named(s.to_string()),
                iat_rva: *rva,
            })
            .collect(),
        exports: exports
            .iter()
            .enumerate()
            .map(|(i, (n, rva))| Export {
                name: Some(n.to_string()),
                ordinal: i as u32 + 1,
                rva: *rva,
                forwarder: None,
            })
            .collect(),
    }
}

fn part(rva: u32, data: &[u8]) -> Vec<ImageSection> {
    vec![ImageSection { rva, virtual_size: data.len() as u32, data: data.to_vec() }]
}

/// Drive a load with the files of `disk`.
fn drive(
    os: &mut WinOs,
    mem: &mut VirtualMemory,
    load: &mut PluginLoad,
    mut disk: Vec<(&str, PeImage)>,
) -> Option<u64> {
    loop {
        let (find, relocate, done) = match &load.asked {
            Asked::Find { name, .. } => (Some(name.clone()), false, None),
            Asked::Relocate { .. } => (None, true, None),
            Asked::Resolve => (None, false, None),
            Asked::Finished(r) => (None, false, Some(*r)),
        };
        if let Some(r) = done {
            return r;
        }
        if let Some(name) = find {
            let file = disk.iter().position(|(n, _)| *n == name).map(|i| {
                let (n, image) = disk.remove(i);
                FoundFile { full_path: format!("C:\\{n}"), image }
            });
            load.found(&os.cfg, &mut os.dll, file);
        } else if relocate {
            load.relocated(&mut os.dll, mem, Some(part(0x1000, b"code"))).unwrap();
        } else {
            let frame = load.frames.last().unwrap();
            let guest: Vec<Option<u64>> = frame
                .imports
                .iter()
                .map(|i| match &i.symbol {
                    ImportSymbol::Named(s) => os.dll.export_address(&i.dll, s),
                    ImportSymbol::Ordinal(_) => None,
                })
                .collect();
            load.resolved(&os.cfg, &mut os.dll, &mut os.thunks, mem, &guest, true).unwrap();
        }
    }
}

#[test]
fn names_are_canonical() {
    assert_eq!(base_name("C:\\Temp/Plug"), "plug.dll");
    assert_eq!(base_name("USER32.DLL"), "user32.dll");
    assert_eq!(base_name("C:\\Temp\\A.drv"), "a.drv.dll");
    assert_eq!(base_name("a.drv.dll"), "a.drv.dll");
    assert_eq!(canonical_name("api-x.dll", Some("ucrtbase")), "ucrtbase.dll");
    assert_eq!(canonical_name("b.dll", None), "b.dll");
}

#[test]
fn libraries_are_loaded_behind_what_they_need() {
    let (mut os, mut mem) = rig();
    let mut load = os.begin_library("C:\\a.dll", &HostReply::Nothing).unwrap();
    let disk = vec![
        ("a.dll", image(0x2000, 0x1000, &[("b.dll", "fb", 0x10), ("user32.dll", "X", 0x18)], &[])),
        ("b.dll", image(0x3000, 0x1004, &[("a.dll", "none", 0x20)], &[("fb", 0x1234)])),
    ];
    let a = drive(&mut os, &mut mem, &mut load, disk).unwrap();
    assert_eq!(a, DLLS);
    let b = os.module_base("b.dll").unwrap();
    assert_eq!(b, DLLS + 0x2000);
    assert_eq!(os.module_base("a.dll"), Some(a));
    assert_eq!(mem.read(a, 2).unwrap(), b"MZ".to_vec());
    assert_eq!(mem.read(a + 0x1000, 4).unwrap(), b"code".to_vec());
    assert_eq!(mem.read_u64(a + 0x10).unwrap(), b + 0x1234);
    let x = mem.read_u64(a + 0x18).unwrap();
    assert_eq!(os.symbol_for_thunk(x).as_deref(), Some("user32.dll!X"));
    assert_eq!(os.dll.pending_attach, vec![(b + 0x1004, b), (a + 0x1000, a)]);
    assert!(os.begin_library("A.DLL", &HostReply::Nothing).is_none());
}

/// Two images need the same library, one of them through the other.
#[test]
fn a_shared_library_is_loaded_once() {
    let (mut os, mut mem) = rig();
    let mut load = os.begin_library("a", &HostReply::Nothing).unwrap();
    let disk = vec![
        ("a.dll", image(0x1000, 0x10, &[("b.dll", "fb", 0x20), ("c.dll", "fc", 0x28)], &[])),
        ("b.dll", image(0x1000, 0x14, &[("c.dll", "fc", 0x20)], &[("fb", 0x100)])),
        ("c.dll", image(0x1000, 0x18, &[], &[("fc", 0x200)])),
        ("c.dll", image(0x1000, 0x1C, &[], &[("fc", 0x300)])),
    ];
    let a = drive(&mut os, &mut mem, &mut load, disk).unwrap();
    let b = os.module_base("b.dll").unwrap();
    let c = os.module_base("c.dll").unwrap();
    assert_eq!((a, b, c), (DLLS, DLLS + 0x1000, DLLS + 0x2000));
    assert_eq!(os.dll.pending_attach, vec![(c + 0x18, c), (b + 0x14, b), (a + 0x10, a)]);
    assert_eq!(os.dll.modules.len(), 3);
    assert_eq!(mem.read_u64(a + 0x28).unwrap(), c + 0x200);
    assert_eq!(mem.read_u64(b + 0x20).unwrap(), c + 0x200);
}

#[test]
fn a_missing_library_is_not_loaded() {
    let (mut os, mut mem) = rig();
    let mut load = os.begin_library("none", &HostReply::Nothing).unwrap();
    assert_eq!(drive(&mut os, &mut mem, &mut load, Vec::new()), None);
    assert_eq!(os.module_base("none.dll"), None);
    assert!(os.begin_library("", &HostReply::Nothing).is_none());
    assert!(os.begin_library("kernel32", &HostReply::Nothing).is_none());
}

#[test]
fn a_library_that_is_too_large_is_not_loaded() {
    let (mut os, mut mem) = rig();
    let mut load = os.begin_library("big", &HostReply::Nothing).unwrap();
    let disk = vec![("big.dll", image(0x20_0000, 0, &[], &[]))];
    assert_eq!(drive(&mut os, &mut mem, &mut load, disk), None);
}

#[test]
fn holders_are_counted() {
    let (mut os, mut mem) = rig();
    let mut load = os.begin_library("a", &HostReply::Nothing).unwrap();
    let disk = vec![("a.dll", image(0x2000, 0x1000, &[], &[]))];
    let a = drive(&mut os, &mut mem, &mut load, disk).unwrap();
    os.dll.mark_attached(&vec![(a + 0x1000, a)]);
    assert_eq!(os.dll.library("a.dll"), Some(a));
    assert!(os.dll.free_library(0, a));
    assert!(os.dll.pending_detach.is_empty());
    assert!(os.dll.free_library(0, a));
    assert_eq!(os.dll.pending_detach, vec![(a + 0x1000, a)]);
    assert!(os.dll.take_process_detach_targets().is_empty());
}

#[test]
fn the_core_set_is_loaded_in_order() {
    let (mut os, mut mem) = rig();
    assert!(matches!(
        os.load_wine_core(&mut mem, false, 0x40).unwrap(),
        CoreLoad::Finished(None)
    ));
    let mut step = os.load_wine_core(&mut mem, true, 0x40).unwrap();
    let mut seen = Vec::new();
    let ntdll = loop {
        match step {
            CoreLoad::Finished(r) => break r,
            CoreLoad::Loading { k, ntdll, mut load } => {
                let name = core_library(k);
                seen.push(name);
                let disk = vec![(name, image(0x2000, 0, &[], &[]))];
                assert!(drive(&mut os, &mut mem, &mut load, disk).is_some());
                step = os.core_loaded(&mut mem, k, ntdll, &load, 0x40).unwrap();
            }
        }
    };
    assert_eq!(seen, ["ntdll.dll", "kernelbase.dll", "kernel32.dll", "ucrtbase.dll"]);
    assert_eq!(ntdll, Some(DLLS));
    let thunk = mem.read_u64(DLLS + 0x40).unwrap();
    assert!(os.thunks.lookup(thunk).is_some());
    assert_eq!(os.register_ntdll_unixlib(DLLS), 0);
    assert!(matches!(
        os.load_wine_core(&mut mem, true, 0x40).unwrap(),
        CoreLoad::Finished(Some(DLLS))
    ));
}

#[test]
fn a_broken_core_library_ends_the_set() {
    let (mut os, mut mem) = rig();
    match os.load_wine_core(&mut mem, true, 0x40).unwrap() {
        CoreLoad::Loading { k, ntdll, mut load } => {
            assert_eq!(drive(&mut os, &mut mem, &mut load, Vec::new()), None);
            assert!(matches!(
                os.core_loaded(&mut mem, k, ntdll, &load, 0x40).unwrap(),
                CoreLoad::Finished(None)
            ));
        }
        CoreLoad::Finished(_) => panic!("the set is not there"),
    }
}

#[test]
fn imports_share_thunks() {
    let (mut os, _mem) = rig();
    let s = ImportSymbol::Named("Sleep".to_string());
    let a = os.resolve_import("kernel32.dll", &s, None);
    assert_eq!(os.resolve_import("kernel32.dll", &s, None), a);
    assert_ne!(os.resolve_import("other.dll", &s, None), a);
    assert_eq!(os.resolve_import("api-x.dll", &s, Some("kernel32.dll")), a);
    assert_eq!(os.resolve_import_addr("kernel32.dll", &s, None, Some(0x77)), 0x77);
    let o = os.resolve_import("comctl32.dll", &ImportSymbol::Ordinal(17), None);
    assert_eq!(os.symbol_for_thunk(o).as_deref(), Some("comctl32.dll!#ord17"));
    let (from, to) = os.thunk_range();
    assert!(from <= a && a < to && to == o + 8);
    assert_eq!(os.symbol_for_thunk(a + 4), None);
}

fn entry(name: &str, is_dir: bool) -> FindEntry {
    FindEntry { name: name.to_string(), is_dir, size: 0, ctime: 0, atime: 0, mtime: 0 }
}

#[test]
fn files_are_looked_for_in_order() {
    let places = find_dll_file("C:\\x\\Plug.dll", "plug.dll", "D:\\app\\program.exe");
    assert_eq!(places[0].as_slice(), ["C", "x", "Plug.dll"]);
    assert_eq!(places[1].as_slice(), ["D", "app", "plug.dll"]);
    assert_eq!(places[2].as_slice(), ["C", "plug.dll"]);
    assert_eq!(places[3].as_slice(), ["C", "Temp", "plug.dll"]);

    let mut s = TreeSearch::find_in_tree("plug.dll");
    s.listed(&vec![entry("one", true), entry("two", true), entry("x.dll", false)]);
    assert_eq!(s.pending.len(), 2);
    assert_eq!(s.pending.last().unwrap().path.as_slice(), ["one"]);
    s.listed(&vec![entry("deep", true)]);
    assert_eq!(s.pending.last().unwrap().path.as_slice(), ["one", "deep"]);
    s.listed(&Vec::new());
    assert_eq!(s.pending.last().unwrap().path.as_slice(), ["two"]);
    s.listed(&vec![entry("PLUG.dll", true), entry("Plug.DLL", false)]);
    assert!(s.pending.is_empty());
    assert_eq!(s.found.unwrap().as_slice(), ["two", "Plug.DLL"]);
}

#[test]
fn a_search_goes_no_deeper_than_it_may() {
    let mut s = TreeSearch::find_in_tree("none");
    let mut levels = 0;
    while !s.pending.is_empty() {
        s.listed(&vec![entry("d", true)]);
        levels += 1;
    }
    assert_eq!(levels, 7);
    assert!(s.found.is_none());
}

#[test]
fn loader_lists_start_with_the_image() {
    let mut mem = VirtualMemory::new();
    mem.map_fixed(DLLS, 0x10_0000, Perm::rwx()).unwrap();
    mem.map_fixed(0x7000_0000, 0x1000, Perm::rw()).unwrap();
    let mut os = WinOs::new(WinConfig {
        dll_base: DLLS,
        dll_size: 0x10_0000,
        peb_addr: 0x7000_0000,
        image_name: "program.exe".to_string(),
        ..WinConfig::default()
    });
    os.init_ldr(&mut mem).unwrap();
    let ldr = mem.read_u64(0x7000_0018).unwrap();
    let head = ldr + 0x10;
    let first = mem.read_u64(head).unwrap();
    assert_ne!(first, head);
    assert_eq!(mem.read_u64(first).unwrap(), head, "one module, in a ring");
    assert_eq!(mem.read_u64(first + 0x30).unwrap(), 0x1_4000_0000);
}
