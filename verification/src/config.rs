//! Where the application placed the parts of a process.

use vstd::prelude::*;

use crate::text::{chars_of, string_of};

verus! {

/// The addresses, sizes and names that the application hands over.
#[derive(Debug, Clone)]
pub struct WinConfig {
    /// Where thunk addresses are handed out from.
    pub api_base: u64,
    /// The heap arena `[heap_base, heap_base + heap_size)`.
    pub heap_base: u64,
    pub heap_size: u64,
    /// Where the main image is mapped.
    pub image_base: u64,
    /// The command line in guest memory, in bytes and in code units.
    pub cmdline_ptr_a: u64,
    pub cmdline_ptr_w: u64,
    /// Whether console output also goes to the host.
    pub echo: bool,
    /// Whether calls are reported to the host.
    pub trace: bool,
    /// Whether the guest is 64-bit code.
    pub is_64bit: bool,
    /// The host directory below which the guest's files lie; empty for none.
    pub sandbox: String,
    /// The guest path of the main image.
    pub module_path_w: String,
    /// The arena for images that are loaded later.
    pub dll_base: u64,
    pub dll_size: u64,
    /// Where fresh reservations are looked for.
    pub valloc_base: u64,
    /// The process environment block; 0 for none.
    pub peb_addr: u64,
    /// The environment block of the main thread; 0 for none.
    pub teb_base: u64,
    /// Where the process environment block keeps its loader data.
    pub peb_ldr_off: u64,
    /// Where it keeps its loader lock; 0 for nowhere.
    pub peb_loaderlock_off: u64,
    /// The size, entry point and name of the main image.
    pub image_size: u64,
    pub image_entry: u64,
    pub image_name: String,
}

impl Default for WinConfig {
    fn default() -> (c: WinConfig)
        ensures
            c.api_base == 0x0000_7EFF_0000_0000,
            c.heap_base == 0x0000_0002_0000_0000,
            c.heap_size == 0x0400_0000,
            c.image_base == 0x1_4000_0000,
            c.cmdline_ptr_a == 0,
            c.cmdline_ptr_w == 0,
            c.echo,
            !c.trace,
            c.is_64bit,
            c.sandbox@ == Seq::<char>::empty(),
            c.module_path_w@ == "C:\\program.exe"@,
            c.dll_base == 0x0000_0006_0000_0000,
            c.dll_size == 0x0800_0000,
            c.valloc_base == 0x0000_0040_0000_0000,
            c.peb_addr == 0,
            c.teb_base == 0,
            c.peb_ldr_off == 0x18,
            c.peb_loaderlock_off == 0x110,
            c.image_size == 0,
            c.image_entry == 0,
            c.image_name@ == Seq::<char>::empty(),
    {
        let path = chars_of("C:\\program.exe");
        let c = WinConfig {
            api_base: 0x0000_7EFF_0000_0000,
            heap_base: 0x0000_0002_0000_0000,
            heap_size: 0x0400_0000,
            image_base: 0x1_4000_0000,
            cmdline_ptr_a: 0,
            cmdline_ptr_w: 0,
            echo: true,
            trace: false,
            is_64bit: true,
            sandbox: String::new(),
            module_path_w: string_of(&path),
            dll_base: 0x0000_0006_0000_0000,
            dll_size: 0x0800_0000,
            valloc_base: 0x0000_0040_0000_0000,
            peb_addr: 0,
            teb_base: 0,
            peb_ldr_off: 0x18,
            peb_loaderlock_off: 0x110,
            image_size: 0,
            image_entry: 0,
            image_name: String::new(),
        };
        assert(c.sandbox@ =~= Seq::<char>::empty());
        assert(c.image_name@ =~= Seq::<char>::empty());
        c
    }
}

} // verus!
